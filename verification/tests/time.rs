use chrono::{DateTime, FixedOffset};
use reservation::time::{
    convert_to_timestamp, convert_to_utc_time, FixedOffsetTime, Timestamp, UtcTime, MAX_SECONDS,
    MIN_SECONDS,
};

fn offset_time(text: &str) -> FixedOffsetTime {
    let t: DateTime<FixedOffset> = text.parse().unwrap();
    let utc = UtcTime::from_timestamp(t.timestamp(), t.timestamp_subsec_nanos()).unwrap();
    FixedOffsetTime::new(utc, t.offset().local_minus_utc()).unwrap()
}

#[test]
fn from_timestamp_keeps_seconds_and_nanoseconds() {
    let t = UtcTime::from_timestamp(1_671_994_800, 123_456_789).unwrap();
    assert_eq!(t.timestamp(), 1_671_994_800);
    assert_eq!(t.timestamp_subsec_nanos(), 123_456_789);
}

#[test]
fn from_timestamp_accepts_the_first_and_the_last_second() {
    assert!(UtcTime::from_timestamp(MIN_SECONDS, 0).is_some());
    assert!(UtcTime::from_timestamp(MAX_SECONDS, 999_999_999).is_some());
    assert_eq!(MIN_SECONDS, DateTime::<chrono::Utc>::MIN_UTC.timestamp());
    assert_eq!(MAX_SECONDS, DateTime::<chrono::Utc>::MAX_UTC.timestamp());
}

#[test]
fn from_timestamp_refuses_seconds_out_of_range() {
    assert!(UtcTime::from_timestamp(MIN_SECONDS - 1, 0).is_none());
    assert!(UtcTime::from_timestamp(MAX_SECONDS + 1, 0).is_none());
    assert!(UtcTime::from_timestamp(i64::MIN, 0).is_none());
    assert!(UtcTime::from_timestamp(i64::MAX, 0).is_none());
}

#[test]
fn from_timestamp_takes_a_leap_second_only_at_the_end_of_a_minute() {
    assert!(UtcTime::from_timestamp(59, 1_500_000_000).is_some());
    assert!(UtcTime::from_timestamp(-1, 1_999_999_999).is_some());
    assert!(UtcTime::from_timestamp(60, 1_000_000_000).is_none());
    assert!(UtcTime::from_timestamp(0, 1_000_000_000).is_none());
    assert!(UtcTime::from_timestamp(59, 2_000_000_000).is_none());
    assert!(UtcTime::from_timestamp(59, u32::MAX).is_none());
}

#[test]
fn wire_round_trip_keeps_the_instant() {
    let t = UtcTime::from_timestamp(1_671_994_800, 999_999_999).unwrap();
    let wire = convert_to_timestamp(t);
    assert_eq!(wire, Timestamp { seconds: 1_671_994_800, nanos: 999_999_999 });
    assert_eq!(convert_to_utc_time(wire), t);
}

#[test]
fn wire_round_trip_keeps_the_wire_form() {
    let wire = Timestamp { seconds: -62_135_596_800, nanos: 1 };
    assert!(wire.to_utc_time().is_some());
    assert_eq!(convert_to_timestamp(convert_to_utc_time(wire)), wire);
}

#[test]
fn wire_timestamp_with_negative_nanos_is_no_instant() {
    assert!(Timestamp { seconds: 0, nanos: -1 }.to_utc_time().is_none());
    assert!(Timestamp { seconds: MAX_SECONDS + 1, nanos: 0 }.to_utc_time().is_none());
}

#[test]
fn is_before_orders_by_seconds_then_nanoseconds() {
    let a = UtcTime::from_timestamp(10, 5).unwrap();
    let b = UtcTime::from_timestamp(10, 6).unwrap();
    let c = UtcTime::from_timestamp(11, 0).unwrap();
    assert!(a.is_before(&b));
    assert!(b.is_before(&c));
    assert!(a.is_before(&c));
    assert!(!b.is_before(&a));
    assert!(!a.is_before(&a));
}

#[test]
fn fixed_offset_time_reads_the_same_instant_in_utc() {
    let t = offset_time("2022-12-25T12:00:00-0700");
    assert_eq!(t.offset_seconds(), -7 * 3600);
    let utc = t.to_utc();
    assert_eq!(
        DateTime::from_timestamp(utc.timestamp(), utc.timestamp_subsec_nanos())
            .unwrap()
            .to_rfc3339(),
        "2022-12-25T19:00:00+00:00"
    );
}

#[test]
fn fixed_offset_time_refuses_an_offset_of_a_day() {
    let utc = UtcTime::from_timestamp(0, 0).unwrap();
    assert!(FixedOffsetTime::new(utc, 86_400).is_none());
    assert!(FixedOffsetTime::new(utc, -86_400).is_none());
    assert!(FixedOffsetTime::new(utc, 86_399).is_some());
    assert!(FixedOffsetTime::new(utc, -86_399).is_some());
}

#[test]
fn parse_from_str_reads_date_time_and_offset() {
    let t = FixedOffsetTime::parse_from_str("2022-12-26 22:00:00+00", "%Y-%m-%d %H:%M:%S%#z")
        .unwrap();
    assert_eq!(t.to_utc().timestamp(), 1_672_092_000);
    assert_eq!(t.to_utc().timestamp_subsec_nanos(), 0);
    assert_eq!(t.offset_seconds(), 0);
    let t = FixedOffsetTime::parse_from_str("2022-12-26 22:00:00-07", "%Y-%m-%d %H:%M:%S%#z")
        .unwrap();
    assert_eq!(t.to_utc().timestamp(), 1_672_092_000 + 7 * 3600);
    assert_eq!(t.offset_seconds(), -7 * 3600);
}

#[test]
fn parse_from_str_refuses_what_is_no_time() {
    assert!(FixedOffsetTime::parse_from_str("yesterday", "%Y-%m-%d %H:%M:%S%#z").is_none());
    assert!(FixedOffsetTime::parse_from_str("2022-12-26 22:00:00", "%Y-%m-%d %H:%M:%S%#z")
        .is_none());
    assert!(FixedOffsetTime::parse_from_str("2022-13-26 22:00:00+00", "%Y-%m-%d %H:%M:%S%#z")
        .is_none());
}

#[test]
fn from_parts_checks_instant_and_offset() {
    let t = FixedOffsetTime::from_parts(Some((100, 7, 3600))).unwrap();
    assert_eq!(t.to_utc().timestamp(), 100);
    assert_eq!(t.to_utc().timestamp_subsec_nanos(), 7);
    assert_eq!(t.offset_seconds(), 3600);
    assert!(FixedOffsetTime::from_parts(None).is_none());
    assert!(FixedOffsetTime::from_parts(Some((100, 2_000_000_000, 0))).is_none());
    assert!(FixedOffsetTime::from_parts(Some((100, 0, 86_400))).is_none());
}

#[test]
fn parse_from_str_reads_a_leap_second() {
    let leap = FixedOffsetTime::parse_from_str("2016-12-31 23:59:60+00", "%Y-%m-%d %H:%M:%S%#z")
        .unwrap()
        .to_utc();
    assert_eq!(leap.timestamp(), 1_483_228_799);
    assert_eq!(leap.timestamp_subsec_nanos(), 1_000_000_000);
    let before = UtcTime::from_timestamp(1_483_228_799, 999_999_999).unwrap();
    let after = UtcTime::from_timestamp(1_483_228_800, 0).unwrap();
    assert!(before.is_before(&leap));
    assert!(leap.is_before(&after));
    let wire = convert_to_timestamp(leap);
    assert_eq!(wire, Timestamp { seconds: 1_483_228_799, nanos: 1_000_000_000 });
    assert_eq!(convert_to_utc_time(wire), leap);
}

#[test]
fn is_before_agrees_with_chrono() {
    let stamps = [
        (0i64, 0u32),
        (0, 1),
        (59, 999_999_999),
        (59, 1_000_000_000),
        (59, 1_999_999_999),
        (60, 0),
        (-1, 1_500_000_000),
        (-1, 5),
        (MIN_SECONDS, 0),
        (MAX_SECONDS, 999_999_999),
    ];
    for (s1, n1) in stamps {
        for (s2, n2) in stamps {
            let a = UtcTime::from_timestamp(s1, n1).unwrap();
            let b = UtcTime::from_timestamp(s2, n2).unwrap();
            let ca = DateTime::from_timestamp(s1, n1).unwrap();
            let cb = DateTime::from_timestamp(s2, n2).unwrap();
            assert_eq!(a.is_before(&b), ca < cb);
        }
    }
}
