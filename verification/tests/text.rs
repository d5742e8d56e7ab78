use reservation::fields::TextMap;
use reservation::text::{remove_char, same_text, split_once};

#[test]
fn remove_char_takes_out_every_occurrence() {
    assert_eq!(remove_char("\"a\",\"b\"", '"'), "a,b");
    assert_eq!(remove_char("", '"'), "");
    assert_eq!(remove_char("\"\"\"", '"'), "");
    assert_eq!(remove_char("none here", '"'), "none here");
    assert_eq!(remove_char("é\"ü", '"'), "éü");
}

#[test]
fn split_once_splits_at_the_first_occurrence() {
    assert_eq!(split_once("a,b,c", ','), Some(("a", "b,c")));
    assert_eq!(split_once(",", ','), Some(("", "")));
    assert_eq!(split_once("a,", ','), Some(("a", "")));
    assert_eq!(split_once(",b", ','), Some(("", "b")));
    assert_eq!(split_once("é,ü", ','), Some(("é", "ü")));
}

#[test]
fn split_once_finds_nothing_without_the_character() {
    assert_eq!(split_once("abc", ','), None);
    assert_eq!(split_once("", ','), None);
}

#[test]
fn same_text_compares_characters() {
    assert!(same_text("rsvp", "rsvp"));
    assert!(!same_text("rsvp", "rsvp "));
    assert!(same_text("", ""));
}

#[test]
fn text_map_holds_what_was_inserted() {
    let mut m = TextMap::new();
    assert!(m.get("a").is_none());
    m.insert("a".to_string(), "1".to_string());
    m.insert("b".to_string(), "2".to_string());
    assert_eq!(m.get("a").unwrap(), "1");
    assert_eq!(m.get("b").unwrap(), "2");
    assert!(m.get("c").is_none());
}

#[test]
fn text_map_insert_replaces_what_was_under_the_key() {
    let mut m = TextMap::new();
    m.insert("a".to_string(), "1".to_string());
    m.insert("b".to_string(), "2".to_string());
    m.insert("a".to_string(), "3".to_string());
    assert_eq!(m.get("a").unwrap(), "3");
    assert_eq!(m.get("b").unwrap(), "2");
}
