//! Identifiers of reservations.
//!
//! The store names each reservation by a UUID. Callers hold it as text, the
//! store as a number of 128 bits.

use crate::error::{Error, ErrorView};
use vstd::prelude::*;

verus! {

/// The identifier of a reservation, as text.
pub type ReservationId = String;

/// The identifier of a user.
pub type UserId = String;

/// The identifier of a resource.
pub type ResourceId = String;

/// How many characters an identifier has as the store writes it.
pub const ID_LENGTH: usize = 36;

/// The number that `uuid::Uuid::parse_str` reads out of a text, `None` where
/// the text is no UUID.
pub uninterp spec fn uuid_value(text: Seq<char>) -> Option<u128>;

/// The text that a `uuid::Uuid` of the given number is written as.
pub uninterp spec fn uuid_text(value: u128) -> Seq<char>;

/// Calls `uuid::Uuid::parse_str` and gives the UUID as a number. The
/// contract only names the result.
#[verifier::external_body]
fn parse_uuid(text: &str) -> (r: Option<u128>)
    ensures
        r == uuid_value(text@),
{
    uuid::Uuid::parse_str(text).ok().map(|u| u.as_u128())
}

/// Writes the `uuid::Uuid` of the given number with its `to_string`. The
/// contract names the result and says two things of it. It is 36 characters
/// long: `to_string` writes the hyphenated form, 32 digits and four hyphens.
/// And `parse_str` reads it back: the crate parses every form that it
/// writes.
#[verifier::external_body]
fn write_uuid(value: u128) -> (r: String)
    ensures
        r@ == uuid_text(value),
        r@.len() == ID_LENGTH,
        uuid_value(r@) == Some(value),
{
    uuid::Uuid::from_u128(value).to_string()
}

/// The key that a text stands for, once the text has been read: the number
/// where there is one, `InvalidReservationId` with the text where there is
/// none.
pub fn key_or_invalid(id: &str, read: Option<u128>) -> (r: Result<u128, Error>)
    ensures
        match r {
            Ok(key) => read == Some(key),
            Err(e) => read is None && e@ == ErrorView::InvalidReservationId(id@),
        },
{
    match read {
        Some(key) => Ok(key),
        None => Err(Error::InvalidReservationId(id.to_owned())),
    }
}

/// The key of the reservation that `id` names; `InvalidReservationId` where
/// `id` is no well-formed identifier.
pub fn reservation_key(id: &str) -> (r: Result<u128, Error>)
    ensures
        match r {
            Ok(key) => uuid_value(id@) == Some(key),
            Err(e) => uuid_value(id@) is None && e@ == ErrorView::InvalidReservationId(id@),
        },
{
    key_or_invalid(id, parse_uuid(id))
}

/// The identifier, as text, of the reservation with the given key. It is
/// never empty, and read as an identifier it gives the key back.
pub fn reservation_id(key: u128) -> (r: ReservationId)
    ensures
        r@ == uuid_text(key),
        r@.len() == ID_LENGTH,
        uuid_value(r@) == Some(key),
{
    write_uuid(key)
}

} // verus!
