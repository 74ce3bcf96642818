//! Identifiers of views, flows, rows and custom fields.
//!
//! An identifier is a UUID held as its 128-bit value (most significant byte
//! first, as `uuid::Uuid::as_u128` gives it).

use vstd::prelude::*;

verus! {

/// A new random identifier.
///
/// Calls `uuid::Uuid::new_v4` and hands back its 128-bit value. The value is
/// random (all but the version and variant bits), so nothing is promised of
/// it; the call draws on the system's random source and panics when that
/// source fails.
#[verifier::external_body]
pub(crate) fn fresh_id() -> (id: u128) {
    uuid::Uuid::new_v4().as_u128()
}

/// The identifier that `uuid::Uuid::parse_str` reads from a text, if it
/// reads one.
pub uninterp spec fn uuid_reading(text: Seq<char>) -> Option<u128>;

/// Reads an identifier written in one of the UUID text forms (hyphenated,
/// simple, URN or braced).
///
/// Calls `uuid::Uuid::parse_str`: the result is `Some` of the 128-bit value
/// when the text parses and `None` when it is refused. The contract names
/// that outcome [`uuid_reading`] of the text and says no more of which texts
/// parse.
#[verifier::external_body]
pub(crate) fn parse_id(text: &str) -> (r: Option<u128>)
    ensures
        r == uuid_reading(text@),
{
    match uuid::Uuid::parse_str(text) {
        Ok(u) => Some(u.as_u128()),
        Err(_) => None,
    }
}

} // verus!
