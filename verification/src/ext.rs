//! Thin trusted shims over std and the outside crates. Each function wraps a
//! single outside call; everything else in the crate is verified against the
//! contracts stated here.

use vstd::prelude::*;

verus! {

/// Relies on str's `PartialEq`: two string slices compare equal exactly when
/// they hold the same characters.
#[verifier::external_body]
pub fn str_eq(a: &str, b: &str) -> (r: bool)
    ensures
        r == (a@ == b@),
{
    a == b
}

/// Relies on `String::push`: appends one character at the end.
#[verifier::external_body]
pub fn string_push(s: &mut String, c: char)
    ensures
        final(s)@ == old(s)@.push(c),
{
    s.push(c);
}

/// Current time as microseconds since the Unix epoch. Relies on
/// `chrono::Utc::now` and `DateTime::timestamp_micros`; the value depends on
/// the clock, so nothing is promised of it.
#[verifier::external_body]
pub fn now_micros() -> (r: i64) {
    chrono::Utc::now().timestamp_micros()
}


/// The canonical RFC 3339 rendering of a microsecond timestamp; absent when
/// the instant falls outside chrono's representable range.
pub uninterp spec fn rfc3339_of_micros(m: int) -> Option<Seq<char>>;

/// The RFC 3339 rendering of an instant, or the empty text when the instant
/// is unrenderable.
pub open spec fn rfc3339_or_empty(m: int) -> Seq<char> {
    match rfc3339_of_micros(m) {
        Some(s) => s,
        None => Seq::empty(),
    }
}

/// Relies on `chrono::DateTime::from_timestamp_micros` and
/// `DateTime::to_rfc3339`: the rendering depends on the instant alone.
#[verifier::external_body]
pub fn format_rfc3339_micros(m: i64) -> (r: Option<String>)
    ensures
        match rfc3339_of_micros(m as int) {
            Some(s) => r matches Some(out) && out@ == s,
            None => r is None,
        },
{
    chrono::DateTime::<chrono::Utc>::from_timestamp_micros(m).map(|dt| dt.to_rfc3339())
}

/// A freshly drawn version-4 UUID as its 128-bit value. Relies on
/// `uuid::Uuid::new_v4` and `Uuid::as_u128`; the value is random, so nothing
/// is promised of it.
#[verifier::external_body]
pub fn fresh_uuid_u128() -> (r: u128) {
    uuid::Uuid::new_v4().as_u128()
}

/// Whether a character is whitespace in Unicode's sense.
pub uninterp spec fn char_whitespace(c: char) -> bool;

/// Relies on `char::is_whitespace`: a pure predicate on the character.
#[verifier::external_body]
pub fn is_whitespace_char(c: char) -> (r: bool)
    ensures
        r == char_whitespace(c),
{
    c.is_whitespace()
}

/// Whether a character is alphanumeric in Unicode's sense.
pub uninterp spec fn char_alphanumeric(c: char) -> bool;

/// Relies on `char::is_alphanumeric`: a pure predicate on the character.
#[verifier::external_body]
pub fn is_alphanumeric_char(c: char) -> (r: bool)
    ensures
        r == char_alphanumeric(c),
{
    c.is_alphanumeric()
}

/// Whether a character is alphabetic in Unicode's sense.
pub uninterp spec fn char_alphabetic(c: char) -> bool;

/// Relies on `char::is_alphabetic`: a pure predicate on the character.
#[verifier::external_body]
pub fn is_alphabetic_char(c: char) -> (r: bool)
    ensures
        r == char_alphabetic(c),
{
    c.is_alphabetic()
}

} // verus!
