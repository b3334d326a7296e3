//! Identifiers. Readings and users are identified by 128-bit values; the
//! uuid crate supplies fresh random ids and the canonical hyphenated text
//! form, both behind trusted wrappers.

use vstd::prelude::*;

verus! {

/// What uuid's parser makes of a string: the parsed 128-bit value, or
/// nothing; a function of the string alone.
pub uninterp spec fn uuid_of(s: Seq<char>) -> Option<u128>;

/// The canonical hyphenated text of a 128-bit identifier: a function of the
/// identifier alone.
pub uninterp spec fn uuid_text_of(id: u128) -> Seq<char>;

/// Relies on uuid's Uuid::new_v4: a random identifier whose version and
/// variant bits are set by ORing a non-zero constant, so it is never zero.
#[verifier::external_body]
pub fn fresh_id() -> (r: u128)
    ensures
        r != 0,
{
    uuid::Uuid::new_v4().as_u128()
}

/// Relies on uuid's Uuid::parse_str: whether a string parses, and to what
/// value, depends on the string alone.
#[verifier::external_body]
pub fn parse_id(s: &str) -> (r: Option<u128>)
    ensures
        r == uuid_of(s@),
{
    match uuid::Uuid::parse_str(s) {
        Ok(u) => Some(u.as_u128()),
        Err(_) => None,
    }
}

/// Relies on uuid's Display rendering: the hyphenated text of an identifier
/// depends on the identifier alone.
#[verifier::external_body]
pub fn id_text(id: u128) -> (r: String)
    ensures
        r@ == uuid_text_of(id),
{
    uuid::Uuid::from_u128(id).to_string()
}

} // verus!
