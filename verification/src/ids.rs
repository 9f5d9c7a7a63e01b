//! Identifiers: UUIDs as numbers and as text.

use vstd::prelude::*;
use vstd::string::*;
use crate::text::{outcome, Text};

verus! {

/// What the `uuid` crate reads from a text: the 128 bits, or its message on a text that is no UUID.
pub uninterp spec fn uuid_parse(text: Text) -> Result<u128, Text>;

/// What the `uuid` crate writes for a UUID.
pub uninterp spec fn uuid_text(value: u128) -> Text;

/// `text` reads as the UUID `value`.
pub open spec fn names_uuid(text: Text, value: u128) -> bool {
    uuid_parse(text) == Ok::<u128, Text>(value)
}

/// `uuid::Uuid::parse_str`: the result is only named. The message on failure is the error's own
/// text.
#[verifier::external_body]
pub(crate) fn parse_uuid(text: &str) -> (r: Result<u128, String>)
    ensures
        outcome(r) == uuid_parse(text@),
{
    match uuid::Uuid::parse_str(text) {
        Ok(id) => Ok(id.as_u128()),
        Err(e) => Err(e.to_string()),
    }
}

/// `uuid::Uuid::from_u128` with `to_string`: the hyphenated form of 36 characters, which reads back
/// as the same UUID.
#[verifier::external_body]
pub(crate) fn format_uuid(value: u128) -> (r: String)
    ensures
        r@ == uuid_text(value),
        r@.len() == 36,
        names_uuid(r@, value),
{
    uuid::Uuid::from_u128(value).to_string()
}

/// `uuid::Uuid::new_v4`: a random UUID. Nothing is promised of which.
#[verifier::external_body]
pub(crate) fn random_uuid() -> (r: u128) {
    uuid::Uuid::new_v4().as_u128()
}

/// The text of a UUID.
pub fn uuid_to_text(value: u128) -> (r: String)
    ensures
        r@ == uuid_text(value),
        r@.len() == 36,
        names_uuid(r@, value),
{
    format_uuid(value)
}

/// The UUID that a text names.
pub fn text_to_uuid(text: &str) -> (r: Result<u128, String>)
    ensures
        outcome(r) == uuid_parse(text@),
{
    parse_uuid(text)
}

/// `n` random UUIDs.
pub fn fresh_ids(n: usize) -> (r: Vec<u128>)
    ensures
        r@.len() == n,
{
    let mut out: Vec<u128> = Vec::new();
    let mut i: usize = 0;
    while i < n
        invariant
            i <= n,
            out@.len() == i,
        decreases n - i,
    {
        out.push(random_uuid());
        i += 1;
    }
    out
}

} // verus!
