//! UUIDs, as the numbers that they are.

use vstd::prelude::*;

verus! {

/// The UUID that a text names, if it names one.
pub uninterp spec fn uuid_value(s: Seq<char>) -> Option<u128>;

/// Calls `uuid::Uuid::parse_str`, which takes hexadecimal digits with or without hyphens.
/// What comes out depends on the text alone.
#[verifier::external_body]
pub(crate) fn parse_uuid(s: &str) -> (r: Option<u128>)
    ensures
        r == uuid_value(s@),
{
    uuid::Uuid::parse_str(s).ok().map(|u| u.as_u128())
}

/// Whether a UUID is marked as a random one.
pub open spec fn is_random(u: u128) -> bool {
    (u >> 76) & 0xf == 4 && (u >> 62) & 0x3 == 2
}

/// Calls `uuid::Uuid::new_v4`. The version and the variant are those of random UUIDs;
/// the rest is left to chance.
#[verifier::external_body]
pub(crate) fn fresh_uuid() -> (r: u128)
    ensures
        is_random(r),
{
    uuid::Uuid::new_v4().as_u128()
}

/// The UUID that is stored, where that can be read, or else a given one.
pub open spec fn stored_or(stored: Option<Seq<char>>, fresh: u128) -> u128 {
    match stored {
        Some(s) => match uuid_value(s) {
            Some(u) => u,
            None => fresh,
        },
        None => fresh,
    }
}

} // verus!
