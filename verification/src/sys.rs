//! Calls into the process environment that the rest of the crate treats as
//! opaque value sources: fresh identifiers and the wall clock.

use vstd::prelude::*;

verus! {

/// Relies on uuid::Uuid::new_v4 and its Display impl: a random UUID printed
/// in hyphenated lowercase form, which is always 36 characters long.
/// The value itself is random, so nothing more is assumed of it.
#[verifier::external_body]
pub(crate) fn fresh_uuid() -> (r: String)
    ensures
        r@.len() == 36,
{
    uuid::Uuid::new_v4().to_string()
}

/// Relies on std::time::SystemTime: nanoseconds since the Unix epoch,
/// truncated to 64 bits, or 0 if the clock reads before the epoch.
/// The value depends on the moment of the call, so nothing is assumed of it.
#[verifier::external_body]
pub(crate) fn now_unix_nanos() -> u64 {
    std::time::SystemTime::now()
        .duration_since(std::time::UNIX_EPOCH)
        .map(|d| d.as_nanos() as u64)
        .unwrap_or(0)
}

/// Relies on String's FromIterator impl over char: collecting yields exactly
/// the given characters in order.
#[verifier::external_body]
pub(crate) fn chars_to_string(v: &Vec<char>) -> (r: String)
    ensures
        r@ == v@,
{
    v.iter().collect()
}

} // verus!
