//! Source of fresh random identifiers for subscriber ids and
//! confirmation tokens.

use vstd::prelude::*;

verus! {

/// Relies on `uuid::Uuid::new_v4`, which draws a version-4 UUID from the
/// operating system's cryptographically secure random source, and on
/// `Uuid::as_u128`, which returns its 128 bits as an integer. The result
/// depends on that random source alone, so nothing is promised of it.
#[verifier::external_body]
pub(crate) fn random_u128() -> u128 {
    uuid::Uuid::new_v4().as_u128()
}

} // verus!
