//! The places the library draws randomness: resolving the `R` marker of a
//! calendar field to a concrete value at parse time, and minting fresh
//! session and job ids.

use rand::Rng;
use vstd::prelude::*;

verus! {

/// Relies on uuid's `Uuid::new_v4` and `Uuid::as_u128`: a freshly drawn
/// random 128-bit id.  Nothing is promised of the value.
#[verifier::external_body]
pub(crate) fn fresh_id() -> u128 {
    uuid::Uuid::new_v4().as_u128()
}

/// Relies on rand's `Rng::gen_range`, which returns a value uniformly
/// distributed in the half-open range `lo..hi` and panics only on an empty
/// range.
#[verifier::external_body]
pub(crate) fn rand_range(lo: u8, hi: u8) -> (r: u8)
    requires
        lo < hi,
    ensures
        lo <= r < hi,
{
    rand::thread_rng().gen_range(lo..hi)
}

} // verus!
