//! Trusted wrappers around the `rand` crate.
//!
//! Nothing downstream depends on which value comes back, only on its
//! range, so the contracts state exactly what `rand` documents and no
//! more.

use vstd::prelude::*;
use rand::Rng;

verus! {

/// Relies on `rand::Rng::gen_range` over a half-open integer range: it
/// returns a value within the range and panics only when the range is
/// empty, which the precondition rules out.
#[verifier::external_body]
pub(crate) fn rand_range(lo: i32, hi: i32) -> (r: i32)
    requires
        lo < hi,
    ensures
        lo <= r < hi,
{
    rand::thread_rng().gen_range(lo..hi)
}

/// Relies on `rand::random::<bool>`: a coin flip.  Nothing is promised
/// of the outcome; callers state what holds either way.
#[verifier::external_body]
pub(crate) fn rand_bool() -> bool {
    rand::random()
}

} // verus!
