//! Random numbers, from `rand`'s thread-local generator.
use vstd::prelude::*;
use rand::Rng;

verus! {

/// A uniformly random number below `n`, from `rand`'s thread-local
/// generator (`Rng::gen_range` over `0..n`, which panics on an empty
/// range). The contract claims only that the number lies below `n`.
#[verifier::external_body]
pub(crate) fn random_below(n: u64) -> (r: u64)
    requires
        n > 0,
    ensures
        r < n,
{
    rand::thread_rng().gen_range(0..n)
}

} // verus!
