//! Random numbers from the generator of the current thread.
use rand::Rng;
use vstd::prelude::*;

verus! {

/// `Rng::gen_range` of the rand crate on the generator of the current
/// thread, with the range `0..n`: a number drawn uniformly from the range.
/// The contract claims only that the number lies in the range, which is not
/// empty, as the call demands.
#[verifier::external_body]
pub(crate) fn random_below(n: usize) -> (k: usize)
    requires
        n > 0,
    ensures
        k < n,
{
    rand::thread_rng().gen_range(0..n)
}

/// `Rng::gen` of the rand crate on the generator of the current thread, for
/// an array of 32 bytes, handed out as a vector. The contract claims only
/// the length.
#[verifier::external_body]
pub(crate) fn random_seed() -> (seed: Vec<u8>)
    ensures
        seed@.len() == 32,
{
    rand::thread_rng().gen::<[u8; 32]>().to_vec()
}

} // verus!
