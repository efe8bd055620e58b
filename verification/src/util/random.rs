use vstd::prelude::*;
use rand::Rng;

verus! {

/// A random position in a collection of `len` items.
///
/// Calls `rand::Rng::gen_range(0, len)` on the thread-local generator, which
/// samples uniformly from `0..len` and panics when `len` is 0. The contract
/// states only the range: which position comes out is left to chance.
#[verifier::external_body]
pub(crate) fn random_index(len: usize) -> (i: usize)
    requires
        len > 0,
    ensures
        i < len,
{
    rand::thread_rng().gen_range(0, len)
}

} // verus!
