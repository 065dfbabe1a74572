//! The random source. Nothing here is proved: each contract says what the
//! `rand` crate documents of the call it makes.

use rand::rngs::ThreadRng;
use rand::seq::SliceRandom;
use rand::Rng;
use vstd::prelude::*;

verus! {

/// `rand::rngs::ThreadRng`, carried through and never looked into.
#[verifier::external_type_specification]
#[verifier::external_body]
pub struct ExThreadRng(rand::rngs::ThreadRng);

/// Calls `rand::thread_rng`: a handle to the generator of the current thread,
/// which `rand` seeds from the system on first use and cannot make where the
/// system gives no seed. Nothing is claimed of it.
#[verifier::external_body]
pub(crate) fn novo_gerador() -> (rng: ThreadRng) {
    rand::thread_rng()
}

/// Calls `Rng::gen_range` on the half-open range `lo..hi`, which `rand`
/// refuses when it is empty. Claimed: the value drawn lies in the range.
#[verifier::external_body]
pub(crate) fn sortear(rng: &mut ThreadRng, lo: i64, hi: i64) -> (r: i64)
    requires
        lo < hi,
    ensures
        lo <= r < hi,
{
    rng.gen_range(lo..hi)
}

/// Calls `SliceRandom::shuffle`, which swaps elements of the slice in place.
/// Claimed: the vector holds the same elements as before, each as often.
#[verifier::external_body]
pub(crate) fn embaralhar(rng: &mut ThreadRng, v: &mut Vec<usize>)
    ensures
        final(v)@.to_multiset() == old(v)@.to_multiset(),
        final(v)@.len() == old(v)@.len(),
{
    v.shuffle(rng)
}

} // verus!
