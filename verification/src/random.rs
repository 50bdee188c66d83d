//! The sources of randomness: the thread's generator of `rand`, which picks
//! parameters and indices, and the fast xorshift generator that fills windows
//! with noise. Nothing here is proved: each item states what the outside
//! function is assumed to do.

use rand::Rng;
use rand::rngs::ThreadRng;
use rand::seq::SliceRandom;
use rand_core::RngCore;
use rand_core::SeedableRng;
use rand_xorshift::XorShiftRng;
use vstd::prelude::*;

verus! {

/// The fast, statistically weak generator of `rand_xorshift`. Its state is
/// opaque to the verifier.
#[verifier::external_type_specification]
#[verifier::external_body]
pub struct ExXorShiftRng(XorShiftRng);

/// The handle of `rand` to the generator of the current thread. Its state is
/// opaque to the verifier.
#[verifier::external_type_specification]
#[verifier::external_body]
pub struct ExThreadRng(ThreadRng);

/// `rand::thread_rng`: a handle to the generator of the current thread.
#[verifier::external_body]
pub(crate) fn thread_source() -> ThreadRng {
    rand::thread_rng()
}

/// `rand::Rng::gen_range`: some value of `[low, high)`. The outside function
/// panics unless `low < high`.
#[verifier::external_body]
pub(crate) fn random_below(rng: &mut ThreadRng, low: usize, high: usize) -> (picked: usize)
    requires
        low < high,
    ensures
        low <= picked < high,
{
    rng.gen_range(low, high)
}

/// `rand::seq::SliceRandom::shuffle`: the slice is rearranged by swaps of its
/// own elements, so it holds the same bytes as before, each as often as
/// before.
#[verifier::external_body]
pub(crate) fn shuffle_slice(window: &mut [u8], rng: &mut ThreadRng)
    ensures
        final(window)@.to_multiset() == old(window)@.to_multiset(),
{
    window.shuffle(rng);
}

/// `rand_core::SeedableRng::from_rng` for `XorShiftRng`: a fast generator
/// seeded from `rng`. The outside error is handed on as its text.
#[verifier::external_body]
pub(crate) fn seed_noise(rng: ThreadRng) -> Result<XorShiftRng, String> {
    XorShiftRng::from_rng(rng).map_err(|err| err.to_string())
}

/// `rand_core::RngCore::next_u32` on the xorshift generator. Nothing is
/// promised of the value.
#[verifier::external_body]
pub(crate) fn next_noise(rng: &mut XorShiftRng) -> u32 {
    rng.next_u32()
}

} // verus!
