//! The source of randomness that the signal generator draws from.

use rand::rngs::StdRng;
use rand::rngs::ThreadRng;
use rand::seq::SliceRandom;
use rand::Rng;
use rand::SeedableRng;
use vstd::prelude::*;

verus! {

/// `rand::rngs::ThreadRng`, a handle to the generator of the current thread.
/// Nothing is known of what it holds.
#[verifier::external_type_specification]
#[verifier::external_body]
pub struct ExThreadRng(rand::rngs::ThreadRng);

/// `rand::rngs::StdRng`, a generator that can be seeded. Nothing is known of
/// what it holds.
#[verifier::external_type_specification]
#[verifier::external_body]
pub struct ExStdRng(rand::rngs::StdRng);

/// Where random numbers come from: the generator of the current thread, which
/// the system seeds, or a generator started from a seed, which gives the same
/// numbers each time it is started from that seed.
pub enum RandomSource {
    Thread(ThreadRng),
    Seeded(StdRng),
}

/// `rand::thread_rng`: the generator of the current thread. It hands out a
/// handle and promises nothing of it. It fails only where the operating system
/// cannot seed the generator.
#[verifier::external_body]
fn thread_generator() -> ThreadRng {
    rand::thread_rng()
}

/// `SeedableRng::seed_from_u64` of `StdRng`: a generator started from `seed`.
/// Nothing is promised of the generator.
#[verifier::external_body]
fn seeded_generator(seed: u64) -> StdRng {
    StdRng::seed_from_u64(seed)
}

/// `Rng::gen_range` of `ThreadRng` on an inclusive range: the number drawn
/// lies within `low..=high`. The range must not be empty: `gen_range` panics
/// on an empty one.
#[verifier::external_body]
fn thread_gen_range(rng: &mut ThreadRng, low: usize, high: usize) -> (drawn: usize)
    requires
        low <= high,
    ensures
        low <= drawn <= high,
{
    rng.gen_range(low..=high)
}

/// `Rng::gen_range` of `StdRng` on an inclusive range: the number drawn lies
/// within `low..=high`. The range must not be empty: `gen_range` panics on an
/// empty one.
#[verifier::external_body]
fn seeded_gen_range(rng: &mut StdRng, low: usize, high: usize) -> (drawn: usize)
    requires
        low <= high,
    ensures
        low <= drawn <= high,
{
    rng.gen_range(low..=high)
}

/// `SliceRandom::shuffle` with a `ThreadRng`: it only swaps items of the
/// slice, so the vector holds the same items as before, each as often as
/// before, in some order.
#[verifier::external_body]
fn thread_shuffle(rng: &mut ThreadRng, items: &mut Vec<usize>)
    ensures
        final(items)@.to_multiset() == old(items)@.to_multiset(),
{
    items.as_mut_slice().shuffle(rng)
}

/// `SliceRandom::shuffle` with a `StdRng`: it only swaps items of the slice,
/// so the vector holds the same items as before, each as often as before, in
/// some order.
#[verifier::external_body]
fn seeded_shuffle(rng: &mut StdRng, items: &mut Vec<usize>)
    ensures
        final(items)@.to_multiset() == old(items)@.to_multiset(),
{
    items.as_mut_slice().shuffle(rng)
}

impl RandomSource {
    /// The generator of the current thread, seeded by the system.
    pub fn from_thread() -> (source: RandomSource)
        ensures
            source is Thread,
    {
        RandomSource::Thread(thread_generator())
    }

    /// A generator started from `seed`.
    pub fn from_seed(seed: u64) -> (source: RandomSource)
        ensures
            source is Seeded,
    {
        RandomSource::Seeded(seeded_generator(seed))
    }

    /// Draws a number from `low..=high`.
    pub fn gen_range(&mut self, low: usize, high: usize) -> (drawn: usize)
        requires
            low <= high,
        ensures
            low <= drawn <= high,
            (*old(self) is Thread) == (*final(self) is Thread),
    {
        match self {
            RandomSource::Thread(rng) => thread_gen_range(rng, low, high),
            RandomSource::Seeded(rng) => seeded_gen_range(rng, low, high),
        }
    }

    /// Puts `items` in a random order.
    pub fn shuffle(&mut self, items: &mut Vec<usize>)
        ensures
            final(items)@.to_multiset() == old(items)@.to_multiset(),
            final(items)@.len() == old(items)@.len(),
            (*old(self) is Thread) == (*final(self) is Thread),
    {
        match self {
            RandomSource::Thread(rng) => thread_shuffle(rng, items),
            RandomSource::Seeded(rng) => seeded_shuffle(rng, items),
        }
        proof {
            old(items)@.to_multiset_ensures();
            items@.to_multiset_ensures();
        }
    }
}

} // verus!
