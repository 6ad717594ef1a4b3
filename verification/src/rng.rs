//! The random number generator used for piece bags and garbage.
use vstd::prelude::*;
use rand::rngs::SmallRng;
use rand::seq::SliceRandom;
use rand::{Rng, SeedableRng};
use crate::data::Tetromino;

verus! {

/// The small, fast pseudo-random generator of the `rand` crate.
#[verifier::external_type_specification]
#[verifier::external_body]
pub struct ExSmallRng(SmallRng);

/// Calls `SmallRng::seed_from_u64`, which builds a generator whose whole
/// output stream is fixed by the seed.  Nothing is claimed of the state.
#[verifier::external_body]
fn rng_from_seed(seed: u64) -> (r: SmallRng) {
    SmallRng::seed_from_u64(seed)
}

/// Calls `SmallRng::from_os_rng`, which seeds a generator from the
/// operating system; that call panics if the operating system cannot supply
/// randomness.  Nothing is claimed of the state.
#[verifier::external_body]
fn rng_from_os() -> (r: SmallRng) {
    SmallRng::from_os_rng()
}

/// Calls `SliceRandom::shuffle` on the pieces, which permutes the slice in
/// place: afterwards it holds the same pieces, each as often as before.
/// Which permutation comes out depends on the generator's state.
#[verifier::external_body]
fn shuffle_pieces(pieces: &mut Vec<Tetromino>, rng: &mut SmallRng)
    ensures
        final(pieces)@.to_multiset() == old(pieces)@.to_multiset(),
{
    pieces.shuffle(rng);
}

/// Calls `Rng::random_range` with `0..n` over `usize`; the crate panics on an
/// empty range and otherwise returns a value inside the range.  Which value
/// comes out depends on the generator's state.
#[verifier::external_body]
fn random_index(rng: &mut SmallRng, n: usize) -> (r: usize)
    requires
        n > 0,
    ensures
        r < n,
{
    rng.random_range(0..n)
}

/// Calls `Rng::random_range` with `0..n` over `u32`; the crate panics on an
/// empty range and otherwise returns a value inside the range.  Which value
/// comes out depends on the generator's state.
#[verifier::external_body]
fn random_below_u32(rng: &mut SmallRng, n: u32) -> (r: u32)
    requires
        n > 0,
    ensures
        r < n,
{
    rng.random_range(0..n)
}

/// A pseudo-random generator, with a record of what it was seeded with and
/// of the ranged draws made from it, each as (bound, value drawn).
pub struct Generator {
    rng: SmallRng,
    seed: Ghost<Option<u64>>,
    draws: Ghost<Seq<(int, int)>>,
}

impl Generator {
    /// The seed the generator was built from; `None` when the operating
    /// system seeded it.
    pub closed spec fn seed(&self) -> Option<u64> {
        self.seed@
    }

    /// The ranged draws made so far, oldest first, each as (bound, value).
    pub closed spec fn draws(&self) -> Seq<(int, int)> {
        self.draws@
    }

    /// A generator whose output is fixed by `seed`.
    pub fn from_seed(seed: u64) -> (r: Generator)
        ensures
            r.seed() == Some(seed),
            r.draws() == Seq::<(int, int)>::empty(),
    {
        Generator { rng: rng_from_seed(seed), seed: Ghost(Some(seed)), draws: Ghost(Seq::empty()) }
    }

    /// A generator seeded by the operating system.
    pub fn from_os() -> (r: Generator)
        ensures
            r.seed() is None,
            r.draws() == Seq::<(int, int)>::empty(),
    {
        Generator { rng: rng_from_os(), seed: Ghost(None), draws: Ghost(Seq::empty()) }
    }

    /// Draw a value below `n`.
    pub fn index_below(&mut self, n: usize) -> (r: usize)
        requires
            n > 0,
        ensures
            r < n,
            final(self).seed() == old(self).seed(),
            final(self).draws() == old(self).draws().push((n as int, r as int)),
    {
        let r = random_index(&mut self.rng, n);
        proof {
            self.draws@ = self.draws@.push((n as int, r as int));
        }
        r
    }

    /// Draw a value below `n`.
    pub fn below_u32(&mut self, n: u32) -> (r: u32)
        requires
            n > 0,
        ensures
            r < n,
            final(self).seed() == old(self).seed(),
            final(self).draws() == old(self).draws().push((n as int, r as int)),
    {
        let r = random_below_u32(&mut self.rng, n);
        proof {
            self.draws@ = self.draws@.push((n as int, r as int));
        }
        r
    }

    /// Put the pieces in an order drawn from the generator.
    pub fn shuffle(&mut self, pieces: &mut Vec<Tetromino>)
        ensures
            final(pieces)@.to_multiset() == old(pieces)@.to_multiset(),
            final(self).seed() == old(self).seed(),
            final(self).draws() == old(self).draws(),
    {
        shuffle_pieces(pieces, &mut self.rng);
    }
}

} // verus!
