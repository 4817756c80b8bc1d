use vstd::prelude::*;
use rand_chacha::ChaCha8Rng;

verus! {

#[verifier::external_type_specification]
#[verifier::external_body]
pub struct ExChaCha8Rng(ChaCha8Rng);

/// The generator that `<ChaCha8Rng as SeedableRng>::seed_from_u64` builds
/// from `seed`.
pub uninterp spec fn chacha_from_seed(seed: u64) -> ChaCha8Rng;

/// `<ChaCha8Rng as SeedableRng>::seed_from_u64`: the generator that this
/// seed selects. Its state is a function of the seed alone (the seed is
/// expanded by a fixed PCG32 sequence into the ChaCha key); it is named, not
/// described.
#[verifier::external_body]
fn seeded_generator(seed: u64) -> (r: ChaCha8Rng)
    ensures
        r == chacha_from_seed(seed),
{
    <ChaCha8Rng as rand::SeedableRng>::seed_from_u64(seed)
}

/// `<ChaCha8Rng as Clone>::clone`: the derived clone, a copy of the whole
/// generator state (key, counter, buffered output and position in it).
#[verifier::external_body]
fn copy_generator(g: &ChaCha8Rng) -> (r: ChaCha8Rng)
    ensures
        r == *g,
{
    g.clone()
}

/// A seeded pseudo-random generator, one per entity, so that runs repeat.
#[derive(Debug)]
pub struct DeterministicRng {
    rng: ChaCha8Rng,
    seed: u64,
}

impl DeterministicRng {
    /// The seed this generator was made with.
    pub closed spec fn seed(&self) -> u64 {
        self.seed
    }

    /// The state of the underlying generator.
    pub closed spec fn state(&self) -> ChaCha8Rng {
        self.rng
    }

    /// A generator seeded with `seed`: the ChaCha8 generator that seed
    /// selects.
    pub fn new(seed: u64) -> (r: DeterministicRng)
        ensures
            r.seed() == seed,
            r.state() == chacha_from_seed(seed),
    {
        DeterministicRng { rng: seeded_generator(seed), seed }
    }

    /// The seed this generator was made with.
    pub fn seed_value(&self) -> (r: u64)
        ensures
            r == self.seed(),
    {
        self.seed
    }

    /// The underlying generator, to draw values from: what is drawn through
    /// the returned reference advances this generator's own state.
    pub fn generator(&mut self) -> (r: &mut ChaCha8Rng)
        ensures
            *r == old(self).state(),
            final(self).state() == *final(r),
            final(self).seed() == old(self).seed(),
    {
        &mut self.rng
    }
}

impl Clone for DeterministicRng {
    /// A generator in the same state, with the same seed: it draws what this
    /// one would draw.
    fn clone(&self) -> (r: DeterministicRng)
        ensures
            r.state() == self.state(),
            r.seed() == self.seed(),
    {
        DeterministicRng { rng: copy_generator(&self.rng), seed: self.seed }
    }
}

} // verus!
