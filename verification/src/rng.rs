//! Random values for seed production and grammar expansion.
//!
//! All randomness flows through [`RandomSource`], which owns a
//! `rand::rngs::StdRng`. A source built with [`RandomSource::from_seed`] is
//! deterministic: its draws are named by the uninterpreted function
//! [`stream_value`], so that two sources built from the same seed provably
//! yield the same values. A source built with [`RandomSource::from_entropy`]
//! promises nothing beyond the range of each draw.

use vstd::prelude::*;

verus! {

/// Declares `rand::rngs::StdRng` so it can stand in a field; the value is
/// opaque, and all claims about it live in the wrappers below.
#[verifier::external_type_specification]
#[verifier::external_body]
pub struct ExStdRng(rand::rngs::StdRng);

/// The value returned by the `pos`-th `next_u64` call on a
/// `rand::rngs::StdRng` built with `seed_from_u64(seed)`, counting from 0,
/// when every draw from that generator is made through `next_u64`.
pub uninterp spec fn stream_value(seed: u64, pos: u64) -> u64;

/// A source of pseudo-random `u64` values.
///
/// `seed` and `pos` mirror the state of the wrapped generator: when
/// `deterministic` is set, the generator was built from `seed` and has served
/// exactly `pos` draws (while `pos` is below `u64::MAX`; beyond that the
/// counter sticks and nothing more is claimed of the draws). The fields are
/// private and only the functions of this module touch them, which keeps
/// that correspondence intact.
pub struct RandomSource {
    rng: rand::rngs::StdRng,
    deterministic: bool,
    seed: u64,
    pos: u64,
}

impl RandomSource {
    /// True when the draws of this source are named by [`stream_value`].
    pub closed spec fn is_seeded(&self) -> bool {
        self.deterministic
    }

    /// The seed this source was built from; meaningful only when seeded.
    pub closed spec fn seed(&self) -> u64 {
        self.seed
    }

    /// How many values this source has served so far (saturating).
    pub closed spec fn pos(&self) -> u64 {
        self.pos
    }

    pub fn from_seed(seed: u64) -> (r: RandomSource)
        ensures
            r.is_seeded(),
            r.seed() == seed,
            r.pos() == 0,
    {
        raw_from_seed(seed)
    }

    pub fn from_entropy() -> (r: RandomSource)
        ensures
            !r.is_seeded(),
    {
        raw_from_entropy()
    }

    /// Draw one value.
    pub fn next_u64(&mut self) -> (v: u64)
        ensures
            old(self).is_seeded() && old(self).pos() < u64::MAX ==> v == stream_value(
                old(self).seed(),
                old(self).pos(),
            ),
            final(self).is_seeded() == old(self).is_seeded(),
            final(self).seed() == old(self).seed(),
            final(self).pos() == advance(old(self).pos()),
    {
        let new_pos = if self.pos < u64::MAX {
            self.pos + 1
        } else {
            u64::MAX
        };
        raw_next(self, new_pos)
    }

    /// Draw one value reduced into `[low, high)`.
    pub fn next_in_range(&mut self, low: u64, high: u64) -> (v: u64)
        requires
            low < high,
        ensures
            low <= v < high,
            old(self).is_seeded() && old(self).pos() < u64::MAX ==> v == range_value(
                old(self).seed(),
                old(self).pos(),
                low,
                high,
            ),
            final(self).is_seeded() == old(self).is_seeded(),
            final(self).seed() == old(self).seed(),
            final(self).pos() == advance(old(self).pos()),
    {
        let x = self.next_u64();
        low + x % (high - low)
    }
}

/// The position counter after one draw: it advances by one and sticks at
/// `u64::MAX`.
pub open spec fn advance(pos: u64) -> u64 {
    if pos < u64::MAX {
        (pos + 1) as u64
    } else {
        u64::MAX
    }
}

/// The value [`RandomSource::next_in_range`] serves at `pos`: the raw draw
/// folded into `[low, high)`.
pub open spec fn range_value(seed: u64, pos: u64, low: u64, high: u64) -> u64
    recommends
        low < high,
{
    (low + stream_value(seed, pos) % ((high - low) as u64)) as u64
}

/// Relies on `rand::SeedableRng::seed_from_u64` for `StdRng`: the generator
/// it returns yields a stream of values determined by the seed alone.
#[verifier::external_body]
fn raw_from_seed(seed: u64) -> (r: RandomSource)
    ensures
        r.deterministic,
        r.seed == seed,
        r.pos == 0,
{
    RandomSource { rng: rand::SeedableRng::seed_from_u64(seed), deterministic: true, seed, pos: 0 }
}

/// Relies on `rand::SeedableRng::from_entropy` for `StdRng`: it returns a
/// generator seeded from the operating system, of whose draws nothing is
/// claimed.
#[verifier::external_body]
fn raw_from_entropy() -> (r: RandomSource)
    ensures
        !r.deterministic,
{
    RandomSource {
        rng: rand::SeedableRng::from_entropy(),
        deterministic: false,
        seed: 0,
        pos: 0,
    }
}

/// Relies on `rand::RngCore::next_u64` for `StdRng`: on a generator built
/// with `seed_from_u64` whose every draw went through this function, the
/// next value is a deterministic function of the seed and of how many draws
/// were made, which [`stream_value`] names. The `pos` field counts those
/// draws while it is below `u64::MAX`.
#[verifier::external_body]
fn raw_next(src: &mut RandomSource, new_pos: u64) -> (v: u64)
    requires
        new_pos == advance(old(src).pos),
    ensures
        old(src).deterministic && old(src).pos < u64::MAX ==> v == stream_value(
            old(src).seed,
            old(src).pos,
        ),
        final(src).deterministic == old(src).deterministic,
        final(src).seed == old(src).seed,
        final(src).pos == new_pos,
{
    src.pos = new_pos;
    rand::RngCore::next_u64(&mut src.rng)
}

} // verus!
