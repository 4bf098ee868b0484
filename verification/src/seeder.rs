//! Seed producers: polymorphic sources of raw byte sequences.
//!
//! A [`Seedable`] hands out one fresh seed per call. [`RandomSeeder`] fills
//! a randomly sized buffer with random bytes; built from a fixed seed value
//! it is deterministic, and its contract pins every byte as a function of
//! that value. [`GrammarSeeder`] expands the grammar entry symbol into a
//! byte sequence. [`MutationSeedModifier`] decorates a grammar seeder with
//! one byte-level edit per seed: an insertion, a deletion, an overwrite, or
//! nothing, as [`mutated_from`] states.

use vstd::prelude::*;
use vstd::string::StrSliceExecFns;
use vstd::utf8::encode_utf8;

use crate::grammar::{expansion_of, generate, Grammar, GRAMMAR_ENTRY, DEFAULT_EXPANSION_DEPTH};
use crate::rng::{range_value, stream_value, RandomSource};

verus! {

/// The seed length [`RandomSeeder::init_random`] and [`RandomSeeder::init`]
/// stay below.
pub const MAX_RANDOM_SEEDER_LENGTH: u64 = 4096;

/// A source of fresh byte-sequence seeds.
pub trait Seedable: Sized {
    /// The producer's own validity; what [`Seedable::next_seed`] asks for.
    spec fn wf(&self) -> bool;

    /// Decides [`Seedable::wf`] at run time, for callers outside verified
    /// code.
    fn is_well_formed(&self) -> (b: bool)
        ensures
            b == self.wf(),
    ;

    /// Produce one fresh seed. Repeated calls promise no two distinct
    /// results; the call touches only the producer's own random state.
    fn next_seed(&mut self) -> (seed: Vec<u8>)
        requires
            old(self).wf(),
        ensures
            final(self).wf(),
    ;
}

/// The length of the seed a [`RandomSeeder`] with bounds `[min, max)` draws
/// at stream position `pos`.
pub open spec fn random_seed_len(seed: u64, pos: u64, min: u64, max: u64) -> u64 {
    range_value(seed, pos, min, max)
}

/// The whole seed a deterministic [`RandomSeeder`] with bounds `[min, max)`
/// draws starting at stream position `pos`: one length draw, then one draw
/// per byte.
pub open spec fn random_seed_bytes(seed: u64, pos: u64, min: u64, max: u64) -> Seq<u8> {
    Seq::new(
        random_seed_len(seed, pos, min, max) as nat,
        |i: int| (stream_value(seed, (pos + 1 + i) as u64) % 256) as u8,
    )
}

/// Produces seeds of a length drawn uniformly from `[min_length,
/// max_length)`, each byte drawn uniformly from `[0, 255]`.
pub struct RandomSeeder {
    initial_seed: u64,
    rng_generator: RandomSource,
    min_length: u64,
    max_length: u64,
}

impl RandomSeeder {
    /// The seed value recorded at construction.
    pub closed spec fn initial_seed(&self) -> u64 {
        self.initial_seed
    }

    /// Whether the byte stream is a deterministic function of the seed.
    pub closed spec fn is_seeded(&self) -> bool {
        self.rng_generator.is_seeded()
    }

    /// The seed of the deterministic stream.
    pub closed spec fn rng_seed(&self) -> u64 {
        self.rng_generator.seed()
    }

    /// How many values were drawn from the stream so far.
    pub closed spec fn rng_pos(&self) -> u64 {
        self.rng_generator.pos()
    }

    pub closed spec fn min_len(&self) -> u64 {
        self.min_length
    }

    pub closed spec fn max_len(&self) -> u64 {
        self.max_length
    }

    /// A producer seeded from the operating system; its seeds are not
    /// reproducible.
    pub fn init_random() -> (r: RandomSeeder)
        ensures
            r.wf(),
            !r.is_seeded(),
            r.min_len() == 1,
            r.max_len() == MAX_RANDOM_SEEDER_LENGTH,
    {
        let mut rng_generator = RandomSource::from_entropy();
        let next_u64: u64 = rng_generator.next_u64();
        RandomSeeder {
            initial_seed: next_u64,
            rng_generator,
            min_length: 1,
            max_length: MAX_RANDOM_SEEDER_LENGTH,
        }
    }

    /// A deterministic producer: two instances built from the same
    /// `initial_seed` yield the identical sequence of seeds.
    pub fn init(initial_seed: u64) -> (r: RandomSeeder)
        ensures
            r.wf(),
            r.is_seeded(),
            r.initial_seed() == initial_seed,
            r.rng_seed() == initial_seed,
            r.rng_pos() == 0,
            r.min_len() == 1,
            r.max_len() == MAX_RANDOM_SEEDER_LENGTH,
    {
        let rng_generator = RandomSource::from_seed(initial_seed);
        RandomSeeder {
            initial_seed,
            rng_generator,
            min_length: 1,
            max_length: MAX_RANDOM_SEEDER_LENGTH,
        }
    }

    /// A producer with caller-chosen length bounds; like the entropy
    /// construction, it records `initial_seed` but draws from the operating
    /// system.
    pub fn init_with_limit(initial_seed: u64, min_length: u64, max_length: u64) -> (r:
        RandomSeeder)
        requires
            min_length < max_length,
        ensures
            r.wf(),
            !r.is_seeded(),
            r.initial_seed() == initial_seed,
            r.min_len() == min_length,
            r.max_len() == max_length,
    {
        let rng_generator = RandomSource::from_entropy();
        RandomSeeder { initial_seed, rng_generator, min_length, max_length }
    }
}

impl Seedable for RandomSeeder {
    /// The length range `[min_length, max_length)` is non-empty.
    closed spec fn wf(&self) -> bool {
        self.min_length < self.max_length
    }

    fn is_well_formed(&self) -> (b: bool) {
        self.min_length < self.max_length
    }

    fn next_seed(&mut self) -> (seed: Vec<u8>)
        ensures
            old(self).min_len() <= seed@.len() < old(self).max_len(),
            final(self).is_seeded() == old(self).is_seeded(),
            final(self).rng_seed() == old(self).rng_seed(),
            final(self).initial_seed() == old(self).initial_seed(),
            final(self).min_len() == old(self).min_len(),
            final(self).max_len() == old(self).max_len(),
            old(self).is_seeded() && old(self).rng_pos() + old(self).max_len() <= u64::MAX
                ==> seed@ == random_seed_bytes(
                old(self).rng_seed(),
                old(self).rng_pos(),
                old(self).min_len(),
                old(self).max_len(),
            ) && final(self).rng_pos() == old(self).rng_pos() + 1 + seed@.len(),
    {
        let ghost det = old(self).is_seeded() && old(self).rng_pos() + old(self).max_len()
            <= u64::MAX;
        let ghost s0 = old(self).rng_seed();
        let ghost p0 = old(self).rng_pos();
        let ghost expected = random_seed_bytes(s0, p0, old(self).min_len(), old(self).max_len());
        let length = self.rng_generator.next_in_range(self.min_length, self.max_length);
        proof {
            if det {
                assert(length == expected.len());
            }
        }
        let mut out: Vec<u8> = Vec::new();
        let mut i: u64 = 0;
        while i < length
            invariant
                i <= length,
                out@.len() == i as nat,
                length < self.max_length,
                self.min_length == old(self).min_len(),
                self.max_length == old(self).max_len(),
                self.initial_seed == old(self).initial_seed(),
                self.rng_generator.is_seeded() == old(self).is_seeded(),
                self.rng_generator.seed() == old(self).rng_seed(),
                s0 == old(self).rng_seed(),
                det ==> old(self).is_seeded() && p0 + old(self).max_len() <= u64::MAX,
                det ==> expected == random_seed_bytes(s0, p0, self.min_length, self.max_length),
                det ==> length == expected.len(),
                det ==> self.rng_generator.pos() == p0 + 1 + i,
                det ==> out@ == expected.take(i as int),
                !det && old(self).is_seeded() ==> self.rng_generator.is_seeded(),
            decreases length - i,
        {
            let b = self.rng_generator.next_in_range(0, 256);
            out.push(b as u8);
            proof {
                if det {
                    assert(b == range_value(s0, (p0 + 1 + i) as u64, 0, 256));
                    assert(expected[i as int] == (stream_value(s0, (p0 + 1 + i) as u64)
                        % 256) as u8);
                    assert(out@ =~= expected.take(i + 1));
                }
            }
            i = i + 1;
        }
        proof {
            if det {
                assert(out@ =~= expected);
            }
        }
        out
    }
}

/// Two deterministic random seeders in the same state — the same seed
/// value, stream position, and length bounds — are about to produce the
/// identical seed, and will stand in the same state again afterwards: call
/// after call, their seed sequences are identical.
pub proof fn lemma_random_seeder_deterministic(a: RandomSeeder, b: RandomSeeder)
    requires
        a.is_seeded(),
        b.is_seeded(),
        a.rng_seed() == b.rng_seed(),
        a.rng_pos() == b.rng_pos(),
        a.min_len() == b.min_len(),
        a.max_len() == b.max_len(),
    ensures
        random_seed_bytes(a.rng_seed(), a.rng_pos(), a.min_len(), a.max_len())
            == random_seed_bytes(b.rng_seed(), b.rng_pos(), b.min_len(), b.max_len()),
        a.rng_pos() + 1 + random_seed_bytes(a.rng_seed(), a.rng_pos(), a.min_len(), a.max_len()).len()
            == b.rng_pos() + 1 + random_seed_bytes(
            b.rng_seed(),
            b.rng_pos(),
            b.min_len(),
            b.max_len(),
        ).len(),
{
}

/// Produces seeds by expanding the grammar's entry symbol.
pub struct GrammarSeeder {
    pub grammar: Grammar,
    pub rng: RandomSource,
}

impl GrammarSeeder {
    pub fn init(grammar: Grammar, rng: RandomSource) -> (s: GrammarSeeder)
        ensures
            s.grammar == grammar,
            s.rng == rng,
    {
        GrammarSeeder { grammar, rng }
    }
}

impl Seedable for GrammarSeeder {
    /// The grammar offers an alternative for every defined symbol.
    open spec fn wf(&self) -> bool {
        self.grammar.wf()
    }

    fn is_well_formed(&self) -> (b: bool) {
        self.grammar.is_well_formed()
    }

    fn next_seed(&mut self) -> (seed: Vec<u8>)
        ensures
            final(self).grammar == old(self).grammar,
            exists|s: Seq<char>|
                expansion_of(
                    old(self).grammar@,
                    GRAMMAR_ENTRY@,
                    s,
                    DEFAULT_EXPANSION_DEPTH as nat,
                ) && seed@ == encode_utf8(s),
    {
        let text = generate(&self.grammar, GRAMMAR_ENTRY, &mut self.rng);
        let seed = text.as_str().as_bytes_vec();
        proof {
            assert(expansion_of(
                old(self).grammar@,
                GRAMMAR_ENTRY@,
                text@,
                DEFAULT_EXPANSION_DEPTH as nat,
            ) && seed@ == encode_utf8(text@));
        }
        seed
    }
}

/// How one seed may come out of one mutation step of another: unchanged,
/// one byte inserted (appending included), one byte removed, or one byte
/// overwritten; removal and overwrite never apply to an empty seed.
pub open spec fn mutated_from(orig: Seq<u8>, out: Seq<u8>) -> bool {
    ||| out == orig
    ||| exists|p: int, b: u8| 0 <= p <= orig.len() && out == orig.insert(p, b)
    ||| exists|p: int| 0 <= p < orig.len() && out == orig.remove(p)
    ||| exists|p: int, b: u8| 0 <= p < orig.len() && out == orig.update(p, b)
}

/// Decorates a grammar seeder: each seed the grammar produces passes
/// through exactly one mutation step before it is handed out.
pub struct MutationSeedModifier {
    grammar_seeder: GrammarSeeder,
}

impl MutationSeedModifier {
    /// The wrapped producer's grammar.
    pub closed spec fn grammar_model(&self) -> crate::grammar::GrammarModel {
        self.grammar_seeder.grammar@
    }

    pub fn init(grammar_seeder: GrammarSeeder) -> (m: MutationSeedModifier)
        ensures
            m.grammar_model() == grammar_seeder.grammar@,
            m.wf() == grammar_seeder.wf(),
    {
        MutationSeedModifier { grammar_seeder }
    }

    /// Insert one random byte at a uniformly chosen position, the position
    /// one past the end included.
    fn insert_byte(&mut self, input: &mut Vec<u8>)
        ensures
            final(self).grammar_seeder.grammar == old(self).grammar_seeder.grammar,
            mutated_from(old(input)@, final(input)@),
            old(input)@.len() < usize::MAX ==> final(input)@.len() == old(input)@.len() + 1,
    {
        let byte = self.grammar_seeder.rng.next_in_range(0, 256) as u8;
        if input.len() < usize::MAX {
            let position = self.grammar_seeder.rng.next_in_range(0, input.len() as u64 + 1);
            input.insert(position as usize, byte);
            proof {
                old(input)@.insert_ensures(position as int, byte);
            }
        }
    }

    /// Remove the byte at a uniformly chosen position; a no-op on an empty
    /// seed.
    fn remove_byte(&mut self, input: &mut Vec<u8>)
        ensures
            final(self).grammar_seeder.grammar == old(self).grammar_seeder.grammar,
            mutated_from(old(input)@, final(input)@),
            old(input)@.len() > 0 ==> final(input)@.len() == old(input)@.len() - 1,
            old(input)@.len() == 0 ==> final(input)@ == old(input)@,
    {
        if !input.is_empty() {
            let position = self.grammar_seeder.rng.next_in_range(0, input.len() as u64);
            input.remove(position as usize);
            proof {
                old(input)@.remove_ensures(position as int);
            }
        }
    }

    /// Overwrite the byte at a uniformly chosen position with a new random
    /// byte; a no-op on an empty seed.
    fn modify_byte(&mut self, input: &mut Vec<u8>)
        ensures
            final(self).grammar_seeder.grammar == old(self).grammar_seeder.grammar,
            mutated_from(old(input)@, final(input)@),
            final(input)@.len() == old(input)@.len(),
    {
        if !input.is_empty() {
            let position = self.grammar_seeder.rng.next_in_range(0, input.len() as u64);
            let new_byte = self.grammar_seeder.rng.next_in_range(0, 256) as u8;
            input.set(position as usize, new_byte);
        }
    }
}

impl Seedable for MutationSeedModifier {
    /// The wrapped producer is valid.
    closed spec fn wf(&self) -> bool {
        self.grammar_seeder.wf()
    }

    fn is_well_formed(&self) -> (b: bool) {
        self.grammar_seeder.is_well_formed()
    }

    fn next_seed(&mut self) -> (seed: Vec<u8>)
        ensures
            final(self).grammar_model() == old(self).grammar_model(),
            exists|s: Seq<char>|
                expansion_of(
                    old(self).grammar_model(),
                    GRAMMAR_ENTRY@,
                    s,
                    DEFAULT_EXPANSION_DEPTH as nat,
                ) && mutated_from(encode_utf8(s), seed@),
    {
        let mut seed = self.grammar_seeder.next_seed();
        let ghost generated = seed@;
        let operation = self.grammar_seeder.rng.next_in_range(0, 4);
        match operation {
            0 => self.insert_byte(&mut seed),
            1 => self.remove_byte(&mut seed),
            2 => self.modify_byte(&mut seed),
            _ => {
                proof {
                    assert(mutated_from(generated, seed@));
                }
            },
        }
        seed
    }
}

/// One mutation step changes the seed's length by at most one byte, and
/// outside the single touched position the bytes are the source seed's, in
/// order: unchanged on both sides of an insertion or a removal, and
/// everywhere but the overwritten position for an overwrite.
pub proof fn lemma_mutation_shape(orig: Seq<u8>, out: Seq<u8>)
    requires
        mutated_from(orig, out),
    ensures
        orig.len() - 1 <= out.len() <= orig.len() + 1,
        ({
            ||| out == orig
            ||| (out.len() == orig.len() + 1 && exists|p: int|
                0 <= p <= orig.len() && out.take(p) == orig.take(p) && out.skip(p + 1)
                    == orig.skip(p))
            ||| (out.len() == orig.len() - 1 && exists|p: int|
                0 <= p < orig.len() && out.take(p) == orig.take(p) && out.skip(p) == orig.skip(
                    p + 1,
                ))
            ||| (out.len() == orig.len() && exists|p: int|
                0 <= p < orig.len() && out == orig.update(p, out[p]))
        }),
{
    if out == orig {
    } else if exists|p: int, b: u8| 0 <= p <= orig.len() && out == orig.insert(p, b) {
        let (p, b) = choose|p: int, b: u8| 0 <= p <= orig.len() && out == orig.insert(p, b);
        orig.insert_ensures(p, b);
        assert(out.take(p) =~= orig.take(p));
        assert(out.skip(p + 1) =~= orig.skip(p));
    } else if exists|p: int| 0 <= p < orig.len() && out == orig.remove(p) {
        let p = choose|p: int| 0 <= p < orig.len() && out == orig.remove(p);
        orig.remove_ensures(p);
        assert(out.take(p) =~= orig.take(p));
        assert(out.skip(p) =~= orig.skip(p + 1));
    } else {
        let (p, b) = choose|p: int, b: u8| 0 <= p < orig.len() && out == orig.update(p, b);
        assert(out == orig.update(p, out[p])) by {
            assert(out =~= orig.update(p, out[p]));
        }
    }
}

} // verus!
