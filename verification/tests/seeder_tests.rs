use grammar_fuzzer::grammar::{Grammar, GrammarRule};
use grammar_fuzzer::rng::RandomSource;
use grammar_fuzzer::seeder::{GrammarSeeder, MutationSeedModifier, RandomSeeder, Seedable};

fn fixed_word_grammar(word: &str) -> Grammar {
    let mut grammar = Grammar::new();
    grammar.insert(
        "Start".to_string(),
        vec![vec![GrammarRule::Terminal(word.to_string())]],
    );
    grammar
}

#[test]
fn test_random_seeder_random_setup() {
    let mut random_seeder: RandomSeeder = RandomSeeder::init_random();
    let seed = random_seeder.next_seed();
    let seed2 = random_seeder.next_seed();
    assert_ne!(seed, seed2);
}

#[test]
fn test_random_seeder_with_initial_seed() {
    let mut random_seeder1: RandomSeeder = RandomSeeder::init(12345);
    let mut random_seeder2: RandomSeeder = RandomSeeder::init(12345);
    let mut random_seeder3: RandomSeeder = RandomSeeder::init(12346);
    let seed1 = random_seeder1.next_seed();
    let seed2 = random_seeder2.next_seed();
    let seed3 = random_seeder3.next_seed();
    assert_eq!(seed1, seed2);
    assert_ne!(seed1, seed3);
    assert_ne!(seed2, seed3);
}

#[test]
fn test_random_seeder_identical_across_many_calls() {
    let mut a: RandomSeeder = RandomSeeder::init(99);
    let mut b: RandomSeeder = RandomSeeder::init(99);
    for _ in 0..20 {
        assert_eq!(a.next_seed(), b.next_seed());
    }
}

#[test]
fn test_random_seeder_length_bounds() {
    let mut seeder = RandomSeeder::init_with_limit(7, 3, 10);
    for _ in 0..100 {
        let seed = seeder.next_seed();
        assert!(3 <= seed.len() && seed.len() < 10);
    }
}

#[test]
fn test_grammar_seeder_yields_expansion() {
    let grammar = fixed_word_grammar("hello");
    let mut seeder = GrammarSeeder::init(grammar, RandomSource::from_entropy());
    let seed = seeder.next_seed();
    assert_eq!(seed, b"hello".to_vec());
}

#[test]
fn test_mutation_seeder_shape() {
    let grammar = fixed_word_grammar("xyz");
    let seeder = GrammarSeeder::init(grammar, RandomSource::from_entropy());
    let mut mutator = MutationSeedModifier::init(seeder);
    let original = b"xyz".to_vec();
    let mut saw_inserted = false;
    let mut saw_removed = false;
    let mut saw_changed = false;
    let mut saw_unchanged = false;
    for _ in 0..400 {
        let seed = mutator.next_seed();
        match seed.len() {
            4 => {
                // one byte inserted: dropping one position must recover the
                // original
                saw_inserted = true;
                let recoverable = (0..4).any(|p| {
                    let mut copy = seed.clone();
                    copy.remove(p);
                    copy == original
                });
                assert!(recoverable, "not one insertion: {:?}", seed);
            },
            3 => {
                let differing =
                    (0..3).filter(|&i| seed[i] != original[i]).count();
                assert!(differing <= 1, "more than one byte changed: {:?}", seed);
                if differing == 1 {
                    saw_changed = true;
                } else {
                    saw_unchanged = true;
                }
            },
            2 => {
                // one byte removed: the result must be the original less one
                // position
                saw_removed = true;
                let recoverable = (0..3).any(|p| {
                    let mut copy = original.clone();
                    copy.remove(p);
                    copy == seed
                });
                assert!(recoverable, "not one removal: {:?}", seed);
            },
            n => panic!("length {} is more than one edit away", n),
        }
    }
    // Each of the four outcomes has probability one quarter per call; over
    // 400 calls every one of them is all but certain to appear.
    assert!(saw_inserted && saw_removed && saw_changed && saw_unchanged);
}

#[test]
fn test_mutation_on_empty_seed_is_noop() {
    let grammar = fixed_word_grammar("");
    let seeder = GrammarSeeder::init(grammar, RandomSource::from_entropy());
    let mut mutator = MutationSeedModifier::init(seeder);
    for _ in 0..100 {
        let seed = mutator.next_seed();
        // removal and overwrite on an empty seed are silent no-ops; only an
        // insertion can grow it
        assert!(seed.len() <= 1);
    }
}
