use grammar_fuzzer::grammar::{
    create_cgi_grammar, create_grammar_calculation, generate, generate_bounded, Grammar,
    GrammarRule,
};
use grammar_fuzzer::rng::RandomSource;
use grammar_fuzzer::text::decimal_string;

fn single_rule_grammar(token: GrammarRule) -> Grammar {
    let mut grammar = Grammar::new();
    grammar.insert("Start".to_string(), vec![vec![token]]);
    grammar
}

#[test]
fn test_grammar_calculation() {
    let mut rng = RandomSource::from_entropy();
    let grammar = create_grammar_calculation();
    let output_count = 10; // Number of outputs to generate

    for _ in 0..output_count {
        let output = generate(&grammar, "Start", &mut rng);
        assert!(!output.is_empty());
        println!("{}", output);
    }
}

#[test]
fn test_cgi_grammar() {
    let mut rng = RandomSource::from_entropy();
    let grammar = create_cgi_grammar();
    let output_count = 100; // Number of outputs to generate

    for _ in 0..output_count {
        let output = generate(&grammar, "Start", &mut rng);
        assert!(!output.is_empty());
        println!("{}", output);
    }
}

#[test]
fn test_generate_either_alternative() {
    let mut grammar = Grammar::new();
    grammar.insert(
        "Start".to_string(),
        vec![vec![GrammarRule::NonTerminal("A".to_string())]],
    );
    grammar.insert(
        "A".to_string(),
        vec![
            vec![GrammarRule::Terminal("x".to_string())],
            vec![GrammarRule::Terminal("y".to_string())],
        ],
    );
    let mut rng = RandomSource::from_entropy();
    for _ in 0..100 {
        let output = generate(&grammar, "Start", &mut rng);
        assert!(output == "x" || output == "y", "unexpected output: {}", output);
    }
}

#[test]
fn test_generate_missing_symbol_is_empty() {
    let grammar = single_rule_grammar(GrammarRule::Terminal("x".to_string()));
    let mut rng = RandomSource::from_entropy();
    let output = generate(&grammar, "Absent", &mut rng);
    assert_eq!(output, "");
}

#[test]
fn test_magic_hex_digit_range() {
    let grammar = single_rule_grammar(GrammarRule::Terminal("MAGIC-HexDigit".to_string()));
    let mut rng = RandomSource::from_entropy();
    let mut saw_colon = false;
    for _ in 0..400 {
        let output = generate(&grammar, "Start", &mut rng);
        assert_eq!(output.chars().count(), 1);
        let c = output.chars().next().unwrap();
        assert!(
            c.is_ascii_digit() || c == ':' || ('B'..='F').contains(&c),
            "hex digit out of the quirk range: {}",
            c
        );
        assert_ne!(c, 'A');
        if c == ':' {
            saw_colon = true;
        }
    }
    // The preserved quirk renders the value ten as ':'; over 400 draws it is
    // all but certain to appear at least once.
    assert!(saw_colon);
}

#[test]
fn test_magic_u8_range_and_no_literal() {
    let grammar = single_rule_grammar(GrammarRule::Terminal("MAGIC-u8".to_string()));
    let mut rng = RandomSource::from_entropy();
    for _ in 0..200 {
        let output = generate(&grammar, "Start", &mut rng);
        assert_ne!(output, "MAGIC-u8");
        let value: u32 = output.parse().expect("decimal text");
        assert!(value <= 255);
    }
}

#[test]
fn test_magic_ascii_digit_and_lowercase() {
    let digits = single_rule_grammar(GrammarRule::Terminal("MAGIC-AsciiDigit".to_string()));
    let letters = single_rule_grammar(GrammarRule::Terminal("MAGIC-LowerCaseLetter".to_string()));
    let mut rng = RandomSource::from_entropy();
    for _ in 0..100 {
        let d = generate(&digits, "Start", &mut rng);
        assert_eq!(d.chars().count(), 1);
        assert!(d.chars().next().unwrap().is_ascii_digit());
        let l = generate(&letters, "Start", &mut rng);
        assert_eq!(l.chars().count(), 1);
        assert!(l.chars().next().unwrap().is_ascii_lowercase());
    }
}

#[test]
fn test_ordinary_terminal_passes_through() {
    let grammar = single_rule_grammar(GrammarRule::Terminal("MAGIC-Unknown".to_string()));
    let mut rng = RandomSource::from_entropy();
    let output = generate(&grammar, "Start", &mut rng);
    assert_eq!(output, "MAGIC-Unknown");
}

#[test]
fn test_depth_exhaustion_picks_shortest_terminal_alternative() {
    let mut grammar = Grammar::new();
    grammar.insert(
        "Start".to_string(),
        vec![
            vec![
                GrammarRule::Terminal("aa".to_string()),
                GrammarRule::Terminal("bb".to_string()),
            ],
            vec![GrammarRule::Terminal("z".to_string())],
            vec![GrammarRule::NonTerminal("Start".to_string())],
        ],
    );
    let mut rng = RandomSource::from_entropy();
    for _ in 0..20 {
        let output = generate_bounded(&grammar, "Start", &mut rng, 0);
        assert_eq!(output, "z");
    }
}

#[test]
fn test_depth_exhaustion_without_terminal_alternative_is_empty() {
    let mut grammar = Grammar::new();
    grammar.insert(
        "Start".to_string(),
        vec![vec![GrammarRule::NonTerminal("Start".to_string())]],
    );
    let mut rng = RandomSource::from_entropy();
    let output = generate_bounded(&grammar, "Start", &mut rng, 0);
    assert_eq!(output, "");
}

#[test]
fn test_depth_exhaustion_samples_magic_terminal() {
    let mut grammar = Grammar::new();
    grammar.insert(
        "Start".to_string(),
        vec![
            vec![GrammarRule::Terminal("MAGIC-AsciiDigit".to_string())],
            vec![GrammarRule::NonTerminal("Start".to_string())],
        ],
    );
    let mut rng = RandomSource::from_entropy();
    for _ in 0..50 {
        let output = generate_bounded(&grammar, "Start", &mut rng, 0);
        assert_eq!(output.chars().count(), 1);
        assert!(output.chars().next().unwrap().is_ascii_digit());
    }
}

#[test]
fn test_built_in_grammars_are_well_formed() {
    assert!(create_cgi_grammar().is_well_formed());
    assert!(create_grammar_calculation().is_well_formed());
}

#[test]
fn test_decimal_string_values() {
    assert_eq!(decimal_string(0), "0");
    assert_eq!(decimal_string(7), "7");
    assert_eq!(decimal_string(255), "255");
    assert_eq!(decimal_string(12345), "12345");
    assert_eq!(decimal_string(u64::MAX), "18446744073709551615");
}
