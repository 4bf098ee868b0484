//! The grammar model and the expansion engine.
//!
//! A [`Grammar`] maps symbol names to alternative productions, each an
//! ordered sequence of [`GrammarRule`] tokens. [`generate`] expands a start
//! symbol into a concrete string, replacing the reserved "magic" terminals
//! with freshly sampled primitive values. The contract of [`generate`] is the
//! derivation relation [`expansion_of`]: the output is built from one
//! uniformly chosen alternative per expanded symbol, with every magic
//! terminal replaced by a value in its documented range, never by its
//! literal token text.

use vstd::prelude::*;
use vstd::string::StringExecFns;

use crate::rng::RandomSource;
use crate::text::{
    chars_to_string, decimal_chars, decimal_string, digit_char, lemma_decimal_chars_digits,
    single_char_string, str_eq,
};

verus! {

/// The symbol every grammar expansion starts from.
pub const GRAMMAR_ENTRY: &'static str = "Start";

/// One token of a production: literal text, or a reference to another
/// symbol of the grammar.
#[derive(Debug)]
pub enum GrammarRule {
    Terminal(String),
    NonTerminal(String),
}

/// The mathematical shape of a [`GrammarRule`]: the token's text as a
/// sequence of characters.
pub enum RuleView {
    Terminal(Seq<char>),
    NonTerminal(Seq<char>),
}

impl DeepView for GrammarRule {
    type V = RuleView;

    open spec fn deep_view(&self) -> RuleView {
        match self {
            GrammarRule::Terminal(t) => RuleView::Terminal(t@),
            GrammarRule::NonTerminal(s) => RuleView::NonTerminal(s@),
        }
    }
}

/// A grammar as its contracts see it: the symbol entries in lookup order,
/// each a name with its list of alternative productions.
pub type GrammarModel = Seq<(Seq<char>, Seq<Seq<RuleView>>)>;

/// The alternatives of `sym` in `g`: the first entry with that name wins,
/// `None` when the symbol is not defined.
pub open spec fn lookup(g: GrammarModel, sym: Seq<char>) -> Option<Seq<Seq<RuleView>>>
    decreases g.len(),
{
    if g.len() == 0 {
        None
    } else if g[0].0 == sym {
        Some(g[0].1)
    } else {
        lookup(g.drop_first(), sym)
    }
}

/// Every defined symbol offers at least one alternative to choose from.
pub open spec fn model_wf(g: GrammarModel) -> bool {
    forall|i: int| 0 <= i < g.len() ==> g[i].1.len() > 0
}

/// A mapping from symbol names to alternative productions. A later
/// [`Grammar::insert`] of an already defined symbol shadows the earlier
/// definition, as re-inserting a key into a map would.
pub struct Grammar {
    entries: Vec<(String, Vec<Vec<GrammarRule>>)>,
}

impl View for Grammar {
    type V = GrammarModel;

    closed spec fn view(&self) -> GrammarModel {
        self.entries.deep_view()
    }
}

impl Grammar {
    /// Every defined symbol has a non-empty list of alternatives, so an
    /// expansion always has a production to pick.
    pub open spec fn wf(&self) -> bool {
        model_wf(self@)
    }

    pub fn new() -> (g: Grammar)
        ensures
            g@ == Seq::<(Seq<char>, Seq<Seq<RuleView>>)>::empty(),
            g.wf(),
    {
        let g = Grammar { entries: Vec::new() };
        proof {
            assert(g@ =~= Seq::<(Seq<char>, Seq<Seq<RuleView>>)>::empty());
        }
        g
    }

    /// Define `symbol`, shadowing any earlier definition of the same name.
    pub fn insert(&mut self, symbol: String, alternatives: Vec<Vec<GrammarRule>>)
        ensures
            final(self)@ == old(self)@.insert(0, (symbol@, alternatives.deep_view())),
            forall|s: Seq<char>|
                lookup(final(self)@, s) == if s == symbol@ {
                    Some(alternatives.deep_view())
                } else {
                    lookup(old(self)@, s)
                },
            final(self).wf() == (old(self).wf() && alternatives@.len() > 0),
    {
        let ghost pair = (symbol@, alternatives.deep_view());
        self.entries.insert(0, (symbol, alternatives));
        proof {
            assert(final(self)@ =~= old(self)@.insert(0, pair));
            assert(final(self)@.drop_first() =~= old(self)@);
            assert(forall|s: Seq<char>|
                lookup(final(self)@, s) == if s == pair.0 {
                    Some(pair.1)
                } else {
                    lookup(old(self)@, s)
                });
            assert(final(self).wf() == (old(self).wf() && pair.1.len() > 0)) by {
                if old(self).wf() && pair.1.len() > 0 {
                    assert(forall|i: int|
                        0 < i < final(self)@.len() ==> final(self)@[i] == old(self)@[i - 1]);
                }
                if final(self).wf() {
                    assert(forall|i: int|
                        0 <= i < old(self)@.len() ==> old(self)@[i] == final(self)@[i + 1]);
                }
            }
        }
    }

    /// The defined alternatives of `symbol`, if any.
    pub fn alternatives_of<'a>(&'a self, symbol: &str) -> (r: Option<&'a Vec<Vec<GrammarRule>>>)
        ensures
            match r {
                Some(alts) => lookup(self@, symbol@) == Some(alts.deep_view()),
                None => lookup(self@, symbol@) is None,
            },
    {
        let n = self.entries.len();
        proof {
            assert(self@.skip(0) =~= self@);
        }
        for i in 0..n
            invariant
                n == self.entries.len(),
                lookup(self@, symbol@) == lookup(self@.skip(i as int), symbol@),
        {
            proof {
                assert(self@.skip(i as int)[0] == self@[i as int]);
            }
            if str_eq(self.entries[i].0.as_str(), symbol) {
                return Some(&self.entries[i].1);
            }
            proof {
                assert(self@.skip(i as int).drop_first() =~= self@.skip(i + 1));
            }
        }
        proof {
            assert(self@.skip(n as int) =~= Seq::<(Seq<char>, Seq<Seq<RuleView>>)>::empty());
        }
        None
    }

    /// Whether every defined symbol has at least one alternative; decides
    /// [`Grammar::wf`] at run time.
    pub fn is_well_formed(&self) -> (b: bool)
        ensures
            b == self.wf(),
    {
        let n = self.entries.len();
        for i in 0..n
            invariant
                n == self.entries.len(),
                forall|j: int| 0 <= j < i ==> self@[j].1.len() > 0,
        {
            if self.entries[i].1.len() == 0 {
                proof {
                    assert(self@[i as int].1.len() == 0);
                }
                return false;
            }
            proof {
                assert(self@[i as int].1.len() > 0);
            }
        }
        true
    }
}

/// The character the hex-digit magic terminal renders `v` as. The threshold
/// is the strict `v > 10`, deliberately kept from the behaviour this engine
/// preserves: `10` renders as `':'` (the character after `'9'`), not as
/// `'A'`, and `'A'` itself never appears.
pub open spec fn hex_quirk_char(v: nat) -> char
    recommends
        v < 16,
{
    if v > 10 {
        ((('A' as u8) + (v - 10) as u8) as u8) as char
    } else {
        ((('0' as u8) + v as u8) as u8) as char
    }
}

/// The character for the lowercase-letter value `l`.
pub open spec fn lower_char(l: nat) -> char
    recommends
        l < 26,
{
    ((('a' as u8) + l as u8) as u8) as char
}

/// The magic terminals: reserved terminal texts that expand to freshly
/// sampled values rather than to their own text.
pub open spec fn is_magic(t: Seq<char>) -> bool {
    ||| t == "MAGIC-u8"@
    ||| t == "MAGIC-u16"@
    ||| t == "MAGIC-u32"@
    ||| t == "MAGIC-AsciiDigit"@
    ||| t == "MAGIC-LowerCaseLetter"@
    ||| t == "MAGIC-HexDigit"@
}

/// What a magic terminal `t` may expand to: a sampled value in the range the
/// token stands for, rendered as text.
pub open spec fn magic_expansion(t: Seq<char>, out: Seq<char>) -> bool {
    if t == "MAGIC-u8"@ {
        exists|n: nat| n <= 255 && out == decimal_chars(n)
    } else if t == "MAGIC-u16"@ {
        exists|n: nat| n <= 65535 && out == decimal_chars(n)
    } else if t == "MAGIC-u32"@ {
        exists|n: nat| n <= 4294967295 && out == decimal_chars(n)
    } else if t == "MAGIC-AsciiDigit"@ {
        exists|d: nat| d < 10 && out == seq![digit_char(d)]
    } else if t == "MAGIC-LowerCaseLetter"@ {
        exists|l: nat| l < 26 && out == seq![lower_char(l)]
    } else if t == "MAGIC-HexDigit"@ {
        exists|v: nat| v < 16 && out == seq![hex_quirk_char(v)]
    } else {
        false
    }
}

fn term(text: &str) -> (r: GrammarRule)
    ensures
        r.deep_view() == RuleView::Terminal(text@),
{
    GrammarRule::Terminal(text.to_owned())
}

fn nonterm(name: &str) -> (r: GrammarRule)
    ensures
        r.deep_view() == RuleView::NonTerminal(name@),
{
    GrammarRule::NonTerminal(name.to_owned())
}

fn prod0() -> (p: Vec<GrammarRule>)
    ensures
        p.deep_view() == Seq::<RuleView>::empty(),
{
    let p: Vec<GrammarRule> = Vec::new();
    proof {
        assert(p.deep_view() =~= Seq::<RuleView>::empty());
    }
    p
}

fn prod1(a: GrammarRule) -> (p: Vec<GrammarRule>)
    ensures
        p.deep_view() == seq![a.deep_view()],
{
    let ghost av = a.deep_view();
    let mut p: Vec<GrammarRule> = Vec::new();
    p.push(a);
    proof {
        assert(p.deep_view() =~= seq![av]);
    }
    p
}

fn prod2(a: GrammarRule, b: GrammarRule) -> (p: Vec<GrammarRule>)
    ensures
        p.deep_view() == seq![a.deep_view(), b.deep_view()],
{
    let ghost av = a.deep_view();
    let ghost bv = b.deep_view();
    let mut p: Vec<GrammarRule> = Vec::new();
    p.push(a);
    p.push(b);
    proof {
        assert(p.deep_view() =~= seq![av, bv]);
    }
    p
}

fn prod3(a: GrammarRule, b: GrammarRule, c: GrammarRule) -> (p: Vec<GrammarRule>)
    ensures
        p.deep_view() == seq![a.deep_view(), b.deep_view(), c.deep_view()],
{
    let ghost av = a.deep_view();
    let ghost bv = b.deep_view();
    let ghost cv = c.deep_view();
    let mut p: Vec<GrammarRule> = Vec::new();
    p.push(a);
    p.push(b);
    p.push(c);
    proof {
        assert(p.deep_view() =~= seq![av, bv, cv]);
    }
    p
}

fn alts1(p1: Vec<GrammarRule>) -> (v: Vec<Vec<GrammarRule>>)
    ensures
        v.deep_view() == seq![p1.deep_view()],
{
    let ghost v1 = p1.deep_view();
    let mut v: Vec<Vec<GrammarRule>> = Vec::new();
    v.push(p1);
    proof {
        assert(v.deep_view() =~= seq![v1]);
    }
    v
}

fn alts2(p1: Vec<GrammarRule>, p2: Vec<GrammarRule>) -> (v: Vec<Vec<GrammarRule>>)
    ensures
        v.deep_view() == seq![p1.deep_view(), p2.deep_view()],
{
    let ghost v1 = p1.deep_view();
    let ghost v2 = p2.deep_view();
    let mut v: Vec<Vec<GrammarRule>> = Vec::new();
    v.push(p1);
    v.push(p2);
    proof {
        assert(v.deep_view() =~= seq![v1, v2]);
    }
    v
}

fn alts3(p1: Vec<GrammarRule>, p2: Vec<GrammarRule>, p3: Vec<GrammarRule>) -> (v: Vec<
    Vec<GrammarRule>,
>)
    ensures
        v.deep_view() == seq![p1.deep_view(), p2.deep_view(), p3.deep_view()],
{
    let ghost v1 = p1.deep_view();
    let ghost v2 = p2.deep_view();
    let ghost v3 = p3.deep_view();
    let mut v: Vec<Vec<GrammarRule>> = Vec::new();
    v.push(p1);
    v.push(p2);
    v.push(p3);
    proof {
        assert(v.deep_view() =~= seq![v1, v2, v3]);
    }
    v
}

/// The built-in grammar of CGI-encoded strings, entries in lookup order
/// (the symbol defined last stands first).
pub open spec fn cgi_grammar_model() -> GrammarModel {
    seq![
        (
            "Other"@,
            seq![
                seq![RuleView::Terminal("MAGIC-AsciiDigit"@)],
                seq![RuleView::Terminal("MAGIC-LowerCaseLetter"@)],
                seq![RuleView::Terminal("MAGIC-HexDigit"@)],
            ],
        ),
        (
            "Percent"@,
            seq![
                seq![
                    RuleView::Terminal("%"@),
                    RuleView::Terminal("MAGIC-HexDigit"@),
                    RuleView::Terminal("MAGIC-HexDigit"@),
                ],
            ],
        ),
        ("Plus"@, seq![seq![RuleView::Terminal("+"@)]]),
        (
            "Letter"@,
            seq![
                seq![RuleView::NonTerminal("Plus"@)],
                seq![RuleView::NonTerminal("Percent"@)],
                seq![RuleView::NonTerminal("Other"@)],
            ],
        ),
        (
            "String"@,
            seq![
                seq![RuleView::NonTerminal("Letter"@)],
                seq![RuleView::NonTerminal("Letter"@), RuleView::NonTerminal("String"@)],
            ],
        ),
        ("Start"@, seq![seq![RuleView::NonTerminal("String"@)]]),
    ]
}

/// Build the CGI-string grammar: percent escapes, plus signs, and single
/// characters, as a generator of CGI-encoded input.
pub fn create_cgi_grammar() -> (g: Grammar)
    ensures
        g@ == cgi_grammar_model(),
        g.wf(),
{
    let mut g = Grammar::new();
    g.insert(GRAMMAR_ENTRY.to_owned(), alts1(prod1(nonterm("String"))));
    g.insert(
        "String".to_owned(),
        alts2(prod1(nonterm("Letter")), prod2(nonterm("Letter"), nonterm("String"))),
    );
    g.insert(
        "Letter".to_owned(),
        alts3(prod1(nonterm("Plus")), prod1(nonterm("Percent")), prod1(nonterm("Other"))),
    );
    g.insert("Plus".to_owned(), alts1(prod1(term("+"))));
    g.insert(
        "Percent".to_owned(),
        alts1(prod3(term("%"), term("MAGIC-HexDigit"), term("MAGIC-HexDigit"))),
    );
    g.insert(
        "Other".to_owned(),
        alts3(
            prod1(term("MAGIC-AsciiDigit")),
            prod1(term("MAGIC-LowerCaseLetter")),
            prod1(term("MAGIC-HexDigit")),
        ),
    );
    proof {
        assert(g@ =~~= cgi_grammar_model());
    }
    g
}

/// The built-in grammar of arithmetic expressions, entries in lookup order
/// (the symbol defined last stands first).
pub open spec fn calculation_grammar_model() -> GrammarModel {
    seq![
        (
            "Factor"@,
            seq![
                seq![RuleView::Terminal("MAGIC-u8"@)],
                seq![RuleView::Terminal("("@), RuleView::Terminal(")"@)],
            ],
        ),
        (
            "TermTail"@,
            seq![
                seq![
                    RuleView::Terminal("*"@),
                    RuleView::NonTerminal("Factor"@),
                    RuleView::NonTerminal("TermTail"@),
                ],
                seq![
                    RuleView::Terminal("/"@),
                    RuleView::NonTerminal("Factor"@),
                    RuleView::NonTerminal("TermTail"@),
                ],
                Seq::<RuleView>::empty(),
            ],
        ),
        (
            "Term"@,
            seq![seq![RuleView::NonTerminal("Factor"@), RuleView::NonTerminal("TermTail"@)]],
        ),
        (
            "ExprTail"@,
            seq![
                seq![
                    RuleView::Terminal("+"@),
                    RuleView::NonTerminal("Term"@),
                    RuleView::NonTerminal("ExprTail"@),
                ],
                seq![
                    RuleView::Terminal("-"@),
                    RuleView::NonTerminal("Term"@),
                    RuleView::NonTerminal("ExprTail"@),
                ],
                Seq::<RuleView>::empty(),
            ],
        ),
        (
            "Start"@,
            seq![seq![RuleView::NonTerminal("Term"@), RuleView::NonTerminal("ExprTail"@)]],
        ),
    ]
}

/// Build the arithmetic-expression grammar: sums and products of small
/// numbers and empty parentheses.
pub fn create_grammar_calculation() -> (g: Grammar)
    ensures
        g@ == calculation_grammar_model(),
        g.wf(),
{
    let mut g = Grammar::new();
    g.insert(GRAMMAR_ENTRY.to_owned(), alts1(prod2(nonterm("Term"), nonterm("ExprTail"))));
    g.insert(
        "ExprTail".to_owned(),
        alts3(
            prod3(term("+"), nonterm("Term"), nonterm("ExprTail")),
            prod3(term("-"), nonterm("Term"), nonterm("ExprTail")),
            prod0(),
        ),
    );
    g.insert("Term".to_owned(), alts1(prod2(nonterm("Factor"), nonterm("TermTail"))));
    g.insert(
        "TermTail".to_owned(),
        alts3(
            prod3(term("*"), nonterm("Factor"), nonterm("TermTail")),
            prod3(term("/"), nonterm("Factor"), nonterm("TermTail")),
            prod0(),
        ),
    );
    g.insert("Factor".to_owned(), alts2(prod1(term("MAGIC-u8")), prod2(term("("), term(")"))));
    proof {
        assert(g@ =~~= calculation_grammar_model());
    }
    g
}

/// Holds when `out` is one expansion of `sym` in `g` within `depth` nested
/// symbol expansions: an undefined symbol yields the empty string, a defined
/// symbol the expansion of one of its alternatives, and an exhausted depth
/// degrades to [`degraded_expansion`]: a shortest terminal-only alternative
/// where the symbol has one, the empty string where every alternative
/// recurses.
pub open spec fn expansion_of(g: GrammarModel, sym: Seq<char>, out: Seq<char>, depth: nat) -> bool
    decreases depth, 0nat, 0nat,
{
    match lookup(g, sym) {
        Option::None => out.len() == 0,
        Option::Some(alts) => {
            if depth == 0 {
                degraded_expansion(alts, out)
            } else {
                exists|i: int|
                    0 <= i < alts.len() && production_expansion(g, alts[i], out, (depth - 1) as nat)
            }
        },
    }
}

/// A production of terminal tokens only: one that expands without any
/// further symbol lookup.
pub open spec fn terminal_only(prod: Seq<RuleView>) -> bool {
    forall|i: int| 0 <= i < prod.len() ==> prod[i] is Terminal
}

/// `alts[i]` is a terminal-only alternative no longer than any other
/// terminal-only alternative of `alts`.
pub open spec fn shortest_terminal_alternative(alts: Seq<Seq<RuleView>>, i: int) -> bool {
    &&& 0 <= i < alts.len()
    &&& terminal_only(alts[i])
    &&& forall|j: int|
        0 <= j < alts.len() && terminal_only(#[trigger] alts[j]) ==> alts[i].len() <= alts[j].len()
}

/// One expansion of a single token that needs no symbol lookup: a magic
/// terminal becomes a sampled value, ordinary terminal text is emitted
/// verbatim; a non-terminal has no such expansion.
pub open spec fn terminal_token_expansion(tok: RuleView, out: Seq<char>) -> bool {
    match tok {
        RuleView::Terminal(t) => if is_magic(t) {
            magic_expansion(t, out)
        } else {
            out == t
        },
        RuleView::NonTerminal(_) => false,
    }
}

/// The concatenation, in order, of one expansion of each token of a
/// terminal-only production.
pub open spec fn terminal_production_expansion(prod: Seq<RuleView>, out: Seq<char>) -> bool
    decreases prod.len(),
{
    if prod.len() == 0 {
        out.len() == 0
    } else {
        exists|k: int|
            0 <= k <= out.len() && terminal_token_expansion(prod[0], out.take(k))
                && terminal_production_expansion(prod.drop_first(), out.skip(k))
    }
}

/// What an exhausted expansion yields: a shortest terminal-only alternative
/// of the symbol, expanded; the empty string when every alternative still
/// needs another symbol.
pub open spec fn degraded_expansion(alts: Seq<Seq<RuleView>>, out: Seq<char>) -> bool {
    if exists|i: int| 0 <= i < alts.len() && terminal_only(#[trigger] alts[i]) {
        exists|i: int|
            shortest_terminal_alternative(alts, i) && terminal_production_expansion(alts[i], out)
    } else {
        out.len() == 0
    }
}

/// Holds when `out` is one expansion of the single token `tok`: a magic
/// terminal becomes a sampled value, ordinary terminal text is emitted
/// verbatim, and a non-terminal expands recursively.
pub open spec fn token_expansion(g: GrammarModel, tok: RuleView, out: Seq<char>, depth: nat) -> bool
    decreases depth, 1nat, 0nat,
{
    match tok {
        RuleView::Terminal(t) => if is_magic(t) {
            magic_expansion(t, out)
        } else {
            out == t
        },
        RuleView::NonTerminal(s) => expansion_of(g, s, out, depth),
    }
}

/// Holds when `out` is the concatenation, in order and with no separator, of
/// one expansion of each token of `prod`.
pub open spec fn production_expansion(
    g: GrammarModel,
    prod: Seq<RuleView>,
    out: Seq<char>,
    depth: nat,
) -> bool
    decreases depth, 2nat, prod.len(),
{
    if prod.len() == 0 {
        out.len() == 0
    } else {
        exists|k: int|
            0 <= k <= out.len() && token_expansion(g, prod[0], out.take(k), depth)
                && production_expansion(g, prod.drop_first(), out.skip(k), depth)
    }
}

/// Appending one token to a production appends one expansion of that token
/// to the production's expansion.
proof fn lemma_production_snoc(
    g: GrammarModel,
    prod: Seq<RuleView>,
    tok: RuleView,
    out1: Seq<char>,
    out2: Seq<char>,
    depth: nat,
)
    requires
        production_expansion(g, prod, out1, depth),
        token_expansion(g, tok, out2, depth),
    ensures
        production_expansion(g, prod.push(tok), out1 + out2, depth),
    decreases prod.len(),
{
    let whole = out1 + out2;
    let snoc = prod.push(tok);
    if prod.len() == 0 {
        assert(whole =~= out2);
        assert(snoc.drop_first() =~= prod);
        let k = out2.len() as int;
        assert(whole.take(k) =~= out2);
        assert(whole.skip(k) =~= Seq::<char>::empty());
        assert(token_expansion(g, snoc[0], whole.take(k), depth));
        assert(production_expansion(g, snoc.drop_first(), whole.skip(k), depth));
    } else {
        let k = choose|k: int|
            0 <= k <= out1.len() && token_expansion(g, prod[0], #[trigger] out1.take(k), depth)
                && production_expansion(g, prod.drop_first(), out1.skip(k), depth);
        lemma_production_snoc(g, prod.drop_first(), tok, out1.skip(k), out2, depth);
        assert(snoc.drop_first() =~= prod.drop_first().push(tok));
        assert(whole.take(k) =~= out1.take(k));
        assert(whole.skip(k) =~= out1.skip(k) + out2);
        assert(token_expansion(g, snoc[0], whole.take(k), depth));
        assert(production_expansion(g, snoc.drop_first(), whole.skip(k), depth));
        assert(0 <= k <= whole.len());
    }
}

/// In a well-formed grammar every defined symbol has an alternative.
proof fn lemma_lookup_wf(g: GrammarModel, sym: Seq<char>)
    requires
        model_wf(g),
        lookup(g, sym) is Some,
    ensures
        lookup(g, sym).unwrap().len() > 0,
    decreases g.len(),
{
    if g.len() > 0 && g[0].0 != sym {
        assert(forall|i: int| 0 <= i < g.drop_first().len() ==> g.drop_first()[i] == g[i + 1]);
        lemma_lookup_wf(g.drop_first(), sym);
    }
}

/// Appending one terminal token to a terminal-only production appends one
/// expansion of that token to the production's expansion.
proof fn lemma_terminal_production_snoc(
    prod: Seq<RuleView>,
    tok: RuleView,
    out1: Seq<char>,
    out2: Seq<char>,
)
    requires
        terminal_production_expansion(prod, out1),
        terminal_token_expansion(tok, out2),
    ensures
        terminal_production_expansion(prod.push(tok), out1 + out2),
    decreases prod.len(),
{
    let whole = out1 + out2;
    let snoc = prod.push(tok);
    if prod.len() == 0 {
        assert(whole =~= out2);
        assert(snoc.drop_first() =~= prod);
        let k = out2.len() as int;
        assert(whole.take(k) =~= out2);
        assert(whole.skip(k) =~= Seq::<char>::empty());
        assert(terminal_token_expansion(snoc[0], whole.take(k)));
        assert(terminal_production_expansion(snoc.drop_first(), whole.skip(k)));
    } else {
        let k = choose|k: int|
            0 <= k <= out1.len() && terminal_token_expansion(prod[0], #[trigger] out1.take(k))
                && terminal_production_expansion(prod.drop_first(), out1.skip(k));
        lemma_terminal_production_snoc(prod.drop_first(), tok, out1.skip(k), out2);
        assert(snoc.drop_first() =~= prod.drop_first().push(tok));
        assert(whole.take(k) =~= out1.take(k));
        assert(whole.skip(k) =~= out1.skip(k) + out2);
        assert(terminal_token_expansion(snoc[0], whole.take(k)));
        assert(terminal_production_expansion(snoc.drop_first(), whole.skip(k)));
        assert(0 <= k <= whole.len());
    }
}

/// Whether the production holds terminal tokens only.
fn is_terminal_only(prod: &Vec<GrammarRule>) -> (b: bool)
    ensures
        b == terminal_only(prod.deep_view()),
{
    let n = prod.len();
    for i in 0..n
        invariant
            n == prod@.len(),
            forall|j: int| 0 <= j < i ==> prod.deep_view()[j] is Terminal,
    {
        proof {
            assert(prod.deep_view()[i as int] == prod@[i as int].deep_view());
        }
        match &prod[i] {
            GrammarRule::Terminal(_) => {},
            GrammarRule::NonTerminal(_) => {
                return false;
            },
        }
    }
    true
}

/// The index of a shortest terminal-only alternative, if any alternative is
/// terminal-only at all.
fn find_shortest_terminal_alternative(alts: &Vec<Vec<GrammarRule>>) -> (r: Option<usize>)
    ensures
        match r {
            Some(i) => shortest_terminal_alternative(alts.deep_view(), i as int),
            None => forall|j: int|
                0 <= j < alts.deep_view().len() ==> !terminal_only(#[trigger] alts.deep_view()[j]),
        },
{
    let mut best: Option<usize> = None;
    let n = alts.len();
    for idx in 0..n
        invariant
            n == alts@.len(),
            match best {
                Some(b) => b < idx && terminal_only(alts.deep_view()[b as int]) && forall|j: int|
                    0 <= j < idx && terminal_only(#[trigger] alts.deep_view()[j]) ==> alts.deep_view()[b as int].len() <= alts.deep_view()[j].len(),
                None => forall|j: int|
                    0 <= j < idx ==> !terminal_only(#[trigger] alts.deep_view()[j]),
            },
    {
        proof {
            assert(alts.deep_view()[idx as int] == alts@[idx as int].deep_view());
        }
        if is_terminal_only(&alts[idx]) {
            match best {
                None => {
                    best = Some(idx);
                },
                Some(b) => {
                    if alts[idx].len() < alts[b].len() {
                        best = Some(idx);
                    }
                },
            }
        }
    }
    best
}

/// Expand a terminal-only production: sample every magic terminal, emit
/// every other terminal verbatim, concatenate in order.
fn expand_terminal_production(prod: &Vec<GrammarRule>, rng: &mut RandomSource) -> (out: String)
    requires
        terminal_only(prod.deep_view()),
    ensures
        terminal_production_expansion(prod.deep_view(), out@),
{
    let ghost prod_v = prod.deep_view();
    let mut out = String::new();
    proof {
        assert(prod_v.take(0) =~= Seq::<RuleView>::empty());
        assert(terminal_production_expansion(prod_v.take(0), out@));
    }
    let n = prod.len();
    for j in 0..n
        invariant
            n == prod.len(),
            prod.deep_view() == prod_v,
            terminal_only(prod_v),
            terminal_production_expansion(prod_v.take(j as int), out@),
    {
        let ghost out_before = out@;
        let ghost tok_v = prod_v[j as int];
        proof {
            assert(prod@[j as int].deep_view() == prod_v[j as int]);
        }
        match &prod[j] {
            GrammarRule::Terminal(t) => {
                let special = match_special_expression(t.as_str(), rng);
                match special {
                    Some(s) => {
                        proof {
                            assert(terminal_token_expansion(tok_v, s@));
                        }
                        out.append(s.as_str());
                        proof {
                            assert(out@.skip(out_before.len() as int) =~= s@);
                        }
                    },
                    None => {
                        proof {
                            assert(terminal_token_expansion(tok_v, t@));
                        }
                        out.append(t.as_str());
                        proof {
                            assert(out@.skip(out_before.len() as int) =~= t@);
                        }
                    },
                }
            },
            GrammarRule::NonTerminal(_) => {
                proof {
                    assert(false);
                }
            },
        }
        proof {
            lemma_terminal_production_snoc(
                prod_v.take(j as int),
                tok_v,
                out_before,
                out@.skip(out_before.len() as int),
            );
            assert(out_before + out@.skip(out_before.len() as int) =~= out@);
            assert(prod_v.take(j as int).push(tok_v) =~= prod_v.take(j + 1));
        }
    }
    proof {
        assert(prod_v.take(n as int) =~= prod_v);
    }
    out
}

/// The exhausted-depth expansion of a symbol: its shortest terminal-only
/// alternative, expanded; the empty string when every alternative still
/// needs another symbol.
fn expand_exhausted(alts: &Vec<Vec<GrammarRule>>, rng: &mut RandomSource) -> (out: String)
    ensures
        degraded_expansion(alts.deep_view(), out@),
{
    let pick = find_shortest_terminal_alternative(alts);
    match pick {
        None => String::new(),
        Some(i) => {
            proof {
                assert(alts.deep_view()[i as int] == alts@[i as int].deep_view());
            }
            expand_terminal_production(&alts[i], rng)
        },
    }
}

/// How many nested symbol expansions [`generate`] allows before an
/// expansion degrades to the exhausted symbol's shortest terminal-only
/// alternative.
pub const DEFAULT_EXPANSION_DEPTH: u64 = 256;

/// Expand `symbol` using `grammar`, with at most `depth` nested symbol
/// expansions.
pub fn generate_bounded(grammar: &Grammar, symbol: &str, rng: &mut RandomSource, depth: u64) -> (out:
    String)
    requires
        grammar.wf(),
    ensures
        expansion_of(grammar@, symbol@, out@, depth as nat),
    decreases depth,
{
    let alts_opt = grammar.alternatives_of(symbol);
    let alts = match alts_opt {
        None => {
            return String::new();
        },
        Some(alts) => alts,
    };
    proof {
        lemma_lookup_wf(grammar@, symbol@);
    }
    if depth == 0 {
        return expand_exhausted(alts, rng);
    }
    let ghost d1 = (depth - 1) as nat;
    let idx64 = rng.next_in_range(0, alts.len() as u64);
    let idx = idx64 as usize;
    let prod: &Vec<GrammarRule> = &alts[idx];
    let ghost prod_v = alts.deep_view()[idx as int];
    proof {
        assert(prod.deep_view() == prod_v);
    }
    let mut out = String::new();
    proof {
        assert(prod_v.take(0) =~= Seq::<RuleView>::empty());
        assert(production_expansion(grammar@, prod_v.take(0), out@, d1));
    }
    let n = prod.len();
    for j in 0..n
        invariant
            grammar.wf(),
            depth >= 1,
            d1 == (depth - 1) as nat,
            n == prod.len(),
            prod.deep_view() == prod_v,
            production_expansion(grammar@, prod_v.take(j as int), out@, d1),
    {
        let ghost out_before = out@;
        let ghost tok_v = prod_v[j as int];
        proof {
            assert(prod@[j as int].deep_view() == prod_v[j as int]);
        }
        match &prod[j] {
            GrammarRule::Terminal(t) => {
                let special = match_special_expression(t.as_str(), rng);
                match special {
                    Some(s) => {
                        proof {
                            assert(token_expansion(grammar@, tok_v, s@, d1));
                        }
                        out.append(s.as_str());
                        proof {
                            assert(out@.skip(out_before.len() as int) =~= s@);
                        }
                    },
                    None => {
                        proof {
                            assert(token_expansion(grammar@, tok_v, t@, d1));
                        }
                        out.append(t.as_str());
                        proof {
                            assert(out@.skip(out_before.len() as int) =~= t@);
                        }
                    },
                }
            },
            GrammarRule::NonTerminal(nt) => {
                let s = generate_bounded(grammar, nt.as_str(), rng, depth - 1);
                proof {
                    assert(token_expansion(grammar@, tok_v, s@, d1));
                }
                out.append(s.as_str());
                proof {
                    assert(out@.skip(out_before.len() as int) =~= s@);
                }
            },
        }
        proof {
            lemma_production_snoc(
                grammar@,
                prod_v.take(j as int),
                tok_v,
                out_before,
                out@.skip(out_before.len() as int),
                d1,
            );
            assert(out_before + out@.skip(out_before.len() as int) =~= out@);
            assert(prod_v.take(j as int).push(tok_v) =~= prod_v.take(j + 1));
        }
    }
    proof {
        assert(prod_v.take(n as int) =~= prod_v);
        let alts_v = lookup(grammar@, symbol@).unwrap();
        assert(alts_v[idx as int] == prod_v);
        assert(production_expansion(grammar@, alts_v[idx as int], out@, d1));
    }
    out
}

/// Expand `symbol` using `grammar` into a concrete string; an undefined
/// symbol yields the empty string. Termination is unconditional: a
/// self-referential expansion deeper than [`DEFAULT_EXPANSION_DEPTH`]
/// degrades there to the exhausted symbol's shortest terminal-only
/// alternative, or to the empty string when every alternative of that
/// symbol recurses.
pub fn generate(grammar: &Grammar, symbol: &str, rng: &mut RandomSource) -> (out: String)
    requires
        grammar.wf(),
    ensures
        expansion_of(grammar@, symbol@, out@, DEFAULT_EXPANSION_DEPTH as nat),
{
    generate_bounded(grammar, symbol, rng, DEFAULT_EXPANSION_DEPTH)
}

/// Magic-terminal substitution never leaves the literal magic token text in
/// the output, and every sampled value lies within its documented range:
/// decimal text for the three integer tokens, one character in `0`-`9`,
/// `a`-`z`, or — for the hex digit, under the preserved threshold quirk —
/// one of `0`-`9`, `:`, `B`-`F`.
pub proof fn lemma_magic_expansion_in_range(t: Seq<char>, out: Seq<char>)
    requires
        is_magic(t),
        magic_expansion(t, out),
    ensures
        out != t,
        out.len() > 0,
        (t == "MAGIC-u8"@ || t == "MAGIC-u16"@ || t == "MAGIC-u32"@) ==> forall|i: int|
            0 <= i < out.len() ==> '0' <= #[trigger] out[i] <= '9',
        t == "MAGIC-AsciiDigit"@ ==> out.len() == 1 && '0' <= out[0] <= '9',
        t == "MAGIC-LowerCaseLetter"@ ==> out.len() == 1 && 'a' <= out[0] <= 'z',
        t == "MAGIC-HexDigit"@ ==> out.len() == 1 && ('0' <= out[0] <= '9' || out[0] == ':' || (
        'B' <= out[0] <= 'F')),
{
    reveal_strlit("MAGIC-u8");
    reveal_strlit("MAGIC-u16");
    reveal_strlit("MAGIC-u32");
    reveal_strlit("MAGIC-AsciiDigit");
    reveal_strlit("MAGIC-LowerCaseLetter");
    reveal_strlit("MAGIC-HexDigit");
    assert("MAGIC-u8"@.len() == 8);
    assert("MAGIC-u16"@.len() == 9);
    assert("MAGIC-u32"@.len() == 9);
    assert("MAGIC-AsciiDigit"@.len() == 16);
    assert("MAGIC-LowerCaseLetter"@.len() == 21);
    assert("MAGIC-HexDigit"@.len() == 14);
    assert("MAGIC-u16"@[7] == '1' && "MAGIC-u32"@[7] == '3');
    if t == "MAGIC-u8"@ || t == "MAGIC-u16"@ || t == "MAGIC-u32"@ {
        let n = choose|n: nat| out == decimal_chars(n);
        lemma_decimal_chars_digits(n);
        assert(t[0] == 'M');
        assert(out[0] != 'M');
    } else if t == "MAGIC-AsciiDigit"@ {
        let d = choose|d: nat| d < 10 && out == seq![digit_char(d)];
        assert(out[0] == digit_char(d));
        assert('0' <= out[0] <= '9');
        assert(t.len() > 1);
    } else if t == "MAGIC-LowerCaseLetter"@ {
        let l = choose|l: nat| l < 26 && out == seq![lower_char(l)];
        assert(out[0] == lower_char(l));
        assert('a' <= out[0] <= 'z');
        assert(t.len() > 1);
    } else {
        let v = choose|v: nat| v < 16 && out == seq![hex_quirk_char(v)];
        assert(out[0] == hex_quirk_char(v));
        if v > 10 {
            assert('B' <= out[0] <= 'F');
        } else {
            assert('0' <= out[0] <= ':');
        }
        assert(t.len() > 1);
    }
}

/// Resolve a magic terminal: a freshly sampled value for recognized token
/// texts, `None` for ordinary terminal text, which the expansion emits
/// verbatim.
pub fn match_special_expression(expr: &str, rng: &mut RandomSource) -> (r: Option<String>)
    ensures
        match r {
            Some(s) => is_magic(expr@) && magic_expansion(expr@, s@),
            None => !is_magic(expr@),
        },
{
    if str_eq(expr, "MAGIC-u8") {
        let n = rng.next_in_range(0, 256);
        let s = decimal_string(n);
        proof {
            assert(n as nat <= 255 && s@ == decimal_chars(n as nat));
        }
        Some(s)
    } else if str_eq(expr, "MAGIC-u16") {
        let n = rng.next_in_range(0, 65536);
        let s = decimal_string(n);
        proof {
            assert(n as nat <= 65535 && s@ == decimal_chars(n as nat));
        }
        Some(s)
    } else if str_eq(expr, "MAGIC-u32") {
        let n = rng.next_in_range(0, 4294967296);
        let s = decimal_string(n);
        proof {
            assert(n as nat <= 4294967295 && s@ == decimal_chars(n as nat));
        }
        Some(s)
    } else if str_eq(expr, "MAGIC-AsciiDigit") {
        let d = rng.next_in_range(0, 10);
        let s = single_char_string(('0' as u8 + d as u8) as char);
        proof {
            assert((d as nat) < 10 && s@ == seq![digit_char(d as nat)]);
        }
        Some(s)
    } else if str_eq(expr, "MAGIC-LowerCaseLetter") {
        let l = rng.next_in_range(0, 26);
        let s = single_char_string(('a' as u8 + l as u8) as char);
        proof {
            assert((l as nat) < 26 && s@ == seq![lower_char(l as nat)]);
        }
        Some(s)
    } else if str_eq(expr, "MAGIC-HexDigit") {
        let v = rng.next_in_range(0, 16);
        let c = if v > 10 {
            ('A' as u8 + (v - 10) as u8) as char
        } else {
            ('0' as u8 + v as u8) as char
        };
        let s = single_char_string(c);
        proof {
            assert((v as nat) < 16 && s@ == seq![hex_quirk_char(v as nat)]);
        }
        Some(s)
    } else {
        None
    }
}

} // verus!
