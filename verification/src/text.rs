//! Characters and strings: decimal rendering and small string helpers,
//! shared by the expansion engine and the reporting code.

use vstd::prelude::*;

verus! {

/// The character for the decimal digit `d`.
pub open spec fn digit_char(d: nat) -> char
    recommends
        d < 10,
{
    ((('0' as u8) + d) as u8) as char
}

/// The decimal rendering of `n`, most significant digit first, with no
/// leading zeros (a single `'0'` for zero).
pub open spec fn decimal_chars(n: nat) -> Seq<char>
    decreases n,
{
    if n < 10 {
        seq![digit_char(n)]
    } else {
        decimal_chars(n / 10).push(digit_char(n % 10))
    }
}


/// Whether two string slices hold the same characters.
pub fn str_eq(a: &str, b: &str) -> (r: bool)
    ensures
        r == (a@ == b@),
{
    let a_owned: String = a.to_owned();
    let b_owned: String = b.to_owned();
    a_owned == b_owned
}

/// Relies on `String: FromIterator<char>`: collecting characters yields the
/// string of exactly those characters in order.
#[verifier::external_body]
pub(crate) fn chars_to_string(v: Vec<char>) -> (s: String)
    ensures
        s@ == v@,
{
    v.into_iter().collect()
}

/// Append the decimal digits of `n` to `out`, most significant first.
pub(crate) fn push_decimal(n: u64, out: &mut Vec<char>)
    ensures
        final(out)@ == old(out)@ + decimal_chars(n as nat),
    decreases n,
{
    if n >= 10 {
        push_decimal(n / 10, out);
    }
    let d = (n % 10) as u8;
    out.push(('0' as u8 + d) as char);
    proof {
        if n < 10 {
            assert(final(out)@ =~= old(out)@ + decimal_chars(n as nat));
        } else {
            assert(final(out)@ =~= old(out)@ + decimal_chars(n as nat));
        }
    }
}

/// The decimal rendering of `n` as a string.
pub fn decimal_string(n: u64) -> (s: String)
    ensures
        s@ == decimal_chars(n as nat),
{
    let mut chars: Vec<char> = Vec::new();
    push_decimal(n, &mut chars);
    proof {
        assert(chars@ =~= decimal_chars(n as nat));
    }
    chars_to_string(chars)
}

/// A string of the single character `c`.
pub(crate) fn single_char_string(c: char) -> (s: String)
    ensures
        s@ == seq![c],
{
    let mut chars: Vec<char> = Vec::new();
    chars.push(c);
    proof {
        assert(chars@ =~= seq![c]);
    }
    chars_to_string(chars)
}


/// Every character of a decimal rendering is a decimal digit.
pub proof fn lemma_decimal_chars_digits(n: nat)
    ensures
        decimal_chars(n).len() > 0,
        forall|i: int| 0 <= i < decimal_chars(n).len() ==> '0' <= #[trigger] decimal_chars(n)[i]
            <= '9',
    decreases n,
{
    if n >= 10 {
        lemma_decimal_chars_digits(n / 10);
    }
}


} // verus!
