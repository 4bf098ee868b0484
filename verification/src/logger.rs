//! Reporting: crash and internal-error notices for single runs.
//!
//! All output goes through one line-printing wrapper; the text itself is
//! assembled by verified code, with the byte renderings of
//! [`rendered_ascii`] and [`byte_list_chars`].

use std::io::Write;

use vstd::prelude::*;
use vstd::string::StringExecFns;

use crate::runner::RunnerProgramResult;
use crate::text::{chars_to_string, decimal_chars, decimal_string, push_decimal};

verus! {

/// Relies on the `std::io::Write` impl of `std::io::Stdout`: prints the line
/// and claims nothing.
#[verifier::external_body]
pub(crate) fn print_line(s: &str) {
    let _ = writeln!(std::io::stdout(), "{}", s);
}

/// The best-effort text rendering of one byte: printable ASCII stands for
/// itself, everything else shows as `'.'`.
pub open spec fn render_byte(b: u8) -> char {
    if 0x20 <= b < 0x7f {
        b as char
    } else {
        '.'
    }
}

/// The best-effort text rendering of a byte sequence.
pub open spec fn rendered_ascii(s: Seq<u8>) -> Seq<char> {
    Seq::new(s.len(), |i: int| render_byte(s[i]))
}

/// Render `bytes` as best-effort text.
pub fn render_ascii(bytes: &Vec<u8>) -> (r: String)
    ensures
        r@ == rendered_ascii(bytes@),
{
    let mut chars: Vec<char> = Vec::new();
    let n = bytes.len();
    for i in 0..n
        invariant
            n == bytes@.len(),
            chars@ =~= rendered_ascii(bytes@).take(i as int),
    {
        let b = bytes[i];
        let c = if 0x20 <= b && b < 0x7f {
            b as char
        } else {
            '.'
        };
        chars.push(c);
        proof {
            assert(chars@ =~= rendered_ascii(bytes@).take(i + 1));
        }
    }
    proof {
        assert(chars@ =~= rendered_ascii(bytes@));
    }
    chars_to_string(chars)
}

/// The decimal values of `s`, comma-separated.
pub open spec fn byte_list_body(s: Seq<u8>) -> Seq<char>
    decreases s.len(),
{
    if s.len() == 0 {
        Seq::<char>::empty()
    } else if s.len() == 1 {
        decimal_chars(s[0] as nat)
    } else {
        byte_list_body(s.drop_last()) + seq![',', ' '] + decimal_chars(s.last() as nat)
    }
}

/// The decimal listing of `s` in brackets.
pub open spec fn byte_list_chars(s: Seq<u8>) -> Seq<char> {
    seq!['['] + byte_list_body(s) + seq![']']
}

/// Render `bytes` as a bracketed decimal listing.
pub fn byte_list_string(bytes: &Vec<u8>) -> (r: String)
    ensures
        r@ == byte_list_chars(bytes@),
{
    let mut chars: Vec<char> = Vec::new();
    chars.push('[');
    let n = bytes.len();
    for i in 0..n
        invariant
            n == bytes@.len(),
            chars@ =~= seq!['['] + byte_list_body(bytes@.take(i as int)),
    {
        if i > 0 {
            chars.push(',');
            chars.push(' ');
        }
        push_decimal(bytes[i] as u64, &mut chars);
        proof {
            assert(bytes@.take(i + 1).drop_last() =~= bytes@.take(i as int));
            assert(chars@ =~= seq!['['] + byte_list_body(bytes@.take(i + 1)));
        }
    }
    chars.push(']');
    proof {
        assert(bytes@.take(n as int) =~= bytes@);
        assert(chars@ =~= byte_list_chars(bytes@));
    }
    chars_to_string(chars)
}

/// Print a crash notice: the seed that crashed the target, raw and as text,
/// and the exit code.
pub fn log_crash(res: &RunnerProgramResult) {
    print_line("Crash Found!");
    let mut line = String::new();
    line.append("Seed:        ");
    let listing = byte_list_string(&res.result.seed);
    line.append(listing.as_str());
    print_line(line.as_str());
    let mut ascii_line = String::new();
    ascii_line.append("Seed Ascii:  ");
    let rendering = render_ascii(&res.result.seed);
    ascii_line.append(rendering.as_str());
    print_line(ascii_line.as_str());
    let mut code_line = String::new();
    code_line.append("Return code: ");
    let code = decimal_string(res.return_code as u64);
    code_line.append(code.as_str());
    print_line(code_line.as_str());
}

/// Print an internal-error notice: the run could not be performed; shows
/// the seed and the captured diagnostics.
pub fn log_internal_error(res: &RunnerProgramResult) {
    print_line("Internal Error while fuzzing");
    let mut line = String::new();
    line.append("Seed:        ");
    let listing = byte_list_string(&res.result.seed);
    line.append(listing.as_str());
    print_line(line.as_str());
    let mut ascii_line = String::new();
    ascii_line.append("Seed Ascii:  ");
    let rendering = render_ascii(&res.result.seed);
    ascii_line.append(rendering.as_str());
    print_line(ascii_line.as_str());
    let mut code_line = String::new();
    code_line.append("Return code: ");
    let code = decimal_string(res.return_code as u64);
    code_line.append(code.as_str());
    print_line(code_line.as_str());
    let mut out_line = String::new();
    out_line.append("Stdout:      ");
    let out_rendering = render_ascii(&res.output_stdout);
    out_line.append(out_rendering.as_str());
    print_line(out_line.as_str());
    let mut err_line = String::new();
    err_line.append("Stderr:      ");
    let err_rendering = render_ascii(&res.output_stderr);
    err_line.append(err_rendering.as_str());
    print_line(err_line.as_str());
}

} // verus!
