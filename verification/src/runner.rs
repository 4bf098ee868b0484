//! Running one seed against a target and classifying the outcome.
//!
//! The target itself is an external collaborator: whatever spawns it
//! implements [`RunnableProgram`] and hands the classified outcome back as a
//! [`RunnerProgramResult`]. The classification rules live here, verified:
//! [`evaluate_return_code`] maps exit code zero to a pass and everything
//! else to a failure, and [`outcome_from_execution`] assembles the whole
//! outcome, mapping a failed launch to an internal error with empty
//! diagnostics. [`RunnerPrinter`] is the trivial runner that prints each
//! seed and always passes.

use vstd::prelude::*;

use vstd::string::StringExecFns;

use crate::logger::{print_line, render_ascii};

verus! {

/// The classification of one run of the target.
#[derive(Debug, Clone, Copy, PartialEq, Eq, Structural)]
pub enum State {
    Fail,
    Pass,
    Unresolved,
    InternalError,
}

/// A runner of seeds that yields a bare classification.
pub trait Runnable {
    /// Run one seed; the result carries the seed that produced it.
    fn run(&self, seed: &Vec<u8>) -> (r: RunnerResult)
        ensures
            r.seed@ == seed@,
    ;
}

/// A runner of seeds against an external target program. The core calls
/// both methods and trusts the implementor for no more than the
/// classification's carried seed.
pub trait RunnableProgram {
    /// Adjust the seed to what the target accepts (for example, strip the
    /// bytes a command line cannot carry); implementation-specific.
    fn sanitize_seed(&self, seed: &mut Vec<u8>);

    /// Execute the target on one seed; the result carries the seed that
    /// produced it.
    fn run(&self, seed: &Vec<u8>) -> (r: RunnerProgramResult)
        ensures
            r.result.seed@ == seed@,
    ;
}

/// The classification of one run together with the seed that produced it.
#[derive(Debug)]
pub struct RunnerResult {
    pub state: State,
    pub seed: Vec<u8>,
}

impl DeepView for RunnerResult {
    type V = (State, Seq<u8>);

    open spec fn deep_view(&self) -> (State, Seq<u8>) {
        (self.state, self.seed@)
    }
}

impl Clone for RunnerResult {
    fn clone(&self) -> (r: Self)
        ensures
            r.deep_view() == self.deep_view(),
    {
        RunnerResult { state: self.state, seed: clone_bytes(&self.seed) }
    }
}

/// A fresh copy of a byte buffer.
pub fn clone_bytes(v: &Vec<u8>) -> (r: Vec<u8>)
    ensures
        r@ == v@,
{
    let mut r: Vec<u8> = Vec::new();
    let n = v.len();
    for i in 0..n
        invariant
            n == v@.len(),
            r@ =~= v@.take(i as int),
    {
        r.push(v[i]);
        proof {
            assert(r@ =~= v@.take(i + 1));
        }
    }
    proof {
        assert(r@ =~= v@);
    }
    r
}

/// A runner that prints each seed and reports every run as passed.
pub struct RunnerPrinter;

impl RunnerPrinter {
    pub fn init() -> (r: RunnerPrinter) {
        RunnerPrinter
    }
}

impl Runnable for RunnerPrinter {
    fn run(&self, seed: &Vec<u8>) -> (r: RunnerResult)
        ensures
            r.seed@ == seed@,
            r.state == State::Pass,
    {
        let rendering = render_ascii(seed);
        print_line(rendering.as_str());
        RunnerResult { state: State::Pass, seed: clone_bytes(seed) }
    }
}

/// One full execution of the target: the classification with its seed, the
/// exit code (meaningful only when the run resolved), and the captured
/// output streams.
pub struct RunnerProgramResult {
    pub result: RunnerResult,
    pub return_code: u8,
    pub output_stdout: Vec<u8>,
    pub output_stderr: Vec<u8>,
}

/// Print a bare classification.
pub fn print_runner_result(result: RunnerResult) {
    print_line(state_label(result.state));
}

/// Print a full execution outcome: classification, exit code, and both
/// output streams as best-effort text.
pub fn print_runner_program_result(result: RunnerProgramResult) {
    print_runner_result(result.result);
    let mut code_line = String::new();
    code_line.append("Return code: ");
    let code = crate::text::decimal_string(result.return_code as u64);
    code_line.append(code.as_str());
    print_line(code_line.as_str());
    let mut out_line = String::new();
    out_line.append("Stdout: ");
    let out_rendering = render_ascii(&result.output_stdout);
    out_line.append(out_rendering.as_str());
    print_line(out_line.as_str());
    let mut err_line = String::new();
    err_line.append("Stderr: ");
    let err_rendering = render_ascii(&result.output_stderr);
    err_line.append(err_rendering.as_str());
    print_line(err_line.as_str());
}

/// The name of a classification.
pub fn state_label(state: State) -> (r: &'static str)
    ensures
        r@ == match state {
            State::Fail => "Fail"@,
            State::Pass => "Pass"@,
            State::Unresolved => "Unresolved"@,
            State::InternalError => "InternalError"@,
        },
{
    match state {
        State::Fail => "Fail",
        State::Pass => "Pass",
        State::Unresolved => "Unresolved",
        State::InternalError => "InternalError",
    }
}

/// Classify an exit code: zero passes, everything else fails.
pub fn evaluate_return_code(return_code: u8) -> (s: State)
    ensures
        s == if return_code == 0 {
            State::Pass
        } else {
            State::Fail
        },
{
    match return_code {
        0 => State::Pass,
        _ => State::Fail,
    }
}

/// A seed with its null bytes stripped, in order.
pub open spec fn without_nul_bytes(s: Seq<u8>) -> Seq<u8>
    decreases s.len(),
{
    if s.len() == 0 {
        Seq::<u8>::empty()
    } else if s.last() == 0 {
        without_nul_bytes(s.drop_last())
    } else {
        without_nul_bytes(s.drop_last()).push(s.last())
    }
}

/// The characters the target receives as its argument: the seed's ASCII
/// bytes, in order, each as a character; other bytes are dropped.
pub open spec fn ascii_arg_chars(s: Seq<u8>) -> Seq<char>
    decreases s.len(),
{
    if s.len() == 0 {
        Seq::<char>::empty()
    } else if s.last() < 128 {
        ascii_arg_chars(s.drop_last()).push(s.last() as char)
    } else {
        ascii_arg_chars(s.drop_last())
    }
}

/// Runs seeds against the external program of the given name; the spawn
/// itself happens outside the core, which supplies the seed sanitizer, the
/// argument text, and the outcome classification.
pub struct RunnerProgram {
    program_name: String,
}

impl RunnerProgram {
    /// The target program's name.
    pub closed spec fn name_chars(&self) -> Seq<char> {
        self.program_name@
    }

    pub fn init(program_name: &str) -> (r: RunnerProgram)
        ensures
            r.name_chars() == program_name@,
    {
        RunnerProgram { program_name: program_name.to_owned() }
    }

    /// The target program's name, for whatever spawns it.
    pub fn name(&self) -> (n: &str)
        ensures
            n@ == self.name_chars(),
    {
        self.program_name.as_str()
    }

    /// Strip the null bytes the target's command line cannot carry.
    pub fn sanitize_seed(&self, seed: &mut Vec<u8>)
        ensures
            final(seed)@ == without_nul_bytes(old(seed)@),
    {
        let mut kept: Vec<u8> = Vec::new();
        let n = seed.len();
        for i in 0..n
            invariant
                n == old(seed)@.len(),
                seed@ == old(seed)@,
                kept@ == without_nul_bytes(old(seed)@.take(i as int)),
        {
            let b = seed[i];
            if b != 0 {
                kept.push(b);
            }
            proof {
                assert(old(seed)@.take(i + 1).drop_last() =~= old(seed)@.take(i as int));
                assert(kept@ =~= without_nul_bytes(old(seed)@.take(i + 1)));
            }
        }
        proof {
            assert(old(seed)@.take(n as int) =~= old(seed)@);
        }
        *seed = kept;
    }

    /// The argument text for one seed: its ASCII bytes as characters.
    pub fn seed_to_arg(&self, seed: &Vec<u8>) -> (arg: String)
        ensures
            arg@ == ascii_arg_chars(seed@),
    {
        let mut chars: Vec<char> = Vec::new();
        let n = seed.len();
        for i in 0..n
            invariant
                n == seed@.len(),
                chars@ == ascii_arg_chars(seed@.take(i as int)),
        {
            let b = seed[i];
            if b < 128 {
                chars.push(b as char);
            }
            proof {
                assert(seed@.take(i + 1).drop_last() =~= seed@.take(i as int));
                assert(chars@ =~= ascii_arg_chars(seed@.take(i + 1)));
            }
        }
        proof {
            assert(seed@.take(n as int) =~= seed@);
        }
        crate::text::chars_to_string(chars)
    }
}

/// Assemble the outcome of one execution: `Some(code)` is a resolved run,
/// classified by [`evaluate_return_code`] with its captured output; `None`
/// is a failed launch, classified as an internal error with empty
/// diagnostics.
pub fn outcome_from_execution(
    seed: &Vec<u8>,
    code: Option<u8>,
    output_stdout: Vec<u8>,
    output_stderr: Vec<u8>,
) -> (r: RunnerProgramResult)
    ensures
        r.result.seed@ == seed@,
        match code {
            Some(c) => r.result.state == (if c == 0 {
                State::Pass
            } else {
                State::Fail
            }) && r.return_code == c && r.output_stdout@ == output_stdout@ && r.output_stderr@
                == output_stderr@,
            None => r.result.state == State::InternalError && r.return_code == 0
                && r.output_stdout@.len() == 0 && r.output_stderr@.len() == 0,
        },
{
    match code {
        Some(c) => RunnerProgramResult {
            result: RunnerResult { state: evaluate_return_code(c), seed: clone_bytes(seed) },
            return_code: c,
            output_stdout,
            output_stderr,
        },
        None => RunnerProgramResult {
            result: RunnerResult { state: State::InternalError, seed: clone_bytes(seed) },
            return_code: 0,
            output_stdout: Vec::new(),
            output_stderr: Vec::new(),
        },
    }
}

} // verus!
