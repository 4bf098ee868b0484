//! The fuzzing driver: pull a seed, run it, classify, bucket, report.
//!
//! [`FuzzerProgram`] owns one seed producer and one runner. Each call of
//! [`FuzzerProgram::run_one_time`] consumes exactly one fresh seed and files
//! the outcome: a pass is counted only, a failure joins the crash bucket,
//! and everything else joins the unknown bucket. No outcome ever stops the
//! driver; only [`FuzzerProgram::run_until_error`] stops, at the first
//! failure.

use vstd::prelude::*;
use vstd::string::StringExecFns;

use crate::logger::{byte_list_string, log_crash, log_internal_error, print_line, render_ascii};
use crate::runner::{RunnableProgram, RunnerProgramResult, RunnerResult, State, state_label};
use crate::seeder::Seedable;
use crate::text::decimal_string;

verus! {

/// How many runs pass between two summaries of [`FuzzerProgram::run_forever`].
pub const PRINT_STATUS_EVERY_RUN: u32 = 100;

/// The driver's whole state: the two collaborators, the run counter, and
/// the result buckets in discovery order. The pass bucket stays empty:
/// passes are counted, not kept.
pub struct FuzzerProgram<R: RunnableProgram, S: Seedable> {
    pub runnable_instance: R,
    pub seedable_instance: S,
    pub count_run: u64,
    pub crash: Vec<RunnerResult>,
    pub no_crash: Vec<RunnerResult>,
    pub unknown_crash_status: Vec<RunnerResult>,
}

impl<R: RunnableProgram, S: Seedable> FuzzerProgram<R, S> {
    /// The driver is usable: its seed producer is.
    pub open spec fn wf(&self) -> bool {
        self.seedable_instance.wf()
    }

    pub fn init(runnable_instance: R, seedable_instance: S) -> (f: Self)
        ensures
            f.runnable_instance == runnable_instance,
            f.seedable_instance == seedable_instance,
            f.wf() == f.seedable_instance.wf(),
            f.count_run == 0,
            f.crash@.len() == 0,
            f.no_crash@.len() == 0,
            f.unknown_crash_status@.len() == 0,
    {
        FuzzerProgram {
            runnable_instance,
            seedable_instance,
            count_run: 0,
            crash: Vec::new(),
            no_crash: Vec::new(),
            unknown_crash_status: Vec::new(),
        }
    }

    /// Whether the driver may run; decides [`FuzzerProgram::wf`] at run
    /// time.
    pub fn is_runnable(&self) -> (b: bool)
        ensures
            b == self.wf(),
    {
        self.seedable_instance.is_well_formed()
    }

    /// One fuzzing iteration: one fresh seed, sanitized, executed, counted,
    /// and bucketed. A pass leaves the buckets alone, a failure appends its
    /// result to the crash bucket, any other classification appends to the
    /// unknown bucket; nothing is ever filed twice and the pass bucket
    /// never grows.
    pub fn run_one_time(&mut self) -> (result: RunnerProgramResult)
        requires
            old(self).wf(),
        ensures
            final(self).wf(),
            final(self).count_run == if old(self).count_run < u64::MAX {
                old(self).count_run + 1
            } else {
                u64::MAX as int
            },
            final(self).no_crash@ == old(self).no_crash@,
            match result.result.state {
                State::Pass => final(self).crash@ == old(self).crash@
                    && final(self).unknown_crash_status@ == old(self).unknown_crash_status@,
                State::Fail => final(self).crash.deep_view() == old(self).crash.deep_view().push(
                    (State::Fail, result.result.seed@),
                ) && final(self).unknown_crash_status@ == old(self).unknown_crash_status@,
                _ => final(self).unknown_crash_status.deep_view()
                    == old(self).unknown_crash_status.deep_view().push(
                    (result.result.state, result.result.seed@),
                ) && final(self).crash@ == old(self).crash@,
            },
    {
        let mut seed = self.seedable_instance.next_seed();
        self.runnable_instance.sanitize_seed(&mut seed);
        let result = self.runnable_instance.run(&seed);
        self.count_run = if self.count_run < u64::MAX {
            self.count_run + 1
        } else {
            u64::MAX
        };
        match result.result.state {
            State::Pass => {},
            State::Fail => {
                let entry = result.result.clone();
                self.crash.push(entry);
                proof {
                    assert(final(self).crash.deep_view() =~= old(self).crash.deep_view().push(
                        (State::Fail, result.result.seed@),
                    ));
                }
            },
            _ => {
                let entry = result.result.clone();
                self.unknown_crash_status.push(entry);
                proof {
                    assert(final(self).unknown_crash_status.deep_view()
                        =~= old(self).unknown_crash_status.deep_view().push(
                        (result.result.state, result.result.seed@),
                    ));
                }
            },
        }
        result
    }

    /// Fuzz indefinitely: report each failure and each internal error as it
    /// comes, and a summary every [`PRINT_STATUS_EVERY_RUN`] runs. The loop
    /// has no practical internal exit — it runs until the 64-bit run
    /// counter would saturate — so in any real session only an outside
    /// signal ends it. Along the way nothing already filed is lost: the old
    /// buckets stay as prefixes of the final ones.
    pub fn run_forever(&mut self)
        requires
            old(self).wf(),
        ensures
            final(self).wf(),
            final(self).count_run == u64::MAX,
            final(self).no_crash@ == old(self).no_crash@,
            old(self).crash.deep_view().is_prefix_of(final(self).crash.deep_view()),
            old(self).unknown_crash_status.deep_view().is_prefix_of(
                final(self).unknown_crash_status.deep_view(),
            ),
    {
        while self.count_run < u64::MAX
            invariant
                self.wf(),
                self.no_crash@ == old(self).no_crash@,
                old(self).crash.deep_view().is_prefix_of(self.crash.deep_view()),
                old(self).unknown_crash_status.deep_view().is_prefix_of(
                    self.unknown_crash_status.deep_view(),
                ),
            decreases u64::MAX - self.count_run,
        {
            let ghost crash_before = self.crash.deep_view();
            let ghost unknown_before = self.unknown_crash_status.deep_view();
            let result = self.run_one_time();
            proof {
                if result.result.state is Fail {
                    lemma_prefix_extends(
                        old(self).crash.deep_view(),
                        crash_before,
                        (State::Fail, result.result.seed@),
                    );
                } else if !(result.result.state is Pass) {
                    lemma_prefix_extends(
                        old(self).unknown_crash_status.deep_view(),
                        unknown_before,
                        (result.result.state, result.result.seed@),
                    );
                }
            }
            match result.result.state {
                State::Fail => {
                    log_crash(&result);
                },
                State::InternalError => {
                    log_internal_error(&result);
                },
                _ => {},
            }
            if self.count_run % (PRINT_STATUS_EVERY_RUN as u64) == 0 {
                self.print_results();
            }
        }
    }

    /// Fuzz until the first failure: exactly one new entry joins the crash
    /// bucket, a failure, and it is reported; earlier entries stay put.
    /// (Like [`FuzzerProgram::run_forever`], the loop stops unfired if the
    /// 64-bit run counter would saturate first.)
    pub fn run_until_error(&mut self)
        requires
            old(self).wf(),
        ensures
            final(self).wf(),
            final(self).no_crash@ == old(self).no_crash@,
            final(self).count_run >= old(self).count_run,
            old(self).unknown_crash_status.deep_view().is_prefix_of(
                final(self).unknown_crash_status.deep_view(),
            ),
            final(self).count_run != u64::MAX ==> {
                &&& final(self).crash@.len() == old(self).crash@.len() + 1
                &&& final(self).crash.deep_view().last().0 == State::Fail
                &&& final(self).crash.deep_view().take(old(self).crash@.len() as int) == old(
                    self,
                ).crash.deep_view()
                &&& final(self).count_run - old(self).count_run >= (final(self).crash@.len()
                    - old(self).crash@.len()) + (final(self).unknown_crash_status@.len() - old(
                    self,
                ).unknown_crash_status@.len())
            },
    {
        while self.count_run < u64::MAX
            invariant_except_break
                self.wf(),
                self.crash@ == old(self).crash@,
                self.no_crash@ == old(self).no_crash@,
                self.count_run >= old(self).count_run,
                old(self).unknown_crash_status.deep_view().is_prefix_of(
                    self.unknown_crash_status.deep_view(),
                ),
                self.count_run != u64::MAX ==> self.count_run - old(self).count_run >= (
                self.unknown_crash_status@.len() - old(self).unknown_crash_status@.len()),
            ensures
                self.wf(),
                self.no_crash@ == old(self).no_crash@,
                self.count_run >= old(self).count_run,
                old(self).unknown_crash_status.deep_view().is_prefix_of(
                    self.unknown_crash_status.deep_view(),
                ),
                self.count_run != u64::MAX ==> {
                    &&& self.crash@.len() == old(self).crash@.len() + 1
                    &&& self.crash.deep_view().last().0 == State::Fail
                    &&& self.crash.deep_view().take(old(self).crash@.len() as int) == old(
                        self,
                    ).crash.deep_view()
                    &&& self.count_run - old(self).count_run >= (self.crash@.len() - old(
                        self,
                    ).crash@.len()) + (self.unknown_crash_status@.len() - old(
                        self,
                    ).unknown_crash_status@.len())
                },
            decreases u64::MAX - self.count_run,
        {
            let ghost unknown_before = self.unknown_crash_status.deep_view();
            let result = self.run_one_time();
            proof {
                if !(result.result.state is Fail) && !(result.result.state is Pass) {
                    lemma_prefix_extends(
                        old(self).unknown_crash_status.deep_view(),
                        unknown_before,
                        (result.result.state, result.result.seed@),
                    );
                }
            }
            match result.result.state {
                State::Fail => {
                    log_crash(&result);
                    proof {
                        assert(self.crash.deep_view().take(old(self).crash@.len() as int)
                            =~= old(self).crash.deep_view());
                    }
                    break;
                },
                _ => {},
            }
        }
    }

    /// Print the report: total runs, the crash count, and every bucketed
    /// result with its classification and seed.
    pub fn print_results(&self) {
        print_line("--------------------------REPORT--------------------------");
        let mut total_line = String::new();
        total_line.append("Total runs: ");
        let total = decimal_string(self.count_run);
        total_line.append(total.as_str());
        print_line(total_line.as_str());
        let mut count_line = String::new();
        count_line.append("Number crashes: ");
        let count = decimal_string(self.crash.len() as u64);
        count_line.append(count.as_str());
        print_line(count_line.as_str());
        if self.crash.len() != 0 {
            print_line("Crashes:");
            print_result_lines(&self.crash);
        }
        if self.unknown_crash_status.len() != 0 {
            print_line("Unknown Crash Statuses:");
            print_result_lines(&self.unknown_crash_status);
        }
    }
}

/// A prefix of a sequence is still a prefix after one more entry is
/// appended.
proof fn lemma_prefix_extends(pre: Seq<(State, Seq<u8>)>, mid: Seq<(State, Seq<u8>)>, e: (
    State,
    Seq<u8>,
))
    requires
        pre.is_prefix_of(mid),
    ensures
        pre.is_prefix_of(mid.push(e)),
{
    assert(mid.push(e).subrange(0, pre.len() as int) =~= mid.subrange(0, pre.len() as int));
}

/// Print one line per bucketed result: its classification and its seed.
fn print_result_lines(results: &Vec<RunnerResult>) {
    let n = results.len();
    for i in 0..n
        invariant
            n == results@.len(),
    {
        let mut line = String::new();
        line.append("  State: ");
        line.append(state_label(results[i].state));
        line.append(", Seed: ");
        let listing = byte_list_string(&results[i].seed);
        line.append(listing.as_str());
        line.append(" ");
        let rendering = render_ascii(&results[i].seed);
        line.append(rendering.as_str());
        print_line(line.as_str());
    }
}

} // verus!
