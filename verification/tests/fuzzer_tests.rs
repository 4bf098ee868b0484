use grammar_fuzzer::fuzzer::FuzzerProgram;
use grammar_fuzzer::runner::{
    outcome_from_execution, RunnableProgram, RunnerProgramResult, State,
};
use grammar_fuzzer::seeder::RandomSeeder;

/// A stand-in target: every run resolves with the configured exit code, or
/// fails to launch when no code is configured.
struct FixedOutcomeRunner {
    code: Option<u8>,
}

impl RunnableProgram for FixedOutcomeRunner {
    fn sanitize_seed(&self, _seed: &mut Vec<u8>) {}

    fn run(&self, seed: &Vec<u8>) -> RunnerProgramResult {
        outcome_from_execution(seed, self.code, Vec::new(), Vec::new())
    }
}

fn fuzzer_with_code(code: Option<u8>) -> FuzzerProgram<FixedOutcomeRunner, RandomSeeder> {
    FuzzerProgram::init(FixedOutcomeRunner { code }, RandomSeeder::init(2024))
}

#[test]
fn test_fuzzer_init_state() {
    let fuzzer = fuzzer_with_code(Some(0));
    assert_eq!(fuzzer.count_run, 0);
    assert!(fuzzer.crash.is_empty());
    assert!(fuzzer.no_crash.is_empty());
    assert!(fuzzer.unknown_crash_status.is_empty());
    assert!(fuzzer.is_runnable());
}

#[test]
fn test_run_one_time_pass_counts_only() {
    let mut fuzzer = fuzzer_with_code(Some(0));
    let result = fuzzer.run_one_time();
    assert_eq!(result.result.state, State::Pass);
    assert_eq!(fuzzer.count_run, 1);
    assert!(fuzzer.crash.is_empty());
    assert!(fuzzer.no_crash.is_empty());
    assert!(fuzzer.unknown_crash_status.is_empty());
}

#[test]
fn test_run_one_time_fail_goes_to_crash_bucket() {
    let mut fuzzer = fuzzer_with_code(Some(7));
    let result = fuzzer.run_one_time();
    assert_eq!(result.result.state, State::Fail);
    assert_eq!(fuzzer.count_run, 1);
    assert_eq!(fuzzer.crash.len(), 1);
    assert_eq!(fuzzer.crash[0].state, State::Fail);
    assert_eq!(fuzzer.crash[0].seed, result.result.seed);
    assert!(fuzzer.unknown_crash_status.is_empty());
}

#[test]
fn test_run_one_time_unspawnable_goes_to_unknown_bucket() {
    let mut fuzzer = fuzzer_with_code(None);
    let result = fuzzer.run_one_time();
    assert_eq!(result.result.state, State::InternalError);
    assert_eq!(fuzzer.count_run, 1);
    assert!(fuzzer.crash.is_empty());
    assert_eq!(fuzzer.unknown_crash_status.len(), 1);
    assert_eq!(fuzzer.unknown_crash_status[0].state, State::InternalError);
}

#[test]
fn test_run_one_time_accumulates() {
    let mut fuzzer = fuzzer_with_code(Some(1));
    for _ in 0..5 {
        fuzzer.run_one_time();
    }
    assert_eq!(fuzzer.count_run, 5);
    assert_eq!(fuzzer.crash.len(), 5);
}

#[test]
fn test_run_until_error_stops_after_first_failure() {
    let mut fuzzer = fuzzer_with_code(Some(1));
    fuzzer.run_until_error();
    assert_eq!(fuzzer.count_run, 1);
    assert_eq!(fuzzer.crash.len(), 1);
    assert_eq!(fuzzer.crash[0].state, State::Fail);
    assert!(fuzzer.unknown_crash_status.is_empty());
}
