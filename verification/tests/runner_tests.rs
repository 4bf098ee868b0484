use grammar_fuzzer::logger::{byte_list_string, render_ascii};
use grammar_fuzzer::runner::{
    evaluate_return_code, outcome_from_execution, state_label, Runnable, RunnerPrinter,
    RunnerProgram, RunnerResult, State,
};

#[test]
fn test_runner_printer() {
    let runner_printer: RunnerPrinter = RunnerPrinter::init();
    let res: RunnerResult = runner_printer.run(&"test_seed".as_bytes().to_vec());
    matches!(res.state, State::Pass);
}

#[test]
fn test_runner_printer_keeps_seed() {
    let res = RunnerPrinter::init().run(&vec![1, 2, 3]);
    assert_eq!(res.seed, vec![1, 2, 3]);
    assert_eq!(res.state, State::Pass);
}

#[test]
fn test_evaluate_return_code() {
    assert_eq!(evaluate_return_code(0), State::Pass);
    assert_eq!(evaluate_return_code(1), State::Fail);
    assert_eq!(evaluate_return_code(255), State::Fail);
}

#[test]
fn test_sanitize_seed_strips_nul_bytes() {
    let runner = RunnerProgram::init("./target");
    let mut seed = vec![0u8, 104, 0, 105, 0, 0, 33];
    runner.sanitize_seed(&mut seed);
    assert_eq!(seed, vec![104, 105, 33]);
}

#[test]
fn test_sanitize_seed_empty() {
    let runner = RunnerProgram::init("./target");
    let mut seed: Vec<u8> = Vec::new();
    runner.sanitize_seed(&mut seed);
    assert!(seed.is_empty());
}

#[test]
fn test_seed_to_arg_keeps_ascii_only() {
    let runner = RunnerProgram::init("./target");
    let arg = runner.seed_to_arg(&vec![104, 105, 200, 33, 255]);
    assert_eq!(arg, "hi!");
}

#[test]
fn test_runner_program_name() {
    let runner = RunnerProgram::init("./SUTs/target");
    assert_eq!(runner.name(), "./SUTs/target");
}

#[test]
fn test_outcome_from_execution_pass() {
    let outcome = outcome_from_execution(&vec![1, 2], Some(0), b"out".to_vec(), b"err".to_vec());
    assert_eq!(outcome.result.state, State::Pass);
    assert_eq!(outcome.result.seed, vec![1, 2]);
    assert_eq!(outcome.return_code, 0);
    assert_eq!(outcome.output_stdout, b"out".to_vec());
    assert_eq!(outcome.output_stderr, b"err".to_vec());
}

#[test]
fn test_outcome_from_execution_fail() {
    let outcome = outcome_from_execution(&vec![9], Some(134), Vec::new(), Vec::new());
    assert_eq!(outcome.result.state, State::Fail);
    assert_eq!(outcome.return_code, 134);
}

#[test]
fn test_outcome_from_execution_unspawnable() {
    let outcome =
        outcome_from_execution(&vec![7, 8], None, b"ignored".to_vec(), b"ignored".to_vec());
    assert_eq!(outcome.result.state, State::InternalError);
    assert_eq!(outcome.result.seed, vec![7, 8]);
    assert_eq!(outcome.return_code, 0);
    assert!(outcome.output_stdout.is_empty());
    assert!(outcome.output_stderr.is_empty());
}

#[test]
fn test_state_label() {
    assert_eq!(state_label(State::Fail), "Fail");
    assert_eq!(state_label(State::Pass), "Pass");
    assert_eq!(state_label(State::Unresolved), "Unresolved");
    assert_eq!(state_label(State::InternalError), "InternalError");
}

#[test]
fn test_byte_list_string() {
    assert_eq!(byte_list_string(&Vec::new()), "[]");
    assert_eq!(byte_list_string(&vec![5]), "[5]");
    assert_eq!(byte_list_string(&vec![1, 2, 30]), "[1, 2, 30]");
}

#[test]
fn test_render_ascii() {
    assert_eq!(render_ascii(&vec![104, 0, 105, 200, 33]), "h.i.!");
    assert_eq!(render_ascii(&Vec::new()), "");
}
