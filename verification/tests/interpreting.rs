//! The tape machine: direct execution, growth, wraparound, violations,
//! and the end-to-end scenario.

use tapelang::diag::{ExecutionResult, RunOutcome, RunStatus, StructuralError, Violation};
use tapelang::instr::{filter_source, Instruction};
use tapelang::interp::interpreter;

const BUDGET: u64 = 10_000_000;

fn run(src: &[u8], input: &[u8]) -> Result<ExecutionResult, StructuralError> {
    interpreter(&filter_source(src), input, BUDGET)
}

fn finished(src: &[u8], input: &[u8]) -> RunOutcome {
    match run(src, input) {
        Ok(ExecutionResult::Finished(outcome)) => outcome,
        other => panic!("expected a finished run, got {:?}", other),
    }
}

#[test]
fn empty_program_completes_with_no_output() {
    let outcome = finished(b"", b"");
    assert_eq!(outcome.status, RunStatus::Completed);
    assert_eq!(outcome.output, Vec::<u8>::new());
}

#[test]
fn write_emits_the_cell_as_a_byte() {
    // three pluses, then write: the cell holds 3
    let outcome = finished(b"+++.", b"");
    assert_eq!(outcome.status, RunStatus::Completed);
    assert_eq!(outcome.output, vec![3]);
}

#[test]
fn read_stores_the_input_byte() {
    let outcome = finished(b",.", b"A");
    assert_eq!(outcome.status, RunStatus::Completed);
    assert_eq!(outcome.output, vec![b'A']);
}

#[test]
fn read_past_end_of_input_stores_the_sentinel() {
    // -1 as a cell, written back out as byte 255
    let outcome = finished(b",.", b"");
    assert_eq!(outcome.status, RunStatus::Completed);
    assert_eq!(outcome.output, vec![255]);
}

#[test]
fn read_rejects_an_unrepresentable_input_byte() {
    let outcome = finished(b",.", &[200]);
    assert_eq!(outcome.status, RunStatus::Failed(Violation::InvalidInput));
    assert_eq!(outcome.output, Vec::<u8>::new());
    assert_eq!(outcome.status.exit_code(), 5);
}

#[test]
fn tape_grows_to_the_right_without_bound() {
    // move right well past the compiled tape's capacity, then write
    let mut src: Vec<u8> = vec![b'>'; 30005];
    src.push(b'.');
    let outcome = finished(&src, b"");
    assert_eq!(outcome.status, RunStatus::Completed);
    assert_eq!(outcome.output, vec![0]);
}

#[test]
fn pointer_underflow_at_the_start_is_fatal() {
    let outcome = finished(b"<", b"");
    assert_eq!(outcome.status, RunStatus::Failed(Violation::PointerUnderflow));
    assert_eq!(outcome.output, Vec::<u8>::new());
    assert_eq!(outcome.status.exit_code(), 2);
}

#[test]
fn output_before_a_violation_is_kept() {
    let outcome = finished(b"+.<", b"");
    assert_eq!(outcome.status, RunStatus::Failed(Violation::PointerUnderflow));
    assert_eq!(outcome.output, vec![1]);
}

#[test]
fn cell_increment_wraps_at_the_top_of_the_range() {
    // 128 pluses wrap the cell from 127 to -128; written as byte 128
    let mut src: Vec<u8> = vec![b'+'; 128];
    src.push(b'.');
    let outcome = finished(&src, b"");
    assert_eq!(outcome.status, RunStatus::Completed);
    assert_eq!(outcome.output, vec![128]);
}

#[test]
fn cell_decrement_wraps_at_the_bottom_of_the_range() {
    // one minus wraps 0 to -1; written as byte 255
    let outcome = finished(b"-.", b"");
    assert_eq!(outcome.status, RunStatus::Completed);
    assert_eq!(outcome.output, vec![255]);
}

#[test]
fn loop_with_zero_cell_is_skipped() {
    let outcome = finished(b"[+++.]", b"");
    assert_eq!(outcome.status, RunStatus::Completed);
    assert_eq!(outcome.output, Vec::<u8>::new());
}

#[test]
fn loop_counts_a_cell_down_to_zero() {
    // move 5 from cell 0 to cell 1, then write cell 1
    let outcome = finished(b"+++++[->+<]>.", b"");
    assert_eq!(outcome.status, RunStatus::Completed);
    assert_eq!(outcome.output, vec![5]);
}

#[test]
fn interpreter_rejects_structural_errors_before_any_output() {
    assert!(matches!(
        run(b".[", b""),
        Err(StructuralError::UnterminatedLoop)
    ));
    assert!(matches!(run(b".]", b""), Err(StructuralError::StrayLoopClose)));
}

#[test]
fn a_non_halting_program_exhausts_its_budget() {
    match interpreter(&filter_source(b"+[]"), b"", 1000) {
        Ok(ExecutionResult::StillRunning) => {}
        other => panic!("expected the budget to run out, got {:?}", other),
    }
}

#[test]
fn running_twice_yields_identical_output() {
    let src = b"+++++[->++++++++++<]>++.+.,.";
    let input = b"x";
    let first = finished(src, input);
    let second = finished(src, input);
    assert_eq!(first.output, second.output);
    assert_eq!(first.status, second.status);
}

#[test]
fn hello_scenario_prints_hello_first() {
    let src = b"++++++++[>++++[>++>+++>+++>+<<<<-]>+>+>->>+[<]<-]>>.>---.+++++++..+++.";
    let outcome = finished(src, b"");
    assert_eq!(outcome.status, RunStatus::Completed);
    assert!(outcome.output.len() >= 5);
    assert_eq!(&outcome.output[0..5], b"Hello");
}

#[test]
fn parse_then_interpret_uses_only_recognized_symbols() {
    // commentary around the program changes nothing
    let plain = finished(b"+++.", b"");
    let noisy = finished(b"add three (+++) and print (.)!", b"");
    assert_eq!(plain.output, noisy.output);
    assert_eq!(plain.output, vec![3]);
}

#[test]
fn violation_codes_are_stable() {
    assert_eq!(Violation::PointerOverflow.code(), 1);
    assert_eq!(Violation::PointerUnderflow.code(), 2);
    assert_eq!(Violation::ValueOverflow.code(), 3);
    assert_eq!(Violation::ValueUnderflow.code(), 4);
    assert_eq!(Violation::InvalidInput.code(), 5);
    assert_eq!(RunStatus::Completed.exit_code(), 0);
    assert_eq!(RunStatus::Failed(Violation::ValueOverflow).exit_code(), 3);
}
