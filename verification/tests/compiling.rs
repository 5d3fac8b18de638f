//! The control-flow builder and the guarded (compiled-program)
//! execution mode: graph shape, guards, canonical exit codes, and
//! agreement with the interpreter.

use tapelang::cfg::{
    compile, GuardCondition, Op, Terminator, POINTER_OVERFLOW_BLOCK, POINTER_UNDERFLOW_BLOCK,
    VALUE_OVERFLOW_BLOCK, VALUE_UNDERFLOW_BLOCK,
};
use tapelang::diag::{ExecutionResult, RunOutcome, RunStatus, StructuralError, Violation};
use tapelang::guarded::run_guarded;
use tapelang::instr::filter_source;
use tapelang::interp::interpreter;

const BUDGET: u64 = 10_000_000;

fn run(src: &[u8], input: &[u8]) -> Result<ExecutionResult, StructuralError> {
    run_guarded(&filter_source(src), input, BUDGET)
}

fn finished(src: &[u8], input: &[u8]) -> RunOutcome {
    match run(src, input) {
        Ok(ExecutionResult::Finished(outcome)) => outcome,
        other => panic!("expected a finished run, got {:?}", other),
    }
}

fn exit_code(src: &[u8], input: &[u8]) -> i32 {
    finished(src, input).status.exit_code()
}

#[test]
fn builder_rejects_a_stray_close() {
    assert!(matches!(
        compile(&filter_source(b"]")),
        Err(StructuralError::StrayLoopClose)
    ));
    assert!(matches!(
        compile(&filter_source(b"[]]")),
        Err(StructuralError::StrayLoopClose)
    ));
}

#[test]
fn builder_rejects_frames_left_on_the_stack() {
    assert!(matches!(
        compile(&filter_source(b"[")),
        Err(StructuralError::UnterminatedLoop)
    ));
    assert!(matches!(
        compile(&filter_source(b"+[[-]")),
        Err(StructuralError::UnterminatedLoop)
    ));
}

#[test]
fn builder_starts_with_entry_and_the_four_panic_blocks() {
    let cfg = compile(&filter_source(b"")).unwrap();
    assert_eq!(cfg.blocks.len(), 5);
    assert!(cfg.blocks[0].ops.is_empty());
    assert_eq!(cfg.blocks[0].term, Terminator::Return);
    assert_eq!(
        cfg.blocks[POINTER_OVERFLOW_BLOCK].term,
        Terminator::Panic(Violation::PointerOverflow)
    );
    assert_eq!(
        cfg.blocks[POINTER_UNDERFLOW_BLOCK].term,
        Terminator::Panic(Violation::PointerUnderflow)
    );
    assert_eq!(
        cfg.blocks[VALUE_OVERFLOW_BLOCK].term,
        Terminator::Panic(Violation::ValueOverflow)
    );
    assert_eq!(
        cfg.blocks[VALUE_UNDERFLOW_BLOCK].term,
        Terminator::Panic(Violation::ValueUnderflow)
    );
}

#[test]
fn builder_guards_each_cell_operation() {
    let cfg = compile(&filter_source(b"+")).unwrap();
    assert_eq!(cfg.blocks.len(), 6);
    assert_eq!(cfg.blocks[0].ops, vec![Op::CellIncrement]);
    assert_eq!(
        cfg.blocks[0].term,
        Terminator::Guard {
            condition: GuardCondition::CellIs(-128),
            panic: VALUE_OVERFLOW_BLOCK,
            next: 5,
        }
    );
    assert!(cfg.blocks[5].ops.is_empty());
    assert_eq!(cfg.blocks[5].term, Terminator::Return);

    let cfg = compile(&filter_source(b"-")).unwrap();
    assert_eq!(
        cfg.blocks[0].term,
        Terminator::Guard {
            condition: GuardCondition::CellIs(127),
            panic: VALUE_UNDERFLOW_BLOCK,
            next: 5,
        }
    );
}

#[test]
fn builder_guards_each_pointer_move() {
    let cfg = compile(&filter_source(b"><")).unwrap();
    assert_eq!(cfg.blocks.len(), 7);
    assert_eq!(cfg.blocks[0].ops, vec![Op::PointerIncrement]);
    assert_eq!(
        cfg.blocks[0].term,
        Terminator::Guard {
            condition: GuardCondition::PointerPastEnd,
            panic: POINTER_OVERFLOW_BLOCK,
            next: 5,
        }
    );
    assert_eq!(cfg.blocks[5].ops, vec![Op::PointerDecrement]);
    assert_eq!(
        cfg.blocks[5].term,
        Terminator::Guard {
            condition: GuardCondition::PointerBeforeStart,
            panic: POINTER_UNDERFLOW_BLOCK,
            next: 6,
        }
    );
    assert_eq!(cfg.blocks[6].term, Terminator::Return);
}

#[test]
fn builder_lowers_a_loop_as_test_at_top_and_bottom() {
    let cfg = compile(&filter_source(b"[,]")).unwrap();
    assert_eq!(cfg.blocks.len(), 7);
    // entry tests the cell: zero leaves, non-zero enters the body
    assert_eq!(cfg.blocks[0].term, Terminator::Branch { zero: 6, nonzero: 5 });
    // the body reads one byte and re-tests the same condition
    assert_eq!(cfg.blocks[5].ops, vec![Op::ReadInput]);
    assert_eq!(cfg.blocks[5].term, Terminator::Branch { zero: 6, nonzero: 5 });
    // the post-loop block ends the program
    assert_eq!(cfg.blocks[6].term, Terminator::Return);
}

#[test]
fn read_and_write_join_the_current_block() {
    let cfg = compile(&filter_source(b",.")).unwrap();
    assert_eq!(cfg.blocks.len(), 5);
    assert_eq!(cfg.blocks[0].ops, vec![Op::ReadInput, Op::WriteOutput]);
    assert_eq!(cfg.blocks[0].term, Terminator::Return);
}

#[test]
fn guarded_pointer_underflow_exits_with_code_two() {
    let outcome = finished(b"<", b"");
    assert_eq!(outcome.status, RunStatus::Failed(Violation::PointerUnderflow));
    assert_eq!(outcome.output, Vec::<u8>::new());
    assert_eq!(outcome.status.exit_code(), 2);
}

#[test]
fn guarded_pointer_overflow_exits_with_code_one() {
    let src: Vec<u8> = vec![b'>'; 30000];
    assert_eq!(exit_code(&src, b""), 1);
}

#[test]
fn guarded_pointer_stays_within_capacity() {
    // 29999 moves right reach the last cell and succeed
    let src: Vec<u8> = vec![b'>'; 29999];
    assert_eq!(exit_code(&src, b""), 0);
}

#[test]
fn guarded_value_overflow_boundary() {
    // exactly 127 pluses succeed; the 128th trips the guard, code 3
    let mut ok: Vec<u8> = vec![b'+'; 127];
    ok.push(b'.');
    let outcome = finished(&ok, b"");
    assert_eq!(outcome.status, RunStatus::Completed);
    assert_eq!(outcome.output, vec![127]);

    let bad: Vec<u8> = vec![b'+'; 128];
    assert_eq!(exit_code(&bad, b""), 3);
}

#[test]
fn guarded_value_underflow_boundary() {
    // 128 minuses reach the bottom of the range and succeed; the 129th
    // would wrap back to 127 and trips the guard, code 4
    let mut ok: Vec<u8> = vec![b'-'; 128];
    ok.push(b'.');
    let outcome = finished(&ok, b"");
    assert_eq!(outcome.status, RunStatus::Completed);
    assert_eq!(outcome.output, vec![128]);

    let bad: Vec<u8> = vec![b'-'; 129];
    assert_eq!(exit_code(&bad, b""), 4);
}

#[test]
fn guarded_read_narrows_any_byte_without_a_guard() {
    // byte 200 is stored by plain 8-bit reinterpretation and written back
    let outcome = finished(b",.", &[200]);
    assert_eq!(outcome.status, RunStatus::Completed);
    assert_eq!(outcome.output, vec![200]);
}

#[test]
fn guarded_read_past_end_of_input_stores_the_sentinel() {
    let outcome = finished(b",.", b"");
    assert_eq!(outcome.status, RunStatus::Completed);
    assert_eq!(outcome.output, vec![255]);
}

#[test]
fn guarded_rejects_structural_errors_before_any_output() {
    assert!(matches!(
        run(b".[", b""),
        Err(StructuralError::UnterminatedLoop)
    ));
    assert!(matches!(run(b".]", b""), Err(StructuralError::StrayLoopClose)));
}

#[test]
fn guarded_budget_runs_out_on_a_non_halting_program() {
    match run_guarded(&filter_source(b"+[]"), b"", 1000) {
        Ok(ExecutionResult::StillRunning) => {}
        other => panic!("expected the budget to run out, got {:?}", other),
    }
}

#[test]
fn loop_free_programs_agree_across_modes() {
    // no loops, no out-of-range operation: byte-identical output streams
    let src = b"+++.>++.<-.,.>,.";
    let input = b"Go";
    let compiled = finished(src, input);
    let interpreted = match interpreter(&filter_source(src), input, BUDGET) {
        Ok(ExecutionResult::Finished(outcome)) => outcome,
        other => panic!("expected a finished run, got {:?}", other),
    };
    assert_eq!(compiled.status, RunStatus::Completed);
    assert_eq!(interpreted.status, RunStatus::Completed);
    assert_eq!(compiled.output, interpreted.output);
    assert_eq!(compiled.output, vec![3, 2, 2, b'G', b'o']);
}

#[test]
fn guarded_runs_are_deterministic() {
    let src = b"++[->+++<]>.";
    let first = finished(src, b"");
    let second = finished(src, b"");
    assert_eq!(first.output, second.output);
    assert_eq!(first.status, second.status);
    assert_eq!(first.output, vec![6]);
}

#[test]
fn hello_scenario_prints_hello_under_the_compiled_mode() {
    let src = b"++++++++[>++++[>++>+++>+++>+<<<<-]>+>+>->>+[<]<-]>>.>---.+++++++..+++.";
    let outcome = finished(src, b"");
    assert_eq!(outcome.status, RunStatus::Completed);
    assert!(outcome.output.len() >= 5);
    assert_eq!(&outcome.output[0..5], b"Hello");
}
