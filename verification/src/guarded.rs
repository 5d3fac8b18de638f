//! Guarded execution: the behavior of a compiled program, run in place.
//!
//! A compiled program runs on a fixed-capacity zero-initialized tape
//! with a runtime guard ahead of every pointer move and every
//! cell-value change; a violated guard stops the run with its canonical
//! numeric code. This evaluator executes exactly that semantics, so a
//! guard violation is an inspectable value here rather than a process
//! abort, and the structural check that the builder performs is applied
//! before anything runs.

use vstd::pervasive::unreached;
use vstd::prelude::*;

use crate::brackets::{
    check_brackets, get_loop_closing_index, lemma_close_of, lemma_match_exists,
    structural_error_of, well_bracketed,
};
use crate::diag::{ExecutionResult, RunOutcome, RunStatus, StructuralError, Violation};
use crate::frames::{
    frames_ok, lemma_frames_enter, lemma_frames_leave, lemma_frames_plain, lemma_frames_repeat,
    lemma_frames_skip,
};
use crate::instr::Instruction;
use crate::machine::{
    finished, guarded_step, init_state, reaches, run, MachineState, Mode, Step, TAPE_CAPACITY,
};

verus! {

/// Execute a program under the compiled program's own semantics —
/// fixed tape, runtime guards, canonical violation codes — for at most
/// `max_steps` executed instructions.
///
/// An ill-bracketed program is rejected with its structural error
/// before anything runs, as the builder rejects it before emitting any
/// code. Otherwise the run is exactly the guarded-mode semantics: a
/// finished outcome is the output and status some number of steps
/// (within the budget) reaches, and a still-running answer means the
/// machine is still going after the whole budget.
pub fn run_guarded(instructions: &[Instruction], input: &[u8], max_steps: u64) -> (r: Result<
    ExecutionResult,
    StructuralError,
>)
    ensures
        match r {
            Ok(done) => well_bracketed(instructions@) && match done {
                ExecutionResult::Finished(outcome) => reaches(
                    Mode::Guarded,
                    instructions@,
                    input@,
                    outcome.output@,
                    outcome.status,
                ) && exists|n: nat|
                    n <= max_steps && #[trigger] run(Mode::Guarded, instructions@, input@, n)
                        == finished(outcome.output@, outcome.status),
                ExecutionResult::StillRunning => run(
                    Mode::Guarded,
                    instructions@,
                    input@,
                    max_steps as nat,
                ) is Going,
            },
            Err(e) => !well_bracketed(instructions@) && e == structural_error_of(instructions@),
        },
{
    if let Err(e) = check_brackets(instructions) {
        return Err(e);
    }
    let ghost prog = instructions@;
    let ghost inp = input@;
    let n = instructions.len();
    let mut tape: Vec<i8> = Vec::new();
    let mut fill: usize = 0;
    while fill < TAPE_CAPACITY
        invariant
            fill == tape@.len(),
            fill <= TAPE_CAPACITY,
            forall|i: int| 0 <= i < tape@.len() ==> tape@[i] == 0i8,
        decreases TAPE_CAPACITY - fill,
    {
        tape.push(0);
        fill = fill + 1;
    }
    proof {
        assert(tape@ =~= init_state(Mode::Guarded).tape);
        assert(Seq::<u8>::empty() =~= init_state(Mode::Guarded).output);
    }
    let mut frames: Vec<(usize, usize)> = Vec::new();
    let mut ptr: usize = 0;
    let mut pc: usize = 0;
    let mut next_input: usize = 0;
    let mut output: Vec<u8> = Vec::new();
    let mut steps: u64 = 0;
    while steps < max_steps
        invariant
            n == prog.len(),
            prog == instructions@,
            inp == input@,
            well_bracketed(prog),
            pc <= n,
            tape@.len() == TAPE_CAPACITY,
            ptr < TAPE_CAPACITY,
            next_input <= inp.len(),
            steps <= max_steps,
            frames_ok(prog, frames@, pc as int),
            run(Mode::Guarded, prog, inp, steps as nat) == Step::Going(
                MachineState {
                    pc: pc as nat,
                    ptr: ptr as nat,
                    tape: tape@,
                    next_input: next_input as nat,
                    output: output@,
                },
            ),
        decreases max_steps - steps,
    {
        let ghost s0 = MachineState {
            pc: pc as nat,
            ptr: ptr as nat,
            tape: tape@,
            next_input: next_input as nat,
            output: output@,
        };
        if pc >= n {
            proof {
                assert(guarded_step(prog, inp, s0) == Step::Halted(output@));
                assert(run(Mode::Guarded, prog, inp, (steps + 1) as nat) == finished(
                    output@,
                    RunStatus::Completed,
                ));
            }
            return Ok(
                ExecutionResult::Finished(RunOutcome { output, status: RunStatus::Completed }),
            );
        }
        match instructions[pc] {
            Instruction::IncrementPointer => {
                if ptr + 1 >= TAPE_CAPACITY {
                    proof {
                        assert(run(Mode::Guarded, prog, inp, (steps + 1) as nat) == finished(
                            output@,
                            RunStatus::Failed(Violation::PointerOverflow),
                        ));
                    }
                    return Ok(
                        ExecutionResult::Finished(
                            RunOutcome {
                                output,
                                status: RunStatus::Failed(Violation::PointerOverflow),
                            },
                        ),
                    );
                }
                proof {
                    lemma_frames_plain(prog, frames@, pc as int);
                }
                ptr = ptr + 1;
                pc = pc + 1;
            },
            Instruction::DecrementPointer => {
                if ptr == 0 {
                    proof {
                        assert(run(Mode::Guarded, prog, inp, (steps + 1) as nat) == finished(
                            output@,
                            RunStatus::Failed(Violation::PointerUnderflow),
                        ));
                    }
                    return Ok(
                        ExecutionResult::Finished(
                            RunOutcome {
                                output,
                                status: RunStatus::Failed(Violation::PointerUnderflow),
                            },
                        ),
                    );
                }
                proof {
                    lemma_frames_plain(prog, frames@, pc as int);
                }
                ptr = ptr - 1;
                pc = pc + 1;
            },
            Instruction::IncrementCell => {
                let v = tape[ptr];
                let w: i8 = if v == 127 {
                    -128
                } else {
                    v + 1
                };
                if w == -128 {
                    proof {
                        assert(run(Mode::Guarded, prog, inp, (steps + 1) as nat) == finished(
                            output@,
                            RunStatus::Failed(Violation::ValueOverflow),
                        ));
                    }
                    return Ok(
                        ExecutionResult::Finished(
                            RunOutcome { output, status: RunStatus::Failed(Violation::ValueOverflow) },
                        ),
                    );
                }
                proof {
                    lemma_frames_plain(prog, frames@, pc as int);
                }
                tape[ptr] = w;
                pc = pc + 1;
            },
            Instruction::DecrementCell => {
                let v = tape[ptr];
                let w: i8 = if v == -128 {
                    127
                } else {
                    v - 1
                };
                if w == 127 {
                    proof {
                        assert(run(Mode::Guarded, prog, inp, (steps + 1) as nat) == finished(
                            output@,
                            RunStatus::Failed(Violation::ValueUnderflow),
                        ));
                    }
                    return Ok(
                        ExecutionResult::Finished(
                            RunOutcome {
                                output,
                                status: RunStatus::Failed(Violation::ValueUnderflow),
                            },
                        ),
                    );
                }
                proof {
                    lemma_frames_plain(prog, frames@, pc as int);
                }
                tape[ptr] = w;
                pc = pc + 1;
            },
            Instruction::LoopOpen => {
                let j = match get_loop_closing_index(instructions, pc) {
                    Ok(j) => j,
                    Err(_) => {
                        proof {
                            lemma_match_exists(prog, pc as int);
                        }
                        unreached()
                    },
                };
                proof {
                    lemma_close_of(prog, pc as int, j as int);
                }
                if tape[ptr] == 0 {
                    proof {
                        lemma_frames_skip(prog, frames@, pc as int, j as int);
                    }
                    pc = j + 1;
                } else {
                    proof {
                        lemma_frames_enter(prog, frames@, pc, j);
                    }
                    frames.push((pc, j));
                    pc = pc + 1;
                }
            },
            Instruction::LoopClose => {
                if tape[ptr] == 0 {
                    proof {
                        lemma_frames_leave(prog, frames@, pc as int);
                        assert(frames@.subrange(0, frames@.len() - 1) =~= frames@.drop_last());
                    }
                    let _top = frames.pop();
                    pc = pc + 1;
                } else {
                    proof {
                        lemma_frames_repeat(prog, frames@, pc as int);
                    }
                    let top = frames[frames.len() - 1];
                    pc = top.0 + 1;
                }
            },
            Instruction::ReadByte => {
                proof {
                    lemma_frames_plain(prog, frames@, pc as int);
                }
                if next_input < input.len() {
                    let b = input[next_input];
                    let cell: i8 = if b <= 127 {
                        b as i8
                    } else {
                        (b as i16 - 256) as i8
                    };
                    tape[ptr] = cell;
                    next_input = next_input + 1;
                } else {
                    tape[ptr] = -1;
                }
                pc = pc + 1;
            },
            Instruction::WriteByte => {
                proof {
                    lemma_frames_plain(prog, frames@, pc as int);
                }
                let v = tape[ptr];
                let b: u8 = if v < 0 {
                    (v as i16 + 256) as u8
                } else {
                    v as u8
                };
                output.push(b);
                pc = pc + 1;
            },
        }
        proof {
            assert(guarded_step(prog, inp, s0) == Step::Going(
                MachineState {
                    pc: pc as nat,
                    ptr: ptr as nat,
                    tape: tape@,
                    next_input: next_input as nat,
                    output: output@,
                },
            ));
        }
        steps = steps + 1;
    }
    Ok(ExecutionResult::StillRunning)
}

} // verus!
