//! The tape machine: direct interpretation of a program.
//!
//! The nesting structure is validated up front — an ill-bracketed
//! program is rejected before a single instruction runs — and the
//! machine then executes with an explicit stack of loop frames, which
//! the bracket theory proves equal to jumping between matching
//! brackets. Each executed instruction is one step of the interpreted
//! small-step semantics, so the returned outcome is exactly what the
//! semantics assigns to the program and the input stream.

use vstd::pervasive::unreached;
use vstd::prelude::*;

use crate::brackets::{
    check_brackets, get_loop_closing_index, lemma_close_of, lemma_match_exists,
    structural_error_of, well_bracketed,
};
use crate::diag::{ExecutionResult, RunOutcome, RunStatus, StructuralError, Violation};
use crate::frames::{
    frames_ok, lemma_frames_enter, lemma_frames_leave, lemma_frames_plain, lemma_frames_repeat,
    lemma_frames_skip,
};
use crate::instr::Instruction;
use crate::machine::{
    finished, init_state, interpreted_step, reaches, run, MachineState, Mode, Step,
};

verus! {

/// Execute a program against an input stream, for at most `max_steps`
/// executed instructions.
///
/// An ill-bracketed program is rejected with its structural error
/// before any instruction runs. Otherwise the run is exactly the
/// interpreted-mode semantics of the program: a finished outcome is the
/// output and status some number of steps (within the budget) reaches,
/// and a still-running answer means the machine is still going after
/// the whole budget.
pub fn interpreter(instructions: &[Instruction], input: &[u8], max_steps: u64) -> (r: Result<
    ExecutionResult,
    StructuralError,
>)
    ensures
        match r {
            Ok(done) => well_bracketed(instructions@) && match done {
                ExecutionResult::Finished(outcome) => reaches(
                    Mode::Interpreted,
                    instructions@,
                    input@,
                    outcome.output@,
                    outcome.status,
                ) && exists|n: nat|
                    n <= max_steps && #[trigger] run(Mode::Interpreted, instructions@, input@, n)
                        == finished(outcome.output@, outcome.status),
                ExecutionResult::StillRunning => run(
                    Mode::Interpreted,
                    instructions@,
                    input@,
                    max_steps as nat,
                ) is Going,
            },
            Err(e) => !well_bracketed(instructions@) && e == structural_error_of(instructions@),
        },
{
    if let Err(e) = check_brackets(instructions) {
        return Err(e);
    }
    let ghost prog = instructions@;
    let ghost inp = input@;
    let n = instructions.len();
    let mut tape: Vec<i8> = Vec::new();
    tape.push(0);
    let mut frames: Vec<(usize, usize)> = Vec::new();
    let mut ptr: usize = 0;
    let mut pc: usize = 0;
    let mut next_input: usize = 0;
    let mut output: Vec<u8> = Vec::new();
    let mut steps: u64 = 0;
    proof {
        assert(tape@ =~= init_state(Mode::Interpreted).tape);
        assert(output@ =~= init_state(Mode::Interpreted).output);
    }
    while steps < max_steps
        invariant
            n == prog.len(),
            prog == instructions@,
            inp == input@,
            well_bracketed(prog),
            pc <= n,
            ptr < tape.len(),
            next_input <= inp.len(),
            steps <= max_steps,
            frames_ok(prog, frames@, pc as int),
            run(Mode::Interpreted, prog, inp, steps as nat) == Step::Going(
                MachineState {
                    pc: pc as nat,
                    ptr: ptr as nat,
                    tape: tape@,
                    next_input: next_input as nat,
                    output: output@,
                },
            ),
        decreases max_steps - steps,
    {
        let ghost s0 = MachineState {
            pc: pc as nat,
            ptr: ptr as nat,
            tape: tape@,
            next_input: next_input as nat,
            output: output@,
        };
        if pc >= n {
            proof {
                assert(interpreted_step(prog, inp, s0) == Step::Halted(output@));
                assert(run(Mode::Interpreted, prog, inp, (steps + 1) as nat) == finished(
                    output@,
                    RunStatus::Completed,
                ));
            }
            return Ok(
                ExecutionResult::Finished(RunOutcome { output, status: RunStatus::Completed }),
            );
        }
        match instructions[pc] {
            Instruction::IncrementPointer => {
                proof {
                    lemma_frames_plain(prog, frames@, pc as int);
                }
                ptr = ptr + 1;
                if ptr == tape.len() {
                    tape.push(0);
                }
                pc = pc + 1;
            },
            Instruction::DecrementPointer => {
                if ptr == 0 {
                    proof {
                        assert(interpreted_step(prog, inp, s0) == Step::Failed(
                            output@,
                            Violation::PointerUnderflow,
                        ));
                        assert(run(Mode::Interpreted, prog, inp, (steps + 1) as nat) == finished(
                            output@,
                            RunStatus::Failed(Violation::PointerUnderflow),
                        ));
                    }
                    return Ok(
                        ExecutionResult::Finished(
                            RunOutcome {
                                output,
                                status: RunStatus::Failed(Violation::PointerUnderflow),
                            },
                        ),
                    );
                }
                proof {
                    lemma_frames_plain(prog, frames@, pc as int);
                }
                ptr = ptr - 1;
                pc = pc + 1;
            },
            Instruction::IncrementCell => {
                proof {
                    lemma_frames_plain(prog, frames@, pc as int);
                }
                let v = tape[ptr];
                let w: i8 = if v == 127 {
                    -128
                } else {
                    v + 1
                };
                tape[ptr] = w;
                pc = pc + 1;
            },
            Instruction::DecrementCell => {
                proof {
                    lemma_frames_plain(prog, frames@, pc as int);
                }
                let v = tape[ptr];
                let w: i8 = if v == -128 {
                    127
                } else {
                    v - 1
                };
                tape[ptr] = w;
                pc = pc + 1;
            },
            Instruction::LoopOpen => {
                let j = match get_loop_closing_index(instructions, pc) {
                    Ok(j) => j,
                    Err(_) => {
                        proof {
                            lemma_match_exists(prog, pc as int);
                        }
                        unreached()
                    },
                };
                proof {
                    lemma_close_of(prog, pc as int, j as int);
                }
                if tape[ptr] == 0 {
                    proof {
                        lemma_frames_skip(prog, frames@, pc as int, j as int);
                    }
                    pc = j + 1;
                } else {
                    proof {
                        lemma_frames_enter(prog, frames@, pc, j);
                    }
                    frames.push((pc, j));
                    pc = pc + 1;
                }
            },
            Instruction::LoopClose => {
                if tape[ptr] == 0 {
                    proof {
                        lemma_frames_leave(prog, frames@, pc as int);
                        assert(frames@.subrange(0, frames@.len() - 1) =~= frames@.drop_last());
                    }
                    let _top = frames.pop();
                    pc = pc + 1;
                } else {
                    proof {
                        lemma_frames_repeat(prog, frames@, pc as int);
                    }
                    let top = frames[frames.len() - 1];
                    pc = top.0 + 1;
                }
            },
            Instruction::ReadByte => {
                proof {
                    lemma_frames_plain(prog, frames@, pc as int);
                }
                if next_input < input.len() {
                    let b = input[next_input];
                    if b > 127 {
                        proof {
                            assert(interpreted_step(prog, inp, s0) == Step::Failed(
                                output@,
                                Violation::InvalidInput,
                            ));
                            assert(run(Mode::Interpreted, prog, inp, (steps + 1) as nat)
                                == finished(output@, RunStatus::Failed(Violation::InvalidInput)));
                        }
                        return Ok(
                            ExecutionResult::Finished(
                                RunOutcome {
                                    output,
                                    status: RunStatus::Failed(Violation::InvalidInput),
                                },
                            ),
                        );
                    }
                    tape[ptr] = b as i8;
                    next_input = next_input + 1;
                } else {
                    tape[ptr] = -1;
                }
                pc = pc + 1;
            },
            Instruction::WriteByte => {
                proof {
                    lemma_frames_plain(prog, frames@, pc as int);
                }
                let v = tape[ptr];
                let b: u8 = if v < 0 {
                    (v as i16 + 256) as u8
                } else {
                    v as u8
                };
                output.push(b);
                pc = pc + 1;
            },
        }
        proof {
            assert(interpreted_step(prog, inp, s0) == Step::Going(
                MachineState {
                    pc: pc as nat,
                    ptr: ptr as nat,
                    tape: tape@,
                    next_input: next_input as nat,
                    output: output@,
                },
            ));
        }
        steps = steps + 1;
    }
    Ok(ExecutionResult::StillRunning)
}

} // verus!
