//! Agreement of the two execution modes on straight-line programs.
//!
//! A program with no loops and no out-of-range operation behaves the
//! same whether interpreted or compiled: the runs move in lockstep, the
//! growable tape agrees with the fixed tape cell for cell (with zeros
//! past its end), and the two output streams are byte-identical.

use vstd::prelude::*;

use crate::diag::RunStatus;
use crate::instr::Instruction;
use crate::machine::{
    finished, guarded_step, init_state, interpreted_step, reaches, run, MachineState, Mode, Step,
    TAPE_CAPACITY,
};

verus! {

/// A program with no loop instructions at all.
pub open spec fn loop_free(prog: Seq<Instruction>) -> bool {
    forall|i: int|
        0 <= i < prog.len() ==> (#[trigger] prog[i]) != Instruction::LoopOpen && prog[i]
            != Instruction::LoopClose
}

/// The mode never stops with a guard violation on this program and
/// input, however long it runs: no out-of-range operation occurs.
pub open spec fn never_fails(mode: Mode, prog: Seq<Instruction>, input: Seq<u8>) -> bool {
    forall|n: nat| !((#[trigger] run(mode, prog, input, n)) is Failed)
}

/// The interpreted state and the guarded state describe the same
/// machine: same position, pointer, input position and output, and the
/// growable tape agrees with the fixed tape cell for cell, with zeros
/// past its current end.
pub open spec fn corresponds(si: MachineState, sg: MachineState) -> bool {
    &&& si.pc == sg.pc
    &&& si.ptr == sg.ptr
    &&& si.next_input == sg.next_input
    &&& si.output == sg.output
    &&& si.ptr < si.tape.len()
    &&& si.tape.len() <= TAPE_CAPACITY
    &&& sg.tape.len() == TAPE_CAPACITY
    &&& forall|c: int|
        0 <= c < TAPE_CAPACITY ==> #[trigger] sg.tape[c] == (if c < si.tape.len() {
            si.tape[c]
        } else {
            0i8
        })
}

/// On a loop-free program, as long as neither mode has hit a
/// violation, the two runs stay in lockstep: going states correspond,
/// and the runs halt together with equal output.
proof fn lemma_lockstep(prog: Seq<Instruction>, input: Seq<u8>, n: nat)
    requires
        loop_free(prog),
        forall|m: nat| m <= n ==> !((#[trigger] run(Mode::Interpreted, prog, input, m)) is Failed),
        forall|m: nat| m <= n ==> !((#[trigger] run(Mode::Guarded, prog, input, m)) is Failed),
    ensures
        match (run(Mode::Interpreted, prog, input, n), run(Mode::Guarded, prog, input, n)) {
            (Step::Going(si), Step::Going(sg)) => corresponds(si, sg),
            (Step::Halted(oi), Step::Halted(og)) => oi == og,
            _ => false,
        },
    decreases n,
{
    if n == 0 {
        let si = init_state(Mode::Interpreted);
        let sg = init_state(Mode::Guarded);
        assert(si.tape.len() == 1);
        assert(si.tape[0] == 0i8);
        assert(corresponds(si, sg));
    } else {
        lemma_lockstep(prog, input, (n - 1) as nat);
        let ri = run(Mode::Interpreted, prog, input, (n - 1) as nat);
        let rg = run(Mode::Guarded, prog, input, (n - 1) as nat);
        match (ri, rg) {
            (Step::Going(si), Step::Going(sg)) => {
                assert(run(Mode::Interpreted, prog, input, n) == interpreted_step(prog, input, si));
                assert(run(Mode::Guarded, prog, input, n) == guarded_step(prog, input, sg));
                assert(!(run(Mode::Interpreted, prog, input, n) is Failed));
                assert(!(run(Mode::Guarded, prog, input, n) is Failed));
                if si.pc < prog.len() {
                    let pc = si.pc as int;
                    let ptr = si.ptr as int;
                    assert(prog[pc] != Instruction::LoopOpen && prog[pc] != Instruction::LoopClose);
                    match prog[pc] {
                        Instruction::IncrementPointer => {
                            assert(sg.ptr + 1 < TAPE_CAPACITY);
                            let si2 = match interpreted_step(prog, input, si) {
                                Step::Going(s) => s,
                                _ => si,
                            };
                            let sg2 = match guarded_step(prog, input, sg) {
                                Step::Going(s) => s,
                                _ => sg,
                            };
                            assert(si2.tape.len() <= si.tape.len() + 1);
                            assert(corresponds(si2, sg2));
                        },
                        Instruction::DecrementPointer => {
                            assert(si.ptr != 0);
                        },
                        Instruction::IncrementCell => {
                            assert(sg.tape[ptr] == si.tape[ptr]);
                        },
                        Instruction::DecrementCell => {
                            assert(sg.tape[ptr] == si.tape[ptr]);
                        },
                        Instruction::ReadByte => {
                            if si.next_input < input.len() {
                                let b = input[si.next_input as int];
                                assert(b <= 127);
                            }
                        },
                        Instruction::WriteByte => {
                            assert(sg.tape[ptr] == si.tape[ptr]);
                        },
                        _ => {
                            assert(false);
                        },
                    }
                }
            },
            (Step::Halted(oi), Step::Halted(og)) => {},
            _ => {
                assert(false);
            },
        }
    }
}

/// In a loop-free run the program counter is the step counter: nothing
/// ever jumps backward.
proof fn lemma_loop_free_pc(mode: Mode, prog: Seq<Instruction>, input: Seq<u8>, k: nat)
    requires
        loop_free(prog),
    ensures
        run(mode, prog, input, k) matches Step::Going(s) ==> s.pc == k && k <= prog.len(),
    decreases k,
{
    if k > 0 {
        lemma_loop_free_pc(mode, prog, input, (k - 1) as nat);
        if let Step::Going(s0) = run(mode, prog, input, (k - 1) as nat) {
            if s0.pc < prog.len() {
                assert(prog[s0.pc as int] != Instruction::LoopOpen && prog[s0.pc as int]
                    != Instruction::LoopClose);
            }
        }
    }
}

/// A loop-free program cannot run forever: in either mode the machine
/// is done — halted or stopped by a violation — after at most one step
/// per instruction and one final step.
pub proof fn lemma_loop_free_terminates(mode: Mode, prog: Seq<Instruction>, input: Seq<u8>)
    requires
        loop_free(prog),
    ensures
        !(run(mode, prog, input, prog.len() + 1) is Going),
{
    lemma_loop_free_pc(mode, prog, input, prog.len() + 1);
}

/// Two execution modes, one behavior: for any program containing no
/// loops, on any input on which neither mode hits an out-of-range
/// operation, the interpreter and the compiled program complete with
/// byte-identical output streams — each output the one mode can reach
/// is exactly the output the other reaches.
pub proof fn lemma_loop_free_modes_agree(prog: Seq<Instruction>, input: Seq<u8>, output: Seq<u8>)
    requires
        loop_free(prog),
        never_fails(Mode::Interpreted, prog, input),
        never_fails(Mode::Guarded, prog, input),
    ensures
        reaches(Mode::Interpreted, prog, input, output, RunStatus::Completed) <==> reaches(
            Mode::Guarded,
            prog,
            input,
            output,
            RunStatus::Completed,
        ),
{
    if reaches(Mode::Interpreted, prog, input, output, RunStatus::Completed) {
        let n = choose|n: nat|
            run(Mode::Interpreted, prog, input, n) == finished(output, RunStatus::Completed);
        lemma_lockstep(prog, input, n);
        assert(run(Mode::Guarded, prog, input, n) == Step::Halted(output));
    }
    if reaches(Mode::Guarded, prog, input, output, RunStatus::Completed) {
        let n = choose|n: nat|
            run(Mode::Guarded, prog, input, n) == finished(output, RunStatus::Completed);
        lemma_lockstep(prog, input, n);
        assert(run(Mode::Interpreted, prog, input, n) == Step::Halted(output));
    }
}

} // verus!
