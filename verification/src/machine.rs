//! The meaning of a program, as a small-step machine over mathematical
//! state.
//!
//! Both execution modes share one state shape and differ only in their
//! step rule. Interpreted mode runs on a tape that grows to the right
//! and wraps cell arithmetic; guarded mode is the behavior of a
//! compiled program: a fixed-capacity zero-initialized tape with a
//! runtime guard on every pointer and cell-value range violation.

use vstd::prelude::*;

use crate::brackets::{close_of, open_of};
use crate::diag::{RunStatus, Violation};
use crate::instr::Instruction;

verus! {

/// Capacity, in cells, of the fixed tape a compiled program runs on.
pub const TAPE_CAPACITY: usize = 30000;

/// The machine's full state between steps: program counter, pointer,
/// tape contents, position in the input stream, and output so far.
pub ghost struct MachineState {
    pub pc: nat,
    pub ptr: nat,
    pub tape: Seq<i8>,
    pub next_input: nat,
    pub output: Seq<u8>,
}

/// Where one step leaves the machine: still going, halted at the end of
/// the program, or stopped by a guard violation. A finished run carries
/// the bytes it wrote.
pub ghost enum Step {
    Going(MachineState),
    Halted(Seq<u8>),
    Failed(Seq<u8>, Violation),
}

/// The two execution modes over which the step rules are defined.
pub ghost enum Mode {
    Interpreted,
    Guarded,
}

/// Signed 8-bit increment with wraparound.
pub open spec fn wrap_inc(v: int) -> int {
    if v == 127 {
        -128
    } else {
        v + 1
    }
}

/// Signed 8-bit decrement with wraparound.
pub open spec fn wrap_dec(v: int) -> int {
    if v == -128 {
        127
    } else {
        v - 1
    }
}

/// The unsigned byte a cell value is written out as.
pub open spec fn byte_of_cell(v: int) -> int {
    if v < 0 {
        v + 256
    } else {
        v
    }
}

/// The cell value an input byte is narrowed to in guarded mode: plain
/// 8-bit reinterpretation.
pub open spec fn cell_of_byte(b: int) -> int {
    if b >= 128 {
        b - 256
    } else {
        b
    }
}

/// One step of interpreted mode. The tape grows by one zero cell when
/// the pointer first passes its current end; cell arithmetic wraps;
/// moving left of cell zero and an unrepresentable input byte are
/// violations; reading exhausted input stores the end-of-input sentinel
/// `-1`.
pub open spec fn interpreted_step(prog: Seq<Instruction>, input: Seq<u8>, s: MachineState) -> Step {
    if s.pc >= prog.len() {
        Step::Halted(s.output)
    } else {
        let pc = s.pc as int;
        let ptr = s.ptr as int;
        match prog[pc] {
            Instruction::IncrementPointer => Step::Going(
                MachineState {
                    pc: s.pc + 1,
                    ptr: s.ptr + 1,
                    tape: if s.ptr + 1 == s.tape.len() {
                        s.tape.push(0)
                    } else {
                        s.tape
                    },
                    next_input: s.next_input,
                    output: s.output,
                },
            ),
            Instruction::DecrementPointer => if s.ptr == 0 {
                Step::Failed(s.output, Violation::PointerUnderflow)
            } else {
                Step::Going(
                    MachineState {
                        pc: s.pc + 1,
                        ptr: (s.ptr - 1) as nat,
                        tape: s.tape,
                        next_input: s.next_input,
                        output: s.output,
                    },
                )
            },
            Instruction::IncrementCell => Step::Going(
                MachineState {
                    pc: s.pc + 1,
                    ptr: s.ptr,
                    tape: s.tape.update(ptr, wrap_inc(s.tape[ptr] as int) as i8),
                    next_input: s.next_input,
                    output: s.output,
                },
            ),
            Instruction::DecrementCell => Step::Going(
                MachineState {
                    pc: s.pc + 1,
                    ptr: s.ptr,
                    tape: s.tape.update(ptr, wrap_dec(s.tape[ptr] as int) as i8),
                    next_input: s.next_input,
                    output: s.output,
                },
            ),
            Instruction::LoopOpen => if s.tape[ptr] == 0 {
                Step::Going(
                    MachineState {
                        pc: (close_of(prog, pc) + 1) as nat,
                        ptr: s.ptr,
                        tape: s.tape,
                        next_input: s.next_input,
                        output: s.output,
                    },
                )
            } else {
                Step::Going(
                    MachineState {
                        pc: s.pc + 1,
                        ptr: s.ptr,
                        tape: s.tape,
                        next_input: s.next_input,
                        output: s.output,
                    },
                )
            },
            Instruction::LoopClose => if s.tape[ptr] == 0 {
                Step::Going(
                    MachineState {
                        pc: s.pc + 1,
                        ptr: s.ptr,
                        tape: s.tape,
                        next_input: s.next_input,
                        output: s.output,
                    },
                )
            } else {
                Step::Going(
                    MachineState {
                        pc: (open_of(prog, pc) + 1) as nat,
                        ptr: s.ptr,
                        tape: s.tape,
                        next_input: s.next_input,
                        output: s.output,
                    },
                )
            },
            Instruction::ReadByte => if s.next_input < input.len() {
                let b = input[s.next_input as int];
                if b > 127 {
                    Step::Failed(s.output, Violation::InvalidInput)
                } else {
                    Step::Going(
                        MachineState {
                            pc: s.pc + 1,
                            ptr: s.ptr,
                            tape: s.tape.update(ptr, b as i8),
                            next_input: s.next_input + 1,
                            output: s.output,
                        },
                    )
                }
            } else {
                Step::Going(
                    MachineState {
                        pc: s.pc + 1,
                        ptr: s.ptr,
                        tape: s.tape.update(ptr, -1i8),
                        next_input: s.next_input,
                        output: s.output,
                    },
                )
            },
            Instruction::WriteByte => Step::Going(
                MachineState {
                    pc: s.pc + 1,
                    ptr: s.ptr,
                    tape: s.tape,
                    next_input: s.next_input,
                    output: s.output.push(byte_of_cell(s.tape[ptr] as int) as u8),
                },
            ),
        }
    }
}

/// One step of guarded mode: the behavior the compiled program's guards
/// enforce. The tape is fixed at `TAPE_CAPACITY` cells; each pointer
/// move and each cell-value change is checked and a violation stops the
/// run with its canonical code; input bytes are narrowed by plain 8-bit
/// reinterpretation (no guard: every byte is representable); reading
/// exhausted input stores the end-of-input sentinel `-1`.
pub open spec fn guarded_step(prog: Seq<Instruction>, input: Seq<u8>, s: MachineState) -> Step {
    if s.pc >= prog.len() {
        Step::Halted(s.output)
    } else {
        let pc = s.pc as int;
        let ptr = s.ptr as int;
        match prog[pc] {
            Instruction::IncrementPointer => if s.ptr + 1 >= TAPE_CAPACITY {
                Step::Failed(s.output, Violation::PointerOverflow)
            } else {
                Step::Going(
                    MachineState {
                        pc: s.pc + 1,
                        ptr: s.ptr + 1,
                        tape: s.tape,
                        next_input: s.next_input,
                        output: s.output,
                    },
                )
            },
            Instruction::DecrementPointer => if s.ptr == 0 {
                Step::Failed(s.output, Violation::PointerUnderflow)
            } else {
                Step::Going(
                    MachineState {
                        pc: s.pc + 1,
                        ptr: (s.ptr - 1) as nat,
                        tape: s.tape,
                        next_input: s.next_input,
                        output: s.output,
                    },
                )
            },
            Instruction::IncrementCell => if wrap_inc(s.tape[ptr] as int) == -128 {
                Step::Failed(s.output, Violation::ValueOverflow)
            } else {
                Step::Going(
                    MachineState {
                        pc: s.pc + 1,
                        ptr: s.ptr,
                        tape: s.tape.update(ptr, wrap_inc(s.tape[ptr] as int) as i8),
                        next_input: s.next_input,
                        output: s.output,
                    },
                )
            },
            Instruction::DecrementCell => if wrap_dec(s.tape[ptr] as int) == 127 {
                Step::Failed(s.output, Violation::ValueUnderflow)
            } else {
                Step::Going(
                    MachineState {
                        pc: s.pc + 1,
                        ptr: s.ptr,
                        tape: s.tape.update(ptr, wrap_dec(s.tape[ptr] as int) as i8),
                        next_input: s.next_input,
                        output: s.output,
                    },
                )
            },
            Instruction::LoopOpen => if s.tape[ptr] == 0 {
                Step::Going(
                    MachineState {
                        pc: (close_of(prog, pc) + 1) as nat,
                        ptr: s.ptr,
                        tape: s.tape,
                        next_input: s.next_input,
                        output: s.output,
                    },
                )
            } else {
                Step::Going(
                    MachineState {
                        pc: s.pc + 1,
                        ptr: s.ptr,
                        tape: s.tape,
                        next_input: s.next_input,
                        output: s.output,
                    },
                )
            },
            Instruction::LoopClose => if s.tape[ptr] == 0 {
                Step::Going(
                    MachineState {
                        pc: s.pc + 1,
                        ptr: s.ptr,
                        tape: s.tape,
                        next_input: s.next_input,
                        output: s.output,
                    },
                )
            } else {
                Step::Going(
                    MachineState {
                        pc: (open_of(prog, pc) + 1) as nat,
                        ptr: s.ptr,
                        tape: s.tape,
                        next_input: s.next_input,
                        output: s.output,
                    },
                )
            },
            Instruction::ReadByte => Step::Going(
                MachineState {
                    pc: s.pc + 1,
                    ptr: s.ptr,
                    tape: s.tape.update(
                        ptr,
                        if s.next_input < input.len() {
                            cell_of_byte(input[s.next_input as int] as int) as i8
                        } else {
                            -1i8
                        },
                    ),
                    next_input: if s.next_input < input.len() {
                        s.next_input + 1
                    } else {
                        s.next_input
                    },
                    output: s.output,
                },
            ),
            Instruction::WriteByte => Step::Going(
                MachineState {
                    pc: s.pc + 1,
                    ptr: s.ptr,
                    tape: s.tape,
                    next_input: s.next_input,
                    output: s.output.push(byte_of_cell(s.tape[ptr] as int) as u8),
                },
            ),
        }
    }
}

/// The step rule of a mode.
pub open spec fn step(mode: Mode, prog: Seq<Instruction>, input: Seq<u8>, s: MachineState) -> Step {
    match mode {
        Mode::Interpreted => interpreted_step(prog, input, s),
        Mode::Guarded => guarded_step(prog, input, s),
    }
}

/// Where a mode starts: interpreted mode on a single zero cell,
/// guarded mode on the full zero-initialized tape. Both at the first
/// instruction, the first input byte, and empty output.
pub open spec fn init_state(mode: Mode) -> MachineState {
    MachineState {
        pc: 0,
        ptr: 0,
        tape: match mode {
            Mode::Interpreted => seq![0i8],
            Mode::Guarded => Seq::new(TAPE_CAPACITY as nat, |i: int| 0i8),
        },
        next_input: 0,
        output: Seq::empty(),
    }
}

/// The machine after `n` steps from the mode's initial state. A halted
/// or failed machine stays put.
pub open spec fn run(mode: Mode, prog: Seq<Instruction>, input: Seq<u8>, n: nat) -> Step
    decreases n,
{
    if n == 0 {
        Step::Going(init_state(mode))
    } else {
        match run(mode, prog, input, (n - 1) as nat) {
            Step::Going(s) => step(mode, prog, input, s),
            done => done,
        }
    }
}

/// The run in this mode ends, after some number of steps, with exactly
/// this output and this status.
pub open spec fn reaches(
    mode: Mode,
    prog: Seq<Instruction>,
    input: Seq<u8>,
    output: Seq<u8>,
    status: RunStatus,
) -> bool {
    exists|n: nat| run(mode, prog, input, n) == finished(output, status)
}

/// The terminal step a finished run is summarized by.
pub open spec fn finished(output: Seq<u8>, status: RunStatus) -> Step {
    match status {
        RunStatus::Completed => Step::Halted(output),
        RunStatus::Failed(v) => Step::Failed(output, v),
    }
}

/// A terminal step never moves again.
proof fn lemma_terminal_stays(
    mode: Mode,
    prog: Seq<Instruction>,
    input: Seq<u8>,
    n1: nat,
    n2: nat,
)
    requires
        n1 <= n2,
        !(run(mode, prog, input, n1) is Going),
    ensures
        run(mode, prog, input, n2) == run(mode, prog, input, n1),
    decreases n2 - n1,
{
    if n2 > n1 {
        lemma_terminal_stays(mode, prog, input, n1, (n2 - 1) as nat);
    }
}

/// Determinism of execution: a program and an input stream settle the
/// whole outcome. Running the same program on the same input twice, in
/// the same mode, yields identical output bytes and the same status —
/// there is no hidden state across runs.
pub proof fn lemma_run_deterministic(
    mode: Mode,
    prog: Seq<Instruction>,
    input: Seq<u8>,
    out1: Seq<u8>,
    st1: RunStatus,
    out2: Seq<u8>,
    st2: RunStatus,
)
    requires
        reaches(mode, prog, input, out1, st1),
        reaches(mode, prog, input, out2, st2),
    ensures
        out1 == out2,
        st1 == st2,
{
    let n1 = choose|n: nat| run(mode, prog, input, n) == finished(out1, st1);
    let n2 = choose|n: nat| run(mode, prog, input, n) == finished(out2, st2);
    if n1 <= n2 {
        lemma_terminal_stays(mode, prog, input, n1, n2);
    } else {
        lemma_terminal_stays(mode, prog, input, n2, n1);
    }
}

} // verus!
