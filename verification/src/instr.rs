//! The instruction set: eight symbols, each an operation of the
//! accumulator-tape machine.

use vstd::prelude::*;

verus! {

/// One instruction of the tape machine. A program is an ordered,
/// immutable sequence of these; index positions are stable identifiers.
#[derive(Clone, Copy, Debug, PartialEq, Eq, Structural)]
pub enum Instruction {
    /// `>`: move the pointer one cell to the right.
    IncrementPointer,
    /// `<`: move the pointer one cell to the left.
    DecrementPointer,
    /// `+`: add one to the current cell, wrapping.
    IncrementCell,
    /// `-`: subtract one from the current cell, wrapping.
    DecrementCell,
    /// `[`: enter the loop if the current cell is non-zero, else skip
    /// past the matching close.
    LoopOpen,
    /// `]`: repeat the loop if the current cell is non-zero, else leave it.
    LoopClose,
    /// `,`: read one byte from the input boundary into the current cell.
    ReadByte,
    /// `.`: write the current cell to the output boundary as one byte.
    WriteByte,
}


/// Source bytes of the eight symbols: `>` `<` `+` `-` `[` `]` `,` `.`
pub const BYTE_POINTER_RIGHT: u8 = 62;

pub const BYTE_POINTER_LEFT: u8 = 60;

pub const BYTE_CELL_PLUS: u8 = 43;

pub const BYTE_CELL_MINUS: u8 = 45;

pub const BYTE_LOOP_OPEN: u8 = 91;

pub const BYTE_LOOP_CLOSE: u8 = 93;

pub const BYTE_READ: u8 = 44;

pub const BYTE_WRITE: u8 = 46;

/// The instruction, if any, that a source byte denotes.
pub open spec fn spec_instruction_of_byte(b: u8) -> Option<Instruction> {
    if b == BYTE_POINTER_RIGHT {
        Some(Instruction::IncrementPointer)
    } else if b == BYTE_POINTER_LEFT {
        Some(Instruction::DecrementPointer)
    } else if b == BYTE_CELL_PLUS {
        Some(Instruction::IncrementCell)
    } else if b == BYTE_CELL_MINUS {
        Some(Instruction::DecrementCell)
    } else if b == BYTE_LOOP_OPEN {
        Some(Instruction::LoopOpen)
    } else if b == BYTE_LOOP_CLOSE {
        Some(Instruction::LoopClose)
    } else if b == BYTE_READ {
        Some(Instruction::ReadByte)
    } else if b == BYTE_WRITE {
        Some(Instruction::WriteByte)
    } else {
        None
    }
}

/// Recognize one source byte.
pub fn instruction_of_byte(b: u8) -> (r: Option<Instruction>)
    ensures
        r == spec_instruction_of_byte(b),
{
    match b {
        BYTE_POINTER_RIGHT => Some(Instruction::IncrementPointer),
        BYTE_POINTER_LEFT => Some(Instruction::DecrementPointer),
        BYTE_CELL_PLUS => Some(Instruction::IncrementCell),
        BYTE_CELL_MINUS => Some(Instruction::DecrementCell),
        BYTE_LOOP_OPEN => Some(Instruction::LoopOpen),
        BYTE_LOOP_CLOSE => Some(Instruction::LoopClose),
        BYTE_READ => Some(Instruction::ReadByte),
        BYTE_WRITE => Some(Instruction::WriteByte),
        _ => None,
    }
}

/// The ordered sequence of recognized instructions in a byte sequence;
/// every other byte is dropped.
pub open spec fn spec_filter_source(s: Seq<u8>) -> Seq<Instruction>
    decreases s.len(),
{
    if s.len() == 0 {
        Seq::empty()
    } else {
        let rest = spec_filter_source(s.drop_last());
        match spec_instruction_of_byte(s.last()) {
            Some(i) => rest.push(i),
            None => rest,
        }
    }
}

/// Reduce raw source text to the ordered sequence of recognized
/// instructions, dropping every unrecognized byte.
pub fn filter_source(src: &[u8]) -> (prog: Vec<Instruction>)
    ensures
        prog@ == spec_filter_source(src@),
{
    let mut prog: Vec<Instruction> = Vec::new();
    let mut k: usize = 0;
    assert(src@.take(0) =~= Seq::<u8>::empty());
    while k < src.len()
        invariant
            k <= src@.len(),
            prog@ == spec_filter_source(src@.take(k as int)),
        decreases src@.len() - k,
    {
        let b = src[k];
        match instruction_of_byte(b) {
            Some(i) => prog.push(i),
            None => (),
        }
        proof {
            assert(src@.take(k + 1).drop_last() =~= src@.take(k as int));
            assert(src@.take(k + 1).last() == b);
        }
        k = k + 1;
    }
    proof {
        assert(src@.take(src@.len() as int) =~= src@);
    }
    prog
}

} // verus!
