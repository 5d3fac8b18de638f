//! Loop frames: the explicit stack of active (unclosed) loops that both
//! execution modes carry at run time.
//!
//! A frame is the (open index, close index) pair of a loop that has been
//! entered and not yet left. The stack always holds exactly the loops
//! enclosing the current program position, innermost on top; that is
//! what makes "jump to the top frame's open" the same thing as "jump to
//! the matching open", without recursion at any nesting depth.

use vstd::prelude::*;

use crate::brackets::{
    active_open, close_of, has_match, lemma_close_of, lemma_nested, lemma_open_exists,
    lemma_unique_close, lemma_unique_open, matching_pair, open_of, well_bracketed,
};
use crate::instr::Instruction;

verus! {

/// The frame records a matched pair.
pub open spec fn frame_matches(prog: Seq<Instruction>, f: (usize, usize)) -> bool {
    matching_pair(prog, f.0 as int, f.1 as int)
}

/// The frame's loop encloses program position `pc`. A position on the
/// frame's own close still counts as inside: the frame is popped only
/// when the close executes and finds a zero cell.
pub open spec fn frame_encloses(f: (usize, usize), pc: int) -> bool {
    (f.0 as int) < pc <= (f.1 as int)
}

/// Some frame on the stack is the loop opened at `o`.
pub open spec fn contains_open(frames: Seq<(usize, usize)>, o: int) -> bool {
    exists|k: int| 0 <= k < frames.len() && (#[trigger] frames[k]).0 as int == o
}

/// The frame stack is exactly the chain of loops enclosing `pc`,
/// outermost first: every frame is a matched pair enclosing `pc`, the
/// opens increase going up the stack, and every active loop-open is on
/// the stack.
pub open spec fn frames_ok(prog: Seq<Instruction>, frames: Seq<(usize, usize)>, pc: int) -> bool {
    &&& forall|k: int| 0 <= k < frames.len() ==> frame_matches(prog, #[trigger] frames[k])
    &&& forall|k: int| 0 <= k < frames.len() ==> frame_encloses(#[trigger] frames[k], pc)
    &&& forall|k1: int, k2: int|
        0 <= k1 < k2 < frames.len() ==> (#[trigger] frames[k1]).0 < (#[trigger] frames[k2]).0
    &&& forall|o: int| #[trigger] active_open(prog, o, pc) ==> contains_open(frames, o)
}

/// When the machine stands on a loop-close, the top frame is that very
/// loop: its close is `pc` and its open is the matching open.
pub proof fn lemma_frames_at_close(prog: Seq<Instruction>, frames: Seq<(usize, usize)>, pc: int)
    requires
        well_bracketed(prog),
        frames_ok(prog, frames, pc),
        0 <= pc < prog.len(),
        prog[pc] == Instruction::LoopClose,
    ensures
        frames.len() > 0,
        frames.last().1 as int == pc,
        matching_pair(prog, frames.last().0 as int, pc),
        open_of(prog, pc) == frames.last().0 as int,
{
    lemma_open_exists(prog, pc);
    let o = open_of(prog, pc);
    assert(matching_pair(prog, o, pc));
    lemma_close_of(prog, o, pc);
    assert(active_open(prog, o, pc));
    assert(contains_open(frames, o));
    let k = choose|k: int| 0 <= k < frames.len() && (#[trigger] frames[k]).0 as int == o;
    let last = frames.len() - 1;
    if k < last {
        let ol = frames[last].0 as int;
        let cl = frames[last].1 as int;
        assert(frame_matches(prog, frames[last]));
        assert(frame_encloses(frames[last], pc));
        assert(frames[k].0 < frames[last].0);
        lemma_nested(prog, o, pc, ol, cl);
        assert(false);
    }
    assert(frames[last].0 as int == o);
    assert(frame_matches(prog, frames[last]));
    lemma_unique_close(prog, o, frames[last].1 as int, pc);
}

/// Stepping over an instruction that is neither bracket keeps the stack
/// right.
pub proof fn lemma_frames_plain(prog: Seq<Instruction>, frames: Seq<(usize, usize)>, pc: int)
    requires
        frames_ok(prog, frames, pc),
        0 <= pc < prog.len(),
        prog[pc] != Instruction::LoopOpen,
        prog[pc] != Instruction::LoopClose,
    ensures
        frames_ok(prog, frames, pc + 1),
{
    assert forall|k: int| 0 <= k < frames.len() implies frame_encloses(
        #[trigger] frames[k],
        pc + 1,
    ) by {
        assert(frame_matches(prog, frames[k]));
        assert(frame_encloses(frames[k], pc));
        assert(prog[frames[k].1 as int] == Instruction::LoopClose);
    }
    assert forall|o: int| #[trigger] active_open(prog, o, pc + 1) implies contains_open(
        frames,
        o,
    ) by {
        let c = close_of(prog, o);
        assert(matching_pair(prog, o, c));
        assert(prog[o] == Instruction::LoopOpen);
        assert(o != pc);
        assert(prog[c] == Instruction::LoopClose);
        assert(c != pc);
        assert(active_open(prog, o, pc));
    }
}

/// Entering a loop (non-zero cell at its open) pushes its frame and
/// moves to the next instruction; the stack stays right.
pub proof fn lemma_frames_enter(
    prog: Seq<Instruction>,
    frames: Seq<(usize, usize)>,
    pc: usize,
    c: usize,
)
    requires
        frames_ok(prog, frames, pc as int),
        matching_pair(prog, pc as int, c as int),
    ensures
        frames_ok(prog, frames.push((pc, c)), pc as int + 1),
{
    let frames2 = frames.push((pc, c));
    assert forall|k: int| 0 <= k < frames2.len() implies frame_matches(
        prog,
        #[trigger] frames2[k],
    ) by {
        if k < frames.len() {
            assert(frames2[k] == frames[k]);
            assert(frame_matches(prog, frames[k]));
        }
    }
    assert forall|k: int| 0 <= k < frames2.len() implies frame_encloses(
        #[trigger] frames2[k],
        pc as int + 1,
    ) by {
        if k < frames.len() {
            assert(frames2[k] == frames[k]);
            assert(frame_matches(prog, frames[k]));
            assert(frame_encloses(frames[k], pc as int));
            assert(prog[frames[k].1 as int] == Instruction::LoopClose);
            assert(prog[pc as int] == Instruction::LoopOpen);
        }
    }
    assert forall|k1: int, k2: int| 0 <= k1 < k2 < frames2.len() implies (
    #[trigger] frames2[k1]).0 < (#[trigger] frames2[k2]).0 by {
        assert(frames2[k1] == frames[k1]);
        if k2 < frames.len() {
            assert(frames2[k2] == frames[k2]);
        } else {
            assert(frame_encloses(frames[k1], pc as int));
        }
    }
    assert forall|o: int| #[trigger] active_open(prog, o, pc as int + 1) implies contains_open(
        frames2,
        o,
    ) by {
        if o == pc as int {
            assert(frames2[frames.len() as int].0 as int == o);
        } else {
            let co = close_of(prog, o);
            assert(matching_pair(prog, o, co));
            assert(prog[co] == Instruction::LoopClose);
            assert(co != pc as int);
            assert(active_open(prog, o, pc as int));
            assert(contains_open(frames, o));
            let k = choose|k: int|
                0 <= k < frames.len() && (#[trigger] frames[k]).0 as int == o;
            assert(frames2[k].0 as int == o);
        }
    }
}

/// Skipping a loop (zero cell at its open) jumps just past its close
/// without touching the stack; the stack stays right.
pub proof fn lemma_frames_skip(
    prog: Seq<Instruction>,
    frames: Seq<(usize, usize)>,
    pc: int,
    c: int,
)
    requires
        frames_ok(prog, frames, pc),
        matching_pair(prog, pc, c),
    ensures
        frames_ok(prog, frames, c + 1),
{
    assert forall|k: int| 0 <= k < frames.len() implies frame_encloses(
        #[trigger] frames[k],
        c + 1,
    ) by {
        assert(frame_matches(prog, frames[k]));
        assert(frame_encloses(frames[k], pc));
        lemma_nested(prog, frames[k].0 as int, frames[k].1 as int, pc, c);
    }
    assert forall|o: int| #[trigger] active_open(prog, o, c + 1) implies contains_open(
        frames,
        o,
    ) by {
        let co = close_of(prog, o);
        assert(matching_pair(prog, o, co));
        if o == pc {
            lemma_unique_close(prog, pc, co, c);
            assert(false);
        } else if pc < o && o <= c {
            lemma_nested(prog, pc, c, o, co);
            assert(false);
        } else {
            assert(o < pc);
            assert(prog[co] == Instruction::LoopClose);
            assert(prog[pc] == Instruction::LoopOpen);
            assert(active_open(prog, o, pc));
        }
    }
}

/// Leaving a loop (zero cell at its close) pops the top frame and moves
/// on; the rest of the stack stays right.
pub proof fn lemma_frames_leave(prog: Seq<Instruction>, frames: Seq<(usize, usize)>, pc: int)
    requires
        well_bracketed(prog),
        frames_ok(prog, frames, pc),
        0 <= pc < prog.len(),
        prog[pc] == Instruction::LoopClose,
    ensures
        frames.len() > 0,
        frames.last().1 as int == pc,
        matching_pair(prog, frames.last().0 as int, pc),
        frames_ok(prog, frames.drop_last(), pc + 1),
{
    lemma_frames_at_close(prog, frames, pc);
    let rest = frames.drop_last();
    let last = frames.len() - 1;
    let ot = frames[last].0 as int;
    assert forall|k: int| 0 <= k < rest.len() implies frame_matches(prog, #[trigger] rest[k])
        && frame_encloses(#[trigger] rest[k], pc + 1) by {
        assert(rest[k] == frames[k]);
        assert(frame_matches(prog, frames[k]));
        assert(frame_encloses(frames[k], pc));
        assert(frames[k].0 < frames[last].0);
        if frames[k].1 as int == pc {
            lemma_unique_open(prog, frames[k].0 as int, ot, pc);
            assert(false);
        }
    }
    assert forall|k1: int, k2: int| 0 <= k1 < k2 < rest.len() implies (#[trigger] rest[k1]).0 < (
    #[trigger] rest[k2]).0 by {
        assert(rest[k1] == frames[k1]);
        assert(rest[k2] == frames[k2]);
    }
    assert forall|o: int| #[trigger] active_open(prog, o, pc + 1) implies contains_open(
        rest,
        o,
    ) by {
        let co = close_of(prog, o);
        assert(matching_pair(prog, o, co));
        assert(prog[o] == Instruction::LoopOpen);
        assert(o != pc);
        assert(active_open(prog, o, pc));
        assert(contains_open(frames, o));
        let k = choose|k: int| 0 <= k < frames.len() && (#[trigger] frames[k]).0 as int == o;
        if k == last {
            assert(frame_matches(prog, frames[last]));
            lemma_unique_close(prog, o, co, pc);
            assert(false);
        }
        assert(rest[k].0 as int == o);
    }
}

/// Repeating a loop (non-zero cell at its close) jumps back just past
/// the top frame's open, keeping the frame; the stack stays right.
pub proof fn lemma_frames_repeat(prog: Seq<Instruction>, frames: Seq<(usize, usize)>, pc: int)
    requires
        well_bracketed(prog),
        frames_ok(prog, frames, pc),
        0 <= pc < prog.len(),
        prog[pc] == Instruction::LoopClose,
    ensures
        frames.len() > 0,
        frames.last().1 as int == pc,
        matching_pair(prog, frames.last().0 as int, pc),
        open_of(prog, pc) == frames.last().0 as int,
        frames_ok(prog, frames, frames.last().0 as int + 1),
{
    lemma_frames_at_close(prog, frames, pc);
    let last = frames.len() - 1;
    let ot = frames[last].0 as int;
    assert forall|k: int| 0 <= k < frames.len() implies frame_encloses(
        #[trigger] frames[k],
        ot + 1,
    ) by {
        assert(frame_matches(prog, frames[k]));
        assert(frame_encloses(frames[k], pc));
        if k < last {
            assert(frames[k].0 < frames[last].0);
        }
    }
    assert forall|o: int| #[trigger] active_open(prog, o, ot + 1) implies contains_open(
        frames,
        o,
    ) by {
        if o == ot {
            assert(frames[last].0 as int == o);
        } else {
            assert(o < ot);
            let co = close_of(prog, o);
            assert(matching_pair(prog, o, co));
            lemma_nested(prog, o, co, ot, pc);
            assert(prog[co] == Instruction::LoopClose);
            assert(active_open(prog, o, pc));
        }
    }
}

} // verus!
