//! The control-flow builder: one linear pass from a program to a
//! structured graph of basic blocks, ready for native lowering.
//!
//! The graph runs over a single fixed-capacity tape and one pointer
//! variable. Straight-line cell and pointer operations sit inside
//! blocks; every range check is a conditional terminator that branches
//! into one of four shared panic blocks, each carrying its violation's
//! canonical code; each loop becomes the classic test-at-top,
//! test-at-bottom pair of conditional branches over a loop-body block
//! and a post-loop block. The builder discovers loop structure
//! incrementally with an explicit frame stack — not by pre-computing
//! the bracket map — and fails with the exact structural error when the
//! stack is misused, before any graph is handed out.
//!
//! A backend lowers the finished graph behind a prologue that
//! allocates the tape, zeroes it, and zeroes the pointer; the builder's
//! responsibility ends at the graph itself.

use vstd::prelude::*;

use crate::brackets::{bracket_delta, depth, has_negative_depth, structural_error_of, well_bracketed};
use crate::diag::{StructuralError, Violation};
use crate::instr::Instruction;

verus! {

/// Block index of the shared panic block for each violation the
/// generated program can raise. Block 0 is the entry block.
pub const POINTER_OVERFLOW_BLOCK: usize = 1;

pub const POINTER_UNDERFLOW_BLOCK: usize = 2;

pub const VALUE_OVERFLOW_BLOCK: usize = 3;

pub const VALUE_UNDERFLOW_BLOCK: usize = 4;

/// A straight-line operation inside a block.
#[derive(Clone, Copy, Debug, PartialEq, Eq, Structural)]
pub enum Op {
    /// Load the pointer, add one, store it back.
    PointerIncrement,
    /// Load the pointer, subtract one, store it back.
    PointerDecrement,
    /// Load the cell at the pointer, add one wrapping, store it back.
    CellIncrement,
    /// Load the cell at the pointer, subtract one wrapping, store it
    /// back.
    CellDecrement,
    /// Call the external byte-input primitive, narrow the result to a
    /// cell, store it at the pointer; end of input reads as `-1`.
    ReadInput,
    /// Call the external byte-output primitive with the cell at the
    /// pointer.
    WriteOutput,
}

/// The test of a runtime guard, evaluated on the state the block's
/// operations just produced.
#[derive(Clone, Copy, Debug, PartialEq, Eq, Structural)]
pub enum GuardCondition {
    /// The stored pointer reached the tape capacity.
    PointerPastEnd,
    /// The stored pointer dropped below zero.
    PointerBeforeStart,
    /// The cell at the pointer holds exactly this value — the value a
    /// cell operation wraps to when it leaves the representable range.
    CellIs(i8),
}

/// How a block hands control on.
#[derive(Clone, Copy, Debug, PartialEq, Eq, Structural)]
pub enum Terminator {
    /// A runtime guard: branch to the shared panic block when the
    /// condition holds, else fall through to the next block.
    Guard { condition: GuardCondition, panic: usize, next: usize },
    /// A loop test: branch on the cell at the pointer — to the
    /// post-loop block when it is zero, else to the loop-body block.
    Branch { zero: usize, nonzero: usize },
    /// Call the shared panic routine with this violation's reason and
    /// code, then terminate the process with the code.
    Panic(Violation),
    /// Return from the generated program with exit status zero.
    Return,
}

/// One basic block: straight-line operations, then a terminator.
#[derive(Debug)]
pub struct Block {
    pub ops: Vec<Op>,
    pub term: Terminator,
}

/// The mathematical image of a block.
pub ghost struct BlockV {
    pub ops: Seq<Op>,
    pub term: Terminator,
}

impl View for Block {
    type V = BlockV;

    open spec fn view(&self) -> BlockV {
        BlockV { ops: self.ops@, term: self.term }
    }
}

/// The finished control-flow graph: block 0 is the entry, blocks 1
/// through 4 are the shared panic blocks, and every other block was
/// emitted by the single pass over the program.
#[derive(Debug)]
pub struct Cfg {
    pub blocks: Vec<Block>,
}

/// The mathematical image of a graph.
pub ghost struct CfgV {
    pub blocks: Seq<BlockV>,
}

impl View for Cfg {
    type V = CfgV;

    open spec fn view(&self) -> CfgV {
        CfgV { blocks: blocks_view(self.blocks@) }
    }
}

/// The images of a sequence of blocks.
pub open spec fn blocks_view(blocks: Seq<Block>) -> Seq<BlockV> {
    blocks.map_values(|b: Block| b@)
}

/// A block that has been allocated but not yet sealed with its real
/// terminator; emission is currently positioned at it.
pub open spec fn placeholder_block() -> BlockV {
    BlockV { ops: Seq::empty(), term: Terminator::Return }
}

/// The builder's state between instructions: the blocks allocated so
/// far, the block emission is positioned at, the operations gathered
/// for it, and the frame stack of open loops (loop-body block,
/// post-loop block).
pub ghost struct BuildState {
    pub blocks: Seq<BlockV>,
    pub cur: usize,
    pub cur_ops: Seq<Op>,
    pub stack: Seq<(usize, usize)>,
}

/// Where the builder starts: the empty entry block and the four shared
/// panic blocks, emission positioned at the entry, no open loops.
pub open spec fn build_init() -> BuildState {
    BuildState {
        blocks: seq![
            placeholder_block(),
            BlockV { ops: Seq::empty(), term: Terminator::Panic(Violation::PointerOverflow) },
            BlockV { ops: Seq::empty(), term: Terminator::Panic(Violation::PointerUnderflow) },
            BlockV { ops: Seq::empty(), term: Terminator::Panic(Violation::ValueOverflow) },
            BlockV { ops: Seq::empty(), term: Terminator::Panic(Violation::ValueUnderflow) },
        ],
        cur: 0,
        cur_ops: Seq::empty(),
        stack: Seq::empty(),
    }
}

/// Emit a guarded operation: the operation joins the current block,
/// which is sealed with a guard branching to the given panic block or
/// falling through to a freshly allocated block, where emission
/// continues.
pub open spec fn emit_guarded(
    st: BuildState,
    op: Op,
    condition: GuardCondition,
    panic: usize,
) -> BuildState {
    let next = st.blocks.len() as usize;
    BuildState {
        blocks: st.blocks.push(placeholder_block()).update(
            st.cur as int,
            BlockV {
                ops: st.cur_ops.push(op),
                term: Terminator::Guard { condition, panic, next },
            },
        ),
        cur: next,
        cur_ops: Seq::empty(),
        stack: st.stack,
    }
}

/// Emit a loop-open: allocate the loop-body and post-loop blocks, push
/// their frame, seal the current block with the top-of-loop test, and
/// continue emission at the loop body.
pub open spec fn emit_loop_open(st: BuildState) -> BuildState {
    let loop_body = st.blocks.len() as usize;
    let post_loop = (st.blocks.len() + 1) as usize;
    BuildState {
        blocks: st.blocks.push(placeholder_block()).push(placeholder_block()).update(
            st.cur as int,
            BlockV {
                ops: st.cur_ops,
                term: Terminator::Branch { zero: post_loop, nonzero: loop_body },
            },
        ),
        cur: loop_body,
        cur_ops: Seq::empty(),
        stack: st.stack.push((loop_body, post_loop)),
    }
}

/// Emit a loop-close: pop the loop's frame and seal the current block
/// with the same test again — the bottom-of-loop re-test that makes the
/// loop repeat without passing through the top test — then continue
/// emission at the post-loop block.
pub open spec fn emit_loop_close(st: BuildState) -> BuildState
    recommends
        st.stack.len() > 0,
{
    let frame = st.stack.last();
    BuildState {
        blocks: st.blocks.update(
            st.cur as int,
            BlockV {
                ops: st.cur_ops,
                term: Terminator::Branch { zero: frame.1, nonzero: frame.0 },
            },
        ),
        cur: frame.1,
        cur_ops: Seq::empty(),
        stack: st.stack.drop_last(),
    }
}

/// What one instruction does to the builder; a loop-close with no open
/// loop is the failure case.
pub open spec fn build_step(st: BuildState, ins: Instruction) -> Option<BuildState> {
    match ins {
        Instruction::IncrementPointer => Some(
            emit_guarded(
                st,
                Op::PointerIncrement,
                GuardCondition::PointerPastEnd,
                POINTER_OVERFLOW_BLOCK,
            ),
        ),
        Instruction::DecrementPointer => Some(
            emit_guarded(
                st,
                Op::PointerDecrement,
                GuardCondition::PointerBeforeStart,
                POINTER_UNDERFLOW_BLOCK,
            ),
        ),
        Instruction::IncrementCell => Some(
            emit_guarded(st, Op::CellIncrement, GuardCondition::CellIs(-128i8), VALUE_OVERFLOW_BLOCK),
        ),
        Instruction::DecrementCell => Some(
            emit_guarded(st, Op::CellDecrement, GuardCondition::CellIs(127i8), VALUE_UNDERFLOW_BLOCK),
        ),
        Instruction::LoopOpen => Some(emit_loop_open(st)),
        Instruction::LoopClose => if st.stack.len() == 0 {
            None
        } else {
            Some(emit_loop_close(st))
        },
        Instruction::ReadByte => Some(
            BuildState {
                blocks: st.blocks,
                cur: st.cur,
                cur_ops: st.cur_ops.push(Op::ReadInput),
                stack: st.stack,
            },
        ),
        Instruction::WriteByte => Some(
            BuildState {
                blocks: st.blocks,
                cur: st.cur,
                cur_ops: st.cur_ops.push(Op::WriteOutput),
                stack: st.stack,
            },
        ),
    }
}

/// The builder's state after the first `k` instructions, or nothing if
/// a stray loop-close stopped the pass.
pub open spec fn build_at(prog: Seq<Instruction>, k: nat) -> Option<BuildState>
    decreases k,
{
    if k == 0 {
        Some(build_init())
    } else {
        match build_at(prog, (k - 1) as nat) {
            Some(st) => build_step(st, prog[k - 1]),
            None => None,
        }
    }
}

/// The graph the whole pass produces: the current block is sealed with
/// the final return, unless a stray loop-close stopped the pass or
/// frames were left on the stack at the end.
pub open spec fn build_cfg_spec(prog: Seq<Instruction>) -> Result<CfgV, StructuralError> {
    match build_at(prog, prog.len()) {
        None => Err(StructuralError::StrayLoopClose),
        Some(st) => if st.stack.len() > 0 {
            Err(StructuralError::UnterminatedLoop)
        } else {
            Ok(
                CfgV {
                    blocks: st.blocks.update(
                        st.cur as int,
                        BlockV { ops: st.cur_ops, term: Terminator::Return },
                    ),
                },
            )
        },
    }
}

/// Once the pass has stopped it stays stopped.
proof fn lemma_build_none_stays(prog: Seq<Instruction>, k1: nat, k2: nat)
    requires
        k1 <= k2,
        build_at(prog, k1) is None,
    ensures
        build_at(prog, k2) is None,
    decreases k2 - k1,
{
    if k2 > k1 {
        lemma_build_none_stays(prog, k1, (k2 - 1) as nat);
    }
}

/// Translate a program into its control-flow graph in one linear pass,
/// maintaining the loop-frame stack, or fail with the exact structural
/// error: a stray loop-close stops the pass where it stands, and a
/// non-empty stack after the pass is an unterminated loop. The graph
/// produced is exactly the one the build function assigns to the
/// program, and a graph is produced if and only if the program is well
/// bracketed.
pub fn compile(instructions: &[Instruction]) -> (r: Result<Cfg, StructuralError>)
    ensures
        match r {
            Ok(cfg) => well_bracketed(instructions@) && build_cfg_spec(instructions@) == Ok::<
                CfgV,
                StructuralError,
            >(cfg@),
            Err(e) => !well_bracketed(instructions@) && build_cfg_spec(instructions@) == Err::<
                CfgV,
                StructuralError,
            >(e) && e == structural_error_of(instructions@),
        },
{
    let ghost prog = instructions@;
    let n = instructions.len();
    let mut blocks: Vec<Block> = Vec::new();
    blocks.push(Block { ops: Vec::new(), term: Terminator::Return });
    blocks.push(Block { ops: Vec::new(), term: Terminator::Panic(Violation::PointerOverflow) });
    blocks.push(Block { ops: Vec::new(), term: Terminator::Panic(Violation::PointerUnderflow) });
    blocks.push(Block { ops: Vec::new(), term: Terminator::Panic(Violation::ValueOverflow) });
    blocks.push(Block { ops: Vec::new(), term: Terminator::Panic(Violation::ValueUnderflow) });
    let mut cur: usize = 0;
    let mut cur_ops: Vec<Op> = Vec::new();
    let mut stack: Vec<(usize, usize)> = Vec::new();
    let mut k: usize = 0;
    proof {
        assert(blocks_view(blocks@) =~~= build_init().blocks);
    }
    while k < n
        invariant
            n == prog.len(),
            prog == instructions@,
            k <= n,
            cur < blocks@.len(),
            forall|t: int|
                0 <= t < stack@.len() ==> (#[trigger] stack@[t]).0 < blocks@.len()
                    && stack@[t].1 < blocks@.len(),
            stack@.len() == depth(prog, k as int),
            forall|m: int| 0 <= m <= k as int ==> #[trigger] depth(prog, m) >= 0,
            build_at(prog, k as nat) == Some(
                BuildState { blocks: blocks_view(blocks@), cur, cur_ops: cur_ops@, stack: stack@ },
            ),
        decreases n - k,
    {
        let ghost st0 = BuildState {
            blocks: blocks_view(blocks@),
            cur,
            cur_ops: cur_ops@,
            stack: stack@,
        };
        proof {
            assert(depth(prog, k + 1) == depth(prog, k as int) + bracket_delta(prog[k as int]));
        }
        match instructions[k] {
            Instruction::IncrementPointer => {
                cur_ops.push(Op::PointerIncrement);
                let next = blocks.len();
                blocks.push(Block { ops: Vec::new(), term: Terminator::Return });
                let sealed = Block {
                    ops: cur_ops,
                    term: Terminator::Guard {
                        condition: GuardCondition::PointerPastEnd,
                        panic: POINTER_OVERFLOW_BLOCK,
                        next,
                    },
                };
                blocks[cur] = sealed;
                cur_ops = Vec::new();
                cur = next;
                proof {
                    assert(blocks_view(blocks@) =~~= emit_guarded(
                        st0,
                        Op::PointerIncrement,
                        GuardCondition::PointerPastEnd,
                        POINTER_OVERFLOW_BLOCK,
                    ).blocks);
                }
            },
            Instruction::DecrementPointer => {
                cur_ops.push(Op::PointerDecrement);
                let next = blocks.len();
                blocks.push(Block { ops: Vec::new(), term: Terminator::Return });
                let sealed = Block {
                    ops: cur_ops,
                    term: Terminator::Guard {
                        condition: GuardCondition::PointerBeforeStart,
                        panic: POINTER_UNDERFLOW_BLOCK,
                        next,
                    },
                };
                blocks[cur] = sealed;
                cur_ops = Vec::new();
                cur = next;
                proof {
                    assert(blocks_view(blocks@) =~~= emit_guarded(
                        st0,
                        Op::PointerDecrement,
                        GuardCondition::PointerBeforeStart,
                        POINTER_UNDERFLOW_BLOCK,
                    ).blocks);
                }
            },
            Instruction::IncrementCell => {
                cur_ops.push(Op::CellIncrement);
                let next = blocks.len();
                blocks.push(Block { ops: Vec::new(), term: Terminator::Return });
                let sealed = Block {
                    ops: cur_ops,
                    term: Terminator::Guard {
                        condition: GuardCondition::CellIs(-128),
                        panic: VALUE_OVERFLOW_BLOCK,
                        next,
                    },
                };
                blocks[cur] = sealed;
                cur_ops = Vec::new();
                cur = next;
                proof {
                    assert(blocks_view(blocks@) =~~= emit_guarded(
                        st0,
                        Op::CellIncrement,
                        GuardCondition::CellIs(-128i8),
                        VALUE_OVERFLOW_BLOCK,
                    ).blocks);
                }
            },
            Instruction::DecrementCell => {
                cur_ops.push(Op::CellDecrement);
                let next = blocks.len();
                blocks.push(Block { ops: Vec::new(), term: Terminator::Return });
                let sealed = Block {
                    ops: cur_ops,
                    term: Terminator::Guard {
                        condition: GuardCondition::CellIs(127),
                        panic: VALUE_UNDERFLOW_BLOCK,
                        next,
                    },
                };
                blocks[cur] = sealed;
                cur_ops = Vec::new();
                cur = next;
                proof {
                    assert(blocks_view(blocks@) =~~= emit_guarded(
                        st0,
                        Op::CellDecrement,
                        GuardCondition::CellIs(127i8),
                        VALUE_UNDERFLOW_BLOCK,
                    ).blocks);
                }
            },
            Instruction::LoopOpen => {
                let loop_body = blocks.len();
                blocks.push(Block { ops: Vec::new(), term: Terminator::Return });
                let post_loop = blocks.len();
                blocks.push(Block { ops: Vec::new(), term: Terminator::Return });
                let sealed = Block {
                    ops: cur_ops,
                    term: Terminator::Branch { zero: post_loop, nonzero: loop_body },
                };
                blocks[cur] = sealed;
                cur_ops = Vec::new();
                stack.push((loop_body, post_loop));
                cur = loop_body;
                proof {
                    assert(blocks_view(blocks@) =~~= emit_loop_open(st0).blocks);
                }
            },
            Instruction::LoopClose => {
                let frame = match stack.pop() {
                    Some(frame) => frame,
                    None => {
                        proof {
                            assert(depth(prog, k + 1) < 0);
                            assert(has_negative_depth(prog));
                            assert(build_step(st0, prog[k as int]) is None);
                            lemma_build_none_stays(prog, (k + 1) as nat, prog.len() as nat);
                        }
                        return Err(StructuralError::StrayLoopClose);
                    },
                };
                let sealed = Block {
                    ops: cur_ops,
                    term: Terminator::Branch { zero: frame.1, nonzero: frame.0 },
                };
                blocks[cur] = sealed;
                cur_ops = Vec::new();
                cur = frame.1;
                proof {
                    assert(st0.stack.last() == frame);
                    assert(stack@ =~= st0.stack.drop_last());
                    assert(blocks_view(blocks@) =~~= emit_loop_close(st0).blocks);
                }
            },
            Instruction::ReadByte => {
                cur_ops.push(Op::ReadInput);
            },
            Instruction::WriteByte => {
                cur_ops.push(Op::WriteOutput);
            },
        }
        proof {
            assert(build_step(st0, prog[k as int]) == Some(
                BuildState { blocks: blocks_view(blocks@), cur, cur_ops: cur_ops@, stack: stack@ },
            ));
        }
        k = k + 1;
    }
    if stack.len() > 0 {
        proof {
            assert(!has_negative_depth(prog));
            assert(depth(prog, prog.len() as int) != 0);
        }
        return Err(StructuralError::UnterminatedLoop);
    }
    let sealed = Block { ops: cur_ops, term: Terminator::Return };
    blocks[cur] = sealed;
    let cfg = Cfg { blocks };
    proof {
        assert(cfg@.blocks =~~= match build_cfg_spec(prog) {
            Ok(v) => v.blocks,
            Err(_) => Seq::empty(),
        });
    }
    Ok(cfg)
}

} // verus!
