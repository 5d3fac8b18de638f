//! The bracket matcher: the single source of truth for loop nesting.
//!
//! The nesting structure of a program is described by its bracket
//! depth — the number of loop-opens minus loop-closes in a prefix — and
//! a loop-open matches the close at which the depth first returns to its
//! value at the open. Both execution modes take their loop structure
//! from here and nowhere else.

use vstd::prelude::*;

use crate::diag::StructuralError;
use crate::instr::Instruction;

verus! {

/// How one instruction changes the bracket depth.
pub open spec fn bracket_delta(i: Instruction) -> int {
    match i {
        Instruction::LoopOpen => 1,
        Instruction::LoopClose => -1,
        _ => 0,
    }
}

/// The bracket depth after the first `n` instructions: loop-opens seen
/// minus loop-closes seen.
pub open spec fn depth(prog: Seq<Instruction>, n: int) -> int
    decreases n,
{
    if n <= 0 {
        0
    } else {
        depth(prog, n - 1) + bracket_delta(prog[n - 1])
    }
}

/// A well-bracketed program: the depth never drops below zero and
/// returns to zero at the end, so every loop-open has a close and every
/// close has an open.
pub open spec fn well_bracketed(prog: Seq<Instruction>) -> bool {
    &&& forall|k: int| 0 <= k <= prog.len() ==> #[trigger] depth(prog, k) >= 0
    &&& depth(prog, prog.len() as int) == 0
}

/// The loop-open at `i` is structurally paired with the loop-close at
/// `j`: the depth stays strictly above its value at `i` inside the pair
/// and first returns to it just past `j`.
pub open spec fn matching_pair(prog: Seq<Instruction>, i: int, j: int) -> bool {
    &&& 0 <= i < j < prog.len()
    &&& prog[i] == Instruction::LoopOpen
    &&& prog[j] == Instruction::LoopClose
    &&& depth(prog, j + 1) == depth(prog, i)
    &&& forall|k: int| i < k <= j ==> #[trigger] depth(prog, k) > depth(prog, i)
}

/// The loop-open at `i` has a matching close.
pub open spec fn has_match(prog: Seq<Instruction>, i: int) -> bool {
    exists|j: int| matching_pair(prog, i, j)
}

/// The index of the loop-close matching the open at `i`.
pub open spec fn close_of(prog: Seq<Instruction>, i: int) -> int {
    choose|j: int| matching_pair(prog, i, j)
}

/// The loop-close at `j` has a matching open.
pub open spec fn has_open(prog: Seq<Instruction>, j: int) -> bool {
    exists|i: int| matching_pair(prog, i, j)
}

/// The index of the loop-open matching the close at `j`.
pub open spec fn open_of(prog: Seq<Instruction>, j: int) -> int {
    choose|i: int| matching_pair(prog, i, j)
}

/// The loop opened at `o` is still open at program position `pc`: the
/// position has passed the open but not the matching close.
pub open spec fn active_open(prog: Seq<Instruction>, o: int, pc: int) -> bool {
    &&& 0 <= o < pc
    &&& has_match(prog, o)
    &&& pc <= close_of(prog, o)
}

/// Some prefix of the program closes more loops than were opened.
pub open spec fn has_negative_depth(prog: Seq<Instruction>) -> bool {
    exists|k: int| 0 <= k <= prog.len() && #[trigger] depth(prog, k) < 0
}

/// The structural error a program that is not well bracketed is
/// rejected with: a stray loop-close where the depth first drops below
/// zero, an unterminated loop where opens are left at the end.
pub open spec fn structural_error_of(prog: Seq<Instruction>) -> StructuralError {
    if has_negative_depth(prog) {
        StructuralError::StrayLoopClose
    } else {
        StructuralError::UnterminatedLoop
    }
}

/// A loop-open has at most one matching close.
pub proof fn lemma_unique_close(prog: Seq<Instruction>, i: int, j1: int, j2: int)
    requires
        matching_pair(prog, i, j1),
        matching_pair(prog, i, j2),
    ensures
        j1 == j2,
{
    if j1 < j2 {
        assert(depth(prog, j1 + 1) > depth(prog, i));
    }
    if j2 < j1 {
        assert(depth(prog, j2 + 1) > depth(prog, i));
    }
}

/// A loop-close has at most one matching open.
pub proof fn lemma_unique_open(prog: Seq<Instruction>, i1: int, i2: int, j: int)
    requires
        matching_pair(prog, i1, j),
        matching_pair(prog, i2, j),
    ensures
        i1 == i2,
{
    if i1 < i2 {
        assert(depth(prog, i2) > depth(prog, i1));
    }
    if i2 < i1 {
        assert(depth(prog, i1) > depth(prog, i2));
    }
}

/// The matching close of `i` is the one `matching_pair` pairs it with.
pub proof fn lemma_close_of(prog: Seq<Instruction>, i: int, j: int)
    requires
        matching_pair(prog, i, j),
    ensures
        has_match(prog, i),
        close_of(prog, i) == j,
{
    assert(has_match(prog, i));
    lemma_unique_close(prog, i, close_of(prog, i), j);
}

/// Matched pairs nest: a pair opened inside another closes inside it.
pub proof fn lemma_nested(prog: Seq<Instruction>, i1: int, j1: int, i2: int, j2: int)
    requires
        matching_pair(prog, i1, j1),
        matching_pair(prog, i2, j2),
        i1 < i2 <= j1,
    ensures
        i2 < j1,
        j2 < j1,
{
    assert(i2 < j1);
    if j2 >= j1 {
        if j2 == j1 {
            lemma_unique_open(prog, i1, i2, j1);
        } else {
            assert(depth(prog, i2) > depth(prog, i1));
            assert(depth(prog, j1 + 1) > depth(prog, i2));
        }
    }
}

/// Scanning forward from an open whose depth has stayed strictly higher
/// through position `k`, the position where the depth first returns is
/// the matching close.
proof fn find_close_from(prog: Seq<Instruction>, i: int, k: int) -> (j: int)
    requires
        0 <= i < k <= prog.len(),
        prog[i] == Instruction::LoopOpen,
        depth(prog, prog.len() as int) <= depth(prog, i),
        forall|m: int| i < m <= k ==> #[trigger] depth(prog, m) > depth(prog, i),
    ensures
        matching_pair(prog, i, j),
    decreases prog.len() - k,
{
    assert(depth(prog, k) > depth(prog, i));
    if k == prog.len() {
        assert(false);
        0
    } else if depth(prog, k + 1) <= depth(prog, i) {
        assert(depth(prog, k + 1) == depth(prog, k) + bracket_delta(prog[k]));
        assert(bracket_delta(prog[k]) == -1);
        assert(prog[k] == Instruction::LoopClose);
        assert(depth(prog, k + 1) == depth(prog, i));
        k
    } else {
        find_close_from(prog, i, k + 1)
    }
}

/// In a well-bracketed program every loop-open has a matching close.
pub proof fn lemma_match_exists(prog: Seq<Instruction>, i: int)
    requires
        well_bracketed(prog),
        0 <= i < prog.len(),
        prog[i] == Instruction::LoopOpen,
    ensures
        has_match(prog, i),
{
    assert(depth(prog, i) >= 0);
    assert(depth(prog, i + 1) == depth(prog, i) + 1);
    let j = find_close_from(prog, i, i + 1);
    assert(matching_pair(prog, i, j));
}

/// Scanning backward from a close whose depth has stayed strictly higher
/// through position `k`, the position where the depth first returns is
/// the matching open.
proof fn find_open_from(prog: Seq<Instruction>, j: int, k: int) -> (i: int)
    requires
        0 <= k <= j < prog.len(),
        prog[j] == Instruction::LoopClose,
        depth(prog, j + 1) >= 0,
        forall|m: int| k < m <= j ==> #[trigger] depth(prog, m) > depth(prog, j + 1),
    ensures
        matching_pair(prog, i, j),
    decreases k,
{
    assert(depth(prog, j + 1) == depth(prog, j) + bracket_delta(prog[j]));
    if depth(prog, k) <= depth(prog, j + 1) {
        assert(k < j);
        assert(depth(prog, k + 1) > depth(prog, j + 1)) by {
            if k + 1 <= j {
            } else {
                assert(false);
            }
        }
        assert(depth(prog, k + 1) == depth(prog, k) + bracket_delta(prog[k]));
        assert(bracket_delta(prog[k]) == 1);
        assert(prog[k] == Instruction::LoopOpen);
        assert(depth(prog, k) == depth(prog, j + 1));
        k
    } else {
        assert(k > 0) by {
            if k == 0 {
                assert(depth(prog, 0) == 0);
            }
        }
        find_open_from(prog, j, k - 1)
    }
}

/// In a well-bracketed program every loop-close has a matching open.
pub proof fn lemma_open_exists(prog: Seq<Instruction>, j: int)
    requires
        well_bracketed(prog),
        0 <= j < prog.len(),
        prog[j] == Instruction::LoopClose,
    ensures
        has_open(prog, j),
{
    assert(depth(prog, j + 1) >= 0);
    assert(depth(prog, j) == depth(prog, j + 1) + 1);
    let i = find_open_from(prog, j, j);
    assert(matching_pair(prog, i, j));
}

/// The structural pairing of loop instructions in a well-bracketed
/// program: every loop-open is matched, every loop-close is matched, a
/// matched pair keeps the depth strictly above the open's level inside
/// it (the pair sits at one nesting depth), and the pairing is a
/// bijection between the two kinds of loop instruction.
pub proof fn lemma_bracket_bijection(prog: Seq<Instruction>)
    requires
        well_bracketed(prog),
    ensures
        forall|i: int|
            0 <= i < prog.len() && prog[i] == Instruction::LoopOpen ==> #[trigger] has_match(
                prog,
                i,
            ),
        forall|j: int|
            0 <= j < prog.len() && prog[j] == Instruction::LoopClose ==> #[trigger] has_open(
                prog,
                j,
            ),
        forall|i: int, j1: int, j2: int|
            #[trigger] matching_pair(prog, i, j1) && #[trigger] matching_pair(prog, i, j2) ==> j1
                == j2,
        forall|i1: int, i2: int, j: int|
            #[trigger] matching_pair(prog, i1, j) && #[trigger] matching_pair(prog, i2, j) ==> i1
                == i2,
{
    assert forall|i: int|
        0 <= i < prog.len() && prog[i] == Instruction::LoopOpen implies #[trigger] has_match(
        prog,
        i,
    ) by {
        lemma_match_exists(prog, i);
    }
    assert forall|j: int|
        0 <= j < prog.len() && prog[j] == Instruction::LoopClose implies #[trigger] has_open(
        prog,
        j,
    ) by {
        lemma_open_exists(prog, j);
    }
    assert forall|i: int, j1: int, j2: int|
        #[trigger] matching_pair(prog, i, j1) && #[trigger] matching_pair(prog, i, j2) implies j1
        == j2 by {
        lemma_unique_close(prog, i, j1, j2);
    }
    assert forall|i1: int, i2: int, j: int|
        #[trigger] matching_pair(prog, i1, j) && #[trigger] matching_pair(prog, i2, j) implies i1
        == i2 by {
        lemma_unique_open(prog, i1, i2, j);
    }
}

/// A program with an unmatched loop-open is not well bracketed, so both
/// execution modes reject it with a structural error before any
/// instruction runs or any code is emitted.
pub proof fn lemma_unmatched_open_rejected(prog: Seq<Instruction>, i: int)
    requires
        0 <= i < prog.len(),
        prog[i] == Instruction::LoopOpen,
        !has_match(prog, i),
    ensures
        !well_bracketed(prog),
{
    if well_bracketed(prog) {
        lemma_match_exists(prog, i);
    }
}

/// Scan forward from a loop-open, counting depth, to the close where the
/// depth first returns to its value at the open. Fails with a structural
/// error exactly when no matching close exists.
///
/// This routine is the single source of truth for nesting correctness:
/// both execution modes take loop structure from it.
pub fn get_loop_closing_index(instructions: &[Instruction], open_loop_index: usize) -> (r: Result<
    usize,
    StructuralError,
>)
    requires
        open_loop_index < instructions@.len(),
        instructions@[open_loop_index as int] == Instruction::LoopOpen,
    ensures
        match r {
            Ok(j) => matching_pair(instructions@, open_loop_index as int, j as int),
            Err(e) => e == StructuralError::UnterminatedLoop && !has_match(
                instructions@,
                open_loop_index as int,
            ),
        },
{
    let ghost prog = instructions@;
    let ghost open = open_loop_index as int;
    let n = instructions.len();
    let mut loop_depth: usize = 0;
    let mut i: usize = open_loop_index;
    while i < n
        invariant
            n == prog.len(),
            open_loop_index <= i <= n,
            open == open_loop_index as int,
            prog == instructions@,
            prog[open] == Instruction::LoopOpen,
            loop_depth == depth(prog, i as int) - depth(prog, open),
            loop_depth <= i - open_loop_index,
            forall|m: int| open < m <= i as int ==> #[trigger] depth(prog, m) > depth(prog, open),
        decreases n - i,
    {
        if instructions[i] == Instruction::LoopOpen {
            loop_depth = loop_depth + 1;
        }
        if instructions[i] == Instruction::LoopClose {
            proof {
                assert(depth(prog, i as int) > depth(prog, open));
            }
            loop_depth = loop_depth - 1;
            if loop_depth == 0 {
                proof {
                    assert(depth(prog, i + 1) == depth(prog, i as int) + bracket_delta(prog[i as int]));
                    assert(matching_pair(prog, open, i as int));
                }
                return Ok(i);
            }
        }
        proof {
            assert(depth(prog, i + 1) == depth(prog, i as int) + bracket_delta(prog[i as int]));
        }
        i = i + 1;
    }
    proof {
        assert forall|j: int| !matching_pair(prog, open, j) by {
            if matching_pair(prog, open, j) {
                assert(depth(prog, j + 1) > depth(prog, open));
            }
        }
    }
    Err(StructuralError::UnterminatedLoop)
}

/// Validate the whole nesting structure in one scan, before any
/// execution or emission: the depth must never drop below zero and must
/// return to zero at the end. Fails with the exact structural error the
/// program deserves.
pub fn check_brackets(instructions: &[Instruction]) -> (r: Result<(), StructuralError>)
    ensures
        match r {
            Ok(_) => well_bracketed(instructions@),
            Err(e) => !well_bracketed(instructions@) && e == structural_error_of(instructions@),
        },
{
    let ghost prog = instructions@;
    let n = instructions.len();
    let mut d: usize = 0;
    let mut i: usize = 0;
    while i < n
        invariant
            n == prog.len(),
            prog == instructions@,
            i <= n,
            d as int == depth(prog, i as int),
            d <= i,
            forall|m: int| 0 <= m <= i as int ==> #[trigger] depth(prog, m) >= 0,
        decreases n - i,
    {
        proof {
            assert(depth(prog, i + 1) == depth(prog, i as int) + bracket_delta(prog[i as int]));
        }
        if instructions[i] == Instruction::LoopOpen {
            d = d + 1;
        } else if instructions[i] == Instruction::LoopClose {
            if d == 0 {
                proof {
                    assert(depth(prog, i + 1) < 0);
                    assert(has_negative_depth(prog));
                }
                return Err(StructuralError::StrayLoopClose);
            }
            d = d - 1;
        }
        i = i + 1;
    }
    if d != 0 {
        proof {
            assert(!has_negative_depth(prog));
            assert(depth(prog, prog.len() as int) != 0);
        }
        return Err(StructuralError::UnterminatedLoop);
    }
    Ok(())
}

} // verus!
