//! Failure taxonomy: build-time structural errors and execution-time
//! guard violations, each violation with its fixed numeric code so that
//! an exit status is diagnostic.

use vstd::prelude::*;

verus! {

/// A build-time structural violation of loop nesting. Reported before
/// any execution or emission; no partial output is produced.
#[derive(Clone, Copy, Debug, PartialEq, Eq, Structural)]
pub enum StructuralError {
    /// A loop-open with no matching close.
    UnterminatedLoop,
    /// A loop-close with no open loop to close.
    StrayLoopClose,
}

/// An execution-time guard violation. Fatal: the running program stops
/// at once, and its numeric code becomes the exit status.
#[derive(Clone, Copy, Debug, PartialEq, Eq, Structural)]
pub enum Violation {
    /// The pointer would pass the tape's upper bound.
    PointerOverflow,
    /// The pointer would drop below the first cell.
    PointerUnderflow,
    /// A cell would pass the top of the signed 8-bit range.
    ValueOverflow,
    /// A cell would drop below the bottom of the signed 8-bit range.
    ValueUnderflow,
    /// An input byte that no cell value can represent.
    InvalidInput,
}

impl Violation {
    /// The fixed numeric code of this violation; the canonical contract
    /// pins codes 1 through 4, and invalid input (detected only in
    /// interpreted mode) carries the next free code.
    pub fn code(&self) -> (c: i32)
        ensures
            c == self.spec_code(),
    {
        match self {
            Violation::PointerOverflow => 1,
            Violation::PointerUnderflow => 2,
            Violation::ValueOverflow => 3,
            Violation::ValueUnderflow => 4,
            Violation::InvalidInput => 5,
        }
    }

    /// The code each violation kind carries.
    pub open spec fn spec_code(&self) -> i32 {
        match self {
            Violation::PointerOverflow => 1,
            Violation::PointerUnderflow => 2,
            Violation::ValueOverflow => 3,
            Violation::ValueUnderflow => 4,
            Violation::InvalidInput => 5,
        }
    }

    /// The human-readable reason handed to the panic routine beside the
    /// numeric code.
    pub fn message(&self) -> (m: &'static str)
        ensures
            m@ == self.spec_message(),
    {
        match self {
            Violation::PointerOverflow => "Pointer Overflow - Data pointer must be less than the tape capacity",
            Violation::PointerUnderflow => "Pointer Underflow - Data pointer must be greater than 0",
            Violation::ValueOverflow => "Value Overflow - Data values must be between -128 and 127",
            Violation::ValueUnderflow => "Value Underflow - Data values must be between -128 and 127",
            Violation::InvalidInput => "Invalid Input - Input bytes must be representable as a cell value",
        }
    }

    /// The reason string of each violation kind.
    pub open spec fn spec_message(&self) -> Seq<char> {
        match self {
            Violation::PointerOverflow => "Pointer Overflow - Data pointer must be less than the tape capacity"@,
            Violation::PointerUnderflow => "Pointer Underflow - Data pointer must be greater than 0"@,
            Violation::ValueOverflow => "Value Overflow - Data values must be between -128 and 127"@,
            Violation::ValueUnderflow => "Value Underflow - Data values must be between -128 and 127"@,
            Violation::InvalidInput => "Invalid Input - Input bytes must be representable as a cell value"@,
        }
    }
}

/// How a run ended: normally, or stopped by a guard violation.
#[derive(Clone, Copy, Debug, PartialEq, Eq, Structural)]
pub enum RunStatus {
    /// The program counter reached the end of the program.
    Completed,
    /// A guard violation stopped the run.
    Failed(Violation),
}

impl RunStatus {
    /// The process exit status a hosting driver reports for this run:
    /// zero on completion, the violation's code otherwise.
    pub fn exit_code(&self) -> (c: i32)
        ensures
            c == self.spec_exit_code(),
    {
        match self {
            RunStatus::Completed => 0,
            RunStatus::Failed(v) => v.code(),
        }
    }

    /// The exit status of each way a run can end.
    pub open spec fn spec_exit_code(&self) -> i32 {
        match self {
            RunStatus::Completed => 0,
            RunStatus::Failed(v) => v.spec_code(),
        }
    }
}

/// What a run produced: the bytes written to the output boundary, in
/// order, and how the run ended. On a failed run the output holds what
/// was written before the violation.
#[derive(Debug)]
pub struct RunOutcome {
    pub output: Vec<u8>,
    pub status: RunStatus,
}

/// Whether a budgeted run came to an end. The language admits programs
/// that never halt, so a driver hands each run a step budget and is
/// told honestly when the budget, not the program, ended the run.
#[derive(Debug)]
pub enum ExecutionResult {
    /// The program halted or a guard violation stopped it, within the
    /// budget.
    Finished(RunOutcome),
    /// The machine was still going when the budget ran out.
    StillRunning,
}

} // verus!
