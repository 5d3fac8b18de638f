//! Translation core for a minimal eight-symbol imperative language: an
//! accumulator-tape machine with a pointer, signed 8-bit cells, and two
//! bracketing instructions that delimit loops.
//!
//! The crate verifies the components that carry the design risk: the
//! bracket matcher (the single source of truth for loop nesting), the
//! interpreter (direct execution against a growable tape), and the
//! control-flow builder (a single linear pass that emits a structured
//! graph of basic blocks with runtime guards, ready for native
//! lowering), together with the small-step semantics both execution
//! modes are proved against. Byte I/O and the native code-generation
//! backend are external collaborators and live outside this crate.

pub mod brackets;
pub mod cfg;
pub mod diag;
pub mod equiv;
pub mod frames;
pub mod guarded;
pub mod instr;
pub mod interp;
pub mod machine;
