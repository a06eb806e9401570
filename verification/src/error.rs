//! The ways an assembly run can fail.

use vstd::prelude::*;

verus! {

/// A failure that aborts the whole assembly; no partial output is produced.
#[derive(Clone, Copy, Debug, PartialEq, Eq, Structural)]
pub enum AssembleError {
    /// An instruction names an opcode outside the fixed instruction set.
    UnknownOpcode,
    /// An instruction refers to a label that no line of the program defines.
    UndefinedLabel,
}

} // verus!
