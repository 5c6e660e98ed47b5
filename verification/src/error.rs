//! The ways in which a request to the session can be refused.

use vstd::prelude::*;

verus! {

/// Why a request was refused. Every refusal happens before any foreign memory
/// is touched, and leaves the session as it was.
#[derive(Clone, Copy, Debug, PartialEq, Eq, Structural)]
pub enum CintError {
    /// No tables are loaded.
    NotLoaded,
    /// The declared number of atoms or shells is not the number of records.
    CountMismatch,
    /// A record does not have the fixed width of its table.
    RecordWidth,
    /// A shell has a negative angular momentum or contraction count.
    NegativeShell,
    /// A number of components does not fit the native library's integers.
    ComponentOverflow,
    /// The operator name is none of the known ones.
    UnknownOperator,
    /// The number of shell indices is not what the integral family takes.
    ShellArity,
    /// A shell index is negative or not below the number of shells.
    ShellOutOfRange,
    /// The optimizer that is held was built for another integral family.
    OptimizerMismatch,
    /// The output block has more elements than the machine can address.
    BufferTooLarge,
}

} // verus!
