use vstd::prelude::*;

verus! {

/// Why a line of input or an operation on the registry was refused.
#[derive(Debug, Clone, Copy, PartialEq, Eq, Structural)]
pub enum TaskError {
    /// The text does not have the expected shape: a date, a clock time or a number.
    InvalidFormat,
    /// The text names no member of a closed set of choices.
    InvalidChoice,
    /// No task carries the requested id.
    NotFound,
    /// The operation needs at least one task and there is none.
    EmptyRegistry,
}

} // verus!
