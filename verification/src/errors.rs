//! Error values of the interpreter.
//!
//! Loading can fail in one recoverable way; a cycle can fail in several fatal
//! ways, each with a variant of its own so that a caller can tell which rule
//! of the machine a program broke.

use vstd::prelude::*;
use vstd::string::*;

verus! {

/// The program image does not fit between the load address and the end of
/// memory.
#[derive(Debug, Clone, Copy)]
pub struct ProgramTooLargeError;

impl ProgramTooLargeError {
    /// The text that describes this error to a user.
    pub fn message(&self) -> (text: String)
        ensures
            text@ == "program too large to fit in memory"@,
    {
        String::from_str("program too large to fit in memory")
    }
}

/// A fatal condition met while executing one cycle. A cycle that ends in a
/// fault leaves the machine exactly as it found it.
#[derive(Debug, Clone, Copy, PartialEq, Eq, Structural)]
pub enum Fault {
    /// The two bytes of the instruction do not both lie inside memory, or a
    /// return address plus the length of one instruction no longer fits the
    /// program counter.
    FetchOutOfBounds,
    /// The program counter is odd.
    MisalignedProgramCounter,
    /// A call was made with all sixteen stack slots in use (or the stack
    /// pointer lies beyond the stack).
    StackOverflow,
    /// A return was made with an empty stack.
    StackUnderflow,
    /// The instruction word matches no entry of the instruction table.
    UnknownOpcode,
    /// An instruction addressed memory through the index register beyond the
    /// last cell.
    MemoryOutOfBounds,
    /// A key instruction named a key above `0xF`.
    InvalidKey,
}

} // verus!
