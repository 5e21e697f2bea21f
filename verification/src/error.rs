//! The ways in which a program can bring the machine to a halt.

use vstd::prelude::*;

verus! {

/// A fatal condition met while loading a program or running a cycle.
///
/// Every one of them is determined by the machine's state alone, and the
/// operation that reports one leaves that state as it found it.
#[derive(Clone, Copy, Debug, PartialEq, Eq, Structural)]
pub enum Chip8Error {
    /// An address at or above the end of memory would have been accessed.
    OutOfBounds,
    /// A call was made with sixteen return addresses already on the stack.
    StackOverflow,
    /// A return was made with no return address on the stack.
    StackUnderflow,
    /// The word fetched matches no instruction; it is carried along.
    IllegalOpcode(u16),
    /// A key instruction named a key that the keypad does not have.
    InvalidKey,
}

} // verus!
