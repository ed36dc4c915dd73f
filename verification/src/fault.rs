//! The conditions that stop the machine.

use vstd::prelude::*;

verus! {

/// A fatal condition met while running a program. Execution stops at once;
/// nothing is retried.
#[derive(Clone, Copy, Debug, PartialEq, Eq)]
pub enum Fault {
    /// An access reached `address`, which lies outside memory.
    OutOfRange { address: usize },
    /// A return found the call stack empty.
    StackUnderflow,
    /// A call found the call stack full.
    StackOverflow,
    /// The fetched opcode, carried here, names no instruction.
    UnknownOpcode(u16),
    /// A key instruction named a key, carried here, that the keypad lacks.
    InvalidKey(u8),
}

/// The host asked the machine to stop. This is an orderly end, not a fault.
#[derive(Clone, Copy, Debug, PartialEq, Eq)]
pub struct Quit;

/// Why a cycle did not complete.
#[derive(Clone, Copy, Debug, PartialEq, Eq)]
pub enum Halt {
    /// The program met the fatal condition `fault` in the cycle that began
    /// with the program counter at `counter`.
    Fault { fault: Fault, counter: u16 },
    /// The host asked to stop.
    Quit,
}

} // verus!
