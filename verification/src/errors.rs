//! What an instruction or a tracer call can end in.
use vstd::prelude::*;

verus! {

/// A halt that a program brings upon itself.
#[derive(Clone, Copy, Debug, PartialEq, Eq, Structural)]
pub enum ExceptionalHalt {
    /// An instruction took more words from the stack than it held.
    StackUnderflow,
    /// An instruction put a word on a full stack.
    StackOverflow,
    /// An instruction cost more gas than was left.
    OutOfGas,
    /// A range reached past the end of what it addresses.
    OutOfBounds,
    /// A word was too large for a size or an offset.
    VeryLargeNumber,
}

/// A fault of the machine itself, not of the program that it runs.
#[derive(Clone, Copy, Debug, PartialEq, Eq, Structural)]
pub enum InternalError {
    /// A call scope was closed where none was open.
    CallFrame,
    /// The state could not be read.
    Database,
}

/// Why an instruction did not complete.
#[derive(Clone, Copy, Debug, PartialEq, Eq, Structural)]
pub enum VMError {
    /// The program halted exceptionally.
    ExceptionalHalt(ExceptionalHalt),
    /// The machine failed.
    Internal(InternalError),
}

/// How execution goes on after an instruction.
#[derive(Clone, Copy, Debug, PartialEq, Eq, Structural)]
pub enum OpcodeResult {
    /// With the next instruction.
    Continue,
    /// Not at all.
    Halt,
}

/// The text of a halt.
pub open spec fn halt_message(halt: ExceptionalHalt) -> Seq<char> {
    match halt {
        ExceptionalHalt::StackUnderflow => "Stack Underflow"@,
        ExceptionalHalt::StackOverflow => "Stack Overflow"@,
        ExceptionalHalt::OutOfGas => "Out Of Gas"@,
        ExceptionalHalt::OutOfBounds => "Out Of Bounds"@,
        ExceptionalHalt::VeryLargeNumber => "Very Large Number"@,
    }
}

/// The text of a machine fault.
pub open spec fn internal_message(error: InternalError) -> Seq<char> {
    match error {
        InternalError::CallFrame => "Call Frame Error"@,
        InternalError::Database => "Database Error"@,
    }
}

impl VMError {
    /// The text of the error.
    pub open spec fn message(self) -> Seq<char> {
        match self {
            VMError::ExceptionalHalt(halt) => halt_message(halt),
            VMError::Internal(error) => internal_message(error),
        }
    }

    /// The text of the error.
    pub fn to_text(&self) -> (text: String)
        ensures
            text@ == self.message(),
    {
        let text: &str = match self {
            VMError::ExceptionalHalt(halt) => match halt {
                ExceptionalHalt::StackUnderflow => "Stack Underflow",
                ExceptionalHalt::StackOverflow => "Stack Overflow",
                ExceptionalHalt::OutOfGas => "Out Of Gas",
                ExceptionalHalt::OutOfBounds => "Out Of Bounds",
                ExceptionalHalt::VeryLargeNumber => "Very Large Number",
            },
            VMError::Internal(error) => match error {
                InternalError::CallFrame => "Call Frame Error",
                InternalError::Database => "Database Error",
            },
        };
        text.to_string()
    }
}

} // verus!
