//! Failures: those of compilation, and the traps of a run.

use vstd::prelude::*;

verus! {

/// Why a function body was refused at compile time.
#[derive(Clone, Copy, Debug, PartialEq, Eq, Structural)]
pub enum ErrorKind {
    /// An instruction needed an operand and the operand stack was empty.
    ValueStackEmpty,
    /// An `else` outside the first arm of an `if`.
    InvalidElse,
    /// The instructions ran out before the block was closed.
    MissingEnd,
    /// A block was closed with more or fewer operands pending than when it
    /// was opened; for a function's outermost block, with any operand
    /// pending. Found at the instruction that closes the block.
    UnbalancedStack,
    /// A branch label that names no block around the branch.
    InvalidBranch,
    /// A function index with no definition in the module.
    FuncNotFound,
    /// An instruction this compiler has no translation for.
    Unsupported,
    /// More blocks open at once than the compiler's limit allows; found at the
    /// first instruction of the block that is one too many.
    NestingTooDeep,
}

/// A compile-time failure, with the place it was found at.
#[derive(Clone, Copy, Debug, PartialEq, Eq, Structural)]
pub struct Error {
    pub kind: ErrorKind,
    /// Index of the function that was being compiled.
    pub func_idx: u32,
    /// Offset of the offending instruction in that function's body.
    pub pc: usize,
}

/// Why an invocation stopped abnormally.
#[derive(Clone, Copy, Debug, PartialEq, Eq, Structural)]
pub enum TrapKind {
    /// Division or remainder with a zero divisor.
    DivisionByZero,
    /// A signed division whose quotient does not fit the operand width.
    InvalidConversionToInt,
    /// A call to a function index that the function table does not hold.
    UndefinedFunction,
    /// A call that found fewer arguments on the value stack than the callee takes.
    StackUnderflow,
    /// A read or write of a local that the current frame does not hold.
    UndefinedLocal,
    /// The store's budget of calls and loop re-entries was used up.
    OutOfFuel,
}

/// The result of a run-time operation: a value, or the trap that stopped it.
pub type Trap<T> = Result<T, TrapKind>;

impl ErrorKind {
    /// The failure in words.
    pub open spec fn message_spec(self) -> Seq<char> {
        match self {
            ErrorKind::ValueStackEmpty => "Value stack empty"@,
            ErrorKind::InvalidElse => "invalid 'else' block, missing 'if'"@,
            ErrorKind::MissingEnd => "block is not closed"@,
            ErrorKind::UnbalancedStack => "block leaves the value stack unbalanced"@,
            ErrorKind::InvalidBranch => "branch label leads to no block"@,
            ErrorKind::FuncNotFound => "function not found"@,
            ErrorKind::Unsupported => "instruction is not supported"@,
            ErrorKind::NestingTooDeep => "blocks are nested too deep"@,
        }
    }

    /// The failure in words.
    pub fn message(self) -> (text: &'static str)
        ensures
            text@ == self.message_spec(),
    {
        match self {
            ErrorKind::ValueStackEmpty => "Value stack empty",
            ErrorKind::InvalidElse => "invalid 'else' block, missing 'if'",
            ErrorKind::MissingEnd => "block is not closed",
            ErrorKind::UnbalancedStack => "block leaves the value stack unbalanced",
            ErrorKind::InvalidBranch => "branch label leads to no block",
            ErrorKind::FuncNotFound => "function not found",
            ErrorKind::Unsupported => "instruction is not supported",
            ErrorKind::NestingTooDeep => "blocks are nested too deep",
        }
    }
}

impl TrapKind {
    /// The trap in words.
    pub open spec fn message_spec(self) -> Seq<char> {
        match self {
            TrapKind::DivisionByZero => "division by zero"@,
            TrapKind::InvalidConversionToInt => "invalid conversion to integer"@,
            TrapKind::UndefinedFunction => "call of an undefined function"@,
            TrapKind::StackUnderflow => "too few arguments on the value stack"@,
            TrapKind::UndefinedLocal => "access to an undefined local"@,
            TrapKind::OutOfFuel => "out of fuel"@,
        }
    }

    /// The trap in words.
    pub fn message(self) -> (text: &'static str)
        ensures
            text@ == self.message_spec(),
    {
        match self {
            TrapKind::DivisionByZero => "division by zero",
            TrapKind::InvalidConversionToInt => "invalid conversion to integer",
            TrapKind::UndefinedFunction => "call of an undefined function",
            TrapKind::StackUnderflow => "too few arguments on the value stack",
            TrapKind::UndefinedLocal => "access to an undefined local",
            TrapKind::OutOfFuel => "out of fuel",
        }
    }
}

} // verus!
