//! A reference machine for function bodies without control flow.
//!
//! The machine is the plain stack machine: every instruction acts at once on
//! a stack of values and on the locals. Compiled code differs in when it
//! computes: an operand is computed when the step that takes it runs. As a
//! body that compiles leaves no operand pending, the two compute the same
//! values in the same order.

use vstd::prelude::*;
use crate::error::TrapKind;
use crate::module::Instruction;
use crate::numeric;
use crate::value::{StackValue, ValueType, cell32, cell64};

verus! {

/// An instruction that pushes, computes or assigns, and leaves control alone.
pub open spec fn is_plain(instruction: Instruction) -> bool {
    ||| instruction is GetLocal
    ||| instruction is SetLocal
    ||| instruction is TeeLocal
    ||| instruction is I32Const
    ||| instruction is I64Const
    ||| instruction is Unary
    ||| instruction is Binary
}

/// How many instructions come before the close of a body: before its last
/// `end`, or before the `return` that stands right before that `end`.
pub open spec fn plain_count(code: Seq<Instruction>) -> nat {
    if code.len() >= 2 && code[code.len() - 2] is Return {
        (code.len() - 2) as nat
    } else {
        (code.len() - 1) as nat
    }
}

/// A body without control flow: plain instructions, closed by one `end` or by
/// a `return` and the `end`.
pub open spec fn straight_line(code: Seq<Instruction>) -> bool {
    &&& code.len() > 0
    &&& code.last() is End
    &&& forall|i: int| 0 <= i < plain_count(code) ==> is_plain(#[trigger] code[i])
}

/// The state of the reference machine.
pub struct Machine {
    pub stack: Seq<StackValue>,
    pub locals: Seq<StackValue>,
}

/// Why the reference machine stopped before the end.
pub enum Halt {
    /// An instruction trapped.
    Trapped(TrapKind),
    /// An instruction found too few values on the stack, or is none the
    /// machine knows.
    Stuck,
}

/// The machine with one more value on its stack.
pub open spec fn machine_push(machine: Machine, value: StackValue) -> Machine {
    Machine { stack: machine.stack.push(value), ..machine }
}

/// What one plain instruction does to the reference machine.
pub open spec fn step_spec(instruction: Instruction, machine: Machine) -> Result<Machine, Halt> {
    let n = machine.stack.len() as int;
    match instruction {
        Instruction::GetLocal(idx) => if idx < machine.locals.len() {
            Ok(machine_push(machine, machine.locals[idx as int]))
        } else {
            Err(Halt::Trapped(TrapKind::UndefinedLocal))
        },
        Instruction::SetLocal(idx) => if n < 1 {
            Err(Halt::Stuck)
        } else if idx < machine.locals.len() {
            Ok(
                Machine {
                    stack: machine.stack.drop_last(),
                    locals: machine.locals.update(idx as int, machine.stack.last()),
                },
            )
        } else {
            Err(Halt::Trapped(TrapKind::UndefinedLocal))
        },
        Instruction::TeeLocal(idx) => if n < 1 {
            Err(Halt::Stuck)
        } else if idx < machine.locals.len() {
            Ok(
                Machine {
                    stack: machine.stack,
                    locals: machine.locals.update(idx as int, machine.stack.last()),
                },
            )
        } else {
            Err(Halt::Trapped(TrapKind::UndefinedLocal))
        },
        Instruction::I32Const(value) => Ok(
            machine_push(machine, StackValue(cell32(value as int))),
        ),
        Instruction::I64Const(value) => Ok(
            machine_push(machine, StackValue(cell64(value as int))),
        ),
        Instruction::Unary(width, op) => if n < 1 {
            Err(Halt::Stuck)
        } else {
            Ok(
                Machine {
                    stack: machine.stack.drop_last().push(
                        numeric::unary_spec(width, op, machine.stack.last()),
                    ),
                    ..machine
                },
            )
        },
        Instruction::Binary(width, op) => if n < 2 {
            Err(Halt::Stuck)
        } else {
            match numeric::binary_spec(width, op, machine.stack[n - 2], machine.stack[n - 1]) {
                Ok(value) => Ok(
                    Machine { stack: machine.stack.take(n - 2).push(value), ..machine },
                ),
                Err(trap) => Err(Halt::Trapped(trap)),
            }
        },
        _ => Err(Halt::Stuck),
    }
}

/// The reference machine after the first `count` instructions, started with
/// an empty stack and the given locals.
pub open spec fn run_prefix(code: Seq<Instruction>, count: nat, locals: Seq<StackValue>) -> Result<
    Machine,
    Halt,
>
    decreases count,
{
    if count == 0 {
        Ok(Machine { stack: Seq::empty(), locals })
    } else {
        match run_prefix(code, (count - 1) as nat, locals) {
            Ok(machine) => step_spec(code[count - 1], machine),
            Err(halt) => Err(halt),
        }
    }
}

/// What the reference machine makes of a body without control flow: the value
/// on top of the stack at the close of the body, where the function declares
/// a return type, and the locals as they are then.
pub open spec fn interpret(
    code: Seq<Instruction>,
    ret_type: Option<ValueType>,
    locals: Seq<StackValue>,
) -> Result<(Option<StackValue>, Seq<StackValue>), Halt> {
    match run_prefix(code, plain_count(code), locals) {
        Ok(machine) => if ret_type is None {
            Ok((None, machine.locals))
        } else if machine.stack.len() > 0 {
            Ok((Some(machine.stack.last()), machine.locals))
        } else {
            Err(Halt::Stuck)
        },
        Err(halt) => Err(halt),
    }
}

} // verus!
