//! The generators that build operator nodes on the compile state.

use vstd::prelude::*;
use crate::code::{Input, Op};
use crate::compiler::State;
use crate::error::ErrorKind;
use crate::numeric::{BinOp, UnOp, Width};
use crate::translate::{combine, generate_binary_spec, generate_unary_spec};

verus! {

/// The generator of a one-operand operator: takes one operand off the state
/// and pushes the node that applies the operator to it. On an empty stack it
/// fails and leaves the state as it was.
pub fn unary(state: &mut State, width: Width, op: UnOp) -> (res: Result<(), ErrorKind>)
    ensures
        match generate_unary_spec(old(state)@, width, op) {
            Ok(after) => res is Ok && final(state)@ == after,
            Err(kind) => res == Err::<(), ErrorKind>(kind) && final(state)@ == old(state)@,
        },
{
    match state.pop() {
        Ok(operand) => {
            state.push(Input::Op(Box::new(Op::Unary { width, op, operand })));
            Ok(())
        },
        Err(kind) => Err(kind),
    }
}

/// The generator of a two-operand operator: takes the right operand and then
/// the left off the state and pushes the node that applies the operator to
/// them, in the direct form where both are simple and in the general form
/// otherwise. With fewer than two operands it fails and leaves the state as
/// it was.
pub fn binary(state: &mut State, width: Width, op: BinOp) -> (res: Result<(), ErrorKind>)
    ensures
        match generate_binary_spec(old(state)@, width, op) {
            Ok(after) => res is Ok && final(state)@ == after,
            Err(kind) => res == Err::<(), ErrorKind>(kind) && final(state)@ == old(state)@,
        },
{
    if state.values.len() < 2 {
        return Err(ErrorKind::ValueStackEmpty);
    }
    let ghost n = state.values@.len() as int;
    let right = match state.pop() {
        Ok(input) => input,
        Err(kind) => {
            return Err(kind);
        },
    };
    let left = match state.pop() {
        Ok(input) => input,
        Err(kind) => {
            return Err(kind);
        },
    };
    let node = match (left.as_simple(), right.as_simple()) {
        (Some(first), Some(second)) => Op::Direct { width, op, left: first, right: second },
        _ => Op::Binary { width, op, left, right },
    };
    state.push(Input::Op(Box::new(node)));
    assert(state@.values =~= old(state)@.values.take(n - 2).push(
        combine(width, op, old(state)@.values[n - 2], old(state)@.values[n - 1]),
    ));
    Ok(())
}

} // verus!
