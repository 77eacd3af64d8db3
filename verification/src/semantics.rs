//! What compiled code does when it runs, as functions from a store to an
//! outcome and the store afterwards.
//!
//! Running is bounded by the store's fuel: each call and each re-entry of a
//! loop takes one unit, and with none left the run traps. Where one part runs
//! after another, the definitions go on only if the first part left no more
//! fuel than it found, which the lemmas below show is always so; the
//! test is what makes the definitions well-founded.

use vstd::prelude::*;
use crate::code::{Action, BlockKind, BlockView, InputView, OpView, Simple, StepView};
use crate::error::{Trap, TrapKind};
use crate::function::FunctionView;
use crate::numeric::{binary_spec, unary_spec};
use crate::store::{StoreView, pushed, read_local, write_local};
use crate::value::{StackValue, unsigned32};

verus! {

/// The value of a simple operand.
pub open spec fn read_simple(store: StoreView, operand: Simple) -> Trap<StackValue> {
    match operand {
        Simple::Local(idx) => read_local(store, idx),
        Simple::Const(value) => Ok(value),
    }
}

/// The frame of a callee: its arguments, then its other locals, all zero.
pub open spec fn frame_of(function: FunctionView, arguments: Seq<StackValue>) -> Seq<StackValue> {
    arguments + Seq::new(function.local_count as nat, |i: int| StackValue(0))
}

/// The value of an operand, and the store after computing it.
pub open spec fn resolv_spec(input: InputView, funcs: Seq<FunctionView>, store: StoreView) -> (
    Trap<StackValue>,
    StoreView,
)
    decreases store.fuel, 1nat, input, 0nat,
{
    match input {
        InputView::Local(idx) => (read_local(store, idx), store),
        InputView::Const(value) => (Ok(value), store),
        InputView::Op(node) => eval_spec(*node, funcs, store),
    }
}

/// The value a node computes, and the store after computing it.
pub open spec fn eval_spec(node: OpView, funcs: Seq<FunctionView>, store: StoreView) -> (
    Trap<StackValue>,
    StoreView,
)
    decreases store.fuel, 1nat, node, 0nat,
{
    match node {
        OpView::Unary { width, op, operand } => {
            let (value, after) = resolv_spec(operand, funcs, store);
            match value {
                Ok(value) => (Ok(unary_spec(width, op, value)), after),
                Err(trap) => (Err(trap), after),
            }
        },
        OpView::Binary { width, op, left, right } => {
            let (first, between) = resolv_spec(left, funcs, store);
            match first {
                Ok(first) => if between.fuel <= store.fuel {
                    let (second, after) = resolv_spec(right, funcs, between);
                    match second {
                        Ok(second) => (binary_spec(width, op, first, second), after),
                        Err(trap) => (Err(trap), after),
                    }
                } else {
                    (Err(TrapKind::OutOfFuel), between)
                },
                Err(trap) => (Err(trap), between),
            }
        },
        OpView::Direct { width, op, left, right } => match read_simple(store, left) {
            Ok(first) => match read_simple(store, right) {
                Ok(second) => (binary_spec(width, op, first, second), store),
                Err(trap) => (Err(trap), store),
            },
            Err(trap) => (Err(trap), store),
        },
        OpView::Call { func_idx, args } => {
            let (done, between) = push_args_spec(args, 0, funcs, store);
            match done {
                Ok(_) => if between.fuel <= store.fuel {
                    let (returned, after) = invoke_spec(funcs, func_idx, between);
                    match returned {
                        Ok(Some(value)) => (Ok(value), after),
                        Ok(None) => (Ok(StackValue(0)), after),
                        Err(trap) => (Err(trap), after),
                    }
                } else {
                    (Err(TrapKind::OutOfFuel), between)
                },
                Err(trap) => (Err(trap), between),
            }
        },
    }
}

/// Computes the arguments from index `from` on, in order, and pushes each on
/// the stack as it is computed.
pub open spec fn push_args_spec(
    args: Seq<InputView>,
    from: nat,
    funcs: Seq<FunctionView>,
    store: StoreView,
) -> (Trap<()>, StoreView)
    decreases store.fuel, 1nat, args, args.len() - from,
{
    if from >= args.len() {
        (Ok(()), store)
    } else {
        let (value, after) = resolv_spec(args[from as int], funcs, store);
        match value {
            Ok(value) => if after.fuel <= store.fuel {
                push_args_spec(args, from + 1, funcs, pushed(after, value))
            } else {
                (Err(TrapKind::OutOfFuel), after)
            },
            Err(trap) => (Err(trap), after),
        }
    }
}

/// Invokes the function of the given index: its arguments are taken off the
/// stack into a new frame, its body runs, and the caller's frame is back in
/// place afterwards. Takes one unit of fuel.
pub open spec fn invoke_spec(funcs: Seq<FunctionView>, func_idx: u32, store: StoreView) -> (
    Trap<Option<StackValue>>,
    StoreView,
)
    decreases store.fuel, 0nat, funcs, 0nat,
{
    if func_idx >= funcs.len() {
        (Err(TrapKind::UndefinedFunction), store)
    } else if store.fuel == 0 {
        (Err(TrapKind::OutOfFuel), store)
    } else if store.stack.len() < funcs[func_idx as int].param_count {
        (Err(TrapKind::StackUnderflow), store)
    } else {
        let function = funcs[func_idx as int];
        let base = store.stack.len() - function.param_count;
        let inner = StoreView {
            locals: frame_of(function, store.stack.subrange(base, store.stack.len() as int)),
            stack: store.stack.subrange(0, base),
            fuel: (store.fuel - 1) as nat,
        };
        let (result, after) = body_spec(function.body, funcs, inner);
        (result, StoreView { locals: store.locals, ..after })
    }
}

/// What the end of a function gives when control arrives there: where the
/// body closes with a `Return`, what that `Return` returns; else no value.
pub open spec fn closing_return_spec(
    body: BlockView,
    funcs: Seq<FunctionView>,
    store: StoreView,
) -> (Trap<Option<StackValue>>, StoreView)
    decreases store.fuel, 2nat, body, 0nat,
{
    if body.steps.len() > 0 {
        match body.steps.last() {
            StepView::Return(Some(input)) => {
                let (value, after) = resolv_spec(input, funcs, store);
                match value {
                    Ok(value) => (Ok(Some(value)), after),
                    Err(trap) => (Err(trap), after),
                }
            },
            _ => (Ok(None), store),
        }
    } else {
        (Ok(None), store)
    }
}

/// Runs the body of a function in the frame at hand.
///
/// What the body returns is the function's result. A body that reports `End`
/// was left by a branch to the function's own block: control is then at the
/// function's end, and the function returns there. A body that passes up a
/// branch is no function body; of such a one this says that it has no result.
pub open spec fn body_spec(body: BlockView, funcs: Seq<FunctionView>, store: StoreView) -> (
    Trap<Option<StackValue>>,
    StoreView,
)
    decreases store.fuel, 3nat, body, 0nat,
{
    let (outcome, after) = run_block_spec(body, funcs, store);
    match outcome {
        Ok(Action::Return(value)) => (Ok(value), after),
        Ok(Action::End) => if after.fuel <= store.fuel {
            closing_return_spec(body, funcs, after)
        } else {
            (Err(TrapKind::OutOfFuel), after)
        },
        Ok(Action::Branch(_)) => (Ok(None), after),
        Err(trap) => (Err(trap), after),
    }
}

/// Runs one step.
pub open spec fn run_step_spec(step: StepView, funcs: Seq<FunctionView>, store: StoreView) -> (
    Trap<Action>,
    StoreView,
)
    decreases store.fuel, 2nat, step, 0nat,
{
    match step {
        StepView::Return(None) => (Ok(Action::Return(None)), store),
        StepView::Return(Some(input)) => {
            let (value, after) = resolv_spec(input, funcs, store);
            match value {
                Ok(value) => (Ok(Action::Return(Some(value))), after),
                Err(trap) => (Err(trap), after),
            }
        },
        StepView::Nested(block) => run_block_spec(block, funcs, store),
        StepView::If { cond, then_block, else_block } => {
            let (value, after) = resolv_spec(cond, funcs, store);
            match value {
                Ok(value) => if after.fuel > store.fuel {
                    (Err(TrapKind::OutOfFuel), after)
                } else if value.0 != 0 {
                    run_block_spec(then_block, funcs, after)
                } else {
                    match else_block {
                        Some(block) => run_block_spec(block, funcs, after),
                        None => (Ok(Action::End), after),
                    }
                },
                Err(trap) => (Err(trap), after),
            }
        },
        StepView::Branch(target) => (Ok(Action::Branch(target)), store),
        StepView::BranchIf { cond, target } => {
            let (value, after) = resolv_spec(cond, funcs, store);
            match value {
                Ok(value) => if value.0 != 0 {
                    (Ok(Action::Branch(target)), after)
                } else {
                    (Ok(Action::End), after)
                },
                Err(trap) => (Err(trap), after),
            }
        },
        StepView::BranchTable { index, targets, default } => {
            let (value, after) = resolv_spec(index, funcs, store);
            match value {
                Ok(value) => if unsigned32(value.0) < targets.len() {
                    (Ok(Action::Branch(targets[unsigned32(value.0)])), after)
                } else {
                    (Ok(Action::Branch(default)), after)
                },
                Err(trap) => (Err(trap), after),
            }
        },
        StepView::SetLocal { idx, value } => {
            let (value, after) = resolv_spec(value, funcs, store);
            match value {
                Ok(value) => match write_local(after, idx, value) {
                    Ok(written) => (Ok(Action::End), written),
                    Err(trap) => (Err(trap), after),
                },
                Err(trap) => (Err(trap), after),
            }
        },
    }
}

/// Runs the steps of a block from index `from` on, in order, up to the first
/// that does not report `End`; reports `End` if there is none.
pub open spec fn run_steps_spec(
    block: BlockView,
    from: nat,
    funcs: Seq<FunctionView>,
    store: StoreView,
) -> (Trap<Action>, StoreView)
    decreases store.fuel, 2nat, block, block.steps.len() - from,
{
    if from >= block.steps.len() {
        (Ok(Action::End), store)
    } else {
        let (outcome, after) = run_step_spec(block.steps[from as int], funcs, store);
        match outcome {
            Ok(Action::End) => if after.fuel <= store.fuel {
                run_steps_spec(block, from + 1, funcs, after)
            } else {
                (Err(TrapKind::OutOfFuel), after)
            },
            _ => (outcome, after),
        }
    }
}

/// Runs a block.
///
/// Its steps run in order. A `Return` stops the block and is passed up. A
/// `Branch` to another depth stops the block and is passed up. A `Branch` to
/// the block's own depth ends a block that is not a loop, and starts a loop
/// again from its first step, for one unit of fuel. If every step reports
/// `End`, so does the block.
pub open spec fn run_block_spec(block: BlockView, funcs: Seq<FunctionView>, store: StoreView) -> (
    Trap<Action>,
    StoreView,
)
    decreases store.fuel, 2nat, block, block.steps.len() + 1,
{
    let (outcome, after) = run_steps_spec(block, 0, funcs, store);
    match outcome {
        Ok(Action::Branch(target)) => if target != block.depth {
            (outcome, after)
        } else if block.kind != BlockKind::Loop {
            (Ok(Action::End), after)
        } else if 0 < after.fuel <= store.fuel {
            run_block_spec(block, funcs, StoreView { fuel: (after.fuel - 1) as nat, ..after })
        } else {
            (Err(TrapKind::OutOfFuel), after)
        },
        _ => (outcome, after),
    }
}

/// Computing an operand leaves no more fuel than it found.
pub proof fn lemma_resolv_fuel(input: InputView, funcs: Seq<FunctionView>, store: StoreView)
    ensures
        resolv_spec(input, funcs, store).1.fuel <= store.fuel,
    decreases store.fuel, 1nat, input, 0nat,
{
    match input {
        InputView::Op(node) => lemma_eval_fuel(*node, funcs, store),
        _ => {},
    }
}

/// Running a node leaves no more fuel than it found.
pub proof fn lemma_eval_fuel(node: OpView, funcs: Seq<FunctionView>, store: StoreView)
    ensures
        eval_spec(node, funcs, store).1.fuel <= store.fuel,
    decreases store.fuel, 1nat, node, 0nat,
{
    match node {
        OpView::Unary { width, op, operand } => lemma_resolv_fuel(operand, funcs, store),
        OpView::Binary { width, op, left, right } => {
            lemma_resolv_fuel(left, funcs, store);
            let (first, between) = resolv_spec(left, funcs, store);
            if first is Ok {
                lemma_resolv_fuel(right, funcs, between);
            }
        },
        OpView::Direct { .. } => {},
        OpView::Call { func_idx, args } => {
            lemma_push_args_fuel(args, 0, funcs, store);
            let (done, between) = push_args_spec(args, 0, funcs, store);
            if done is Ok {
                lemma_invoke_fuel(funcs, func_idx, between);
            }
        },
    }
}

/// Pushing arguments leaves no more fuel than it found.
pub proof fn lemma_push_args_fuel(
    args: Seq<InputView>,
    from: nat,
    funcs: Seq<FunctionView>,
    store: StoreView,
)
    ensures
        push_args_spec(args, from, funcs, store).1.fuel <= store.fuel,
    decreases store.fuel, 1nat, args, args.len() - from,
{
    if from < args.len() {
        lemma_resolv_fuel(args[from as int], funcs, store);
        let (value, after) = resolv_spec(args[from as int], funcs, store);
        if value is Ok {
            lemma_push_args_fuel(args, from + 1, funcs, pushed(after, value->Ok_0));
        }
    }
}

/// An invocation leaves no more fuel than it found.
pub proof fn lemma_invoke_fuel(funcs: Seq<FunctionView>, func_idx: u32, store: StoreView)
    ensures
        invoke_spec(funcs, func_idx, store).1.fuel <= store.fuel,
    decreases store.fuel, 0nat, funcs, 0nat,
{
    if func_idx < funcs.len() && store.fuel != 0 && store.stack.len() >= funcs[func_idx
        as int].param_count {
        let function = funcs[func_idx as int];
        let base = store.stack.len() - function.param_count;
        let inner = StoreView {
            locals: frame_of(function, store.stack.subrange(base, store.stack.len() as int)),
            stack: store.stack.subrange(0, base),
            fuel: (store.fuel - 1) as nat,
        };
        lemma_body_fuel(function.body, funcs, inner);
    }
}

/// A function's body leaves no more fuel than it found.
pub proof fn lemma_body_fuel(body: BlockView, funcs: Seq<FunctionView>, store: StoreView)
    ensures
        body_spec(body, funcs, store).1.fuel <= store.fuel,
    decreases store.fuel, 3nat, body, 0nat,
{
    lemma_run_block_fuel(body, funcs, store);
    let (outcome, after) = run_block_spec(body, funcs, store);
    if outcome == Ok::<Action, TrapKind>(Action::End) && body.steps.len() > 0 {
        match body.steps.last() {
            StepView::Return(Some(input)) => lemma_resolv_fuel(input, funcs, after),
            _ => {},
        }
    }
}

/// A step leaves no more fuel than it found.
pub proof fn lemma_run_step_fuel(step: StepView, funcs: Seq<FunctionView>, store: StoreView)
    ensures
        run_step_spec(step, funcs, store).1.fuel <= store.fuel,
    decreases store.fuel, 2nat, step, 0nat,
{
    match step {
        StepView::Return(None) => {},
        StepView::Return(Some(input)) => lemma_resolv_fuel(input, funcs, store),
        StepView::Nested(block) => lemma_run_block_fuel(block, funcs, store),
        StepView::If { cond, then_block, else_block } => {
            lemma_resolv_fuel(cond, funcs, store);
            let (value, after) = resolv_spec(cond, funcs, store);
            if value is Ok {
                if value->Ok_0.0 != 0 {
                    lemma_run_block_fuel(then_block, funcs, after);
                } else if else_block is Some {
                    lemma_run_block_fuel(else_block->Some_0, funcs, after);
                }
            }
        },
        StepView::Branch(target) => {},
        StepView::BranchIf { cond, target } => lemma_resolv_fuel(cond, funcs, store),
        StepView::BranchTable { index, targets, default } => lemma_resolv_fuel(index, funcs, store),
        StepView::SetLocal { idx, value } => lemma_resolv_fuel(value, funcs, store),
    }
}

/// The steps of a block leave no more fuel than they found.
pub proof fn lemma_run_steps_fuel(
    block: BlockView,
    from: nat,
    funcs: Seq<FunctionView>,
    store: StoreView,
)
    ensures
        run_steps_spec(block, from, funcs, store).1.fuel <= store.fuel,
    decreases store.fuel, 2nat, block, block.steps.len() - from,
{
    if from < block.steps.len() {
        lemma_run_step_fuel(block.steps[from as int], funcs, store);
        let (outcome, after) = run_step_spec(block.steps[from as int], funcs, store);
        if outcome == Ok::<Action, TrapKind>(Action::End) {
            lemma_run_steps_fuel(block, from + 1, funcs, after);
        }
    }
}

/// A block leaves no more fuel than it found.
pub proof fn lemma_run_block_fuel(block: BlockView, funcs: Seq<FunctionView>, store: StoreView)
    ensures
        run_block_spec(block, funcs, store).1.fuel <= store.fuel,
    decreases store.fuel, 2nat, block, block.steps.len() + 1,
{
    lemma_run_steps_fuel(block, 0, funcs, store);
    let (outcome, after) = run_steps_spec(block, 0, funcs, store);
    if outcome is Ok && outcome->Ok_0 is Branch && outcome->Ok_0->Branch_0 == block.depth
        && block.kind == BlockKind::Loop && 0 < after.fuel <= store.fuel {
        lemma_run_block_fuel(block, funcs, StoreView { fuel: (after.fuel - 1) as nat, ..after });
    }
}

} // verus!
