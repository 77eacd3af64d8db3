//! Running compiled code: each function here does what the semantics say,
//! on a real store.

use vstd::prelude::*;
use crate::code::{Action, Block, BlockKind, Input, Op, Simple, Step, inputs_view};
use crate::error::{Trap, TrapKind};
use crate::function::{Function, FunctionView, table_view};
use crate::numeric::{apply_binary, apply_unary};
use crate::scope::{always_returns, lemma_body_returns, table_returns};
use crate::semantics::{
    body_spec, eval_spec, invoke_spec, lemma_push_args_fuel, lemma_resolv_fuel,
    lemma_run_block_fuel, lemma_run_step_fuel, lemma_run_steps_fuel, push_args_spec,
    read_simple, resolv_spec, run_block_spec, run_step_spec, run_steps_spec,
};
use crate::store::Store;
use crate::value::StackValue;

verus! {

/// The execution context: the table of compiled functions, through which
/// calls are made by index.
#[derive(Debug)]
pub struct State {
    pub functions: Vec<Function>,
}

impl State {
    pub open spec fn view(&self) -> Seq<FunctionView> {
        table_view(self.functions@)
    }

    /// Every function of the table has a body that always returns.
    pub open spec fn wf(&self) -> bool {
        table_returns(self@)
    }

    /// A context over the given functions.
    pub fn new(functions: Vec<Function>) -> (state: State)
        ensures
            state.functions == functions,
    {
        State { functions }
    }

    /// A context over the given functions, if each of them has a body that
    /// always returns.
    pub fn checked(functions: Vec<Function>) -> (res: Option<State>)
        ensures
            match res {
                Some(state) => state.functions == functions && state.wf(),
                None => !table_returns(table_view(functions@)),
            },
    {
        let mut i: usize = 0;
        while i < functions.len()
            invariant
                i <= functions.len(),
                forall|k: int|
                    0 <= k < i ==> always_returns(#[trigger] table_view(functions@)[k].body),
            decreases functions.len() - i,
        {
            if !functions[i].returns_always() {
                assert(!always_returns(table_view(functions@)[i as int].body));
                return None;
            }
            i = i + 1;
        }
        Some(State { functions })
    }

    /// Invokes the function of the given index on the arguments that lie on
    /// top of the store's stack.
    pub fn invoke_function(&self, store: &mut Store, func_idx: u32) -> (res: Trap<
        Option<StackValue>,
    >)
        requires
            self.wf(),
        ensures
            (res, final(store)@) == invoke_spec(self@, func_idx, old(store)@),
        decreases old(store)@.fuel, 0nat, self, 0nat,
    {
        if func_idx as usize >= self.functions.len() {
            return Err(TrapKind::UndefinedFunction);
        }
        if store.fuel == 0 {
            return Err(TrapKind::OutOfFuel);
        }
        let function = &self.functions[func_idx as usize];
        let taken: usize = function.param_count as usize;
        if store.stack.len() < taken {
            return Err(TrapKind::StackUnderflow);
        }
        let base: usize = store.stack.len() - taken;
        let mut frame = store.stack.split_off(base);
        let mut added: u32 = 0;
        while added < function.local_count
            invariant
                added <= function.local_count,
                frame@ == old(store)@.stack.subrange(base as int, old(store)@.stack.len() as int)
                    + Seq::new(added as nat, |i: int| StackValue(0)),
            decreases function.local_count - added,
        {
            frame.push(StackValue(0));
            added = added + 1;
        }
        core::mem::swap(&mut store.locals, &mut frame);
        store.fuel = store.fuel - 1;
        let result = function.invoke(self, store);
        core::mem::swap(&mut store.locals, &mut frame);
        result
    }
}

impl Function {
    /// Runs the function in the frame at hand and hands back what it
    /// returns: what its body returns, or, where a branch led to the
    /// function's own block, what the return that closes the body returns.
    pub fn invoke(&self, state: &State, store: &mut Store) -> (res: Trap<Option<StackValue>>)
        requires
            state.wf(),
            always_returns(self@.body),
        ensures
            (res, final(store)@) == body_spec(self@.body, state@, old(store)@),
        decreases old(store)@.fuel, 3nat, self, 0nat,
    {
        proof {
            lemma_body_returns(self@.body, state@, store@);
            lemma_run_block_fuel(self@.body, state@, store@);
        }
        match self.body.run(state, store) {
            Ok(Action::Return(value)) => Ok(value),
            Ok(Action::End) => {
                // A branch led to the function's own block: control is at
                // the function's end, where the body's closing return stands.
                let n: usize = self.body.steps.len();
                match &self.body.steps[n - 1] {
                    Step::Return(Some(input)) => {
                        let value = input.resolv(state, store)?;
                        Ok(Some(value))
                    },
                    _ => Ok(None),
                }
            },
            Ok(Action::Branch(_)) => Ok(None),
            Err(trap) => Err(trap),
        }
    }
}

impl Simple {
    /// Reads the operand in place.
    pub fn read(&self, store: &Store) -> (res: Trap<StackValue>)
        ensures
            res == read_simple(store@, *self),
    {
        match self {
            Simple::Local(idx) => store.get_local(*idx),
            Simple::Const(value) => Ok(*value),
        }
    }
}

impl Input {
    /// Computes the operand's value.
    pub fn resolv(&self, state: &State, store: &mut Store) -> (res: Trap<StackValue>)
        requires
            state.wf(),
        ensures
            (res, final(store)@) == resolv_spec(self@, state@, old(store)@),
        decreases old(store)@.fuel, 1nat, self, 0nat,
    {
        match self {
            Input::Local(idx) => store.get_local(*idx),
            Input::Const(value) => Ok(*value),
            Input::Op(node) => node.eval(state, store),
        }
    }
}

impl Op {
    /// Runs the node.
    pub fn eval(&self, state: &State, store: &mut Store) -> (res: Trap<StackValue>)
        requires
            state.wf(),
        ensures
            (res, final(store)@) == eval_spec(self@, state@, old(store)@),
        decreases old(store)@.fuel, 1nat, self, 0nat,
    {
        match self {
            Op::Unary { width, op, operand } => {
                let value = operand.resolv(state, store)?;
                Ok(apply_unary(*width, *op, value))
            },
            Op::Binary { width, op, left, right } => {
                let first = left.resolv(state, store)?;
                proof {
                    lemma_resolv_fuel(left@, state@, old(store)@);
                }
                let second = right.resolv(state, store)?;
                apply_binary(*width, *op, first, second)
            },
            Op::Direct { width, op, left, right } => {
                let first = left.read(store)?;
                let second = right.read(store)?;
                apply_binary(*width, *op, first, second)
            },
            Op::Call { func_idx, args } => {
                push_args(args, state, store)?;
                proof {
                    lemma_push_args_fuel(inputs_view(args@), 0, state@, old(store)@);
                }
                match state.invoke_function(store, *func_idx)? {
                    Some(value) => Ok(value),
                    None => Ok(StackValue(0)),
                }
            },
        }
    }
}

/// Computes the arguments of a call in order and pushes each on the stack as
/// it is computed.
fn push_args(args: &Vec<Input>, state: &State, store: &mut Store) -> (res: Trap<()>)
    requires
        state.wf(),
    ensures
        (res, final(store)@) == push_args_spec(inputs_view(args@), 0, state@, old(store)@),
    decreases old(store)@.fuel, 1nat, args, args.len(),
{
    let ghost views = inputs_view(args@);
    let mut i: usize = 0;
    while i < args.len()
        invariant
            state.wf(),
            i <= args.len(),
            views == inputs_view(args@),
            store@.fuel <= old(store)@.fuel,
            push_args_spec(views, i as nat, state@, store@) == push_args_spec(
                views,
                0,
                state@,
                old(store)@,
            ),
        decreases args.len() - i,
    {
        proof {
            lemma_resolv_fuel(views[i as int], state@, store@);
        }
        match args[i].resolv(state, store) {
            Ok(value) => {
                store.push_value(value);
            },
            Err(trap) => {
                return Err(trap);
            },
        }
        i = i + 1;
    }
    Ok(())
}

impl Step {
    /// Runs the step.
    pub fn run(&self, state: &State, store: &mut Store) -> (res: Trap<Action>)
        requires
            state.wf(),
        ensures
            (res, final(store)@) == run_step_spec(self@, state@, old(store)@),
        decreases old(store)@.fuel, 2nat, self, 0nat,
    {
        match self {
            Step::Return(None) => Ok(Action::Return(None)),
            Step::Return(Some(input)) => {
                let value = input.resolv(state, store)?;
                Ok(Action::Return(Some(value)))
            },
            Step::Nested(block) => block.run(state, store),
            Step::If { cond, then_block, else_block } => {
                let value = cond.resolv(state, store)?;
                proof {
                    lemma_resolv_fuel(cond@, state@, old(store)@);
                }
                if value.0 != 0 {
                    then_block.run(state, store)
                } else {
                    match else_block {
                        Some(block) => block.run(state, store),
                        None => Ok(Action::End),
                    }
                }
            },
            Step::Branch(target) => Ok(Action::Branch(*target)),
            Step::BranchIf { cond, target } => {
                let value = cond.resolv(state, store)?;
                if value.0 != 0 {
                    Ok(Action::Branch(*target))
                } else {
                    Ok(Action::End)
                }
            },
            Step::BranchTable { index, targets, default } => {
                let value = index.resolv(state, store)?;
                let selected: usize = value.as_u32() as usize;
                if selected < targets.len() {
                    Ok(Action::Branch(targets[selected]))
                } else {
                    Ok(Action::Branch(*default))
                }
            },
            Step::SetLocal { idx, value } => {
                let value = value.resolv(state, store)?;
                store.set_local(*idx, value)?;
                Ok(Action::End)
            },
        }
    }
}

impl Block {
    /// Runs the steps once, in order, up to the first that does not report
    /// `End`.
    fn run_steps(&self, state: &State, store: &mut Store) -> (res: Trap<Action>)
        requires
            state.wf(),
        ensures
            (res, final(store)@) == run_steps_spec(self@, 0, state@, old(store)@),
        decreases old(store)@.fuel, 2nat, self, self.steps.len(),
    {
        let mut i: usize = 0;
        while i < self.steps.len()
            invariant
                state.wf(),
                i <= self.steps.len(),
                store@.fuel <= old(store)@.fuel,
                run_steps_spec(self@, i as nat, state@, store@) == run_steps_spec(
                    self@,
                    0,
                    state@,
                    old(store)@,
                ),
            decreases self.steps.len() - i,
        {
            proof {
                lemma_run_step_fuel(self@.steps[i as int], state@, store@);
            }
            match self.steps[i].run(state, store) {
                Ok(Action::End) => {},
                other => {
                    return other;
                },
            }
            i = i + 1;
        }
        Ok(Action::End)
    }

    /// Runs the block: its steps in order, and again from the first for as
    /// long as a loop is branched to.
    pub fn run(&self, state: &State, store: &mut Store) -> (res: Trap<Action>)
        requires
            state.wf(),
        ensures
            (res, final(store)@) == run_block_spec(self@, state@, old(store)@),
        decreases old(store)@.fuel, 2nat, self, self.steps.len() + 1,
    {
        loop
            invariant
                state.wf(),
                store@.fuel <= old(store)@.fuel,
                run_block_spec(self@, state@, store@) == run_block_spec(
                    self@,
                    state@,
                    old(store)@,
                ),
            decreases store@.fuel,
        {
            proof {
                lemma_run_steps_fuel(self@, 0, state@, store@);
            }
            match self.run_steps(state, store) {
                Ok(Action::Branch(target)) => {
                    if target != self.depth {
                        return Ok(Action::Branch(target));
                    }
                    match self.kind {
                        BlockKind::Loop => {},
                        _ => {
                            return Ok(Action::End);
                        },
                    }
                    if store.fuel == 0 {
                        return Err(TrapKind::OutOfFuel);
                    }
                    store.fuel = store.fuel - 1;
                },
                other => {
                    return other;
                },
            }
        }
    }
}

} // verus!
