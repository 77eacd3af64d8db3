//! Compiled code and the reference machine agree on bodies without control
//! flow.

use vstd::prelude::*;
use crate::code::{
    Action, BlockKind, BlockView, InputView, OpView, StepView, appended,
};
use crate::error::{Error, ErrorKind, TrapKind};
use crate::function::FunctionView;
use crate::scope::closed_by_return;
use crate::laws::lemma_specialization_is_unobservable;
use crate::module::{FunctionSource, Instruction};
use crate::numeric;
use crate::reference::{
    Halt, Machine, interpret, is_plain, plain_count, run_prefix, step_spec, straight_line,
};
use crate::semantics::{
    eval_spec, frame_of, invoke_spec, lemma_run_step_fuel, resolv_spec, run_block_spec,
    run_step_spec, run_steps_spec,
};
use crate::store::StoreView;
use crate::translate::{
    StateView, code_of, combine, compile_block_spec, compile_function_spec, compile_steps_spec,
    emit_return_spec, generate_binary_spec, generate_unary_spec, initial_state, located,
    translate_spec,
};
use crate::value::{StackValue, cell32, cell64};

verus! {

/// An operand whose computation makes no call.
pub open spec fn pure_input(input: InputView) -> bool
    decreases input,
{
    match input {
        InputView::Op(node) => pure_node(*node),
        _ => true,
    }
}

/// A node whose computation makes no call.
pub open spec fn pure_node(node: OpView) -> bool
    decreases node,
{
    match node {
        OpView::Unary { operand, .. } => pure_input(operand),
        OpView::Binary { left, right, .. } => pure_input(left) && pure_input(right),
        OpView::Direct { .. } => true,
        OpView::Call { .. } => false,
    }
}

/// Computing an operand that makes no call leaves the store as it was.
pub proof fn lemma_pure_input_keeps_store(
    input: InputView,
    funcs: Seq<FunctionView>,
    store: StoreView,
)
    requires
        pure_input(input),
    ensures
        resolv_spec(input, funcs, store).1 == store,
    decreases input, 0nat,
{
    match input {
        InputView::Op(node) => lemma_pure_node_keeps_store(*node, funcs, store),
        _ => {},
    }
}

/// Running a node that makes no call leaves the store as it was.
pub proof fn lemma_pure_node_keeps_store(
    node: OpView,
    funcs: Seq<FunctionView>,
    store: StoreView,
)
    requires
        pure_node(node),
    ensures
        eval_spec(node, funcs, store).1 == store,
    decreases node, 0nat,
{
    match node {
        OpView::Unary { operand, .. } => lemma_pure_input_keeps_store(operand, funcs, store),
        OpView::Binary { left, right, .. } => {
            lemma_pure_input_keeps_store(left, funcs, store);
            lemma_pure_input_keeps_store(right, funcs, store);
        },
        _ => {},
    }
}

/// The values of the operands, computed in order in one store: the first trap
/// is the result.
pub open spec fn eval_all(values: Seq<InputView>, funcs: Seq<FunctionView>, store: StoreView)
    -> Result<Seq<StackValue>, TrapKind>
    decreases values.len(),
{
    if values.len() == 0 {
        Ok(Seq::empty())
    } else {
        match eval_all(values.drop_last(), funcs, store) {
            Ok(earlier) => match resolv_spec(values.last(), funcs, store).0 {
                Ok(value) => Ok(earlier.push(value)),
                Err(trap) => Err(trap),
            },
            Err(trap) => Err(trap),
        }
    }
}

/// The operands computed with one more at the end.
proof fn lemma_eval_all_push(
    values: Seq<InputView>,
    input: InputView,
    funcs: Seq<FunctionView>,
    store: StoreView,
)
    ensures
        eval_all(values.push(input), funcs, store) == (match eval_all(values, funcs, store) {
            Ok(earlier) => match resolv_spec(input, funcs, store).0 {
                Ok(value) => Ok(earlier.push(value)),
                Err(trap) => Err(trap),
            },
            Err(trap) => Err::<Seq<StackValue>, TrapKind>(trap),
        }),
        eval_all(values, funcs, store) matches Ok(earlier) ==> earlier.len() == values.len(),
    decreases values.len(),
{
    assert(values.push(input).drop_last() =~= values);
    if values.len() > 0 {
        lemma_eval_all_push(values.drop_last(), values.last(), funcs, store);
        assert(values.drop_last().push(values.last()) =~= values);
    }
}

/// Every operand makes no call.
pub open spec fn all_pure(values: Seq<InputView>) -> bool {
    forall|i: int| 0 <= i < values.len() ==> pure_input(#[trigger] values[i])
}

/// Every step assigns a local from an operand that makes no call.
pub open spec fn all_assignments(block: BlockView) -> bool {
    forall|i: int|
        0 <= i < block.steps.len() ==> (#[trigger] block.steps[i] matches StepView::SetLocal {
            value,
            ..
        } && pure_input(value))
}

/// Running a block with one more step at its end is running the block and,
/// if it reports `End`, the step after it.
proof fn lemma_run_appended(
    block: BlockView,
    step: StepView,
    from: nat,
    funcs: Seq<FunctionView>,
    store: StoreView,
)
    requires
        from <= block.steps.len(),
    ensures
        run_steps_spec(appended(block, step), from, funcs, store) == (match run_steps_spec(
            block,
            from,
            funcs,
            store,
        ) {
            (Ok(Action::End), after) => run_step_spec(step, funcs, after),
            other => other,
        }),
    decreases block.steps.len() - from,
{
    let grown = appended(block, step);
    if from < block.steps.len() {
        assert(grown.steps[from as int] == block.steps[from as int]);
        lemma_run_step_fuel(block.steps[from as int], funcs, store);
        let (outcome, after) = run_step_spec(block.steps[from as int], funcs, store);
        if outcome == Ok::<Action, TrapKind>(Action::End) {
            lemma_run_appended(block, step, from + 1, funcs, after);
        }
    } else {
        assert(grown.steps[from as int] == step);
        lemma_run_step_fuel(step, funcs, store);
        let (outcome, after) = run_step_spec(step, funcs, store);
        if outcome == Ok::<Action, TrapKind>(Action::End) {
            assert(run_steps_spec(grown, from + 1, funcs, after) == (
                Ok::<Action, TrapKind>(Action::End),
                after,
            ));
        }
    }
}

/// The block and the state that the first `count` plain instructions of a
/// function give, from an empty outermost block.
pub open spec fn translate_prefix(module: Seq<FunctionSource>, func_idx: u32, count: nat)
    -> Result<(BlockView, StateView), ErrorKind>
    decreases count,
{
    if count == 0 {
        Ok(
            (
                BlockView { kind: BlockKind::Block, depth: 0, steps: Seq::empty() },
                StateView { values: Seq::empty(), depth: 1, pc: 0 },
            ),
        )
    } else {
        match translate_prefix(module, func_idx, (count - 1) as nat) {
            Ok((block, state)) => match translate_spec(
                module,
                module[func_idx as int].return_type,
                code_of(module, func_idx)[count - 1],
                state,
                block,
            ) {
                Ok((grown, after)) => Ok((grown, StateView { pc: count, ..after })),
                Err(kind) => Err(kind),
            },
            Err(kind) => Err(kind),
        }
    }
}

/// What holds of the block and the state after some plain instructions of a
/// function: nothing in them makes a call, the steps only assign, and
/// compiling the function is going on compiling from there.
pub open spec fn prefix_invariant(
    module: Seq<FunctionSource>,
    limit: u32,
    func_idx: u32,
    count: nat,
    block: BlockView,
    state: StateView,
) -> bool {
    &&& state.pc == count
    &&& state.depth == 1
    &&& block.depth == 0
    &&& block.kind == BlockKind::Block
    &&& all_pure(state.values)
    &&& all_assignments(block)
    &&& compile_block_spec(module, limit, func_idx, initial_state(), BlockKind::Block)
        == (match compile_steps_spec(module, limit, func_idx, state, block) {
        Ok((body, end)) => if end.values.len() == 0 {
            Ok((body, StateView { depth: 0, ..end }))
        } else {
            Err(located(ErrorKind::UnbalancedStack, func_idx, end.pc))
        },
        Err(error) => Err(error),
    })
}

/// One plain instruction that translates keeps what holds of the prefix.
proof fn lemma_plain_step(
    module: Seq<FunctionSource>,
    limit: u32,
    func_idx: u32,
    count: nat,
    block: BlockView,
    state: StateView,
)
    requires
        straight_line(code_of(module, func_idx)),
        count < plain_count(code_of(module, func_idx)),
        prefix_invariant(module, limit, func_idx, count, block, state),
        translate_spec(
            module,
            module[func_idx as int].return_type,
            code_of(module, func_idx)[count as int],
            state,
            block,
        ) is Ok,
    ensures
        ({
            let (grown, after) = translate_spec(
                module,
                module[func_idx as int].return_type,
                code_of(module, func_idx)[count as int],
                state,
                block,
            )->Ok_0;
            prefix_invariant(
                module,
                limit,
                func_idx,
                count + 1,
                grown,
                StateView { pc: count + 1, ..after },
            )
        }),
{
    let instruction = code_of(module, func_idx)[count as int];
    assert(is_plain(instruction));
    let (grown, after) = translate_spec(
        module,
        module[func_idx as int].return_type,
        instruction,
        state,
        block,
    )->Ok_0;
    let n = state.values.len() as int;
    match instruction {
        Instruction::Binary(width, op) => {
            assert(pure_input(state.values[n - 2]));
            assert(pure_input(state.values[n - 1]));
            assert(pure_input(combine(width, op, state.values[n - 2], state.values[n - 1])));
        },
        Instruction::Unary(width, op) => {
            assert(pure_input(state.values[n - 1]));
        },
        Instruction::SetLocal(idx) => {
            assert(pure_input(state.values[n - 1]));
        },
        Instruction::TeeLocal(idx) => {
            assert(pure_input(state.values[n - 1]));
        },
        _ => {},
    }
    assert(all_pure(after.values));
    assert(all_assignments(grown));
}

/// Where the plain instructions of a body translate, compiling the body is
/// translating them one by one and then closing the block.
proof fn lemma_prefix_chain(module: Seq<FunctionSource>, limit: u32, func_idx: u32, count: nat)
    requires
        straight_line(code_of(module, func_idx)),
        limit > 0,
        count <= plain_count(code_of(module, func_idx)),
        translate_prefix(module, func_idx, count) is Ok,
    ensures
        prefix_invariant(
            module,
            limit,
            func_idx,
            count,
            translate_prefix(module, func_idx, count)->Ok_0.0,
            translate_prefix(module, func_idx, count)->Ok_0.1,
        ),
    decreases count,
{
    if count > 0 {
        lemma_prefix_chain(module, limit, func_idx, (count - 1) as nat);
        let (block, state) = translate_prefix(module, func_idx, (count - 1) as nat)->Ok_0;
        lemma_plain_step(module, limit, func_idx, (count - 1) as nat, block, state);
    } else {
        assert(initial_state().depth == 0);
    }
}

/// Where a body without control flow compiles, its plain instructions
/// translate.
proof fn lemma_compile_is_prefix(module: Seq<FunctionSource>, limit: u32, func_idx: u32, count: nat)
    requires
        straight_line(code_of(module, func_idx)),
        count <= plain_count(code_of(module, func_idx)),
        compile_block_spec(module, limit, func_idx, initial_state(), BlockKind::Block) is Ok,
    ensures
        translate_prefix(module, func_idx, count) is Ok,
        limit > 0,
        prefix_invariant(
            module,
            limit,
            func_idx,
            count,
            translate_prefix(module, func_idx, count)->Ok_0.0,
            translate_prefix(module, func_idx, count)->Ok_0.1,
        ),
    decreases count,
{
    if count > 0 {
        lemma_compile_is_prefix(module, limit, func_idx, (count - 1) as nat);
        let (block, state) = translate_prefix(module, func_idx, (count - 1) as nat)->Ok_0;
        assert(is_plain(code_of(module, func_idx)[count - 1]));
        assert(translate_spec(
            module,
            module[func_idx as int].return_type,
            code_of(module, func_idx)[count - 1],
            state,
            block,
        ) is Ok);
    }
    lemma_prefix_chain(module, limit, func_idx, count);
}

/// What the compiled steps and the pending operands have in common with the
/// reference machine after the same instructions.
///
/// While the machine runs, the steps have run to their end and left the
/// machine's locals, and the pending operands have the values on the
/// machine's stack. Once the machine has trapped, the steps trap the same
/// way, or the pending operands do when they are computed.
pub open spec fn simulates(
    block: BlockView,
    state: StateView,
    funcs: Seq<FunctionView>,
    store: StoreView,
    reached: Result<Machine, Halt>,
) -> bool {
    let (outcome, after) = run_steps_spec(block, 0, funcs, store);
    match reached {
        Ok(machine) => {
            &&& outcome == Ok::<Action, TrapKind>(Action::End)
            &&& after == (StoreView { locals: machine.locals, ..store })
            &&& eval_all(state.values, funcs, after) == Ok::<Seq<StackValue>, TrapKind>(
                machine.stack,
            )
        },
        Err(Halt::Trapped(trap)) => {
            ||| outcome == Err::<Action, TrapKind>(trap)
            ||| (outcome == Ok::<Action, TrapKind>(Action::End) && eval_all(
                state.values,
                funcs,
                after,
            ) == Err::<Seq<StackValue>, TrapKind>(trap))
        },
        Err(Halt::Stuck) => false,
    }
}

/// The reference machine after one more instruction, if it has not stopped.
pub open spec fn machine_after(reached: Result<Machine, Halt>, instruction: Instruction) -> Result<
    Machine,
    Halt,
> {
    match reached {
        Ok(machine) => step_spec(instruction, machine),
        Err(halt) => Err(halt),
    }
}

/// Pushing an operand keeps the simulation, if the operand has the value the
/// machine pushes, or traps as the machine does.
proof fn lemma_push_simulates(
    block: BlockView,
    state: StateView,
    input: InputView,
    funcs: Seq<FunctionView>,
    store: StoreView,
    reached: Result<Machine, Halt>,
    pushed: Result<StackValue, TrapKind>,
)
    requires
        simulates(block, state, funcs, store, reached),
        reached matches Ok(machine) ==> resolv_spec(
            input,
            funcs,
            StoreView { locals: machine.locals, ..store },
        ).0 == pushed,
    ensures
        simulates(
            block,
            StateView { values: state.values.push(input), ..state },
            funcs,
            store,
            match reached {
                Ok(machine) => match pushed {
                    Ok(value) => Ok(Machine { stack: machine.stack.push(value), ..machine }),
                    Err(trap) => Err(Halt::Trapped(trap)),
                },
                Err(halt) => Err(halt),
            },
        ),
{
    let after = run_steps_spec(block, 0, funcs, store).1;
    lemma_eval_all_push(state.values, input, funcs, after);
}

/// A one-operand operator keeps the simulation.
proof fn lemma_unary_simulates(
    block: BlockView,
    state: StateView,
    width: numeric::Width,
    op: numeric::UnOp,
    funcs: Seq<FunctionView>,
    store: StoreView,
    reached: Result<Machine, Halt>,
)
    requires
        simulates(block, state, funcs, store, reached),
        state.values.len() >= 1,
    ensures
        simulates(
            block,
            generate_unary_spec(state, width, op)->Ok_0,
            funcs,
            store,
            machine_after(reached, Instruction::Unary(width, op)),
        ),
{
    let after = run_steps_spec(block, 0, funcs, store).1;
    let rest = state.values.drop_last();
    let operand = state.values.last();
    let node = InputView::Op(Box::new(OpView::Unary { width, op, operand }));
    lemma_eval_all_push(rest, node, funcs, after);
    lemma_eval_all_push(rest, operand, funcs, after);
    assert(rest.push(operand) =~= state.values);
    if reached is Ok {
        let machine = reached->Ok_0;
        let earlier = eval_all(rest, funcs, after)->Ok_0;
        assert(machine.stack.drop_last() =~= earlier);
    }
}

/// A two-operand operator keeps the simulation.
proof fn lemma_binary_simulates(
    block: BlockView,
    state: StateView,
    width: numeric::Width,
    op: numeric::BinOp,
    funcs: Seq<FunctionView>,
    store: StoreView,
    reached: Result<Machine, Halt>,
)
    requires
        simulates(block, state, funcs, store, reached),
        state.values.len() >= 2,
        all_pure(state.values),
    ensures
        simulates(
            block,
            generate_binary_spec(state, width, op)->Ok_0,
            funcs,
            store,
            machine_after(reached, Instruction::Binary(width, op)),
        ),
{
    let after = run_steps_spec(block, 0, funcs, store).1;
    let n = state.values.len() as int;
    let rest = state.values.take(n - 2);
    let left = state.values[n - 2];
    let right = state.values[n - 1];
    let node = combine(width, op, left, right);
    lemma_specialization_is_unobservable(width, op, left, right, funcs, after);
    assert(pure_input(left));
    assert(pure_input(right));
    lemma_pure_input_keeps_store(left, funcs, after);
    lemma_eval_all_push(rest, node, funcs, after);
    lemma_eval_all_push(rest, left, funcs, after);
    lemma_eval_all_push(rest.push(left), right, funcs, after);
    assert(rest.push(left).push(right) =~= state.values);
    if reached is Ok {
        let machine = reached->Ok_0;
        let earlier = eval_all(rest, funcs, after)->Ok_0;
        assert(machine.stack.take(n - 2) =~= earlier);
    }
}

/// An assignment keeps the simulation, whether or not it leaves the value as
/// an operand.
proof fn lemma_assignment_simulates(
    block: BlockView,
    state: StateView,
    idx: u32,
    keep: bool,
    funcs: Seq<FunctionView>,
    store: StoreView,
    reached: Result<Machine, Halt>,
)
    requires
        simulates(block, state, funcs, store, reached),
        state.values.len() == 1,
        all_pure(state.values),
    ensures
        simulates(
            appended(block, StepView::SetLocal { idx, value: state.values[0] }),
            StateView {
                values: if keep {
                    seq![InputView::Local(idx)]
                } else {
                    Seq::empty()
                },
                ..state
            },
            funcs,
            store,
            machine_after(
                reached,
                if keep {
                    Instruction::TeeLocal(idx)
                } else {
                    Instruction::SetLocal(idx)
                },
            ),
        ),
{
    let (outcome, after) = run_steps_spec(block, 0, funcs, store);
    let value = state.values[0];
    let step = StepView::SetLocal { idx, value };
    lemma_run_appended(block, step, 0, funcs, store);
    assert(pure_input(value));
    lemma_pure_input_keeps_store(value, funcs, after);
    lemma_eval_all_push(Seq::empty(), value, funcs, after);
    assert(Seq::<InputView>::empty().push(value) =~= state.values);
    let written = run_step_spec(step, funcs, after).1;
    let kept = seq![InputView::Local(idx)];
    lemma_eval_all_push(Seq::empty(), InputView::Local(idx), funcs, written);
    assert(Seq::<InputView>::empty().push(InputView::Local(idx)) =~= kept);
    if reached is Ok {
        let machine = reached->Ok_0;
        assert(machine.stack =~= seq![machine.stack.last()]);
        assert(machine.stack.drop_last() =~= Seq::<StackValue>::empty());
    }
}

/// One plain instruction keeps the simulation.
proof fn lemma_step_simulates(
    module: Seq<FunctionSource>,
    func_idx: u32,
    instruction: Instruction,
    block: BlockView,
    state: StateView,
    funcs: Seq<FunctionView>,
    store: StoreView,
    reached: Result<Machine, Halt>,
)
    requires
        is_plain(instruction),
        simulates(block, state, funcs, store, reached),
        all_pure(state.values),
        translate_spec(
            module,
            module[func_idx as int].return_type,
            instruction,
            state,
            block,
        ) is Ok,
    ensures
        ({
            let (grown, after) = translate_spec(
                module,
                module[func_idx as int].return_type,
                instruction,
                state,
                block,
            )->Ok_0;
            simulates(grown, after, funcs, store, machine_after(reached, instruction))
        }),
{
    match instruction {
        Instruction::GetLocal(idx) => {
            let pushed = if reached is Ok && idx < reached->Ok_0.locals.len() {
                Ok(reached->Ok_0.locals[idx as int])
            } else {
                Err(TrapKind::UndefinedLocal)
            };
            lemma_push_simulates(
                block,
                state,
                InputView::Local(idx),
                funcs,
                store,
                reached,
                pushed,
            );
        },
        Instruction::I32Const(value) => {
            let cell = StackValue(cell32(value as int));
            lemma_push_simulates(
                block,
                state,
                InputView::Const(cell),
                funcs,
                store,
                reached,
                Ok(cell),
            );
        },
        Instruction::I64Const(value) => {
            let cell = StackValue(cell64(value as int));
            lemma_push_simulates(
                block,
                state,
                InputView::Const(cell),
                funcs,
                store,
                reached,
                Ok(cell),
            );
        },
        Instruction::Unary(width, op) => {
            lemma_unary_simulates(block, state, width, op, funcs, store, reached);
        },
        Instruction::Binary(width, op) => {
            lemma_binary_simulates(block, state, width, op, funcs, store, reached);
        },
        Instruction::SetLocal(idx) => {
            lemma_assignment_simulates(block, state, idx, false, funcs, store, reached);
            assert(state.values.drop_last() =~= Seq::<InputView>::empty());
        },
        Instruction::TeeLocal(idx) => {
            lemma_assignment_simulates(block, state, idx, true, funcs, store, reached);
            assert(state.values.drop_last().push(InputView::Local(idx)) =~= seq![
                InputView::Local(idx),
            ]);
        },
        _ => {},
    }
}

/// The compiled steps and the pending operands after any number of plain
/// instructions simulate the reference machine after the same instructions.
proof fn lemma_prefix_simulates(
    module: Seq<FunctionSource>,
    limit: u32,
    func_idx: u32,
    count: nat,
    funcs: Seq<FunctionView>,
    store: StoreView,
)
    requires
        straight_line(code_of(module, func_idx)),
        count <= plain_count(code_of(module, func_idx)),
        compile_block_spec(module, limit, func_idx, initial_state(), BlockKind::Block) is Ok,
    ensures
        translate_prefix(module, func_idx, count) is Ok,
        ({
            let (block, state) = translate_prefix(module, func_idx, count)->Ok_0;
            simulates(
                block,
                state,
                funcs,
                store,
                run_prefix(code_of(module, func_idx), count, store.locals),
            )
        }),
    decreases count,
{
    lemma_compile_is_prefix(module, limit, func_idx, count);
    if count > 0 {
        lemma_compile_is_prefix(module, limit, func_idx, (count - 1) as nat);
        lemma_prefix_simulates(module, limit, func_idx, (count - 1) as nat, funcs, store);
        let (block, state) = translate_prefix(module, func_idx, (count - 1) as nat)->Ok_0;
        lemma_step_simulates(
            module,
            func_idx,
            code_of(module, func_idx)[count - 1],
            block,
            state,
            funcs,
            store,
            run_prefix(code_of(module, func_idx), (count - 1) as nat, store.locals),
        );
    } else {
        let (block, state) = translate_prefix(module, func_idx, 0)->Ok_0;
        assert(run_steps_spec(block, 0, funcs, store) == (
            Ok::<Action, TrapKind>(Action::End),
            store,
        ));
    }
}

/// The operands pending at the close of a body suit the function: its plain
/// instructions translate, and they leave one operand pending where the
/// function declares a result, and none where it does not.
pub open spec fn closes_balanced(module: Seq<FunctionSource>, func_idx: u32) -> bool {
    &&& translate_prefix(module, func_idx, plain_count(code_of(module, func_idx))) is Ok
    &&& translate_prefix(
        module,
        func_idx,
        plain_count(code_of(module, func_idx)),
    )->Ok_0.1.values.len() == (if module[func_idx as int].return_type is Some {
        1nat
    } else {
        0nat
    })
}

/// What compiling a body without control flow gives, where its plain
/// instructions translate: the steps of those instructions and one `Return`
/// after them, if the `Return` finds its operand and leaves none pending.
proof fn lemma_close(module: Seq<FunctionSource>, limit: u32, func_idx: u32)
    requires
        straight_line(code_of(module, func_idx)),
        limit > 0,
        translate_prefix(module, func_idx, plain_count(code_of(module, func_idx))) is Ok,
    ensures
        ({
            let code = code_of(module, func_idx);
            let (block, state) = translate_prefix(module, func_idx, plain_count(code))->Ok_0;
            let compiled = compile_block_spec(
                module,
                limit,
                func_idx,
                initial_state(),
                BlockKind::Block,
            );
            match emit_return_spec(module[func_idx as int].return_type, state, block) {
                Ok((body, rest)) => if rest.values.len() == 0 {
                    compiled is Ok && compiled->Ok_0.0 == body
                } else {
                    compiled is Err
                },
                Err(_) => compiled is Err,
            }
        }),
{
    let code = code_of(module, func_idx);
    let last = plain_count(code);
    let ret_type = module[func_idx as int].return_type;
    lemma_prefix_chain(module, limit, func_idx, last);
    let (block, state) = translate_prefix(module, func_idx, last)->Ok_0;
    assert(!closed_by_return(block)) by {
        if block.steps.len() > 0 {
            assert(block.steps[block.steps.len() - 1] is SetLocal);
        }
    }
    let closed = emit_return_spec(ret_type, state, block);
    if code[last as int] is Return && closed is Ok {
        // The return closes the block; the `end` after it adds nothing.
        let (grown, rest) = closed->Ok_0;
        let at_end = StateView { pc: state.pc + 1, ..rest };
        assert(grown.steps.last() is Return);
        assert(closed_by_return(grown));
        assert(compile_steps_spec(module, limit, func_idx, at_end, grown) == Ok::<
            (BlockView, StateView),
            Error,
        >((grown, at_end)));
    }
}

/// A body without control flow compiles exactly where its plain instructions
/// translate and the operands pending at its close suit the function.
pub proof fn lemma_straight_line_compiles(
    module: Seq<FunctionSource>,
    limit: u32,
    func_idx: u32,
)
    requires
        straight_line(code_of(module, func_idx)),
        limit > 0,
    ensures
        compile_block_spec(module, limit, func_idx, initial_state(), BlockKind::Block) is Ok
            <==> closes_balanced(module, func_idx),
{
    let last = plain_count(code_of(module, func_idx));
    if compile_block_spec(module, limit, func_idx, initial_state(), BlockKind::Block) is Ok {
        lemma_compile_is_prefix(module, limit, func_idx, last);
    }
    if translate_prefix(module, func_idx, last) is Ok {
        lemma_close(module, limit, func_idx);
    }
}

/// On a function body without control flow that compiles, compiled code and
/// the reference machine agree: if the machine yields a result, the compiled
/// body reports a `Return` of that result and leaves the machine's locals,
/// with the stack and the fuel as they were; if the machine traps, the
/// compiled body traps the same way.
///
/// A body that compiles leaves no operand behind, so every value the machine
/// computes is one that compiled code computes too, and in the same order.
pub proof fn lemma_straight_line_agrees(
    module: Seq<FunctionSource>,
    limit: u32,
    func_idx: u32,
    funcs: Seq<FunctionView>,
    store: StoreView,
)
    requires
        func_idx < module.len(),
        straight_line(code_of(module, func_idx)),
        compile_block_spec(module, limit, func_idx, initial_state(), BlockKind::Block) is Ok,
    ensures
        compile_function_spec(module, limit, func_idx) is Ok,
        ({
            let body = compile_function_spec(module, limit, func_idx)->Ok_0.body;
            match interpret(
                code_of(module, func_idx),
                module[func_idx as int].return_type,
                store.locals,
            ) {
                Ok((value, locals)) => run_block_spec(body, funcs, store) == (
                    Ok::<Action, TrapKind>(Action::Return(value)),
                    StoreView { locals, ..store },
                ),
                Err(Halt::Trapped(trap)) => run_block_spec(body, funcs, store).0 == Err::<
                    Action,
                    TrapKind,
                >(trap),
                Err(Halt::Stuck) => false,
            }
        }),
{
    let code = code_of(module, func_idx);
    let last = plain_count(code);
    let ret_type = module[func_idx as int].return_type;
    lemma_prefix_simulates(module, limit, func_idx, last, funcs, store);
    lemma_compile_is_prefix(module, limit, func_idx, last);
    lemma_close(module, limit, func_idx);
    let (block, state) = translate_prefix(module, func_idx, last)->Ok_0;
    assert(emit_return_spec(ret_type, state, block) is Ok);
    let after = run_steps_spec(block, 0, funcs, store).1;
    if ret_type is Some {
        let value = state.values.last();
        assert(state.values =~= seq![value]);
        assert(pure_input(state.values[0]));
        lemma_pure_input_keeps_store(value, funcs, after);
        lemma_eval_all_push(Seq::empty(), value, funcs, after);
        assert(Seq::<InputView>::empty().push(value) =~= state.values);
        lemma_run_appended(block, StepView::Return(Some(value)), 0, funcs, store);
    } else {
        assert(state.values =~= Seq::empty());
        lemma_run_appended(block, StepView::Return(None), 0, funcs, store);
    }
}

/// Compiling a function without control flow and invoking it gives what the
/// reference machine gives on the function's frame: the same result or the
/// same trap. After a
/// result the caller's locals are back in place, the arguments are off the
/// stack, and one unit of fuel is gone.
pub proof fn lemma_straight_line_invocation(
    module: Seq<FunctionSource>,
    limit: u32,
    func_idx: u32,
    funcs: Seq<FunctionView>,
    store: StoreView,
)
    requires
        func_idx < module.len(),
        func_idx < funcs.len(),
        straight_line(code_of(module, func_idx)),
        compile_block_spec(module, limit, func_idx, initial_state(), BlockKind::Block) is Ok,
        compile_function_spec(module, limit, func_idx) == Ok::<
            FunctionView,
            Error,
        >(funcs[func_idx as int]),
        store.fuel > 0,
        store.stack.len() >= module[func_idx as int].param_count,
    ensures
        ({
            let source = module[func_idx as int];
            let base = store.stack.len() - source.param_count;
            let frame = frame_of(
                funcs[func_idx as int],
                store.stack.subrange(base, store.stack.len() as int),
            );
            match interpret(code_of(module, func_idx), source.return_type, frame) {
                Ok((value, _)) => invoke_spec(funcs, func_idx, store) == (
                    Ok::<Option<StackValue>, TrapKind>(value),
                    StoreView {
                        locals: store.locals,
                        stack: store.stack.subrange(0, base),
                        fuel: (store.fuel - 1) as nat,
                    },
                ),
                Err(Halt::Trapped(trap)) => invoke_spec(
                    funcs,
                    func_idx,
                    store,
                ).0 == Err::<Option<StackValue>, TrapKind>(trap),
                Err(Halt::Stuck) => false,
            }
        }),
{
    let function = funcs[func_idx as int];
    let base = store.stack.len() - function.param_count;
    let inner = StoreView {
        locals: frame_of(
            function,
            store.stack.subrange(base, store.stack.len() as int),
        ),
        stack: store.stack.subrange(0, base),
        fuel: (store.fuel - 1) as nat,
    };
    lemma_straight_line_agrees(module, limit, func_idx, funcs, inner);
}

} // verus!
