//! Laws of compiled code that hold of every input.

use vstd::prelude::*;
use crate::code::{
    Action, BlockKind, BlockView, InputView, OpView, Simple, StepView, appended, simple_input,
};
use crate::error::{Error, ErrorKind, TrapKind};
use crate::function::FunctionView;
use crate::module::{FunctionSource, Instruction};
use crate::numeric::{BinOp, Width};
use crate::scope::{always_returns, lemma_body_returns};
use crate::semantics::{
    body_spec, closing_return_spec, eval_spec, lemma_resolv_fuel, lemma_run_block_fuel,
    lemma_run_step_fuel, lemma_run_steps_fuel, resolv_spec, run_block_spec, run_step_spec,
    run_steps_spec,
};
use crate::store::StoreView;
use crate::value::StackValue;
use crate::translate::{
    StateView, advanced, code_of, combine, compile_block_spec, compile_function_spec,
    compile_if_spec, compile_module_spec, compile_steps_spec, initial_state,
    lemma_first_failure, located, pop_spec, translate_spec,
};

verus! {

/// The direct form of a two-operand operator computes what the general form
/// computes on the same two simple operands, and leaves the same store.
pub proof fn lemma_direct_agrees_with_general(
    width: Width,
    op: BinOp,
    left: Simple,
    right: Simple,
    funcs: Seq<FunctionView>,
    store: StoreView,
)
    ensures
        eval_spec(OpView::Direct { width, op, left, right }, funcs, store) == eval_spec(
            OpView::Binary { width, op, left: simple_input(left), right: simple_input(right) },
            funcs,
            store,
        ),
{
}

/// Whatever the two operands are (locals, literals, computed values, in any
/// pairing), the node the generator builds for a two-operand operator computes
/// what the general form computes on them.
pub proof fn lemma_specialization_is_unobservable(
    width: Width,
    op: BinOp,
    left: InputView,
    right: InputView,
    funcs: Seq<FunctionView>,
    store: StoreView,
)
    ensures
        resolv_spec(combine(width, op, left, right), funcs, store) == eval_spec(
            OpView::Binary { width, op, left, right },
            funcs,
            store,
        ),
{
}

/// Compiling a two-operand operator never shows in the result which form
/// was built: whatever the two pending operands are, the operand that the
/// instruction leaves in their place computes what the general form computes
/// on them, and the block is as it was.
pub proof fn lemma_operator_instruction_is_unobservable(
    module: Seq<FunctionSource>,
    func_idx: u32,
    width: Width,
    op: BinOp,
    state: StateView,
    block: BlockView,
    funcs: Seq<FunctionView>,
    store: StoreView,
)
    requires
        state.values.len() >= 2,
    ensures
        ({
            let n = state.values.len() as int;
            let translated = translate_spec(
                module,
                module[func_idx as int].return_type,
                Instruction::Binary(width, op),
                state,
                block,
            );
            &&& translated is Ok
            &&& translated->Ok_0.0 == block
            &&& translated->Ok_0.1.values.len() == n - 1
            &&& translated->Ok_0.1.values.take(n - 2) == state.values.take(n - 2)
            &&& resolv_spec(translated->Ok_0.1.values.last(), funcs, store) == eval_spec(
                OpView::Binary {
                    width,
                    op,
                    left: state.values[n - 2],
                    right: state.values[n - 1],
                },
                funcs,
                store,
            )
        }),
{
    let n = state.values.len() as int;
    let after = translate_spec(
        module,
        module[func_idx as int].return_type,
        Instruction::Binary(width, op),
        state,
        block,
    )->Ok_0.1;
    assert(after.values.take(n - 2) =~= state.values.take(n - 2));
    lemma_specialization_is_unobservable(
        width,
        op,
        state.values[n - 2],
        state.values[n - 1],
        funcs,
        store,
    );
}

/// A loop that its steps branch to starts again from its first step, in the
/// store the steps left and for one unit of fuel; a block of another kind
/// ends. A loop whose steps report `End` ends too, and whatever else the steps
/// report is passed up.
pub proof fn lemma_branch_to_own_depth(
    block: BlockView,
    funcs: Seq<FunctionView>,
    store: StoreView,
)
    ensures
        ({
            let (outcome, after) = run_steps_spec(block, 0, funcs, store);
            let again = StoreView { fuel: (after.fuel - 1) as nat, ..after };
            if outcome == Ok::<Action, TrapKind>(Action::Branch(block.depth)) {
                if block.kind != BlockKind::Loop {
                    run_block_spec(block, funcs, store) == (
                        Ok::<Action, TrapKind>(Action::End),
                        after,
                    )
                } else if after.fuel > 0 {
                    run_block_spec(block, funcs, store) == run_block_spec(block, funcs, again)
                } else {
                    run_block_spec(block, funcs, store) == (
                        Err::<Action, TrapKind>(TrapKind::OutOfFuel),
                        after,
                    )
                }
            } else {
                run_block_spec(block, funcs, store) == (outcome, after)
            }
        }),
{
    lemma_run_steps_fuel(block, 0, funcs, store);
}

/// A conditional runs exactly one arm, in the store the condition left: the
/// first arm on a condition that is not zero, the second on zero. Without a
/// second arm a zero condition does nothing.
pub proof fn lemma_if_selects_one_arm(
    cond: InputView,
    then_block: BlockView,
    else_block: Option<BlockView>,
    funcs: Seq<FunctionView>,
    store: StoreView,
)
    ensures
        ({
            let step = StepView::If { cond, then_block, else_block };
            let (value, after) = resolv_spec(cond, funcs, store);
            match value {
                Ok(value) => if value.0 != 0 {
                    run_step_spec(step, funcs, store) == run_block_spec(then_block, funcs, after)
                } else {
                    match else_block {
                        Some(block) => run_step_spec(step, funcs, store) == run_block_spec(
                            block,
                            funcs,
                            after,
                        ),
                        None => run_step_spec(step, funcs, store) == (
                            Ok::<Action, TrapKind>(Action::End),
                            after,
                        ),
                    }
                },
                Err(trap) => run_step_spec(step, funcs, store) == (
                    Err::<Action, TrapKind>(trap),
                    after,
                ),
            }
        }),
{
    lemma_resolv_fuel(cond, funcs, store);
}

/// The store in which step `at` of a block starts when the block is entered
/// in `store`: the one that the steps before it leave, if each of them
/// reports `End`.
pub open spec fn store_before(
    block: BlockView,
    at: nat,
    funcs: Seq<FunctionView>,
    store: StoreView,
) -> Option<StoreView>
    decreases at,
{
    if at == 0 {
        Some(store)
    } else {
        match store_before(block, (at - 1) as nat, funcs, store) {
            Some(earlier) => match run_step_spec(block.steps[at - 1], funcs, earlier) {
                (Ok(Action::End), after) => Some(after),
                _ => None,
            },
            None => None,
        }
    }
}

/// Running a block from its first step is running it from step `at` in the
/// store that step starts in.
pub proof fn lemma_steps_resume(
    block: BlockView,
    at: nat,
    funcs: Seq<FunctionView>,
    store: StoreView,
)
    requires
        at <= block.steps.len(),
        store_before(block, at, funcs, store) is Some,
    ensures
        run_steps_spec(block, 0, funcs, store) == run_steps_spec(
            block,
            at,
            funcs,
            store_before(block, at, funcs, store)->Some_0,
        ),
        store_before(block, at, funcs, store)->Some_0.fuel <= store.fuel,
    decreases at,
{
    if at > 0 {
        lemma_steps_resume(block, (at - 1) as nat, funcs, store);
        let earlier = store_before(block, (at - 1) as nat, funcs, store)->Some_0;
        lemma_run_step_fuel(block.steps[at - 1], funcs, earlier);
    }
}

/// A `Return` stops a block: if the steps before step `at` report `End` and
/// step `at` reports a `Return`, the block reports that `Return` and leaves
/// the store as that step left it, so no later step has run. The step may be
/// a block or a conditional that passes the `Return` up from any depth.
pub proof fn lemma_return_stops_block(
    block: BlockView,
    at: nat,
    funcs: Seq<FunctionView>,
    store: StoreView,
)
    requires
        at < block.steps.len(),
        store_before(block, at, funcs, store) is Some,
        run_step_spec(
            block.steps[at as int],
            funcs,
            store_before(block, at, funcs, store)->Some_0,
        ).0 matches Ok(Action::Return(_)),
    ensures
        run_block_spec(block, funcs, store) == run_step_spec(
            block.steps[at as int],
            funcs,
            store_before(block, at, funcs, store)->Some_0,
        ),
{
    lemma_steps_resume(block, at, funcs, store);
}

/// A `Return` in a nested block surfaces from the block around it: where
/// step `i` of the outer block is the inner block, and step `j` of the inner
/// block reports a `Return` when control reaches it, the outer block reports
/// that `Return` and leaves the store as that step left it.
pub proof fn lemma_return_surfaces(
    outer: BlockView,
    i: nat,
    inner: BlockView,
    j: nat,
    funcs: Seq<FunctionView>,
    store: StoreView,
)
    requires
        i < outer.steps.len(),
        outer.steps[i as int] == StepView::Nested(inner),
        j < inner.steps.len(),
        store_before(outer, i, funcs, store) is Some,
        store_before(inner, j, funcs, store_before(outer, i, funcs, store)->Some_0) is Some,
        run_step_spec(
            inner.steps[j as int],
            funcs,
            store_before(inner, j, funcs, store_before(outer, i, funcs, store)->Some_0)->Some_0,
        ).0 matches Ok(Action::Return(_)),
    ensures
        run_block_spec(outer, funcs, store) == run_step_spec(
            inner.steps[j as int],
            funcs,
            store_before(inner, j, funcs, store_before(outer, i, funcs, store)->Some_0)->Some_0,
        ),
{
    let entered = store_before(outer, i, funcs, store)->Some_0;
    lemma_return_stops_block(inner, j, funcs, entered);
    lemma_return_stops_block(outer, i, funcs, store);
}

/// A `Return` two blocks deep in a function's body is the function's
/// result: where step `i` of the body is a block, step `j` of that block is a
/// block, and step `k` of that one reports a `Return` when control reaches
/// it, running the body yields the returned value and leaves the store as
/// that step left it. No step after any of the three has run.
pub proof fn lemma_nested_return_is_the_result(
    body: BlockView,
    i: nat,
    middle: BlockView,
    j: nat,
    inner: BlockView,
    k: nat,
    funcs: Seq<FunctionView>,
    store: StoreView,
)
    requires
        i < body.steps.len(),
        body.steps[i as int] == StepView::Nested(middle),
        j < middle.steps.len(),
        middle.steps[j as int] == StepView::Nested(inner),
        k < inner.steps.len(),
        store_before(body, i, funcs, store) is Some,
        store_before(middle, j, funcs, store_before(body, i, funcs, store)->Some_0) is Some,
        store_before(
            inner,
            k,
            funcs,
            store_before(middle, j, funcs, store_before(body, i, funcs, store)->Some_0)->Some_0,
        ) is Some,
        run_step_spec(
            inner.steps[k as int],
            funcs,
            store_before(
                inner,
                k,
                funcs,
                store_before(
                    middle,
                    j,
                    funcs,
                    store_before(body, i, funcs, store)->Some_0,
                )->Some_0,
            )->Some_0,
        ).0 matches Ok(Action::Return(_)),
    ensures
        ({
            let reached = store_before(
                inner,
                k,
                funcs,
                store_before(
                    middle,
                    j,
                    funcs,
                    store_before(body, i, funcs, store)->Some_0,
                )->Some_0,
            )->Some_0;
            let (outcome, after) = run_step_spec(inner.steps[k as int], funcs, reached);
            &&& run_block_spec(body, funcs, store) == (outcome, after)
            &&& body_spec(body, funcs, store) == (
                Ok::<Option<StackValue>, TrapKind>(outcome->Ok_0->Return_0),
                after,
            )
        }),
{
    let first = store_before(body, i, funcs, store)->Some_0;
    let second = store_before(middle, j, funcs, first)->Some_0;
    lemma_return_stops_block(inner, k, funcs, second);
    lemma_return_stops_block(middle, j, funcs, first);
    lemma_return_stops_block(body, i, funcs, store);
}

/// A branch to depth zero leads to the function's end, and the function
/// returns there: where a step of a body that always returns reports a
/// branch to depth zero when control reaches it, no later step runs, and the
/// function's result is what the `Return` that closes the body returns, in
/// the store the branching step left.
pub proof fn lemma_branch_to_body_returns(
    body: BlockView,
    at: nat,
    funcs: Seq<FunctionView>,
    store: StoreView,
)
    requires
        always_returns(body),
        body.kind != BlockKind::Loop,
        at < body.steps.len(),
        store_before(body, at, funcs, store) is Some,
        run_step_spec(
            body.steps[at as int],
            funcs,
            store_before(body, at, funcs, store)->Some_0,
        ).0 == Ok::<Action, TrapKind>(Action::Branch(0)),
    ensures
        ({
            let after = run_step_spec(
                body.steps[at as int],
                funcs,
                store_before(body, at, funcs, store)->Some_0,
            ).1;
            &&& run_block_spec(body, funcs, store) == (Ok::<Action, TrapKind>(Action::End), after)
            &&& body.steps.last() is Return
            &&& body_spec(body, funcs, store) == closing_return_spec(body, funcs, after)
        }),
{
    lemma_steps_resume(body, at, funcs, store);
    lemma_body_returns(body, funcs, store);
    lemma_run_block_fuel(body, funcs, store);
}

/// How many operands an instruction takes off the operand stack.
pub open spec fn operands_taken(
    module: Seq<FunctionSource>,
    func_idx: u32,
    instruction: Instruction,
) -> nat {
    match instruction {
        Instruction::If => 1,
        Instruction::Return => if module[func_idx as int].return_type is Some {
            1
        } else {
            0
        },
        Instruction::BrIf(_) => 1,
        Instruction::BrTable(_, _) => 1,
        Instruction::Call(callee) => if callee < module.len() {
            module[callee as int].param_count as nat
        } else {
            0
        },
        Instruction::SetLocal(_) => 1,
        Instruction::TeeLocal(_) => 1,
        Instruction::Unary(_, _) => 1,
        Instruction::Binary(_, _) => 2,
        _ => 0,
    }
}

/// An instruction that finds fewer operands than it takes fails the
/// compilation, with `ValueStackEmpty` at its own offset, unless it is a call
/// of a function the module does not have, which fails as that.
pub proof fn lemma_missing_operand_fails(
    module: Seq<FunctionSource>,
    limit: u32,
    func_idx: u32,
    state: StateView,
    block: BlockView,
)
    requires
        state.pc < code_of(module, func_idx).len(),
        state.values.len() < operands_taken(
            module,
            func_idx,
            code_of(module, func_idx)[state.pc as int],
        ),
    ensures
        compile_steps_spec(module, limit, func_idx, state, block) == Err::<
            (BlockView, StateView),
            Error,
        >(located(ErrorKind::ValueStackEmpty, func_idx, state.pc)),
{
    if code_of(module, func_idx)[state.pc as int] is If {
        assert(compile_if_spec(module, limit, func_idx, state, block) == Err::<
            (BlockView, StateView),
            Error,
        >(located(ErrorKind::ValueStackEmpty, func_idx, state.pc)));
    }
}

/// An empty block of the given kind, opened in the given state.
pub open spec fn opened_block(state: StateView, kind: BlockKind) -> BlockView {
    BlockView { kind, depth: state.depth, steps: Seq::empty() }
}

/// The state inside a block that was opened in the given state.
pub open spec fn inside(state: StateView) -> StateView {
    StateView { depth: (state.depth + 1) as u32, ..state }
}

/// Compiling on from `state` into `block` comes to compiling on from `later`
/// into `grown`: at once, or after instructions of this block, or inside a
/// block that is opened on the way.
pub open spec fn comes_to(
    module: Seq<FunctionSource>,
    limit: u32,
    func_idx: u32,
    state: StateView,
    block: BlockView,
    later: StateView,
    grown: BlockView,
) -> bool
    decreases code_of(module, func_idx).len() - state.pc,
{
    let code = code_of(module, func_idx);
    let ret_type = module[func_idx as int].return_type;
    if state == later && block == grown {
        true
    } else if state.pc >= code.len() {
        false
    } else {
        match code[state.pc as int] {
            Instruction::Block => comes_through(
                module,
                limit,
                func_idx,
                state,
                block,
                BlockKind::Block,
                later,
                grown,
            ),
            Instruction::Loop => comes_through(
                module,
                limit,
                func_idx,
                state,
                block,
                BlockKind::Loop,
                later,
                grown,
            ),
            Instruction::If => match pop_spec(state) {
                Ok((cond, rest)) => {
                    let first = advanced(rest);
                    ||| (first.depth < limit && comes_to(
                        module,
                        limit,
                        func_idx,
                        inside(first),
                        opened_block(first, BlockKind::If),
                        later,
                        grown,
                    ))
                    ||| match compile_block_spec(module, limit, func_idx, first, BlockKind::If) {
                        Ok((then_block, middle)) => state.pc < middle.pc < code.len() && {
                            let second = advanced(middle);
                            ||| (code[middle.pc as int] is Else && second.depth < limit
                                && comes_to(
                                module,
                                limit,
                                func_idx,
                                inside(second),
                                opened_block(second, BlockKind::Else),
                                later,
                                grown,
                            ))
                            ||| match compile_if_spec(module, limit, func_idx, state, block) {
                                Ok((with_step, end)) => state.pc < end.pc < code.len()
                                    && comes_to(
                                    module,
                                    limit,
                                    func_idx,
                                    advanced(end),
                                    with_step,
                                    later,
                                    grown,
                                ),
                                Err(_) => false,
                            }
                        },
                        Err(_) => false,
                    }
                },
                Err(_) => false,
            },
            Instruction::Else => false,
            Instruction::End => false,
            other => match translate_spec(module, ret_type, other, state, block) {
                Ok((with_step, after)) => comes_to(
                    module,
                    limit,
                    func_idx,
                    StateView { pc: state.pc + 1, ..after },
                    with_step,
                    later,
                    grown,
                ),
                Err(_) => false,
            },
        }
    }
}

/// Compiling comes to `later` and `grown` through a block or loop that opens
/// at the state's offset: inside it, or after it.
pub open spec fn comes_through(
    module: Seq<FunctionSource>,
    limit: u32,
    func_idx: u32,
    state: StateView,
    block: BlockView,
    kind: BlockKind,
    later: StateView,
    grown: BlockView,
) -> bool
    decreases code_of(module, func_idx).len() - state.pc, 0nat,
        when state.pc < code_of(module, func_idx).len()
{
    let code = code_of(module, func_idx);
    let first = advanced(state);
    ||| (first.depth < limit && comes_to(
        module,
        limit,
        func_idx,
        inside(first),
        opened_block(first, kind),
        later,
        grown,
    ))
    ||| match compile_block_spec(module, limit, func_idx, first, kind) {
        Ok((child, end)) => state.pc < end.pc < code.len() && comes_to(
            module,
            limit,
            func_idx,
            advanced(end),
            appended(block, StepView::Nested(child)),
            later,
            grown,
        ),
        Err(_) => false,
    }
}

/// A failure is the failure of all that comes to it: if compiling on from
/// `state` comes to compiling on from `later`, and that fails, then compiling
/// on from `state` fails the same way.
pub proof fn lemma_failure_comes_up(
    module: Seq<FunctionSource>,
    limit: u32,
    func_idx: u32,
    state: StateView,
    block: BlockView,
    later: StateView,
    grown: BlockView,
)
    requires
        comes_to(module, limit, func_idx, state, block, later, grown),
        compile_steps_spec(module, limit, func_idx, later, grown) is Err,
    ensures
        compile_steps_spec(module, limit, func_idx, state, block) == compile_steps_spec(
            module,
            limit,
            func_idx,
            later,
            grown,
        ),
    decreases code_of(module, func_idx).len() - state.pc, 1nat,
{
    let code = code_of(module, func_idx);
    let ret_type = module[func_idx as int].return_type;
    if !(state == later && block == grown) {
        match code[state.pc as int] {
            Instruction::Block => lemma_failure_comes_through(
                module,
                limit,
                func_idx,
                state,
                block,
                BlockKind::Block,
                later,
                grown,
            ),
            Instruction::Loop => lemma_failure_comes_through(
                module,
                limit,
                func_idx,
                state,
                block,
                BlockKind::Loop,
                later,
                grown,
            ),
            Instruction::If => {
                let (cond, rest) = pop_spec(state)->Ok_0;
                let first = advanced(rest);
                if first.depth < limit && comes_to(
                    module,
                    limit,
                    func_idx,
                    inside(first),
                    opened_block(first, BlockKind::If),
                    later,
                    grown,
                ) {
                    lemma_failure_comes_up(
                        module,
                        limit,
                        func_idx,
                        inside(first),
                        opened_block(first, BlockKind::If),
                        later,
                        grown,
                    );
                    assert(compile_block_spec(module, limit, func_idx, first, BlockKind::If)
                        is Err);
                    assert(compile_if_spec(module, limit, func_idx, state, block) is Err);
                } else {
                    let (then_block, middle) = compile_block_spec(
                        module,
                        limit,
                        func_idx,
                        first,
                        BlockKind::If,
                    )->Ok_0;
                    let second = advanced(middle);
                    if code[middle.pc as int] is Else && second.depth < limit && comes_to(
                        module,
                        limit,
                        func_idx,
                        inside(second),
                        opened_block(second, BlockKind::Else),
                        later,
                        grown,
                    ) {
                        lemma_failure_comes_up(
                            module,
                            limit,
                            func_idx,
                            inside(second),
                            opened_block(second, BlockKind::Else),
                            later,
                            grown,
                        );
                        assert(compile_block_spec(
                            module,
                            limit,
                            func_idx,
                            second,
                            BlockKind::Else,
                        ) is Err);
                        assert(compile_if_spec(module, limit, func_idx, state, block) is Err);
                    } else {
                        let (with_step, end) = compile_if_spec(
                            module,
                            limit,
                            func_idx,
                            state,
                            block,
                        )->Ok_0;
                        lemma_failure_comes_up(
                            module,
                            limit,
                            func_idx,
                            advanced(end),
                            with_step,
                            later,
                            grown,
                        );
                    }
                }
            },
            Instruction::Else => {},
            Instruction::End => {},
            other => {
                let (with_step, after) = translate_spec(
                    module,
                    ret_type,
                    other,
                    state,
                    block,
                )->Ok_0;
                lemma_failure_comes_up(
                    module,
                    limit,
                    func_idx,
                    StateView { pc: state.pc + 1, ..after },
                    with_step,
                    later,
                    grown,
                );
            },
        }
    }
}

/// The same, through a block or loop that opens at the state's offset.
proof fn lemma_failure_comes_through(
    module: Seq<FunctionSource>,
    limit: u32,
    func_idx: u32,
    state: StateView,
    block: BlockView,
    kind: BlockKind,
    later: StateView,
    grown: BlockView,
)
    requires
        state.pc < code_of(module, func_idx).len(),
        kind == BlockKind::Block && code_of(module, func_idx)[state.pc as int] is Block
            || kind == BlockKind::Loop && code_of(module, func_idx)[state.pc as int] is Loop,
        comes_through(module, limit, func_idx, state, block, kind, later, grown),
        compile_steps_spec(module, limit, func_idx, later, grown) is Err,
    ensures
        compile_steps_spec(module, limit, func_idx, state, block) == compile_steps_spec(
            module,
            limit,
            func_idx,
            later,
            grown,
        ),
    decreases code_of(module, func_idx).len() - state.pc, 0nat,
{
    let first = advanced(state);
    if first.depth < limit && comes_to(
        module,
        limit,
        func_idx,
        inside(first),
        opened_block(first, kind),
        later,
        grown,
    ) {
        lemma_failure_comes_up(
            module,
            limit,
            func_idx,
            inside(first),
            opened_block(first, kind),
            later,
            grown,
        );
        assert(compile_block_spec(module, limit, func_idx, first, kind) is Err);
    } else {
        let (child, end) = compile_block_spec(module, limit, func_idx, first, kind)->Ok_0;
        lemma_failure_comes_up(
            module,
            limit,
            func_idx,
            advanced(end),
            appended(block, StepView::Nested(child)),
            later,
            grown,
        );
    }
}

/// Wherever in a function an instruction finds fewer operands than it takes,
/// at the top of the body or inside any nesting of blocks, the function fails
/// to compile with `ValueStackEmpty` at that instruction's offset, and with
/// it the module.
pub proof fn lemma_missing_operand_fails_module(
    module: Seq<FunctionSource>,
    limit: u32,
    func_idx: u32,
    later: StateView,
    grown: BlockView,
)
    requires
        func_idx < module.len(),
        limit > 0,
        comes_to(
            module,
            limit,
            func_idx,
            inside(initial_state()),
            opened_block(initial_state(), BlockKind::Block),
            later,
            grown,
        ),
        later.pc < code_of(module, func_idx).len(),
        later.values.len() < operands_taken(
            module,
            func_idx,
            code_of(module, func_idx)[later.pc as int],
        ),
    ensures
        compile_function_spec(module, limit, func_idx) == Err::<FunctionView, Error>(
            located(ErrorKind::ValueStackEmpty, func_idx, later.pc),
        ),
        compile_module_spec(module, limit, module.len()) is Err,
{
    lemma_missing_operand_fails(module, limit, func_idx, later, grown);
    lemma_failure_comes_up(
        module,
        limit,
        func_idx,
        inside(initial_state()),
        opened_block(initial_state(), BlockKind::Block),
        later,
        grown,
    );
    lemma_failure_fails_module(module, limit, func_idx);
}

/// What compiling a block hands back has the kind that was asked for and
/// lies at the depth of the state it was opened in, so that label zero
/// inside it leads to the block itself: a loop is a `Loop` at that depth. The
/// state afterwards is at the same depth, stands at the instruction that
/// closed the block, and has as many operands pending as before.
pub proof fn lemma_block_shape(
    module: Seq<FunctionSource>,
    limit: u32,
    func_idx: u32,
    state: StateView,
    kind: BlockKind,
)
    requires
        compile_block_spec(module, limit, func_idx, state, kind) is Ok,
    ensures
        ({
            let (block, end) = compile_block_spec(module, limit, func_idx, state, kind)->Ok_0;
            &&& block.kind == kind
            &&& block.depth == state.depth
            &&& end.depth == state.depth
            &&& end.values.len() == state.values.len()
            &&& state.pc <= end.pc < code_of(module, func_idx).len()
        }),
    decreases code_of(module, func_idx).len() - state.pc, 2nat,
{
    lemma_steps_shape(module, limit, func_idx, inside(state), opened_block(state, kind));
}

/// Going on compiling keeps the kind and the depth of the block and the depth
/// of the state, and ends at an instruction of the function.
proof fn lemma_steps_shape(
    module: Seq<FunctionSource>,
    limit: u32,
    func_idx: u32,
    state: StateView,
    block: BlockView,
)
    requires
        compile_steps_spec(module, limit, func_idx, state, block) is Ok,
    ensures
        ({
            let (grown, end) = compile_steps_spec(module, limit, func_idx, state, block)->Ok_0;
            &&& grown.kind == block.kind
            &&& grown.depth == block.depth
            &&& end.depth == state.depth
            &&& state.pc <= end.pc < code_of(module, func_idx).len()
        }),
    decreases code_of(module, func_idx).len() - state.pc, 1nat,
{
    let code = code_of(module, func_idx);
    let ret_type = module[func_idx as int].return_type;
    match code[state.pc as int] {
        Instruction::Block => {
            lemma_block_shape(module, limit, func_idx, advanced(state), BlockKind::Block);
            let (child, end) = compile_block_spec(
                module,
                limit,
                func_idx,
                advanced(state),
                BlockKind::Block,
            )->Ok_0;
            lemma_steps_shape(
                module,
                limit,
                func_idx,
                advanced(end),
                appended(block, StepView::Nested(child)),
            );
        },
        Instruction::Loop => {
            lemma_block_shape(module, limit, func_idx, advanced(state), BlockKind::Loop);
            let (child, end) = compile_block_spec(
                module,
                limit,
                func_idx,
                advanced(state),
                BlockKind::Loop,
            )->Ok_0;
            lemma_steps_shape(
                module,
                limit,
                func_idx,
                advanced(end),
                appended(block, StepView::Nested(child)),
            );
        },
        Instruction::If => {
            lemma_if_shape(module, limit, func_idx, state, block);
            let (with_step, end) = compile_if_spec(module, limit, func_idx, state, block)->Ok_0;
            lemma_steps_shape(module, limit, func_idx, advanced(end), with_step);
        },
        Instruction::Else => {},
        Instruction::End => {},
        other => {
            let (with_step, after) = translate_spec(module, ret_type, other, state, block)->Ok_0;
            lemma_steps_shape(
                module,
                limit,
                func_idx,
                StateView { pc: state.pc + 1, ..after },
                with_step,
            );
        },
    }
}

/// Compiling a conditional keeps the kind and the depth of the block it is
/// added to and the depth of the state, and ends further on.
proof fn lemma_if_shape(
    module: Seq<FunctionSource>,
    limit: u32,
    func_idx: u32,
    state: StateView,
    block: BlockView,
)
    requires
        compile_if_spec(module, limit, func_idx, state, block) is Ok,
    ensures
        ({
            let (grown, end) = compile_if_spec(module, limit, func_idx, state, block)->Ok_0;
            &&& grown.kind == block.kind
            &&& grown.depth == block.depth
            &&& end.depth == state.depth
            &&& state.pc < end.pc < code_of(module, func_idx).len()
        }),
    decreases code_of(module, func_idx).len() - state.pc, 0nat,
{
    let code = code_of(module, func_idx);
    let (cond, rest) = pop_spec(state)->Ok_0;
    lemma_block_shape(module, limit, func_idx, advanced(rest), BlockKind::If);
    let (then_block, middle) = compile_block_spec(
        module,
        limit,
        func_idx,
        advanced(rest),
        BlockKind::If,
    )->Ok_0;
    if code[middle.pc as int] is Else {
        lemma_block_shape(module, limit, func_idx, advanced(middle), BlockKind::Else);
    }
}

/// A function that fails to compile fails the module it is in: the module's
/// compilation is the failure of the first function that has one.
pub proof fn lemma_failure_fails_module(module: Seq<FunctionSource>, limit: u32, func_idx: u32)
    requires
        func_idx < module.len(),
        compile_function_spec(module, limit, func_idx) is Err,
    ensures
        compile_module_spec(module, limit, module.len()) is Err,
{
    lemma_first_failure(module, limit, func_idx as nat + 1, module.len());
}

} // verus!
