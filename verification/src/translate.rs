//! What the compiler makes of a function body, as a function of its
//! instructions.
//!
//! Operands are tracked symbolically while the instructions are walked: an
//! instruction that yields a value pushes a description of it, and the
//! instruction that takes the value builds it into the node or step it emits.

use vstd::prelude::*;
use crate::code::{BlockKind, BlockView, InputView, OpView, StepView, appended, as_simple};
use crate::error::{Error, ErrorKind};
use crate::function::FunctionView;
use crate::module::{FunctionSource, Instruction};
use crate::numeric::{BinOp, UnOp, Width};
use crate::scope::closed_by_return;
use crate::value::{StackValue, ValueType, cell32, cell64};

verus! {

/// The mathematical model of the compile state: the symbolic operand stack,
/// the nesting depth, and the offset of the instruction at hand.
pub struct StateView {
    pub values: Seq<InputView>,
    pub depth: u32,
    pub pc: nat,
}

/// The node for a two-operand operator: the direct form where both operands
/// are simple, the general form otherwise.
pub open spec fn combine(width: Width, op: BinOp, left: InputView, right: InputView) -> InputView {
    match (as_simple(left), as_simple(right)) {
        (Some(first), Some(second)) => InputView::Op(
            Box::new(OpView::Direct { width, op, left: first, right: second }),
        ),
        _ => InputView::Op(Box::new(OpView::Binary { width, op, left, right })),
    }
}

/// The state with one more operand on its stack.
pub open spec fn push_spec(state: StateView, input: InputView) -> StateView {
    StateView { values: state.values.push(input), ..state }
}

/// The top operand and the state without it, or the failure on an empty stack.
pub open spec fn pop_spec(state: StateView) -> Result<(InputView, StateView), ErrorKind> {
    if state.values.len() == 0 {
        Err(ErrorKind::ValueStackEmpty)
    } else {
        Ok((state.values.last(), StateView { values: state.values.drop_last(), ..state }))
    }
}

/// What a one-operand operator does to the state: it takes one operand and
/// pushes the node over it.
pub open spec fn generate_unary_spec(state: StateView, width: Width, op: UnOp) -> Result<
    StateView,
    ErrorKind,
> {
    if state.values.len() < 1 {
        Err(ErrorKind::ValueStackEmpty)
    } else {
        Ok(
            StateView {
                values: state.values.drop_last().push(
                    InputView::Op(
                        Box::new(OpView::Unary { width, op, operand: state.values.last() }),
                    ),
                ),
                ..state
            },
        )
    }
}

/// What a two-operand operator does to the state: it takes the right operand,
/// then the left, and pushes the node over both.
pub open spec fn generate_binary_spec(state: StateView, width: Width, op: BinOp) -> Result<
    StateView,
    ErrorKind,
> {
    let n = state.values.len() as int;
    if n < 2 {
        Err(ErrorKind::ValueStackEmpty)
    } else {
        Ok(
            StateView {
                values: state.values.take(n - 2).push(
                    combine(width, op, state.values[n - 2], state.values[n - 1]),
                ),
                ..state
            },
        )
    }
}

/// Emits a `Return` step: with the top operand where the function declares a
/// return type, without one where it does not.
pub open spec fn emit_return_spec(
    ret_type: Option<ValueType>,
    state: StateView,
    block: BlockView,
) -> Result<(BlockView, StateView), ErrorKind> {
    if ret_type is Some {
        match pop_spec(state) {
            Ok((value, rest)) => Ok((appended(block, StepView::Return(Some(value))), rest)),
            Err(kind) => Err(kind),
        }
    } else {
        Ok((appended(block, StepView::Return(None)), state))
    }
}

/// The depth a label leads to from a block of the given depth: that many
/// levels out. A label may lead as far as the function's outermost block, at
/// depth zero, and no further.
pub open spec fn branch_target(depth: u32, label: u32) -> Option<u32> {
    if label <= depth {
        Some((depth - label) as u32)
    } else {
        None
    }
}

/// The depths that the labels of a table lead to, if every one leads somewhere.
pub open spec fn table_targets(depth: u32, labels: Seq<u32>) -> Option<Seq<u32>> {
    if forall|i: int| 0 <= i < labels.len() ==> #[trigger] labels[i] <= depth {
        Some(Seq::new(labels.len(), |i: int| (depth - labels[i]) as u32))
    } else {
        None
    }
}

/// What an instruction that opens or closes no block does to the state and to
/// the block being built.
///
/// An assignment is translated only where it takes the one operand there is:
/// an operand left pending would be computed after the assignment, and would
/// see it. A branch takes no operand but its condition or index: it hands no
/// value to the block it leads to.
pub open spec fn translate_spec(
    module: Seq<FunctionSource>,
    ret_type: Option<ValueType>,
    instruction: Instruction,
    state: StateView,
    block: BlockView,
) -> Result<(BlockView, StateView), ErrorKind> {
    match instruction {
        Instruction::Return => emit_return_spec(ret_type, state, block),
        Instruction::Br(label) => match branch_target(block.depth, label) {
            Some(target) => Ok((appended(block, StepView::Branch(target)), state)),
            None => Err(ErrorKind::InvalidBranch),
        },
        Instruction::BrIf(label) => match pop_spec(state) {
            Ok((cond, rest)) => match branch_target(block.depth, label) {
                Some(target) => Ok((appended(block, StepView::BranchIf { cond, target }), rest)),
                None => Err(ErrorKind::InvalidBranch),
            },
            Err(kind) => Err(kind),
        },
        Instruction::BrTable(labels, default) => match pop_spec(state) {
            Ok((index, rest)) => match (
                table_targets(block.depth, labels@),
                branch_target(block.depth, default),
            ) {
                (Some(targets), Some(default)) => Ok(
                    (appended(block, StepView::BranchTable { index, targets, default }), rest),
                ),
                _ => Err(ErrorKind::InvalidBranch),
            },
            Err(kind) => Err(kind),
        },
        Instruction::Call(func_idx) => if func_idx >= module.len() {
            Err(ErrorKind::FuncNotFound)
        } else if state.values.len() < module[func_idx as int].param_count {
            Err(ErrorKind::ValueStackEmpty)
        } else {
            let base = state.values.len() - module[func_idx as int].param_count;
            Ok(
                (
                    block,
                    StateView {
                        values: state.values.take(base).push(
                            InputView::Op(
                                Box::new(
                                    OpView::Call { func_idx, args: state.values.skip(base) },
                                ),
                            ),
                        ),
                        ..state
                    },
                ),
            )
        },
        Instruction::GetLocal(idx) => Ok((block, push_spec(state, InputView::Local(idx)))),
        Instruction::SetLocal(idx) => match pop_spec(state) {
            Ok((value, rest)) => if rest.values.len() == 0 {
                Ok((appended(block, StepView::SetLocal { idx, value }), rest))
            } else {
                Err(ErrorKind::Unsupported)
            },
            Err(kind) => Err(kind),
        },
        Instruction::TeeLocal(idx) => match pop_spec(state) {
            Ok((value, rest)) => if rest.values.len() == 0 {
                Ok(
                    (
                        appended(block, StepView::SetLocal { idx, value }),
                        push_spec(rest, InputView::Local(idx)),
                    ),
                )
            } else {
                Err(ErrorKind::Unsupported)
            },
            Err(kind) => Err(kind),
        },
        Instruction::I32Const(value) => Ok(
            (block, push_spec(state, InputView::Const(StackValue(cell32(value as int))))),
        ),
        Instruction::I64Const(value) => Ok(
            (block, push_spec(state, InputView::Const(StackValue(cell64(value as int))))),
        ),
        Instruction::Unary(width, op) => match generate_unary_spec(state, width, op) {
            Ok(after) => Ok((block, after)),
            Err(kind) => Err(kind),
        },
        Instruction::Binary(width, op) => match generate_binary_spec(state, width, op) {
            Ok(after) => Ok((block, after)),
            Err(kind) => Err(kind),
        },
        _ => Err(ErrorKind::Unsupported),
    }
}

/// A failure of the given kind at the given place.
pub open spec fn located(kind: ErrorKind, func_idx: u32, pc: nat) -> Error {
    Error { kind, func_idx, pc: pc as usize }
}

/// The state at the instruction after the one at hand.
pub open spec fn advanced(state: StateView) -> StateView {
    StateView { pc: state.pc + 1, ..state }
}

/// The instructions of the function of the given index.
pub open spec fn code_of(module: Seq<FunctionSource>, func_idx: u32) -> Seq<Instruction> {
    module[func_idx as int].instructions@
}

/// Compiles one block: the instructions from the state's offset up to the
/// instruction that closes the block, at which the resulting state stands.
/// The block lies at the state's depth, and what is in it one deeper. With
/// `limit` blocks open already, no other can be opened.
///
/// A block hands no operand in or out: it is refused unless as many operands
/// are pending at its close as at its opening. A function's outermost block
/// opens with none, so a function closes with none.
pub open spec fn compile_block_spec(
    module: Seq<FunctionSource>,
    limit: u32,
    func_idx: u32,
    state: StateView,
    kind: BlockKind,
) -> Result<(BlockView, StateView), Error>
    decreases code_of(module, func_idx).len() - state.pc, 2nat,
{
    if state.depth >= limit {
        Err(located(ErrorKind::NestingTooDeep, func_idx, state.pc))
    } else {
        match compile_steps_spec(
            module,
            limit,
            func_idx,
            StateView { depth: (state.depth + 1) as u32, ..state },
            BlockView { kind, depth: state.depth, steps: Seq::empty() },
        ) {
            Ok((block, end)) => if end.values.len() == state.values.len() {
                Ok((block, StateView { depth: state.depth, ..end }))
            } else {
                Err(located(ErrorKind::UnbalancedStack, func_idx, end.pc))
            },
            Err(error) => Err(error),
        }
    }
}

/// Compiles a conditional that opens at the state's offset, and adds it to
/// the block as one step: the condition is the top operand, the first arm
/// runs up to an `else` or an `end`, and after an `else` the second arm runs
/// up to its `end`, at which the resulting state stands.
pub open spec fn compile_if_spec(
    module: Seq<FunctionSource>,
    limit: u32,
    func_idx: u32,
    state: StateView,
    block: BlockView,
) -> Result<(BlockView, StateView), Error>
    decreases code_of(module, func_idx).len() - state.pc, 0nat,
{
    let code = code_of(module, func_idx);
    match pop_spec(state) {
        Ok((cond, rest)) => if state.pc >= code.len() {
            Err(located(ErrorKind::MissingEnd, func_idx, state.pc))
        } else {
            match compile_block_spec(module, limit, func_idx, advanced(rest), BlockKind::If) {
                Ok((then_block, middle)) => if !(state.pc < middle.pc < code.len()) {
                    Err(located(ErrorKind::MissingEnd, func_idx, middle.pc))
                } else if code[middle.pc as int] is Else {
                    match compile_block_spec(
                        module,
                        limit,
                        func_idx,
                        advanced(middle),
                        BlockKind::Else,
                    ) {
                        Ok((else_block, end)) => Ok(
                            (
                                appended(
                                    block,
                                    StepView::If {
                                        cond,
                                        then_block,
                                        else_block: Some(else_block),
                                    },
                                ),
                                end,
                            ),
                        ),
                        Err(error) => Err(error),
                    }
                } else {
                    Ok(
                        (
                            appended(
                                block,
                                StepView::If { cond, then_block, else_block: None },
                            ),
                            middle,
                        ),
                    )
                },
                Err(error) => Err(error),
            }
        },
        Err(kind) => Err(located(kind, func_idx, state.pc)),
    }
}

/// Goes on compiling into a block that holds the steps emitted so far.
///
/// At the `end` that closes a function, a return is emitted where control can
/// reach that `end`, by falling through the steps emitted so far or by a
/// branch to the function's own block, and no return stands there yet.
///
/// The tests that a nested block ended further on are there for the
/// definition's termination: a block always ends at one of its own
/// instructions.
pub open spec fn compile_steps_spec(
    module: Seq<FunctionSource>,
    limit: u32,
    func_idx: u32,
    state: StateView,
    block: BlockView,
) -> Result<(BlockView, StateView), Error>
    decreases code_of(module, func_idx).len() - state.pc, 1nat,
{
    let code = code_of(module, func_idx);
    let ret_type = module[func_idx as int].return_type;
    if state.pc >= code.len() {
        Err(located(ErrorKind::MissingEnd, func_idx, state.pc))
    } else {
        match code[state.pc as int] {
            Instruction::Block => match compile_block_spec(
                module,
                limit,
                func_idx,
                advanced(state),
                BlockKind::Block,
            ) {
                Ok((child, end)) => if state.pc < end.pc < code.len() {
                    compile_steps_spec(
                        module,
                        limit,
                        func_idx,
                        advanced(end),
                        appended(block, StepView::Nested(child)),
                    )
                } else {
                    Err(located(ErrorKind::MissingEnd, func_idx, end.pc))
                },
                Err(error) => Err(error),
            },
            Instruction::Loop => match compile_block_spec(
                module,
                limit,
                func_idx,
                advanced(state),
                BlockKind::Loop,
            ) {
                Ok((child, end)) => if state.pc < end.pc < code.len() {
                    compile_steps_spec(
                        module,
                        limit,
                        func_idx,
                        advanced(end),
                        appended(block, StepView::Nested(child)),
                    )
                } else {
                    Err(located(ErrorKind::MissingEnd, func_idx, end.pc))
                },
                Err(error) => Err(error),
            },
            Instruction::If => match compile_if_spec(module, limit, func_idx, state, block) {
                Ok((grown, end)) => if state.pc < end.pc < code.len() {
                    compile_steps_spec(module, limit, func_idx, advanced(end), grown)
                } else {
                    Err(located(ErrorKind::MissingEnd, func_idx, end.pc))
                },
                Err(error) => Err(error),
            },
            Instruction::Else => if block.kind == BlockKind::If {
                Ok((block, state))
            } else {
                Err(located(ErrorKind::InvalidElse, func_idx, state.pc))
            },
            Instruction::End => if block.depth == 0 && !closed_by_return(block) {
                match emit_return_spec(ret_type, state, block) {
                    Ok(done) => Ok(done),
                    Err(kind) => Err(located(kind, func_idx, state.pc)),
                }
            } else {
                Ok((block, state))
            },
            other => match translate_spec(module, ret_type, other, state, block) {
                Ok((grown, after)) => compile_steps_spec(
                    module,
                    limit,
                    func_idx,
                    StateView { pc: state.pc + 1, ..after },
                    grown,
                ),
                Err(kind) => Err(located(kind, func_idx, state.pc)),
            },
        }
    }
}

/// The state a function's compilation starts in.
pub open spec fn initial_state() -> StateView {
    StateView { values: Seq::empty(), depth: 0, pc: 0 }
}

/// The compiled form of the function of the given index: what its source
/// declares, and its body compiled as one plain block at depth zero. An index
/// the module has no function for fails as `FuncNotFound`.
pub open spec fn compile_function_spec(
    module: Seq<FunctionSource>,
    limit: u32,
    func_idx: u32,
) -> Result<FunctionView, Error> {
    let source = module[func_idx as int];
    if func_idx >= module.len() {
        Err(located(ErrorKind::FuncNotFound, func_idx, 0))
    } else {
        match compile_block_spec(module, limit, func_idx, initial_state(), BlockKind::Block) {
            Ok((body, _)) => Ok(
                FunctionView {
                    name: source.name@,
                    param_count: source.param_count,
                    local_count: source.local_count,
                    ret_type: source.return_type,
                    body,
                },
            ),
            Err(error) => Err(error),
        }
    }
}

/// The compiled forms of the first `count` functions of the module, in
/// declaration order, or the first failure in that order.
pub open spec fn compile_module_spec(module: Seq<FunctionSource>, limit: u32, count: nat) -> Result<
    Seq<FunctionView>,
    Error,
>
    decreases count,
{
    if count == 0 {
        Ok(Seq::empty())
    } else {
        match compile_module_spec(module, limit, (count - 1) as nat) {
            Ok(functions) => match compile_function_spec(module, limit, (count - 1) as u32) {
                Ok(function) => Ok(functions.push(function)),
                Err(error) => Err(error),
            },
            Err(error) => Err(error),
        }
    }
}

/// Once a function has failed to compile, so does every longer prefix of the
/// module, with the same failure.
pub proof fn lemma_first_failure(module: Seq<FunctionSource>, limit: u32, failed: nat, count: nat)
    requires
        failed <= count,
        compile_module_spec(module, limit, failed) is Err,
    ensures
        compile_module_spec(module, limit, count) == compile_module_spec(module, limit, failed),
    decreases count,
{
    if failed < count {
        lemma_first_failure(module, limit, failed, (count - 1) as nat);
    }
}

} // verus!
