//! Compiled code: the nodes that compute values, the steps that act, and the
//! blocks that order the steps. Each type has a mathematical model, its view,
//! which the contracts speak of.

use vstd::prelude::*;
use crate::numeric::{BinOp, UnOp, Width};
use crate::value::StackValue;

verus! {

/// The kinds of structured control region.
#[derive(Clone, Copy, Debug, PartialEq, Eq, Structural)]
pub enum BlockKind {
    /// A plain sequence: a branch to it leaves it.
    Block,
    /// A loop: a branch to it starts it again.
    Loop,
    /// The first arm of a conditional.
    If,
    /// The second arm of a conditional.
    Else,
}

/// What a step reports when it has run.
#[derive(Clone, Copy, Debug, PartialEq, Eq, Structural)]
pub enum Action {
    /// The function is done, with or without a value.
    Return(Option<StackValue>),
    /// The step finished; the block goes on with its next step.
    End,
    /// Control leaves for the enclosing block of the given depth.
    Branch(u32),
}

/// An operand that is read without running anything: a local or a literal.
#[derive(Clone, Copy, Debug, PartialEq, Eq, Structural)]
pub enum Simple {
    Local(u32),
    Const(StackValue),
}

/// A value on the compile-time operand stack, not yet computed.
#[derive(Debug, PartialEq, Eq)]
pub enum Input {
    /// Read the local of this index.
    Local(u32),
    /// A literal.
    Const(StackValue),
    /// The result of running a node.
    Op(Box<Op>),
}

/// A node of compiled code that computes one value.
#[allow(inconsistent_fields)]
#[derive(Debug, PartialEq, Eq)]
pub enum Op {
    /// A one-operand operator on a resolved operand.
    Unary { width: Width, op: UnOp, operand: Input },
    /// The general form of a two-operand operator: both operands are resolved
    /// in turn, whatever they are.
    Binary { width: Width, op: BinOp, left: Input, right: Input },
    /// The form of a two-operand operator for operands that are both simple:
    /// they are read in place, with no node below this one.
    Direct { width: Width, op: BinOp, left: Simple, right: Simple },
    /// A call: the arguments are resolved in order and pushed, then the
    /// function of this index is invoked.
    Call { func_idx: u32, args: Vec<Input> },
}

/// One step of a block.
#[derive(Debug, PartialEq, Eq)]
pub enum Step {
    /// Return from the function, with the operand's value if there is one.
    Return(Option<Input>),
    /// Run a nested block or loop.
    Nested(Block),
    /// Run one of two arms by a condition; without a second arm a zero
    /// condition does nothing.
    If { cond: Input, then_block: Block, else_block: Option<Block> },
    /// Branch to the enclosing block of this depth.
    Branch(u32),
    /// Branch if the condition is not zero.
    BranchIf { cond: Input, target: u32 },
    /// Branch to the depth the index selects, or to the default past the table.
    BranchTable { index: Input, targets: Vec<u32>, default: u32 },
    /// Store the operand's value in a local.
    SetLocal { idx: u32, value: Input },
}

/// The compiled form of one structured control region.
#[derive(Debug, PartialEq, Eq)]
pub struct Block {
    pub kind: BlockKind,
    pub depth: u32,
    pub steps: Vec<Step>,
}

/// The mathematical model of an [`Input`].
pub enum InputView {
    Local(u32),
    Const(StackValue),
    Op(Box<OpView>),
}

/// The mathematical model of an [`Op`].
#[allow(inconsistent_fields)]
pub enum OpView {
    Unary { width: Width, op: UnOp, operand: InputView },
    Binary { width: Width, op: BinOp, left: InputView, right: InputView },
    Direct { width: Width, op: BinOp, left: Simple, right: Simple },
    Call { func_idx: u32, args: Seq<InputView> },
}

/// The mathematical model of a [`Step`].
pub enum StepView {
    Return(Option<InputView>),
    Nested(BlockView),
    If { cond: InputView, then_block: BlockView, else_block: Option<BlockView> },
    Branch(u32),
    BranchIf { cond: InputView, target: u32 },
    BranchTable { index: InputView, targets: Seq<u32>, default: u32 },
    SetLocal { idx: u32, value: InputView },
}

/// The mathematical model of a [`Block`].
pub struct BlockView {
    pub kind: BlockKind,
    pub depth: u32,
    pub steps: Seq<StepView>,
}

/// The models of a sequence of operands, in order.
pub open spec fn inputs_view(inputs: Seq<Input>) -> Seq<InputView>
    decreases inputs,
{
    Seq::new(
        inputs.len(),
        |i: int|
            if 0 <= i < inputs.len() {
                inputs[i].view()
            } else {
                InputView::Local(0)
            },
    )
}

/// The models of a sequence of steps, in order.
pub open spec fn steps_view(steps: Seq<Step>) -> Seq<StepView>
    decreases steps,
{
    Seq::new(
        steps.len(),
        |i: int|
            if 0 <= i < steps.len() {
                steps[i].view()
            } else {
                StepView::Branch(0)
            },
    )
}

impl Input {
    pub open spec fn view(&self) -> InputView
        decreases self,
    {
        match self {
            Input::Local(idx) => InputView::Local(*idx),
            Input::Const(value) => InputView::Const(*value),
            Input::Op(node) => InputView::Op(Box::new(node.view())),
        }
    }
}

impl Op {
    pub open spec fn view(&self) -> OpView
        decreases self,
    {
        match self {
            Op::Unary { width, op, operand } => OpView::Unary {
                width: *width,
                op: *op,
                operand: operand.view(),
            },
            Op::Binary { width, op, left, right } => OpView::Binary {
                width: *width,
                op: *op,
                left: left.view(),
                right: right.view(),
            },
            Op::Direct { width, op, left, right } => OpView::Direct {
                width: *width,
                op: *op,
                left: *left,
                right: *right,
            },
            Op::Call { func_idx, args } => OpView::Call {
                func_idx: *func_idx,
                args: inputs_view(args@),
            },
        }
    }
}

impl Step {
    pub open spec fn view(&self) -> StepView
        decreases self,
    {
        match self {
            Step::Return(None) => StepView::Return(None),
            Step::Return(Some(value)) => StepView::Return(Some(value.view())),
            Step::Nested(block) => StepView::Nested(block.view()),
            Step::If { cond, then_block, else_block: None } => StepView::If {
                cond: cond.view(),
                then_block: then_block.view(),
                else_block: None,
            },
            Step::If { cond, then_block, else_block: Some(other) } => StepView::If {
                cond: cond.view(),
                then_block: then_block.view(),
                else_block: Some(other.view()),
            },
            Step::Branch(target) => StepView::Branch(*target),
            Step::BranchIf { cond, target } => StepView::BranchIf {
                cond: cond.view(),
                target: *target,
            },
            Step::BranchTable { index, targets, default } => StepView::BranchTable {
                index: index.view(),
                targets: targets@,
                default: *default,
            },
            Step::SetLocal { idx, value } => StepView::SetLocal { idx: *idx, value: value.view() },
        }
    }
}

impl Block {
    pub open spec fn view(&self) -> BlockView
        decreases self,
    {
        BlockView {
            kind: self.kind,
            depth: self.depth,
            steps: steps_view(self.steps@),
        }
    }
}

/// The simple operand that an input is, if it is one.
pub open spec fn as_simple(input: InputView) -> Option<Simple> {
    match input {
        InputView::Local(idx) => Some(Simple::Local(idx)),
        InputView::Const(value) => Some(Simple::Const(value)),
        InputView::Op(_) => None,
    }
}

/// A simple operand as an input.
pub open spec fn simple_input(operand: Simple) -> InputView {
    match operand {
        Simple::Local(idx) => InputView::Local(idx),
        Simple::Const(value) => InputView::Const(value),
    }
}

/// The block with one more step at its end.
pub open spec fn appended(block: BlockView, step: StepView) -> BlockView {
    BlockView { steps: block.steps.push(step), ..block }
}

/// The model of a sequence with one more operand is the model with one more.
pub proof fn lemma_inputs_view_push(inputs: Seq<Input>, input: Input)
    ensures
        inputs_view(inputs.push(input)) == inputs_view(inputs).push(input@),
{
    assert(inputs_view(inputs.push(input)) =~= inputs_view(inputs).push(input@));
}

/// The model of a part of a sequence of operands is that part of the model.
pub proof fn lemma_inputs_view_subrange(inputs: Seq<Input>, from: int, to: int)
    requires
        0 <= from <= to <= inputs.len(),
    ensures
        inputs_view(inputs.subrange(from, to)) == inputs_view(inputs).subrange(from, to),
{
    assert(inputs_view(inputs.subrange(from, to)) =~= inputs_view(inputs).subrange(from, to));
}

/// The model of a sequence with one more step is the model with one more.
pub proof fn lemma_steps_view_push(steps: Seq<Step>, step: Step)
    ensures
        steps_view(steps.push(step)) == steps_view(steps).push(step@),
{
    assert(steps_view(steps.push(step)) =~= steps_view(steps).push(step@));
}

impl Input {
    /// The simple operand this is, if it is one.
    pub fn as_simple(&self) -> (res: Option<Simple>)
        ensures
            res == as_simple(self@),
    {
        match self {
            Input::Local(idx) => Some(Simple::Local(*idx)),
            Input::Const(value) => Some(Simple::Const(*value)),
            Input::Op(_) => None,
        }
    }
}

impl Block {
    /// An empty block of the given kind at the given depth.
    pub fn new(kind: BlockKind, depth: u32) -> (block: Block)
        ensures
            block@ == (BlockView { kind, depth, steps: Seq::empty() }),
    {
        let block = Block { kind, depth, steps: Vec::new() };
        assert(block@.steps =~= Seq::empty());
        block
    }

    /// The nesting depth of the block: zero for a function's outermost block.
    pub fn depth(&self) -> (depth: u32)
        ensures
            depth == self@.depth,
    {
        self.depth
    }

    /// Adds a step at the end.
    pub fn push(&mut self, step: Step)
        ensures
            final(self)@ == appended(old(self)@, step@),
    {
        proof {
            lemma_steps_view_push(self.steps@, step);
        }
        self.steps.push(step);
    }
}

} // verus!
