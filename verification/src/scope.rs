//! Where the branches of compiled code may lead, and why control in a
//! well-formed function always comes to a `Return`.

use vstd::prelude::*;
use crate::code::{Action, Block, BlockKind, BlockView, Step, StepView};
use crate::error::TrapKind;
use crate::function::{Function, FunctionView};
use crate::semantics::{resolv_spec, run_block_spec, run_step_spec, run_steps_spec};
use crate::store::StoreView;

verus! {

/// A branch target that names a block around a step at `depth`: the block the
/// step is in, or one further out, as far as the function's outermost block.
pub open spec fn in_scope(target: u32, depth: u32) -> bool {
    target <= depth
}

/// Every target of a branch table is in scope at the given depth.
pub open spec fn all_in_scope(targets: Seq<u32>, depth: u32) -> bool {
    forall|i: int| 0 <= i < targets.len() ==> in_scope(#[trigger] targets[i], depth)
}

/// Every branch in the step leads to a block around it, and the blocks in it
/// lie one deeper than the block the step is in.
pub open spec fn step_scoped(step: StepView, depth: u32) -> bool
    decreases step,
{
    match step {
        StepView::Nested(block) => block.depth == depth + 1 && block_scoped(block),
        StepView::If { cond, then_block, else_block } => {
            &&& then_block.depth == depth + 1
            &&& block_scoped(then_block)
            &&& match else_block {
                Some(block) => block.depth == depth + 1 && block_scoped(block),
                None => true,
            }
        },
        StepView::Branch(target) => in_scope(target, depth),
        StepView::BranchIf { cond, target } => in_scope(target, depth),
        StepView::BranchTable { index, targets, default } => {
            &&& in_scope(default, depth)
            &&& all_in_scope(targets, depth)
        },
        _ => true,
    }
}

/// Every step of the block is scoped at the block's depth.
pub open spec fn block_scoped(block: BlockView) -> bool
    decreases block,
{
    forall|i: int|
        0 <= i < block.steps.len() ==> step_scoped(#[trigger] block.steps[i], block.depth)
}

/// A branch to the given depth is written somewhere in the step.
pub open spec fn step_branches_to(step: StepView, target: u32) -> bool
    decreases step, 0nat,
{
    match step {
        StepView::Nested(block) => block_branches_to(block, target),
        StepView::If { cond, then_block, else_block } => {
            ||| block_branches_to(then_block, target)
            ||| match else_block {
                Some(block) => block_branches_to(block, target),
                None => false,
            }
        },
        StepView::Branch(to) => to == target,
        StepView::BranchIf { cond, target: to } => to == target,
        StepView::BranchTable { index, targets, default } => default == target
            || targets.contains(target),
        _ => false,
    }
}

/// A branch to the given depth is written somewhere in the first `count`
/// steps of the block.
pub open spec fn steps_branch_to(block: BlockView, count: nat, target: u32) -> bool
    decreases block, count,
{
    if count == 0 || count > block.steps.len() {
        false
    } else {
        ||| step_branches_to(block.steps[count - 1], target)
        ||| steps_branch_to(block, (count - 1) as nat, target)
    }
}

/// A branch to the given depth is written somewhere in the block.
pub open spec fn block_branches_to(block: BlockView, target: u32) -> bool
    decreases block, block.steps.len() + 1,
{
    steps_branch_to(block, block.steps.len(), target)
}

/// The step never reports `End`: it returns, or branches, or is a block that
/// never ends, or a conditional of two arms that never end.
pub open spec fn step_never_ends(step: StepView) -> bool
    decreases step, 0nat,
{
    match step {
        StepView::Return(_) => true,
        StepView::Branch(_) => true,
        StepView::BranchTable { .. } => true,
        StepView::Nested(block) => block_never_ends(block),
        StepView::If { cond, then_block, else_block } => {
            &&& block_never_ends(then_block)
            &&& match else_block {
                Some(block) => block_never_ends(block),
                None => false,
            }
        },
        _ => false,
    }
}

/// Control cannot fall through the end of the block's steps: the last of
/// them never reports `End`.
pub open spec fn cannot_fall_through(block: BlockView) -> bool
    decreases block, 1nat,
{
    block.steps.len() > 0 && step_never_ends(block.steps.last())
}

/// The block never reports `End`: control cannot fall through its steps, and
/// unless it is a loop, no branch in it leads to the block itself.
pub open spec fn block_never_ends(block: BlockView) -> bool
    decreases block, 2nat,
{
    &&& cannot_fall_through(block)
    &&& (block.kind == BlockKind::Loop || !block_branches_to(block, block.depth))
}

/// The body closes with a `Return`, or never ends: wherever control can
/// arrive at the body's end, by falling through or by a branch to the body,
/// a `Return` stands there.
pub open spec fn closed_by_return(body: BlockView) -> bool {
    &&& body.steps.len() > 0
    &&& (body.steps.last() is Return || block_never_ends(body))
}

/// A function body that always returns: it lies at depth zero, its branches
/// stay inside it, and it closes with a `Return` or never ends.
pub open spec fn always_returns(body: BlockView) -> bool {
    &&& body.depth == 0
    &&& block_scoped(body)
    &&& closed_by_return(body)
}

/// Every function of the table has a body that returns.
pub open spec fn table_returns(funcs: Seq<FunctionView>) -> bool {
    forall|i: int| 0 <= i < funcs.len() ==> always_returns(#[trigger] funcs[i].body)
}

/// A scoped step branches only to a block around it.
pub proof fn lemma_step_branches_in_scope(
    step: StepView,
    depth: u32,
    funcs: Seq<FunctionView>,
    store: StoreView,
)
    requires
        step_scoped(step, depth),
    ensures
        run_step_spec(step, funcs, store).0 matches Ok(Action::Branch(target)) ==> in_scope(
            target,
            depth,
        ),
    decreases store.fuel, 2nat, step, 0nat,
{
    match step {
        StepView::Nested(block) => lemma_block_branches_outward(block, funcs, store),
        StepView::If { cond, then_block, else_block } => {
            let (value, after) = resolv_spec(cond, funcs, store);
            if value is Ok && after.fuel <= store.fuel {
                if value->Ok_0.0 != 0 {
                    lemma_block_branches_outward(then_block, funcs, after);
                } else if else_block is Some {
                    lemma_block_branches_outward(else_block->Some_0, funcs, after);
                }
            }
        },
        _ => {},
    }
}

/// The steps of a scoped block branch only to the block or to a block around it.
pub proof fn lemma_steps_branch_in_scope(
    block: BlockView,
    from: nat,
    funcs: Seq<FunctionView>,
    store: StoreView,
)
    requires
        block_scoped(block),
    ensures
        run_steps_spec(block, from, funcs, store).0 matches Ok(Action::Branch(target))
            ==> in_scope(target, block.depth),
    decreases store.fuel, 2nat, block, block.steps.len() - from,
{
    if from < block.steps.len() {
        lemma_step_branches_in_scope(block.steps[from as int], block.depth, funcs, store);
        let (outcome, after) = run_step_spec(block.steps[from as int], funcs, store);
        if outcome == Ok::<Action, TrapKind>(Action::End) && after.fuel <= store.fuel {
            lemma_steps_branch_in_scope(block, from + 1, funcs, after);
        }
    }
}

/// What a scoped block passes up as a branch leads strictly outward: to a
/// block around it, never to itself.
pub proof fn lemma_block_branches_outward(
    block: BlockView,
    funcs: Seq<FunctionView>,
    store: StoreView,
)
    requires
        block_scoped(block),
    ensures
        run_block_spec(block, funcs, store).0 matches Ok(Action::Branch(target)) ==> target
            < block.depth,
    decreases store.fuel, 2nat, block, block.steps.len() + 1,
{
    lemma_steps_branch_in_scope(block, 0, funcs, store);
    let (outcome, after) = run_steps_spec(block, 0, funcs, store);
    if outcome is Ok && outcome->Ok_0 is Branch && outcome->Ok_0->Branch_0 == block.depth
        && block.kind == BlockKind::Loop && 0 < after.fuel <= store.fuel {
        lemma_block_branches_outward(
            block,
            funcs,
            StoreView { fuel: (after.fuel - 1) as nat, ..after },
        );
    }
}

/// A branch that a step reports is written in the step.
pub proof fn lemma_step_branch_is_written(
    step: StepView,
    funcs: Seq<FunctionView>,
    store: StoreView,
)
    ensures
        run_step_spec(step, funcs, store).0 matches Ok(Action::Branch(target))
            ==> step_branches_to(step, target),
    decreases store.fuel, 2nat, step, 0nat,
{
    match step {
        StepView::Nested(block) => lemma_block_branch_is_written(block, funcs, store),
        StepView::If { cond, then_block, else_block } => {
            let (value, after) = resolv_spec(cond, funcs, store);
            if value is Ok && after.fuel <= store.fuel {
                if value->Ok_0.0 != 0 {
                    lemma_block_branch_is_written(then_block, funcs, after);
                } else if else_block is Some {
                    lemma_block_branch_is_written(else_block->Some_0, funcs, after);
                }
            }
        },
        StepView::BranchTable { index, targets, default } => {
            let (value, after) = resolv_spec(index, funcs, store);
            if value is Ok {
                let selected = crate::value::unsigned32(value->Ok_0.0);
                if selected < targets.len() {
                    assert(targets.contains(targets[selected]));
                }
            }
        },
        _ => {},
    }
}

/// What is written in one of the first steps of a block is written in them.
pub proof fn lemma_written_in_steps(block: BlockView, at: nat, count: nat, target: u32)
    requires
        at < count <= block.steps.len(),
        step_branches_to(block.steps[at as int], target),
    ensures
        steps_branch_to(block, count, target),
    decreases count,
{
    if at + 1 < count {
        lemma_written_in_steps(block, at, (count - 1) as nat, target);
    }
}

/// A branch that the steps of a block report is written in the block.
pub proof fn lemma_steps_branch_is_written(
    block: BlockView,
    from: nat,
    funcs: Seq<FunctionView>,
    store: StoreView,
)
    ensures
        run_steps_spec(block, from, funcs, store).0 matches Ok(Action::Branch(target))
            ==> block_branches_to(block, target),
    decreases store.fuel, 2nat, block, block.steps.len() - from,
{
    if from < block.steps.len() {
        lemma_step_branch_is_written(block.steps[from as int], funcs, store);
        let (outcome, after) = run_step_spec(block.steps[from as int], funcs, store);
        if outcome == Ok::<Action, TrapKind>(Action::End) && after.fuel <= store.fuel {
            lemma_steps_branch_is_written(block, from + 1, funcs, after);
        } else if outcome is Ok && outcome->Ok_0 is Branch {
            lemma_written_in_steps(block, from, block.steps.len(), outcome->Ok_0->Branch_0);
        }
    }
}

/// A branch that a block passes up is written in the block.
pub proof fn lemma_block_branch_is_written(
    block: BlockView,
    funcs: Seq<FunctionView>,
    store: StoreView,
)
    ensures
        run_block_spec(block, funcs, store).0 matches Ok(Action::Branch(target))
            ==> block_branches_to(block, target),
    decreases store.fuel, 2nat, block, block.steps.len() + 1,
{
    lemma_steps_branch_is_written(block, 0, funcs, store);
    let (outcome, after) = run_steps_spec(block, 0, funcs, store);
    if outcome is Ok && outcome->Ok_0 is Branch && outcome->Ok_0->Branch_0 == block.depth
        && block.kind == BlockKind::Loop && 0 < after.fuel <= store.fuel {
        lemma_block_branch_is_written(
            block,
            funcs,
            StoreView { fuel: (after.fuel - 1) as nat, ..after },
        );
    }
}

/// A step that never ends does not report `End`.
pub proof fn lemma_step_never_ends(step: StepView, funcs: Seq<FunctionView>, store: StoreView)
    requires
        step_never_ends(step),
    ensures
        run_step_spec(step, funcs, store).0 != Ok::<Action, TrapKind>(Action::End),
    decreases store.fuel, 2nat, step, 0nat,
{
    match step {
        StepView::Nested(block) => lemma_block_never_ends(block, funcs, store),
        StepView::If { cond, then_block, else_block } => {
            let (value, after) = resolv_spec(cond, funcs, store);
            if value is Ok && after.fuel <= store.fuel {
                if value->Ok_0.0 != 0 {
                    lemma_block_never_ends(then_block, funcs, after);
                } else {
                    lemma_block_never_ends(else_block->Some_0, funcs, after);
                }
            }
        },
        _ => {},
    }
}

/// Steps through which control cannot fall do not report `End`.
pub proof fn lemma_steps_never_end(
    block: BlockView,
    from: nat,
    funcs: Seq<FunctionView>,
    store: StoreView,
)
    requires
        cannot_fall_through(block),
        from < block.steps.len(),
    ensures
        run_steps_spec(block, from, funcs, store).0 != Ok::<Action, TrapKind>(Action::End),
    decreases store.fuel, 2nat, block, block.steps.len() - from,
{
    let (outcome, after) = run_step_spec(block.steps[from as int], funcs, store);
    if from + 1 < block.steps.len() {
        if outcome == Ok::<Action, TrapKind>(Action::End) && after.fuel <= store.fuel {
            lemma_steps_never_end(block, from + 1, funcs, after);
        }
    } else {
        lemma_step_never_ends(block.steps[from as int], funcs, store);
    }
}

/// A block that never ends does not report `End`.
pub proof fn lemma_block_never_ends(block: BlockView, funcs: Seq<FunctionView>, store: StoreView)
    requires
        block_never_ends(block),
    ensures
        run_block_spec(block, funcs, store).0 != Ok::<Action, TrapKind>(Action::End),
    decreases store.fuel, 2nat, block, block.steps.len() + 1,
{
    lemma_steps_never_end(block, 0, funcs, store);
    lemma_steps_branch_is_written(block, 0, funcs, store);
    let (outcome, after) = run_steps_spec(block, 0, funcs, store);
    if outcome is Ok && outcome->Ok_0 is Branch && outcome->Ok_0->Branch_0 == block.depth
        && block.kind == BlockKind::Loop && 0 < after.fuel <= store.fuel {
        lemma_block_never_ends(block, funcs, StoreView { fuel: (after.fuel - 1) as nat, ..after });
    }
}

/// A body that always returns passes up no branch, and reports `End` only
/// where it closes with a `Return`: whatever the store, the function has a
/// return to take.
pub proof fn lemma_body_returns(body: BlockView, funcs: Seq<FunctionView>, store: StoreView)
    requires
        always_returns(body),
    ensures
        match run_block_spec(body, funcs, store).0 {
            Ok(Action::Return(_)) => true,
            Ok(Action::End) => body.steps.last() is Return,
            Ok(Action::Branch(_)) => false,
            Err(_) => true,
        },
{
    lemma_block_branches_outward(body, funcs, store);
    if block_never_ends(body) {
        lemma_block_never_ends(body, funcs, store);
    }
}

/// Whether every target of a branch table is in scope at the given depth.
fn targets_in_scope(targets: &Vec<u32>, depth: u32) -> (res: bool)
    ensures
        res == all_in_scope(targets@, depth),
{
    let mut i: usize = 0;
    while i < targets.len()
        invariant
            i <= targets.len(),
            forall|k: int| 0 <= k < i ==> in_scope(#[trigger] targets@[k], depth),
        decreases targets.len() - i,
    {
        if targets[i] > depth {
            return false;
        }
        i = i + 1;
    }
    true
}

impl Step {
    /// Whether every branch in the step leads to a block around it, and the
    /// blocks in it lie one deeper than the given depth.
    pub fn is_scoped(&self, depth: u32) -> (res: bool)
        ensures
            res == step_scoped(self@, depth),
        decreases self,
    {
        match self {
            Step::Nested(block) => depth < u32::MAX && block.depth == depth + 1
                && block.is_scoped(),
            Step::If { cond, then_block, else_block } => {
                let first = depth < u32::MAX && then_block.depth == depth + 1
                    && then_block.is_scoped();
                let second = match else_block {
                    Some(block) => depth < u32::MAX && block.depth == depth + 1
                        && block.is_scoped(),
                    None => true,
                };
                first && second
            },
            Step::Branch(target) => *target <= depth,
            Step::BranchIf { cond, target } => *target <= depth,
            Step::BranchTable { index, targets, default } => *default <= depth
                && targets_in_scope(targets, depth),
            Step::Return(_) => true,
            Step::SetLocal { .. } => true,
        }
    }
}

impl Block {
    /// Whether every step of the block is scoped at the block's depth.
    pub fn is_scoped(&self) -> (res: bool)
        ensures
            res == block_scoped(self@),
        decreases self,
    {
        let mut i: usize = 0;
        while i < self.steps.len()
            invariant
                i <= self.steps.len(),
                forall|k: int| 0 <= k < i ==> step_scoped(#[trigger] self@.steps[k], self@.depth),
            decreases self.steps.len() - i,
        {
            if !self.steps[i].is_scoped(self.depth) {
                assert(!step_scoped(self@.steps[i as int], self@.depth));
                return false;
            }
            i = i + 1;
        }
        true
    }
}

/// Whether the value is one of the targets.
fn targets_hold(targets: &Vec<u32>, target: u32) -> (res: bool)
    ensures
        res == targets@.contains(target),
{
    let mut i: usize = 0;
    while i < targets.len()
        invariant
            i <= targets.len(),
            forall|k: int| 0 <= k < i ==> targets@[k] != target,
        decreases targets.len() - i,
    {
        if targets[i] == target {
            return true;
        }
        i = i + 1;
    }
    false
}

impl Step {
    /// Whether a branch to the given depth is written somewhere in the step.
    pub fn branches_to(&self, target: u32) -> (res: bool)
        ensures
            res == step_branches_to(self@, target),
        decreases self, 0nat,
    {
        match self {
            Step::Nested(block) => block.branches_to(target),
            Step::If { cond, then_block, else_block } => {
                let first = then_block.branches_to(target);
                let second = match else_block {
                    Some(block) => block.branches_to(target),
                    None => false,
                };
                first || second
            },
            Step::Branch(to) => *to == target,
            Step::BranchIf { cond, target: to } => *to == target,
            Step::BranchTable { index, targets, default } => *default == target || targets_hold(
                targets,
                target,
            ),
            Step::Return(_) => false,
            Step::SetLocal { .. } => false,
        }
    }

    /// Whether the step never reports `End`.
    pub fn never_ends(&self) -> (res: bool)
        ensures
            res == step_never_ends(self@),
        decreases self, 0nat,
    {
        match self {
            Step::Return(_) => true,
            Step::Branch(_) => true,
            Step::BranchTable { .. } => true,
            Step::Nested(block) => block.never_ends(),
            Step::If { cond, then_block, else_block } => {
                let first = then_block.never_ends();
                let second = match else_block {
                    Some(block) => block.never_ends(),
                    None => false,
                };
                first && second
            },
            Step::BranchIf { .. } => false,
            Step::SetLocal { .. } => false,
        }
    }
}

impl Block {
    /// Whether a branch to the given depth is written somewhere in the block.
    pub fn branches_to(&self, target: u32) -> (res: bool)
        ensures
            res == block_branches_to(self@, target),
        decreases self, self.steps.len() + 1,
    {
        let mut i: usize = 0;
        while i < self.steps.len()
            invariant
                i <= self.steps.len(),
                !steps_branch_to(self@, i as nat, target),
            decreases self.steps.len() - i,
        {
            if self.steps[i].branches_to(target) {
                proof {
                    lemma_written_in_steps(self@, i as nat, self@.steps.len(), target);
                }
                return true;
            }
            i = i + 1;
        }
        false
    }

    /// Whether control cannot fall through the end of the block's steps.
    pub fn cannot_fall_through(&self) -> (res: bool)
        ensures
            res == cannot_fall_through(self@),
        decreases self, 1nat,
    {
        let n: usize = self.steps.len();
        n > 0 && self.steps[n - 1].never_ends()
    }

    /// Whether the block closes with a `Return`, or never ends.
    pub fn closed_by_return(&self) -> (res: bool)
        ensures
            res == closed_by_return(self@),
    {
        let n: usize = self.steps.len();
        if n == 0 {
            return false;
        }
        match &self.steps[n - 1] {
            Step::Return(_) => true,
            _ => self.never_ends(),
        }
    }

    /// Whether the block never reports `End`.
    pub fn never_ends(&self) -> (res: bool)
        ensures
            res == block_never_ends(self@),
        decreases self, self.steps.len() + 2,
    {
        if !self.cannot_fall_through() {
            return false;
        }
        match self.kind {
            BlockKind::Loop => true,
            _ => !self.branches_to(self.depth),
        }
    }
}

impl Function {
    /// Whether the body always returns.
    pub fn returns_always(&self) -> (res: bool)
        ensures
            res == always_returns(self@.body),
    {
        self.body.depth == 0 && self.body.is_scoped() && self.body.closed_by_return()
    }
}

} // verus!
