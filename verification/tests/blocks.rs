use wasm_compiler::code::{Action, Block, BlockKind, Input, Op, Simple, Step};
use wasm_compiler::error::{ErrorKind, TrapKind};
use wasm_compiler::numeric::{BinOp, UnOp, Width};
use wasm_compiler::store::Store;
use wasm_compiler::value::StackValue;
use wasm_compiler::vm::State;

fn no_functions() -> State {
    State::new(vec![])
}

fn store_with(locals: &[i32]) -> Store {
    Store::new(locals.iter().map(|&v| StackValue::from_i32(v)).collect(), 1000)
}

fn konst(v: i32) -> Input {
    Input::Const(StackValue::from_i32(v))
}

fn node(op: BinOp, left: Input, right: Input) -> Input {
    Input::Op(Box::new(Op::Binary { width: Width::W32, op, left, right }))
}

fn set(idx: u32, value: Input) -> Step {
    Step::SetLocal { idx, value }
}

fn block_of(kind: BlockKind, depth: u32, steps: Vec<Step>) -> Block {
    let mut block = Block::new(kind, depth);
    for step in steps {
        block.push(step);
    }
    block
}

#[test]
fn a_new_block_is_empty_and_ends() {
    let block = Block::new(BlockKind::Block, 3);
    assert_eq!(block.depth(), 3);
    assert_eq!(block.kind, BlockKind::Block);
    assert!(block.steps.is_empty());
    assert!(!block.cannot_fall_through());
    let mut store = store_with(&[]);
    assert_eq!(block.run(&no_functions(), &mut store), Ok(Action::End));
    assert_eq!(store.fuel, 1000);
}

#[test]
fn push_adds_steps_in_order() {
    let mut block = Block::new(BlockKind::Block, 0);
    block.push(set(0, konst(1)));
    block.push(Step::Return(None));
    assert_eq!(block.steps.len(), 2);
    assert_eq!(block.steps[0], set(0, konst(1)));
    assert_eq!(block.steps[1], Step::Return(None));
    assert!(block.cannot_fall_through());
}

#[test]
fn resolv_reads_locals_literals_and_nodes() {
    let state = no_functions();
    let mut store = store_with(&[10, 20]);
    assert_eq!(Input::Local(1).resolv(&state, &mut store), Ok(StackValue(20)));
    assert_eq!(konst(-3).resolv(&state, &mut store), Ok(StackValue::from_i32(-3)));
    let sum = node(BinOp::Add, Input::Local(0), Input::Local(1));
    assert_eq!(sum.resolv(&state, &mut store), Ok(StackValue(30)));
    assert_eq!(
        Input::Local(2).resolv(&state, &mut store),
        Err(TrapKind::UndefinedLocal)
    );
    let not = Input::Op(Box::new(Op::Unary {
        width: Width::W32,
        op: UnOp::Eqz,
        operand: Input::Local(0),
    }));
    assert_eq!(not.resolv(&state, &mut store), Ok(StackValue(0)));
    assert_eq!(store.locals, vec![StackValue(10), StackValue(20)]);
}

#[test]
fn the_left_operand_is_computed_first() {
    let state = no_functions();
    let mut store = store_with(&[1]);
    let both = node(
        BinOp::Add,
        node(BinOp::DivS, konst(1), konst(0)),
        Input::Local(9),
    );
    assert_eq!(both.resolv(&state, &mut store), Err(TrapKind::DivisionByZero));
    let both = node(
        BinOp::Add,
        Input::Local(9),
        node(BinOp::DivS, konst(1), konst(0)),
    );
    assert_eq!(both.resolv(&state, &mut store), Err(TrapKind::UndefinedLocal));
}

#[test]
fn direct_and_general_forms_agree() {
    let ops = [
        BinOp::Add, BinOp::Sub, BinOp::Mul, BinOp::DivS, BinOp::DivU, BinOp::RemS, BinOp::RemU,
        BinOp::And, BinOp::Or, BinOp::Xor, BinOp::Shl, BinOp::ShrS, BinOp::ShrU, BinOp::Rotl,
        BinOp::Rotr, BinOp::Eq, BinOp::Ne, BinOp::LtS, BinOp::LtU, BinOp::GtS, BinOp::GtU,
        BinOp::LeS, BinOp::LeU, BinOp::GeS, BinOp::GeU,
    ];
    let values = [0, 1, -1, 7, 32, i32::MIN, i32::MAX];
    let state = no_functions();
    for width in [Width::W32, Width::W64] {
        for op in ops {
            for &a in values.iter() {
                for &b in values.iter() {
                    let mut store = store_with(&[a, b]);
                    let ca = StackValue::from_i32(a);
                    let cb = StackValue::from_i32(b);
                    let pairs = [
                        (Simple::Local(0), Simple::Local(1)),
                        (Simple::Local(0), Simple::Const(cb)),
                        (Simple::Const(ca), Simple::Local(1)),
                        (Simple::Const(ca), Simple::Const(cb)),
                        (Simple::Local(0), Simple::Local(5)),
                    ];
                    for (left, right) in pairs {
                        let as_input = |s: Simple| match s {
                            Simple::Local(idx) => Input::Local(idx),
                            Simple::Const(value) => Input::Const(value),
                        };
                        let direct = Op::Direct { width, op, left, right };
                        let general = Op::Binary {
                            width,
                            op,
                            left: as_input(left),
                            right: as_input(right),
                        };
                        // Both operands computed by nodes of their own.
                        let computed = Op::Binary {
                            width,
                            op,
                            left: node(BinOp::Or, as_input(left), konst(0)),
                            right: node(BinOp::Or, as_input(right), konst(0)),
                        };
                        let expected = direct.eval(&state, &mut store);
                        assert_eq!(general.eval(&state, &mut store), expected);
                        if width == Width::W32 {
                            assert_eq!(computed.eval(&state, &mut store), expected);
                        }
                    }
                }
            }
        }
    }
}

#[test]
fn steps_run_in_order() {
    let block = block_of(
        BlockKind::Block,
        0,
        vec![
            set(0, konst(1)),
            set(1, node(BinOp::Add, Input::Local(0), konst(1))),
            set(0, node(BinOp::Mul, Input::Local(1), konst(10))),
        ],
    );
    let mut store = store_with(&[0, 0]);
    assert_eq!(block.run(&no_functions(), &mut store), Ok(Action::End));
    assert_eq!(store.locals, vec![StackValue(20), StackValue(2)]);
}

#[test]
fn a_return_stops_the_block() {
    let block = block_of(
        BlockKind::Block,
        0,
        vec![set(0, konst(1)), Step::Return(Some(Input::Local(0))), set(0, konst(2))],
    );
    let mut store = store_with(&[0]);
    assert_eq!(
        block.run(&no_functions(), &mut store),
        Ok(Action::Return(Some(StackValue(1))))
    );
    assert_eq!(store.locals, vec![StackValue(1)]);
}

#[test]
fn a_return_without_a_value() {
    let block = block_of(BlockKind::Block, 0, vec![Step::Return(None), set(0, konst(2))]);
    let mut store = store_with(&[0]);
    assert_eq!(block.run(&no_functions(), &mut store), Ok(Action::Return(None)));
    assert_eq!(store.locals, vec![StackValue(0)]);
}

#[test]
fn a_return_surfaces_through_two_blocks() {
    let inner = block_of(
        BlockKind::Block,
        2,
        vec![Step::Return(Some(konst(7))), set(0, konst(1))],
    );
    let middle = block_of(BlockKind::Block, 1, vec![Step::Nested(inner), set(0, konst(2))]);
    let outer = block_of(
        BlockKind::Block,
        0,
        vec![set(1, konst(5)), Step::Nested(middle), set(0, konst(3)), Step::Return(None)],
    );
    let mut store = store_with(&[0, 0]);
    assert_eq!(
        outer.run(&no_functions(), &mut store),
        Ok(Action::Return(Some(StackValue(7))))
    );
    assert_eq!(store.locals, vec![StackValue(0), StackValue(5)]);
}

#[test]
fn a_branch_to_an_outer_block_is_passed_up() {
    let block = block_of(BlockKind::Block, 2, vec![Step::Branch(1), set(0, konst(1))]);
    let mut store = store_with(&[0]);
    assert_eq!(block.run(&no_functions(), &mut store), Ok(Action::Branch(1)));
    assert_eq!(store.locals, vec![StackValue(0)]);
}

#[test]
fn a_branch_to_a_plain_block_leaves_it() {
    for kind in [BlockKind::Block, BlockKind::If, BlockKind::Else] {
        let block = block_of(kind, 2, vec![Step::Branch(2), set(0, konst(1))]);
        let mut store = store_with(&[0]);
        assert_eq!(block.run(&no_functions(), &mut store), Ok(Action::End));
        assert_eq!(store.locals, vec![StackValue(0)]);
        assert_eq!(store.fuel, 1000);
    }
}

#[test]
fn a_branch_leaves_the_blocks_between() {
    let inner = block_of(BlockKind::Block, 2, vec![Step::Branch(1), set(0, konst(1))]);
    let middle = block_of(BlockKind::Block, 1, vec![Step::Nested(inner), set(0, konst(2))]);
    let outer = block_of(BlockKind::Block, 0, vec![Step::Nested(middle), set(1, konst(3))]);
    let mut store = store_with(&[0, 0]);
    assert_eq!(outer.run(&no_functions(), &mut store), Ok(Action::End));
    assert_eq!(store.locals, vec![StackValue(0), StackValue(3)]);
}

#[test]
fn a_branch_to_a_loop_starts_it_again() {
    // Counts local 0 down to zero; local 1 counts the passes.
    let body = block_of(
        BlockKind::Loop,
        1,
        vec![
            set(1, node(BinOp::Add, Input::Local(1), konst(1))),
            set(0, node(BinOp::Sub, Input::Local(0), konst(1))),
            Step::BranchIf { cond: Input::Local(0), target: 1 },
        ],
    );
    let mut store = store_with(&[5, 0]);
    assert_eq!(body.run(&no_functions(), &mut store), Ok(Action::End));
    assert_eq!(store.locals, vec![StackValue(0), StackValue(5)]);
    // Five passes are four re-entries.
    assert_eq!(store.fuel, 1000 - 4);
}

#[test]
fn a_loop_that_is_not_branched_to_runs_once() {
    let body = block_of(
        BlockKind::Loop,
        1,
        vec![set(0, node(BinOp::Add, Input::Local(0), konst(1)))],
    );
    let mut store = store_with(&[0]);
    assert_eq!(body.run(&no_functions(), &mut store), Ok(Action::End));
    assert_eq!(store.locals, vec![StackValue(1)]);
    assert_eq!(store.fuel, 1000);
}

#[test]
fn an_endless_loop_runs_out_of_fuel() {
    let body = block_of(
        BlockKind::Loop,
        1,
        vec![set(0, node(BinOp::Add, Input::Local(0), konst(1))), Step::Branch(1)],
    );
    let mut store = Store::new(vec![StackValue(0)], 10);
    assert_eq!(body.run(&no_functions(), &mut store), Err(TrapKind::OutOfFuel));
    assert_eq!(store.fuel, 0);
    // One pass to begin with, and one for each unit of fuel.
    assert_eq!(store.locals, vec![StackValue(11)]);
}

#[test]
fn a_conditional_runs_one_arm() {
    let make = || Step::If {
        cond: Input::Local(0),
        then_block: block_of(BlockKind::If, 1, vec![set(1, konst(10))]),
        else_block: Some(block_of(BlockKind::Else, 1, vec![set(2, konst(20))])),
    };
    let state = no_functions();
    let mut store = store_with(&[0, 0, 0]);
    assert_eq!(make().run(&state, &mut store), Ok(Action::End));
    assert_eq!(store.locals, vec![StackValue(0), StackValue(0), StackValue(20)]);
    for cond in [1, -1, 2, i32::MIN] {
        let mut store = store_with(&[cond, 0, 0]);
        assert_eq!(make().run(&state, &mut store), Ok(Action::End));
        assert_eq!(
            store.locals,
            vec![StackValue::from_i32(cond), StackValue(10), StackValue(0)]
        );
    }
}

#[test]
fn a_conditional_without_a_second_arm() {
    let make = || Step::If {
        cond: Input::Local(0),
        then_block: block_of(BlockKind::If, 1, vec![Step::Return(Some(konst(10)))]),
        else_block: None,
    };
    let state = no_functions();
    let mut store = store_with(&[0]);
    assert_eq!(make().run(&state, &mut store), Ok(Action::End));
    let mut store = store_with(&[3]);
    assert_eq!(
        make().run(&state, &mut store),
        Ok(Action::Return(Some(StackValue(10))))
    );
}

#[test]
fn a_conditional_branch_branches_on_a_condition_that_is_not_zero() {
    let step = Step::BranchIf { cond: Input::Local(0), target: 4 };
    let state = no_functions();
    assert_eq!(step.run(&state, &mut store_with(&[0])), Ok(Action::End));
    assert_eq!(step.run(&state, &mut store_with(&[1])), Ok(Action::Branch(4)));
    assert_eq!(step.run(&state, &mut store_with(&[-5])), Ok(Action::Branch(4)));
    assert_eq!(step.run(&state, &mut store_with(&[])), Err(TrapKind::UndefinedLocal));
}

#[test]
fn a_branch_table_selects_by_index() {
    let step = Step::BranchTable { index: Input::Local(0), targets: vec![3, 2, 1], default: 4 };
    let state = no_functions();
    assert_eq!(step.run(&state, &mut store_with(&[0])), Ok(Action::Branch(3)));
    assert_eq!(step.run(&state, &mut store_with(&[1])), Ok(Action::Branch(2)));
    assert_eq!(step.run(&state, &mut store_with(&[2])), Ok(Action::Branch(1)));
    assert_eq!(step.run(&state, &mut store_with(&[3])), Ok(Action::Branch(4)));
    assert_eq!(step.run(&state, &mut store_with(&[-1])), Ok(Action::Branch(4)));
    let empty = Step::BranchTable { index: Input::Local(0), targets: vec![], default: 2 };
    assert_eq!(empty.run(&state, &mut store_with(&[0])), Ok(Action::Branch(2)));
}

#[test]
fn an_assignment_to_a_missing_local_traps() {
    let step = set(3, konst(1));
    let mut store = store_with(&[0]);
    assert_eq!(step.run(&no_functions(), &mut store), Err(TrapKind::UndefinedLocal));
    assert_eq!(store.locals, vec![StackValue(0)]);
}

#[test]
fn a_trap_unwinds_through_blocks() {
    let inner = block_of(
        BlockKind::Loop,
        2,
        vec![set(0, node(BinOp::RemU, konst(1), konst(0))), set(1, konst(1))],
    );
    let middle = block_of(BlockKind::Block, 1, vec![Step::Nested(inner), set(1, konst(2))]);
    let outer = block_of(BlockKind::Block, 0, vec![Step::Nested(middle), Step::Return(None)]);
    let mut store = store_with(&[0, 0]);
    assert_eq!(
        outer.run(&no_functions(), &mut store),
        Err(TrapKind::DivisionByZero)
    );
    assert_eq!(store.locals, vec![StackValue(0), StackValue(0)]);
}

#[test]
fn the_store_reads_writes_and_pushes() {
    let mut store = Store::new(vec![StackValue(1), StackValue(2)], 7);
    assert_eq!(store.fuel, 7);
    assert!(store.stack.is_empty());
    assert_eq!(store.get_local(0), Ok(StackValue(1)));
    assert_eq!(store.get_local(1), Ok(StackValue(2)));
    assert_eq!(store.get_local(2), Err(TrapKind::UndefinedLocal));
    assert_eq!(store.set_local(1, StackValue(9)), Ok(()));
    assert_eq!(store.get_local(1), Ok(StackValue(9)));
    assert_eq!(store.set_local(2, StackValue(9)), Err(TrapKind::UndefinedLocal));
    assert_eq!(store.locals, vec![StackValue(1), StackValue(9)]);
    store.push_value(StackValue(4));
    store.push_value(StackValue(5));
    assert_eq!(store.stack, vec![StackValue(4), StackValue(5)]);
}

#[test]
fn a_simple_operand_is_read_in_place() {
    let store = store_with(&[4]);
    assert_eq!(Simple::Local(0).read(&store), Ok(StackValue(4)));
    assert_eq!(Simple::Local(1).read(&store), Err(TrapKind::UndefinedLocal));
    assert_eq!(Simple::Const(StackValue(8)).read(&store), Ok(StackValue(8)));
    assert_eq!(Input::Local(2).as_simple(), Some(Simple::Local(2)));
    assert_eq!(
        Input::Const(StackValue(3)).as_simple(),
        Some(Simple::Const(StackValue(3)))
    );
    assert_eq!(node(BinOp::Add, konst(1), konst(2)).as_simple(), None);
}

#[test]
fn failures_have_words() {
    assert_eq!(ErrorKind::ValueStackEmpty.message(), "Value stack empty");
    assert_eq!(ErrorKind::InvalidElse.message(), "invalid 'else' block, missing 'if'");
    assert_eq!(ErrorKind::MissingEnd.message(), "block is not closed");
    assert_eq!(
        ErrorKind::UnbalancedStack.message(),
        "block leaves the value stack unbalanced"
    );
    assert_eq!(ErrorKind::InvalidBranch.message(), "branch label leads to no block");
    assert_eq!(ErrorKind::FuncNotFound.message(), "function not found");
    assert_eq!(ErrorKind::Unsupported.message(), "instruction is not supported");
    assert_eq!(ErrorKind::NestingTooDeep.message(), "blocks are nested too deep");
    assert_eq!(TrapKind::DivisionByZero.message(), "division by zero");
    assert_eq!(TrapKind::InvalidConversionToInt.message(), "invalid conversion to integer");
    assert_eq!(TrapKind::UndefinedFunction.message(), "call of an undefined function");
    assert_eq!(TrapKind::StackUnderflow.message(), "too few arguments on the value stack");
    assert_eq!(TrapKind::UndefinedLocal.message(), "access to an undefined local");
    assert_eq!(TrapKind::OutOfFuel.message(), "out of fuel");
}

#[test]
fn a_branch_is_found_where_it_is_written() {
    let inner = block_of(
        BlockKind::Loop,
        2,
        vec![
            Step::BranchIf { cond: konst(1), target: 2 },
            Step::BranchTable { index: konst(0), targets: vec![1, 2], default: 3 },
        ],
    );
    assert!(inner.branches_to(1));
    assert!(inner.branches_to(2));
    assert!(inner.branches_to(3));
    assert!(!inner.branches_to(0));
    assert!(!inner.branches_to(4));
    let conditional = Step::If {
        cond: konst(1),
        then_block: block_of(BlockKind::If, 1, vec![set(0, konst(1))]),
        else_block: Some(block_of(BlockKind::Else, 1, vec![Step::Nested(inner)])),
    };
    assert!(conditional.branches_to(3));
    assert!(!conditional.branches_to(5));
    assert!(Step::Branch(7).branches_to(7));
    assert!(!Step::Branch(7).branches_to(6));
    assert!(!Step::Return(None).branches_to(0));
    assert!(!set(0, konst(1)).branches_to(0));
    assert!(!block_of(BlockKind::Block, 0, vec![]).branches_to(0));
}

#[test]
fn a_step_that_never_ends() {
    assert!(Step::Return(None).never_ends());
    assert!(Step::Return(Some(konst(1))).never_ends());
    assert!(Step::Branch(1).never_ends());
    assert!(Step::BranchTable { index: konst(0), targets: vec![], default: 1 }.never_ends());
    assert!(!Step::BranchIf { cond: konst(1), target: 1 }.never_ends());
    assert!(!set(0, konst(1)).never_ends());
    let returning = |kind| block_of(kind, 1, vec![set(0, konst(1)), Step::Return(None)]);
    let two_arms = Step::If {
        cond: konst(1),
        then_block: returning(BlockKind::If),
        else_block: Some(returning(BlockKind::Else)),
    };
    assert!(two_arms.never_ends());
    let one_arm =
        Step::If { cond: konst(1), then_block: returning(BlockKind::If), else_block: None };
    assert!(!one_arm.never_ends());
    let open_arm = Step::If {
        cond: konst(1),
        then_block: returning(BlockKind::If),
        else_block: Some(block_of(BlockKind::Else, 1, vec![set(0, konst(1))])),
    };
    assert!(!open_arm.never_ends());
    assert!(Step::Nested(returning(BlockKind::Block)).never_ends());
    assert!(!Step::Nested(block_of(BlockKind::Block, 1, vec![])).never_ends());
}

#[test]
fn a_block_that_never_ends() {
    let leaving = |kind| {
        block_of(
            kind,
            1,
            vec![Step::BranchIf { cond: Input::Local(0), target: 1 }, Step::Return(None)],
        )
    };
    // A branch to the block itself ends a plain block, and restarts a loop.
    assert!(leaving(BlockKind::Block).cannot_fall_through());
    assert!(!leaving(BlockKind::Block).never_ends());
    assert!(!leaving(BlockKind::If).never_ends());
    assert!(leaving(BlockKind::Loop).never_ends());
    let state = no_functions();
    assert_eq!(leaving(BlockKind::Block).run(&state, &mut store_with(&[1])), Ok(Action::End));
    assert_eq!(
        leaving(BlockKind::Block).run(&state, &mut store_with(&[0])),
        Ok(Action::Return(None))
    );
    let outward = block_of(
        BlockKind::Block,
        2,
        vec![Step::BranchIf { cond: Input::Local(0), target: 1 }, Step::Return(None)],
    );
    assert!(outward.never_ends());
    assert!(!block_of(BlockKind::Loop, 1, vec![]).never_ends());
    assert!(!block_of(BlockKind::Loop, 1, vec![set(0, konst(1))]).never_ends());
}
