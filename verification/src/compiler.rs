//! The compiler: from the functions of a module to compiled functions.

use vstd::prelude::*;
use crate::code::{
    Block, BlockKind, BlockView, Input, Op, Step, inputs_view, lemma_inputs_view_push,
    lemma_inputs_view_subrange,
};
use crate::error::{Error, ErrorKind};
use crate::function::{Function, FunctionView, table_view};
use crate::generator::{binary, unary};
use crate::module::{FunctionSource, Instruction, Module};
use crate::scope::{always_returns, block_scoped, closed_by_return, table_returns};
use crate::translate::{
    StateView, code_of, compile_block_spec, compile_function_spec, compile_if_spec,
    compile_module_spec, compile_steps_spec, emit_return_spec, initial_state,
    lemma_first_failure, pop_spec, push_spec, table_targets, translate_spec,
};
use crate::value::StackValue;

verus! {

/// What the compiler keeps while it walks one function: the symbolic operand
/// stack, the nesting depth, and the offset of the instruction at hand.
#[derive(Debug)]
pub struct State {
    pub values: Vec<Input>,
    pub depth: u32,
    pub pc: usize,
}

impl State {
    pub open spec fn view(&self) -> StateView {
        StateView { values: inputs_view(self.values@), depth: self.depth, pc: self.pc as nat }
    }

    /// The state at the start of a function: no operands, depth zero, offset
    /// zero.
    pub fn new() -> (state: State)
        ensures
            state@ == initial_state(),
    {
        let state = State { values: Vec::new(), depth: 0, pc: 0 };
        assert(state@.values =~= Seq::empty());
        state
    }

    /// Takes the top operand; fails on an empty stack, which is then left as
    /// it was.
    pub fn pop(&mut self) -> (res: Result<Input, ErrorKind>)
        ensures
            match pop_spec(old(self)@) {
                Ok((input, rest)) => res is Ok && res->Ok_0@ == input && final(self)@ == rest,
                Err(kind) => res == Err::<Input, ErrorKind>(kind) && final(self)@ == old(self)@,
            },
    {
        proof {
            if self.values@.len() > 0 {
                lemma_inputs_view_subrange(self.values@, 0, self.values@.len() - 1);
            }
        }
        match self.values.pop() {
            Some(input) => {
                assert(self.values@ =~= old(self).values@.subrange(
                    0,
                    old(self).values@.len() - 1,
                ));
                assert(self@.values =~= old(self)@.values.drop_last());
                Ok(input)
            },
            None => Err(ErrorKind::ValueStackEmpty),
        }
    }

    /// Pushes an operand.
    pub fn push(&mut self, input: Input)
        ensures
            final(self)@ == push_spec(old(self)@, input@),
    {
        proof {
            lemma_inputs_view_push(self.values@, input);
        }
        self.values.push(input);
    }
}

/// Compiles the functions of one module, each by itself: a call holds only
/// the index of its callee, so the order of the functions does not matter.
///
/// A compiler has a limit on nesting: the number of blocks that may be open
/// at once, a function's outermost block counted.
pub struct Compiler<'a> {
    module: &'a Module,
    func_idx: u32,
    limit: u32,
}

/// The depths that the labels of a table lead to from a block of the given
/// depth, or nothing if one of them leads nowhere.
fn resolve_labels(depth: u32, labels: &Vec<u32>) -> (res: Option<Vec<u32>>)
    ensures
        match table_targets(depth, labels@) {
            Some(targets) => res is Some && res->Some_0@ == targets,
            None => res is None,
        },
{
    let mut targets: Vec<u32> = Vec::new();
    let mut i: usize = 0;
    while i < labels.len()
        invariant
            i <= labels.len(),
            targets@.len() == i,
            forall|k: int| 0 <= k < i ==> #[trigger] labels@[k] <= depth,
            forall|k: int| 0 <= k < i ==> #[trigger] targets@[k] == (depth - labels@[k]) as u32,
        decreases labels.len() - i,
    {
        if labels[i] > depth {
            return None;
        }
        targets.push(depth - labels[i]);
        i = i + 1;
    }
    assert(targets@ =~= Seq::new(labels@.len(), |k: int| (depth - labels@[k]) as u32));
    Some(targets)
}

impl<'a> Compiler<'a> {
    /// The functions this compiler reads, in declaration order.
    pub closed spec fn source(&self) -> Seq<FunctionSource> {
        self.module.functions@
    }

    /// How many blocks may be open at once.
    pub closed spec fn limit(&self) -> u32 {
        self.limit
    }

    /// A compiler for the given module, with the largest limit on nesting
    /// that a depth can count.
    pub fn new(module: &'a Module) -> (compiler: Compiler<'a>)
        ensures
            compiler.source() == module.functions@,
            compiler.limit() == u32::MAX,
    {
        Compiler { module, func_idx: 0, limit: u32::MAX }
    }

    /// A compiler for the given module, with the given limit on nesting.
    pub fn with_limit(module: &'a Module, limit: u32) -> (compiler: Compiler<'a>)
        ensures
            compiler.source() == module.functions@,
            compiler.limit() == limit,
    {
        Compiler { module, func_idx: 0, limit }
    }

    /// Compiles every function of the module, in declaration order, and stops
    /// at the first that fails.
    ///
    /// Each compiled function has a body that always returns: no branch
    /// leaves it, and wherever control arrives at its end a `Return` stands.
    pub fn compile(self) -> (res: Result<Vec<Function>, Error>)
        requires
            self.source().len() <= u32::MAX,
        ensures
            match compile_module_spec(self.source(), self.limit(), self.source().len()) {
                Ok(functions) => {
                    &&& res is Ok
                    &&& table_view(res->Ok_0@) == functions
                    &&& table_returns(functions)
                },
                Err(error) => res == Err::<Vec<Function>, Error>(error),
            },
    {
        let mut compiler = self;
        let mut compiled: Vec<Function> = Vec::new();
        assert(table_view(compiled@) =~= Seq::empty());
        let count: usize = compiler.module.functions().len();
        let mut idx: usize = 0;
        while idx < count
            invariant
                idx <= count,
                count == self.module.functions@.len(),
                count <= u32::MAX,
                compiler.module == self.module,
                compiler.limit == self.limit,
                compile_module_spec(self.module.functions@, self.limit, idx as nat) == Ok::<
                    Seq<FunctionView>,
                    Error,
                >(table_view(compiled@)),
                table_returns(table_view(compiled@)),
            decreases count - idx,
        {
            let ghost before = table_view(compiled@);
            match compiler.compile_function(idx as u32) {
                Ok(function) => {
                    compiled.push(function);
                    assert(table_view(compiled@) =~= before.push(function@));
                },
                Err(error) => {
                    proof {
                        lemma_first_failure(
                            self.module.functions@,
                            self.limit,
                            (idx + 1) as nat,
                            count as nat,
                        );
                    }
                    return Err(error);
                },
            }
            idx = idx + 1;
        }
        Ok(compiled)
    }

    /// Compiles the function of the given index: its whole body as one plain
    /// block at depth zero. Fails as `FuncNotFound` if the module has no
    /// function of that index.
    fn compile_function(&mut self, func_idx: u32) -> (res: Result<Function, Error>)
        ensures
            final(self).module == old(self).module,
            final(self).limit == old(self).limit,
            match compile_function_spec(
                old(self).module.functions@,
                old(self).limit,
                func_idx,
            ) {
                Ok(function) => {
                    &&& res is Ok
                    &&& res->Ok_0@ == function
                    &&& always_returns(function.body)
                },
                Err(error) => res == Err::<Function, Error>(error),
            },
    {
        self.func_idx = func_idx;
        let source = match self.module.get_func(func_idx) {
            Some(source) => source,
            None => {
                return Err(Error { kind: ErrorKind::FuncNotFound, func_idx, pc: 0 });
            },
        };
        let mut state = State::new();
        match self.compile_block(&mut state, BlockKind::Block) {
            Ok(body) => Ok(
                Function {
                    name: source.name.clone(),
                    param_count: source.param_count,
                    local_count: source.local_count,
                    ret_type: source.return_type,
                    body,
                },
            ),
            Err(error) => Err(error),
        }
    }

    /// Compiles one block, from the state's offset up to the instruction that
    /// closes it.
    fn compile_block(&self, state: &mut State, kind: BlockKind) -> (res: Result<Block, Error>)
        requires
            self.func_idx < self.module.functions@.len(),
        ensures
            match compile_block_spec(
                self.module.functions@,
                self.limit,
                self.func_idx,
                old(state)@,
                kind,
            ) {
                Ok((block, end)) => {
                    &&& res is Ok
                    &&& res->Ok_0@ == block
                    &&& final(state)@ == end
                    &&& block_scoped(block)
                    &&& block.depth == old(state)@.depth
                    &&& block.kind == kind
                    &&& old(state)@.pc <= end.pc < code_of(
                        self.module.functions@,
                        self.func_idx,
                    ).len()
                    &&& (block.depth == 0 && kind != BlockKind::If ==> closed_by_return(block))
                },
                Err(error) => res == Err::<Block, Error>(error),
            },
        decreases code_of(self.module.functions@, self.func_idx).len() - old(state)@.pc, 2nat,
    {
        if state.depth >= self.limit {
            return Err(
                Error { kind: ErrorKind::NestingTooDeep, func_idx: self.func_idx, pc: state.pc },
            );
        }
        let mut block = Block::new(kind, state.depth);
        let pending: usize = state.values.len();
        state.depth = state.depth + 1;
        let ghost entered = state@;
        let ghost empty = block@;
        loop
            invariant
                self.func_idx < self.module.functions@.len(),
                old(state)@.depth < self.limit,
                pending == old(state)@.values.len(),
                state@.depth == old(state)@.depth + 1,
                block@.depth == old(state)@.depth,
                block@.kind == kind,
                block_scoped(block@),
                old(state)@.pc <= state@.pc,
                entered == (StateView { depth: (old(state)@.depth + 1) as u32, ..old(state)@ }),
                empty == (BlockView {
                    kind,
                    depth: old(state)@.depth,
                    steps: Seq::empty(),
                }),
                compile_steps_spec(
                    self.module.functions@,
                    self.limit,
                    self.func_idx,
                    state@,
                    block@,
                ) == compile_steps_spec(
                    self.module.functions@,
                    self.limit,
                    self.func_idx,
                    entered,
                    empty,
                ),
            decreases code_of(self.module.functions@, self.func_idx).len() - state@.pc,
        {
            if state.pc >= self.module.functions[self.func_idx as usize].instructions.len() {
                return Err(
                    Error { kind: ErrorKind::MissingEnd, func_idx: self.func_idx, pc: state.pc },
                );
            }
            match self.compile_instruction(state, &mut block) {
                Ok(true) => {
                    if state.values.len() != pending {
                        return Err(
                            Error {
                                kind: ErrorKind::UnbalancedStack,
                                func_idx: self.func_idx,
                                pc: state.pc,
                            },
                        );
                    }
                    state.depth = state.depth - 1;
                    return Ok(block);
                },
                Ok(false) => {},
                Err(error) => {
                    return Err(error);
                },
            }
        }
    }

    /// Compiles the instruction at the state's offset into the block, and
    /// says whether it closed the block. If it did, the state stands at it;
    /// if not, the state stands after what was compiled.
    fn compile_instruction(&self, state: &mut State, block: &mut Block) -> (res: Result<
        bool,
        Error,
    >)
        requires
            self.func_idx < self.module.functions@.len(),
            block_scoped(old(block)@),
            old(state)@.depth == old(block)@.depth + 1,
            old(state)@.pc < code_of(self.module.functions@, self.func_idx).len(),
        ensures
            match res {
                Ok(closed) => {
                    &&& final(block)@.depth == old(block)@.depth
                    &&& final(block)@.kind == old(block)@.kind
                    &&& final(state)@.depth == old(state)@.depth
                    &&& block_scoped(final(block)@)
                    &&& final(state)@.pc <= code_of(self.module.functions@, self.func_idx).len()
                    &&& if closed {
                        &&& compile_steps_spec(
                            self.module.functions@,
                            self.limit,
                            self.func_idx,
                            old(state)@,
                            old(block)@,
                        ) == Ok::<(BlockView, StateView), Error>(
                            (final(block)@, final(state)@),
                        )
                        &&& final(state)@.pc == old(state)@.pc
                        &&& final(state)@.pc < code_of(self.module.functions@, self.func_idx).len()
                        &&& (final(block)@.depth == 0 && final(block)@.kind != BlockKind::If
                            ==> closed_by_return(final(block)@))
                    } else {
                        &&& compile_steps_spec(
                            self.module.functions@,
                            self.limit,
                            self.func_idx,
                            old(state)@,
                            old(block)@,
                        ) == compile_steps_spec(
                            self.module.functions@,
                            self.limit,
                            self.func_idx,
                            final(state)@,
                            final(block)@,
                        )
                        &&& final(state)@.pc > old(state)@.pc
                    }
                },
                Err(error) => compile_steps_spec(
                    self.module.functions@,
                    self.limit,
                    self.func_idx,
                    old(state)@,
                    old(block)@,
                ) == Err::<(BlockView, StateView), Error>(error),
            },
        decreases code_of(self.module.functions@, self.func_idx).len() - old(state)@.pc, 1nat,
    {
        let code = &self.module.functions[self.func_idx as usize].instructions;
        let pc: usize = state.pc;
        assert(code@ == code_of(self.module.functions@, self.func_idx));
        assert(pc < code.len());
        match &code[pc] {
            Instruction::Block => {
                state.pc = pc + 1;
                let child = self.compile_block(state, BlockKind::Block)?;
                block.push(Step::Nested(child));
            },
            Instruction::Loop => {
                state.pc = pc + 1;
                let child = self.compile_loop(state)?;
                block.push(Step::Nested(child));
            },
            Instruction::If => {
                self.compile_if(block, state)?;
            },
            Instruction::Else => {
                return match block.kind {
                    BlockKind::If => Ok(true),
                    _ => Err(Error { kind: ErrorKind::InvalidElse, func_idx: self.func_idx, pc }),
                };
            },
            Instruction::End => {
                if block.depth() == 0 && !block.closed_by_return() {
                    match self.emit_return(state, block) {
                        Ok(()) => {},
                        Err(kind) => {
                            return Err(Error { kind, func_idx: self.func_idx, pc });
                        },
                    }
                }
                return Ok(true);
            },
            other => {
                match self.translate(other, state, block) {
                    Ok(()) => {},
                    Err(kind) => {
                        return Err(Error { kind, func_idx: self.func_idx, pc });
                    },
                }
            },
        }
        state.pc = state.pc + 1;
        Ok(false)
    }

    /// Translates an instruction that opens or closes no block.
    fn translate(&self, instruction: &Instruction, state: &mut State, block: &mut Block) -> (res:
        Result<(), ErrorKind>)
        requires
            self.func_idx < self.module.functions@.len(),
            block_scoped(old(block)@),
        ensures
            match translate_spec(
                self.module.functions@,
                self.module.functions@[self.func_idx as int].return_type,
                *instruction,
                old(state)@,
                old(block)@,
            ) {
                Ok((grown, after)) => {
                    &&& res is Ok
                    &&& final(block)@ == grown
                    &&& final(state)@ == after
                    &&& block_scoped(grown)
                },
                Err(kind) => res == Err::<(), ErrorKind>(kind),
            },
    {
        let depth: u32 = block.depth();
        match instruction {
            Instruction::Return => self.emit_return(state, block),
            Instruction::Br(label) => {
                if *label > depth {
                    return Err(ErrorKind::InvalidBranch);
                }
                block.push(Step::Branch(depth - *label));
                Ok(())
            },
            Instruction::BrIf(label) => {
                let cond = state.pop()?;
                if *label > depth {
                    return Err(ErrorKind::InvalidBranch);
                }
                block.push(Step::BranchIf { cond, target: depth - *label });
                Ok(())
            },
            Instruction::BrTable(labels, default) => {
                let index = state.pop()?;
                let targets = match resolve_labels(depth, labels) {
                    Some(targets) => targets,
                    None => {
                        return Err(ErrorKind::InvalidBranch);
                    },
                };
                if *default > depth {
                    return Err(ErrorKind::InvalidBranch);
                }
                block.push(Step::BranchTable { index, targets, default: depth - *default });
                Ok(())
            },
            Instruction::Call(callee) => {
                let callee: u32 = *callee;
                let arity: usize = match self.module.get_func(callee) {
                    Some(function) => function.param_count as usize,
                    None => {
                        return Err(ErrorKind::FuncNotFound);
                    },
                };
                if state.values.len() < arity {
                    return Err(ErrorKind::ValueStackEmpty);
                }
                let base: usize = state.values.len() - arity;
                proof {
                    lemma_inputs_view_subrange(state.values@, 0, base as int);
                    lemma_inputs_view_subrange(
                        state.values@,
                        base as int,
                        state.values@.len() as int,
                    );
                }
                let args = state.values.split_off(base);
                state.push(Input::Op(Box::new(Op::Call { func_idx: callee, args })));
                Ok(())
            },
            Instruction::GetLocal(idx) => {
                state.push(Input::Local(*idx));
                Ok(())
            },
            Instruction::SetLocal(idx) => {
                let value = state.pop()?;
                if state.values.len() != 0 {
                    return Err(ErrorKind::Unsupported);
                }
                block.push(Step::SetLocal { idx: *idx, value });
                Ok(())
            },
            Instruction::TeeLocal(idx) => {
                let value = state.pop()?;
                if state.values.len() != 0 {
                    return Err(ErrorKind::Unsupported);
                }
                block.push(Step::SetLocal { idx: *idx, value });
                state.push(Input::Local(*idx));
                Ok(())
            },
            Instruction::I32Const(value) => {
                state.push(Input::Const(StackValue::from_i32(*value)));
                Ok(())
            },
            Instruction::I64Const(value) => {
                state.push(Input::Const(StackValue::from_i64(*value)));
                Ok(())
            },
            Instruction::Unary(width, op) => unary(state, *width, *op),
            Instruction::Binary(width, op) => binary(state, *width, *op),
            _ => Err(ErrorKind::Unsupported),
        }
    }

    /// Emits the step that returns from the function, with the top operand
    /// where the function declares a return type.
    fn emit_return(&self, state: &mut State, block: &mut Block) -> (res: Result<(), ErrorKind>)
        requires
            self.func_idx < self.module.functions@.len(),
            block_scoped(old(block)@),
        ensures
            match emit_return_spec(
                self.module.functions@[self.func_idx as int].return_type,
                old(state)@,
                old(block)@,
            ) {
                Ok((grown, after)) => {
                    &&& res is Ok
                    &&& final(block)@ == grown
                    &&& final(state)@ == after
                    &&& block_scoped(grown)
                    &&& closed_by_return(grown)
                },
                Err(kind) => {
                    &&& res == Err::<(), ErrorKind>(kind)
                    &&& final(state)@ == old(state)@
                    &&& final(block)@ == old(block)@
                },
            },
    {
        if self.module.functions[self.func_idx as usize].return_type.is_some() {
            let value = state.pop()?;
            block.push(Step::Return(Some(value)));
        } else {
            block.push(Step::Return(None));
        }
        Ok(())
    }

    /// Compiles a loop.
    fn compile_loop(&self, state: &mut State) -> (res: Result<Block, Error>)
        requires
            self.func_idx < self.module.functions@.len(),
        ensures
            match compile_block_spec(
                self.module.functions@,
                self.limit,
                self.func_idx,
                old(state)@,
                BlockKind::Loop,
            ) {
                Ok((block, end)) => {
                    &&& res is Ok
                    &&& res->Ok_0@ == block
                    &&& final(state)@ == end
                    &&& block_scoped(block)
                    &&& block.depth == old(state)@.depth
                    &&& block.kind == BlockKind::Loop
                    &&& old(state)@.pc <= end.pc < code_of(
                        self.module.functions@,
                        self.func_idx,
                    ).len()
                },
                Err(error) => res == Err::<Block, Error>(error),
            },
        decreases code_of(self.module.functions@, self.func_idx).len() - old(state)@.pc, 3nat,
    {
        self.compile_block(state, BlockKind::Loop)
    }

    /// Compiles a conditional that opens at the state's offset, and adds it
    /// to the parent as one step. On a failure the parent is left as it was.
    fn compile_if(&self, parent: &mut Block, state: &mut State) -> (res: Result<(), Error>)
        requires
            self.func_idx < self.module.functions@.len(),
            block_scoped(old(parent)@),
            old(state)@.depth == old(parent)@.depth + 1,
        ensures
            match compile_if_spec(
                self.module.functions@,
                self.limit,
                self.func_idx,
                old(state)@,
                old(parent)@,
            ) {
                Ok((grown, end)) => {
                    &&& res is Ok
                    &&& final(parent)@ == grown
                    &&& final(state)@ == end
                    &&& block_scoped(grown)
                    &&& grown.depth == old(parent)@.depth
                    &&& grown.kind == old(parent)@.kind
                    &&& end.depth == old(state)@.depth
                    &&& old(state)@.pc < end.pc < code_of(
                        self.module.functions@,
                        self.func_idx,
                    ).len()
                },
                Err(error) => res == Err::<(), Error>(error) && final(parent)@ == old(parent)@,
            },
        decreases code_of(self.module.functions@, self.func_idx).len() - old(state)@.pc, 0nat,
    {
        let code = &self.module.functions[self.func_idx as usize].instructions;
        let pc: usize = state.pc;
        let cond = match state.pop() {
            Ok(cond) => cond,
            Err(kind) => {
                return Err(Error { kind, func_idx: self.func_idx, pc });
            },
        };
        if pc >= code.len() {
            return Err(Error { kind: ErrorKind::MissingEnd, func_idx: self.func_idx, pc });
        }
        state.pc = pc + 1;
        let then_block = self.compile_block(state, BlockKind::If)?;
        let else_block = match &code[state.pc] {
            Instruction::Else => {
                state.pc = state.pc + 1;
                Some(self.compile_else(state)?)
            },
            _ => None,
        };
        parent.push(Step::If { cond, then_block, else_block });
        Ok(())
    }

    /// Compiles the second arm of a conditional.
    fn compile_else(&self, state: &mut State) -> (res: Result<Block, Error>)
        requires
            self.func_idx < self.module.functions@.len(),
        ensures
            match compile_block_spec(
                self.module.functions@,
                self.limit,
                self.func_idx,
                old(state)@,
                BlockKind::Else,
            ) {
                Ok((block, end)) => {
                    &&& res is Ok
                    &&& res->Ok_0@ == block
                    &&& final(state)@ == end
                    &&& block_scoped(block)
                    &&& block.depth == old(state)@.depth
                    &&& block.kind == BlockKind::Else
                    &&& old(state)@.pc <= end.pc < code_of(
                        self.module.functions@,
                        self.func_idx,
                    ).len()
                },
                Err(error) => res == Err::<Block, Error>(error),
            },
        decreases code_of(self.module.functions@, self.func_idx).len() - old(state)@.pc, 3nat,
    {
        self.compile_block(state, BlockKind::Else)
    }
}

} // verus!
