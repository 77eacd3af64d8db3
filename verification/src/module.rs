//! The functions of a module, as the compiler reads them.

use vstd::prelude::*;
use crate::numeric::{BinOp, UnOp, Width};
use crate::value::ValueType;

verus! {

/// One instruction of a function body.
#[derive(Clone, Debug, PartialEq, Eq)]
pub enum Instruction {
    /// Opens a plain block.
    Block,
    /// Opens a loop.
    Loop,
    /// Opens the first arm of a conditional; takes the condition.
    If,
    /// Closes the first arm of a conditional and opens the second.
    Else,
    /// Closes the innermost open block, or the function.
    End,
    /// Returns from the function.
    Return,
    /// Branches to the block that many levels out.
    Br(u32),
    /// Takes a condition and branches if it is not zero.
    BrIf(u32),
    /// Takes an index and branches to the label it selects, or to the default.
    BrTable(Vec<u32>, u32),
    /// Calls the function of this index.
    Call(u32),
    GetLocal(u32),
    SetLocal(u32),
    TeeLocal(u32),
    I32Const(i32),
    I64Const(i64),
    /// A one-operand integer operator.
    Unary(Width, UnOp),
    /// A two-operand integer operator.
    Binary(Width, BinOp),
    /// Any instruction this compiler has no translation for.
    Unsupported,
}

/// One function of a module, as the compiler reads it.
#[derive(Clone, Debug, PartialEq, Eq)]
pub struct FunctionSource {
    pub name: String,
    /// How many arguments the function takes.
    pub param_count: u32,
    /// How many locals it declares besides its parameters.
    pub local_count: u32,
    pub return_type: Option<ValueType>,
    pub instructions: Vec<Instruction>,
}

/// A validated module: its functions in declaration order.
#[derive(Clone, Debug, PartialEq, Eq)]
pub struct Module {
    pub functions: Vec<FunctionSource>,
}

impl Module {
    /// A module of the given functions.
    pub fn new(functions: Vec<FunctionSource>) -> (module: Module)
        ensures
            module.functions == functions,
    {
        Module { functions }
    }

    /// The functions, in declaration order.
    pub fn functions(&self) -> (functions: &Vec<FunctionSource>)
        ensures
            functions == self.functions,
    {
        &self.functions
    }

    /// The function of the given index, if the module has one.
    pub fn get_func(&self, index: u32) -> (function: Option<&FunctionSource>)
        ensures
            function == (if index < self.functions@.len() {
                Some(&self.functions@[index as int])
            } else {
                None
            }),
    {
        if (index as usize) < self.functions.len() {
            Some(&self.functions[index as usize])
        } else {
            None
        }
    }
}

} // verus!
