//! Compiled functions.

use vstd::prelude::*;
use crate::code::{Block, BlockView};
use crate::value::ValueType;

verus! {

/// One compiled function: what its source declared, and its compiled body.
#[derive(Debug)]
pub struct Function {
    pub name: String,
    /// How many arguments an invocation takes from the value stack.
    pub param_count: u32,
    /// How many further locals a frame holds, all zero at entry.
    pub local_count: u32,
    pub ret_type: Option<ValueType>,
    /// The function's outermost block.
    pub body: Block,
}

/// The mathematical model of a [`Function`].
pub struct FunctionView {
    pub name: Seq<char>,
    pub param_count: u32,
    pub local_count: u32,
    pub ret_type: Option<ValueType>,
    pub body: BlockView,
}

impl Function {
    pub open spec fn view(&self) -> FunctionView {
        FunctionView {
            name: self.name@,
            param_count: self.param_count,
            local_count: self.local_count,
            ret_type: self.ret_type,
            body: self.body@,
        }
    }
}

/// The models of the functions of a table, in order.
pub open spec fn table_view(functions: Seq<Function>) -> Seq<FunctionView> {
    Seq::new(functions.len(), |i: int| functions[i]@)
}

} // verus!
