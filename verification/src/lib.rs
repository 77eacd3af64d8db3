//! A compiler from WebAssembly function bodies to trees of executable nodes,
//! with the run-time meaning of every node stated and proved.
//!
//! A module's functions are compiled one by one into blocks of steps. A step
//! acts: it returns, branches, assigns a local, or runs a nested block. The
//! operands of a step are nodes that compute values; the compiler tracks them
//! symbolically and builds them into the step that takes them. Compiled
//! functions run on a store, through a table that resolves calls by index.
//!
//! - [`value`], [`error`]: cells of storage, and the two kinds of failure.
//! - [`numeric`]: the integer operators.
//! - [`code`]: compiled code, and its mathematical model.
//! - [`store`], [`function`], [`vm`]: the run-time state, compiled functions,
//!   and the functions that run compiled code.
//! - [`semantics`]: what running compiled code means.
//! - [`scope`]: where branches may lead, and why a compiled function returns.
//! - [`module`]: the functions the compiler reads.
//! - [`translate`]: what the compiler makes of them.
//! - [`generator`], [`compiler`]: the compiler.
//! - [`laws`]: what holds of all compiled code.
//! - [`reference`], [`agreement`]: a reference machine, and the proof that
//!   compiled code agrees with it where nothing branches.

pub mod value;
pub mod error;
pub mod numeric;
pub mod code;
pub mod store;
pub mod function;
pub mod semantics;
pub mod scope;
pub mod vm;
pub mod module;
pub mod translate;
pub mod generator;
pub mod compiler;
pub mod laws;
pub mod reference;
pub mod agreement;
