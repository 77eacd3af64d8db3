//! The run-time state of an invocation.

use vstd::prelude::*;
use crate::error::{Trap, TrapKind};
use crate::value::StackValue;

verus! {

/// The run-time state an invocation works on: the locals of the current frame,
/// the value stack on which arguments are passed, and what is left of the
/// budget of calls and loop re-entries.
#[derive(Debug)]
pub struct Store {
    pub locals: Vec<StackValue>,
    pub stack: Vec<StackValue>,
    pub fuel: u64,
}

/// The mathematical model of a [`Store`].
pub struct StoreView {
    pub locals: Seq<StackValue>,
    pub stack: Seq<StackValue>,
    pub fuel: nat,
}

/// The value of a local, or the trap for an index the frame does not hold.
pub open spec fn read_local(store: StoreView, idx: u32) -> Trap<StackValue> {
    if idx < store.locals.len() {
        Ok(store.locals[idx as int])
    } else {
        Err(TrapKind::UndefinedLocal)
    }
}

/// The store after a local has been assigned, or the trap for an index the
/// frame does not hold.
pub open spec fn write_local(store: StoreView, idx: u32, value: StackValue) -> Trap<StoreView> {
    if idx < store.locals.len() {
        Ok(StoreView { locals: store.locals.update(idx as int, value), ..store })
    } else {
        Err(TrapKind::UndefinedLocal)
    }
}

/// The store with one more value on its stack.
pub open spec fn pushed(store: StoreView, value: StackValue) -> StoreView {
    StoreView { stack: store.stack.push(value), ..store }
}

impl Store {
    pub open spec fn view(&self) -> StoreView {
        StoreView { locals: self.locals@, stack: self.stack@, fuel: self.fuel as nat }
    }

    /// A store with the given locals, an empty stack and the given budget.
    pub fn new(locals: Vec<StackValue>, fuel: u64) -> (store: Store)
        ensures
            store@ == (StoreView { locals: locals@, stack: Seq::empty(), fuel: fuel as nat }),
    {
        Store { locals, stack: Vec::new(), fuel }
    }

    /// Reads a local of the current frame.
    pub fn get_local(&self, idx: u32) -> (res: Trap<StackValue>)
        ensures
            res == read_local(self@, idx),
    {
        if (idx as usize) < self.locals.len() {
            Ok(self.locals[idx as usize])
        } else {
            Err(TrapKind::UndefinedLocal)
        }
    }

    /// Assigns a local of the current frame; on a trap the store is unchanged.
    pub fn set_local(&mut self, idx: u32, value: StackValue) -> (res: Trap<()>)
        ensures
            match write_local(old(self)@, idx, value) {
                Ok(after) => res is Ok && final(self)@ == after,
                Err(trap) => res == Err::<(), TrapKind>(trap) && final(self)@ == old(self)@,
            },
    {
        if (idx as usize) < self.locals.len() {
            self.locals[idx as usize] = value;
            Ok(())
        } else {
            Err(TrapKind::UndefinedLocal)
        }
    }

    /// Pushes a value on the stack.
    pub fn push_value(&mut self, value: StackValue)
        ensures
            final(self)@ == pushed(old(self)@, value),
    {
        self.stack.push(value);
    }
}

} // verus!
