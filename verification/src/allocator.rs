//! The allocator of ids: a counter that only goes up.

use crate::stable::{counter_cell_value, CounterCell};
use vstd::prelude::*;

verus! {

/// Hands out ids in ascending order, each once. Its value is the id
/// that it hands out next.
pub struct IdAllocator {
    counter: CounterCell,
}

impl View for IdAllocator {
    type V = u64;

    closed spec fn view(&self) -> u64 {
        counter_cell_value(self.counter)
    }
}

impl IdAllocator {
    /// An allocator over a counter, which continues where the counter
    /// stands.
    pub(crate) fn new(counter: CounterCell) -> (ids: IdAllocator)
        ensures
            ids@ == counter_cell_value(counter),
    {
        IdAllocator { counter }
    }

    /// The id that will be handed out next.
    pub fn peek(&self) -> (id: u64)
        ensures
            id == self@,
    {
        self.counter.read()
    }

    /// Hands out the next id, and stores the counter one higher before
    /// it returns.
    pub fn next_id(&mut self) -> (id: u64)
        requires
            old(self)@ < u64::MAX,
        ensures
            id == old(self)@,
            final(self)@ == id + 1,
    {
        let current: u64 = self.counter.read();
        self.counter.write(current + 1)
    }
}

} // verus!
