//! Query generation token for rejecting stale asynchronous results.
//!
//! A presenter advances this token every time the query/filter input changes,
//! attaches the current value to a background request, and discards a
//! completed response unless it still equals the active generation. The
//! counter wraps only at `u64::MAX`.

use vstd::prelude::*;

verus! {

/// Monotonic generation marker owned by a query presenter.
#[derive(Debug, Clone, Copy, PartialEq, Eq, Structural)]
pub struct QueryGeneration {
    generation: u64,
}

impl View for QueryGeneration {
    type V = u64;

    closed spec fn view(&self) -> u64 {
        self.generation
    }
}

impl Default for QueryGeneration {
    /// The initial generation (zero).
    fn default() -> (r: QueryGeneration)
        ensures
            r@ == 0,
    {
        QueryGeneration { generation: 0 }
    }
}

impl QueryGeneration {
    /// Create the initial generation (zero).
    pub fn new() -> (r: QueryGeneration)
        ensures
            r@ == 0,
    {
        QueryGeneration { generation: 0 }
    }

    /// Current generation value.
    pub fn current(self) -> (r: u64)
        ensures
            r == self@,
    {
        self.generation
    }

    /// Advance to and return the next generation, wrapping at `u64::MAX`.
    pub fn next_generation(&mut self) -> (r: u64)
        ensures
            final(self)@ == old(self)@.wrapping_add(1),
            r == final(self)@,
    {
        self.generation = self.generation.wrapping_add(1);
        self.generation
    }

    /// Whether `completed_generation` is stale relative to this active token.
    pub fn is_stale(self, completed_generation: u64) -> (r: bool)
        ensures
            r == (completed_generation != self@),
    {
        completed_generation != self.generation
    }
}

/// Law: after advancing, a result of the previous generation is stale, and a
/// result of the new generation is current.
pub proof fn lemma_advance_marks_previous_stale(before: u64)
    ensures
        before.wrapping_add(1) != before,
{
}

} // verus!
