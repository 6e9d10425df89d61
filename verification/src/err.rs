//! Error values of the allocation interfaces.
//!
//! Resource exhaustion is reported through these typed results; internal
//! consistency violations (double free, unlock without holding) are instead
//! excluded by the preconditions of the functions that would hit them.

use vstd::prelude::*;

verus! {

/// Failure of an allocation request.
#[derive(Clone, Copy, PartialEq, Eq, Structural, Debug)]
pub enum SE {
    /// No unit (or run of units) is free in the pool asked.
    MemoryOverflow,
    /// The pool holds fewer free pages than the request needs.
    NotEnoughMemory,
}

} // verus!
