//! Faults that abort lowering of the enclosing function.

use vstd::prelude::*;

verus! {

/// A lowering failure, returned to the orchestrator which owns all
/// user-facing rendering.  Any of these aborts the whole-program pass.
#[derive(Clone, Copy, Debug, PartialEq, Eq, Structural)]
pub enum RuntimeError {
    /// A pure-oracle function was called from constrained context.
    OracleCallFromConstrainedContext,
    /// A compile-time-constant array index lies outside the array.
    IndexOutOfBounds,
    /// A statically-tracked array element was read before any store to it.
    UninitializedRead,
    /// The pass would allocate more witnesses than the allocator admits.
    WitnessLimitExceeded,
}

} // verus!
