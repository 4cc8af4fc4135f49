//! Indices into the task state segment of the kernel.
use vstd::prelude::*;

verus! {

/// Slot of the interrupt stack table that holds the stack used by the
/// double fault handler, so that a double fault caused by a stack overflow
/// still runs on a valid stack.
pub const DOUBLE_FAULT_IST_INDEX: u16 = 0;

} // verus!
