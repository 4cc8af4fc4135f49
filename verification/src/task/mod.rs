//! Tasks of the kernel's cooperative executor.
pub mod keyboard;
