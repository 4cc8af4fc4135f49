//! Verified core of a small x86_64 hobby kernel: its heap allocators, the
//! VGA text-mode screen model, interrupt numbering and the keyboard
//! scancode hand-off.
pub mod allocator;
pub mod gdt;
pub mod interrupts;
pub mod task;
pub mod test_prelude;
pub mod vga_buf;
