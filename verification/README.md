# rm_os

A small x86_64 hobby kernel, split in two:

- `src/` is the library, verified with Verus: the bump and fixed-size block
  heap allocators (`allocator`), the VGA text screen with its writer
  (`vga_buf`), interrupt numbering (`interrupts`, `gdt`), the keyboard
  scancode hand-off (`task::keyboard`) and QEMU exit codes (`test_prelude`).
  Public functions state in their contracts what they return and change, as
  far as the outside heap and queue let them be stated; the proof
  functions next to them state the laws that tie several operations
  together.
- `app/` is the kernel glue that Verus does not see: the global allocators
  behind spin locks, the IDT/GDT/PIC set-up and interrupt handlers, video
  memory and serial output, the task type and the test harness.

`tests/` runs the library on concrete inputs.
