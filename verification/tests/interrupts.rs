use rm_os::gdt::DOUBLE_FAULT_IST_INDEX;
use rm_os::interrupts::{ExternalInterruptIndex, PIC_1_OFFSET, PIC_2_OFFSET};
use rm_os::test_prelude::QemuExitCode;

#[test]
fn pic_offsets() {
    assert_eq!(PIC_1_OFFSET, 32);
    assert_eq!(PIC_2_OFFSET, 40);
}

#[test]
fn interrupt_vectors() {
    assert_eq!(u8::from(ExternalInterruptIndex::Timer), 32);
    assert_eq!(u8::from(ExternalInterruptIndex::Keyboard), 33);
    assert_eq!(usize::from(ExternalInterruptIndex::Timer), 32);
    assert_eq!(usize::from(ExternalInterruptIndex::Keyboard), 33);
    assert_eq!(ExternalInterruptIndex::Keyboard.as_u8(), ExternalInterruptIndex::Timer.as_u8() + 1);
}

#[test]
fn double_fault_stack_slot() {
    assert_eq!(DOUBLE_FAULT_IST_INDEX, 0);
}

#[test]
fn qemu_exit_codes() {
    assert_eq!(QemuExitCode::Success.as_u32(), 0x10);
    assert_eq!(QemuExitCode::Failed.as_u32(), 0x11);
}
