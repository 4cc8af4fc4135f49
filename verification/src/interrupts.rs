//! Numbering of the hardware interrupts that the two chained 8259 PICs
//! deliver to the CPU.
use vstd::prelude::*;

verus! {

use vstd::std_specs::convert::FromSpecImpl;

/// First interrupt vector of the primary PIC, just above the 32 CPU
/// exception vectors.
pub const PIC_1_OFFSET: u8 = 32;

/// First interrupt vector of the secondary PIC.
pub const PIC_2_OFFSET: u8 = PIC_1_OFFSET + 8;

/// The external interrupts that the kernel handles, in the order of their
/// lines on the primary PIC.
#[derive(Debug, Clone, Copy, PartialEq, Eq, Structural)]
pub enum ExternalInterruptIndex {
    Timer,
    Keyboard,
}

/// The interrupt vector of an external interrupt: its PIC line past the
/// primary PIC's offset.
pub open spec fn interrupt_vector(index: ExternalInterruptIndex) -> u8 {
    match index {
        ExternalInterruptIndex::Timer => PIC_1_OFFSET,
        ExternalInterruptIndex::Keyboard => (PIC_1_OFFSET + 1) as u8,
    }
}

impl ExternalInterruptIndex {
    /// The interrupt vector of this interrupt.
    pub fn as_u8(self) -> (r: u8)
        ensures
            r == interrupt_vector(self),
            PIC_1_OFFSET <= r < PIC_2_OFFSET,
    {
        match self {
            ExternalInterruptIndex::Timer => PIC_1_OFFSET,
            ExternalInterruptIndex::Keyboard => PIC_1_OFFSET + 1,
        }
    }
}

impl From<ExternalInterruptIndex> for u8 {
    fn from(value: ExternalInterruptIndex) -> (r: u8) {
        value.as_u8()
    }
}

impl FromSpecImpl<ExternalInterruptIndex> for u8 {
    open spec fn obeys_from_spec() -> bool {
        true
    }

    open spec fn from_spec(v: ExternalInterruptIndex) -> u8 {
        interrupt_vector(v)
    }
}

impl From<ExternalInterruptIndex> for usize {
    fn from(value: ExternalInterruptIndex) -> (r: usize) {
        value.as_u8() as usize
    }
}

impl FromSpecImpl<ExternalInterruptIndex> for usize {
    open spec fn obeys_from_spec() -> bool {
        true
    }

    open spec fn from_spec(v: ExternalInterruptIndex) -> usize {
        interrupt_vector(v) as usize
    }
}

/// The keyboard is wired to the line right after the timer's, and both
/// interrupts fall among the primary PIC's vectors.
pub proof fn lemma_interrupt_vectors()
    ensures
        interrupt_vector(ExternalInterruptIndex::Keyboard) == interrupt_vector(ExternalInterruptIndex::Timer)
            + 1,
        interrupt_vector(ExternalInterruptIndex::Timer) == PIC_1_OFFSET,
        interrupt_vector(ExternalInterruptIndex::Keyboard) < PIC_2_OFFSET,
{
}

} // verus!
