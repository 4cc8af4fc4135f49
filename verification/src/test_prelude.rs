//! Exit codes that the kernel's test runs report to QEMU.
use vstd::prelude::*;

verus! {

/// How a test run ends; written to QEMU's `isa-debug-exit` port.
#[derive(Debug, Clone, Copy, PartialEq, Eq, Structural)]
pub enum QemuExitCode {
    Success,
    Failed,
}

/// The value written to the exit port for an exit code.
pub open spec fn exit_code_value(code: QemuExitCode) -> u32 {
    match code {
        QemuExitCode::Success => 0x10,
        QemuExitCode::Failed => 0x11,
    }
}

impl QemuExitCode {
    /// The value written to the exit port.
    pub fn as_u32(self) -> (r: u32)
        ensures
            r == exit_code_value(self),
    {
        match self {
            QemuExitCode::Success => 0x10,
            QemuExitCode::Failed => 0x11,
        }
    }
}

} // verus!
