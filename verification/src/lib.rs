//! A verified model of a minimal kernel's privilege-transition core.
//!
//! The crate covers the logic that decides what the hardware is told to do:
//! segment-table and task-state construction (`gdt`), interrupt-vector
//! assignment (`interrupts`), physical-frame allocation (`memory`), virtual
//! page mapping (`paging`), heap-region mapping (`allocator`), loading of a
//! flat user binary under a write-xor-execute policy (`process`), and the
//! syscall dispatcher (`syscall`). Register-level transition code, port I/O
//! and the memory-mapped display are left to an embedder; the types here
//! carry the exact values such an embedder must hand to the hardware.

use vstd::prelude::*;

pub mod allocator;
pub mod gdt;
pub mod interrupts;
pub mod memory;
pub mod paging;
pub mod process;
pub mod syscall;
pub mod trampoline;
pub mod userspace;
pub mod vga_buffer;

verus! {

/// Exit status values understood by the emulator's debug-exit device.
#[derive(Debug, Clone, Copy, PartialEq, Eq, Structural)]
pub enum QemuExitCode {
    /// Successful run.
    Success,
    /// Failed run.
    Failure,
}

impl QemuExitCode {
    /// The raw value written to the debug-exit port for this status.
    pub fn as_u32(self) -> (r: u32)
        ensures
            r == self.to_u32(),
    {
        match self {
            QemuExitCode::Success => 0x10,
            QemuExitCode::Failure => 0x11,
        }
    }

    /// What `as_u32` returns for each status.
    pub open spec fn to_u32(self) -> u32 {
        match self {
            QemuExitCode::Success => 0x10,
            QemuExitCode::Failure => 0x11,
        }
    }
}

} // verus!
