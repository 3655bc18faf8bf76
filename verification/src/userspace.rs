//! Layout of the user-mode address window.
//!
//! User code is loaded at a fixed base and runs against a fixed stack window
//! directly below a fixed top address. All boundaries are multiples of the
//! page size, so page-granular mapping covers the window exactly.

use vstd::prelude::*;

verus! {

/// Size in bytes of one page / one physical frame.
pub const PAGE_SIZE: u64 = 4096;

/// Base virtual address where user program code is loaded.
pub const USER_CODE_START: u64 = 0x40_0000;

/// Top of the user-mode stack (the stack grows downward).
pub const USER_STACK_TOP: u64 = 0x80_0000;

/// Size of the user-mode stack in bytes (16 KiB).
pub const USER_STACK_SIZE: u64 = 4096 * 4;

/// Bottom of the user-mode stack.
pub const USER_STACK_BOTTOM: u64 = USER_STACK_TOP - USER_STACK_SIZE;

/// Interrupt vector number reserved for syscalls.
pub const SYSCALL_INTERRUPT_INDEX: u8 = 0x80;

/// The stack window sits exactly on top of its bottom address, every
/// boundary of the layout is page-aligned, and the code base lies strictly
/// below the stack window.
pub proof fn lemma_user_layout_well_formed()
    ensures
        USER_STACK_BOTTOM + USER_STACK_SIZE == USER_STACK_TOP,
        USER_CODE_START % PAGE_SIZE == 0,
        USER_STACK_BOTTOM % PAGE_SIZE == 0,
        USER_STACK_TOP % PAGE_SIZE == 0,
        USER_CODE_START < USER_STACK_BOTTOM,
{
}

} // verus!
