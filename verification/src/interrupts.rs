//! Interrupt-vector assignment and hardware-interrupt handling.
//!
//! The kernel routes a fixed set of vectors: the breakpoint exception to a
//! diagnostic handler, the double fault to a terminal handler on its
//! dedicated stack, the two remapped controller lines (timer and keyboard)
//! past the 32 reserved exception vectors, and the syscall vector with
//! ring-3 privilege so user code may raise it. Every handler of a
//! hardware-sourced line must acknowledge the interrupt controller before
//! returning — a missed acknowledgment starves the line for good — and the
//! contracts here make each handler's acknowledgment explicit.

use vstd::prelude::*;
use crate::gdt::DOUBLE_FAULT_IST_INDEX;
use crate::userspace::SYSCALL_INTERRUPT_INDEX;

verus! {

/// Vector base of the remapped primary interrupt controller: directly past
/// the 32 reserved CPU exception vectors.
pub const PIC_1_OFFSET: u8 = 32;

/// Vector base of the remapped secondary interrupt controller.
pub const PIC_2_OFFSET: u8 = PIC_1_OFFSET + 8;

/// The vector the timer line is remapped to.
pub const TIMER_VECTOR: u8 = PIC_1_OFFSET;

/// The vector the keyboard line is remapped to.
pub const KEYBOARD_VECTOR: u8 = PIC_1_OFFSET + 1;

/// The breakpoint exception's fixed vector.
pub const BREAKPOINT_VECTOR: u8 = 3;

/// The double-fault exception's fixed vector.
pub const DOUBLE_FAULT_VECTOR: u8 = 8;

/// The hardware-interrupt lines this kernel handles.
#[derive(Debug, Clone, Copy, PartialEq, Eq, Structural)]
pub enum InterruptIndex {
    /// The timer line on the remapped primary controller.
    Timer,
    /// The keyboard line, one vector above the timer.
    Keyboard,
}

impl InterruptIndex {
    /// The vector number this line was remapped to.
    pub open spec fn spec_u8(self) -> u8 {
        match self {
            InterruptIndex::Timer => TIMER_VECTOR,
            InterruptIndex::Keyboard => KEYBOARD_VECTOR,
        }
    }

    /// Returns the vector number as a `u8`.
    pub fn as_u8(self) -> (r: u8)
        ensures
            r == self.spec_u8(),
    {
        match self {
            InterruptIndex::Timer => TIMER_VECTOR,
            InterruptIndex::Keyboard => KEYBOARD_VECTOR,
        }
    }

    /// Returns the vector number as a `usize`.
    pub fn as_usize(self) -> (r: usize)
        ensures
            r == self.spec_u8() as usize,
    {
        self.as_u8() as usize
    }
}

/// The handlers this kernel routes vectors to.
#[derive(Debug, Clone, Copy, PartialEq, Eq, Structural)]
pub enum HandlerKind {
    /// Diagnostic log, then continue.
    Breakpoint,
    /// Diagnostic log, then permanent halt — terminal by design.
    DoubleFault,
    /// Scheduling-tick placeholder.
    Timer,
    /// Read one scancode and queue it.
    Keyboard,
    /// The syscall entry.
    Syscall,
}

/// One interrupt-table entry: the handler, the privilege level required to
/// raise the vector from software, and an optional dedicated-stack slot.
#[derive(Debug, Clone, Copy, PartialEq, Eq, Structural)]
pub struct IdtEntry {
    /// Which handler the vector reaches.
    pub handler: HandlerKind,
    /// The descriptor privilege level: 0 for kernel-only vectors, 3 where
    /// user code may raise the vector.
    pub dpl: u8,
    /// The interrupt-stack-table slot to switch to, if any.
    pub stack_index: Option<u16>,
}

/// The interrupt descriptor table: one optional entry per vector, 256
/// vectors.
pub struct InterruptDescriptorTable {
    /// The table, indexed by vector number.
    pub entries: Vec<Option<IdtEntry>>,
}

/// The table invariant the design demands: the double fault runs on its
/// dedicated stack, and only the syscall vector is open to ring 3.
pub open spec fn idt_wf(t: &InterruptDescriptorTable) -> bool {
    &&& t.entries@.len() == 256
    &&& (t.entries@[DOUBLE_FAULT_VECTOR as int] matches Some(e) ==> e.stack_index == Some(
        DOUBLE_FAULT_IST_INDEX,
    ))
    &&& (t.entries@[SYSCALL_INTERRUPT_INDEX as int] matches Some(e) ==> e.dpl == 3)
    &&& forall|v: int|
        0 <= v < 256 && v != SYSCALL_INTERRUPT_INDEX ==> (#[trigger] t.entries@[v] matches Some(e)
            ==> e.dpl == 0)
}

impl InterruptDescriptorTable {
    /// An empty table: no vector routed.
    pub fn new() -> (r: Self)
        ensures
            r.entries@.len() == 256,
            forall|v: int| 0 <= v < 256 ==> #[trigger] r.entries@[v] is None,
    {
        let mut entries: Vec<Option<IdtEntry>> = Vec::new();
        let mut v: usize = 0;
        while v < 256
            invariant
                0 <= v <= 256,
                entries@.len() == v,
                forall|w: int| 0 <= w < v ==> #[trigger] entries@[w] is None,
            decreases 256 - v,
        {
            entries.push(None);
            v = v + 1;
        }
        InterruptDescriptorTable { entries }
    }

    /// Route one vector to a handler.
    pub fn set_entry(&mut self, vector: u8, entry: IdtEntry)
        requires
            old(self).entries@.len() == 256,
        ensures
            final(self).entries@ == old(self).entries@.update(vector as int, Some(entry)),
    {
        self.entries.set(vector as usize, Some(entry));
    }
}

/// Build the interrupt table with this kernel's fixed vector assignments:
/// breakpoint, double fault on its dedicated stack, the remapped timer and
/// keyboard lines, and the ring-3 syscall vector.
pub fn init_idt() -> (r: InterruptDescriptorTable)
    ensures
        idt_wf(&r),
        r.entries@[BREAKPOINT_VECTOR as int] == Some(
            IdtEntry { handler: HandlerKind::Breakpoint, dpl: 0, stack_index: None },
        ),
        r.entries@[DOUBLE_FAULT_VECTOR as int] == Some(
            IdtEntry {
                handler: HandlerKind::DoubleFault,
                dpl: 0,
                stack_index: Some(DOUBLE_FAULT_IST_INDEX),
            },
        ),
        r.entries@[InterruptIndex::Timer.spec_u8() as int] == Some(
            IdtEntry { handler: HandlerKind::Timer, dpl: 0, stack_index: None },
        ),
        r.entries@[InterruptIndex::Keyboard.spec_u8() as int] == Some(
            IdtEntry { handler: HandlerKind::Keyboard, dpl: 0, stack_index: None },
        ),
        r.entries@[SYSCALL_INTERRUPT_INDEX as int] == Some(
            IdtEntry { handler: HandlerKind::Syscall, dpl: 3, stack_index: None },
        ),
        forall|v: int|
            0 <= v < 256 && v != BREAKPOINT_VECTOR && v != DOUBLE_FAULT_VECTOR && v
                != InterruptIndex::Timer.spec_u8() && v != InterruptIndex::Keyboard.spec_u8() && v
                != SYSCALL_INTERRUPT_INDEX ==> #[trigger] r.entries@[v] is None,
{
    let mut idt = InterruptDescriptorTable::new();
    idt.set_entry(
        BREAKPOINT_VECTOR,
        IdtEntry { handler: HandlerKind::Breakpoint, dpl: 0, stack_index: None },
    );
    idt.set_entry(
        DOUBLE_FAULT_VECTOR,
        IdtEntry {
            handler: HandlerKind::DoubleFault,
            dpl: 0,
            stack_index: Some(DOUBLE_FAULT_IST_INDEX),
        },
    );
    idt.set_entry(
        InterruptIndex::Timer.as_u8(),
        IdtEntry { handler: HandlerKind::Timer, dpl: 0, stack_index: None },
    );
    idt.set_entry(
        InterruptIndex::Keyboard.as_u8(),
        IdtEntry { handler: HandlerKind::Keyboard, dpl: 0, stack_index: None },
    );
    register_syscall_handler(&mut idt);
    idt
}

/// Route the syscall vector to the syscall entry with ring-3 privilege, so
/// user code may raise it by software interrupt.
pub fn register_syscall_handler(idt: &mut InterruptDescriptorTable)
    requires
        old(idt).entries@.len() == 256,
    ensures
        final(idt).entries@ == old(idt).entries@.update(
            SYSCALL_INTERRUPT_INDEX as int,
            Some(IdtEntry { handler: HandlerKind::Syscall, dpl: 3, stack_index: None }),
        ),
{
    idt.set_entry(
        SYSCALL_INTERRUPT_INDEX,
        IdtEntry { handler: HandlerKind::Syscall, dpl: 3, stack_index: None },
    );
}

/// The remapped interrupt-controller pair, and the acknowledgments sent to
/// it. The hardware chip demands one end-of-interrupt per handled line; the
/// log stands for the acknowledgment port writes the embedder performs.
pub struct ChainedPics {
    /// Vector base the primary controller was remapped to.
    pub primary_offset: u8,
    /// Vector base the secondary controller was remapped to.
    pub secondary_offset: u8,
    /// Every end-of-interrupt sent so far, in order, by vector.
    pub eoi_log: Vec<u8>,
}

impl ChainedPics {
    /// A controller pair remapped to the given vector bases.
    pub fn new(primary_offset: u8, secondary_offset: u8) -> (r: Self)
        ensures
            r.primary_offset == primary_offset,
            r.secondary_offset == secondary_offset,
            r.eoi_log@ == Seq::<u8>::empty(),
    {
        ChainedPics { primary_offset, secondary_offset, eoi_log: Vec::new() }
    }

    /// Acknowledge one handled interrupt to the controller.
    pub fn notify_end_of_interrupt(&mut self, vector: u8)
        ensures
            final(self).primary_offset == old(self).primary_offset,
            final(self).secondary_offset == old(self).secondary_offset,
            final(self).eoi_log@ == old(self).eoi_log@.push(vector),
    {
        self.eoi_log.push(vector);
    }
}

/// The timer handler: a scheduling-tick placeholder that only acknowledges
/// its line — exactly one end-of-interrupt, for the timer vector.
pub fn timer_interrupt_handler(pics: &mut ChainedPics)
    ensures
        final(pics).primary_offset == old(pics).primary_offset,
        final(pics).secondary_offset == old(pics).secondary_offset,
        final(pics).eoi_log@ == old(pics).eoi_log@.push(InterruptIndex::Timer.spec_u8()),
{
    pics.notify_end_of_interrupt(InterruptIndex::Timer.as_u8());
}

/// The keyboard handler: forward the scancode read from the keyboard data
/// port to the external queue, then acknowledge the line — exactly one
/// end-of-interrupt, for the keyboard vector, after the byte is queued.
pub fn keyboard_interrupt_handler(scancode: u8, queue: &mut Vec<u8>, pics: &mut ChainedPics)
    ensures
        final(queue)@ == old(queue)@.push(scancode),
        final(pics).primary_offset == old(pics).primary_offset,
        final(pics).secondary_offset == old(pics).secondary_offset,
        final(pics).eoi_log@ == old(pics).eoi_log@.push(InterruptIndex::Keyboard.spec_u8()),
{
    queue.push(scancode);
    pics.notify_end_of_interrupt(InterruptIndex::Keyboard.as_u8());
}

} // verus!
