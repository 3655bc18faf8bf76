//! Segment-table and task-state construction.
//!
//! The kernel installs four descriptors — kernel code, the task-state
//! segment, user data and user code — and derives ring-3 selectors for the
//! user segments by setting the requested-privilege bits of the ring-0
//! selectors the table hands back. The task state reserves two stacks: a
//! dedicated one for double faults, so the CPU can still load a valid stack
//! pointer when the current stack is corrupt or exhausted, and the ring-0
//! re-entry stack used on every privilege-level change. Loading the
//! finished table into the CPU is the embedder's step; the values it must
//! load are fixed here.

use vstd::prelude::*;

verus! {

/// The interrupt-stack-table slot reserved for the double-fault handler.
pub const DOUBLE_FAULT_IST_INDEX: u16 = 0;

/// Size of the kernel stack used when re-entering ring 0 from ring 3.
pub const KERNEL_STACK_SIZE: u64 = 4096 * 5;

/// Size of the dedicated double-fault handler stack.
pub const DOUBLE_FAULT_STACK_SIZE: u64 = 4096 * 5;

/// Hardware descriptor slots: one for most descriptors, two for a 64-bit
/// task-state descriptor.
pub open spec fn descriptor_slots(d: DescriptorKind) -> int {
    match d {
        DescriptorKind::TaskState => 2,
        _ => 1,
    }
}

/// The kinds of segment descriptors this kernel installs.
#[derive(Debug, Clone, Copy, PartialEq, Eq, Structural)]
pub enum DescriptorKind {
    /// Ring-0 code segment.
    KernelCode,
    /// The task-state segment descriptor (two slots wide).
    TaskState,
    /// Ring-3 data segment.
    UserData,
    /// Ring-3 code segment.
    UserCode,
}

/// The task state: the two stack tops the CPU loads on its own — the
/// dedicated double-fault stack and the ring-0 re-entry stack.
#[derive(Debug, Clone, Copy, PartialEq, Eq, Structural)]
pub struct TaskStateSegment {
    /// Top of the dedicated double-fault stack (interrupt-stack-table slot
    /// [`DOUBLE_FAULT_IST_INDEX`]).
    pub double_fault_stack_top: u64,
    /// Top of the ring-0 re-entry stack (the RSP0 slot).
    pub privilege_stack_top: u64,
}

/// Compute the task state from the base addresses of the two statically
/// reserved stack buffers: each slot holds its buffer's one-past-the-end
/// address, since stacks grow downward.
pub fn build_task_state(double_fault_stack_base: u64, kernel_stack_base: u64) -> (r:
    TaskStateSegment)
    requires
        double_fault_stack_base + DOUBLE_FAULT_STACK_SIZE <= u64::MAX,
        kernel_stack_base + KERNEL_STACK_SIZE <= u64::MAX,
    ensures
        r.double_fault_stack_top == double_fault_stack_base + DOUBLE_FAULT_STACK_SIZE,
        r.privilege_stack_top == kernel_stack_base + KERNEL_STACK_SIZE,
{
    TaskStateSegment {
        double_fault_stack_top: double_fault_stack_base + DOUBLE_FAULT_STACK_SIZE,
        privilege_stack_top: kernel_stack_base + KERNEL_STACK_SIZE,
    }
}

/// The global descriptor table under construction: the descriptors in
/// installation order, and the next free hardware slot.
pub struct GlobalDescriptorTable {
    descriptors: Vec<DescriptorKind>,
    next_slot: u16,
}

impl GlobalDescriptorTable {
    /// The descriptors installed so far, in order.
    pub closed spec fn descriptors(&self) -> Seq<DescriptorKind> {
        self.descriptors@
    }

    /// The next free hardware slot. Slot 0 holds the mandatory null
    /// descriptor, so a fresh table starts at 1.
    pub closed spec fn next_slot(&self) -> int {
        self.next_slot as int
    }

    /// The table's invariant: the slot cursor stays within the hardware's
    /// table size.
    pub open spec fn wf(&self) -> bool {
        1 <= self.next_slot() <= 8192
    }

    /// An empty table: only the null descriptor, so the first install lands
    /// in slot 1.
    pub fn new() -> (r: Self)
        ensures
            r.wf(),
            r.descriptors() == Seq::<DescriptorKind>::empty(),
            r.next_slot() == 1,
    {
        GlobalDescriptorTable { descriptors: Vec::new(), next_slot: 1 }
    }

    /// Install one descriptor and return its ring-0 selector: the slot
    /// index shifted into the selector's index field, privilege bits clear.
    /// A task-state descriptor is two slots wide, so it advances the cursor
    /// by two.
    pub fn add_entry(&mut self, d: DescriptorKind) -> (r: u16)
        requires
            old(self).wf(),
            old(self).next_slot() + descriptor_slots(d) <= 8192,
        ensures
            final(self).wf(),
            final(self).descriptors() == old(self).descriptors().push(d),
            final(self).next_slot() == old(self).next_slot() + descriptor_slots(d),
            r as int == 8 * old(self).next_slot(),
            r as int % 8 == 0,
    {
        let selector = self.next_slot * 8;
        let width: u16 = match d {
            DescriptorKind::TaskState => 2,
            _ => 1,
        };
        self.next_slot = self.next_slot + width;
        self.descriptors.push(d);
        selector
    }
}

/// The selectors the boot path keeps after building the table: where the
/// kernel runs, where the task state lives, and the two ring-3 selectors
/// handed to the privilege transition.
#[derive(Debug, Clone, Copy, PartialEq, Eq, Structural)]
pub struct Selectors {
    /// Ring-0 code selector.
    pub code_selector: u16,
    /// Task-state segment selector.
    pub tss_selector: u16,
    /// Ring-3 code selector (privilege bits set).
    pub user_code_selector: u16,
    /// Ring-3 data selector (privilege bits set).
    pub user_data_selector: u16,
}

/// Build the descriptor table and its selectors. The user selectors come
/// back from the table with ring-0 privilege bits; since a selector's low
/// three bits are clear, setting the two requested-privilege bits is plain
/// addition. Must run once, before the interrupt table is loaded and before
/// any privilege transition; the embedder then loads the table, reloads the
/// code segment and the task register with these very values.
pub fn init() -> (r: (GlobalDescriptorTable, Selectors))
    ensures
        r.0.wf(),
        r.0.descriptors() == seq![
            DescriptorKind::KernelCode,
            DescriptorKind::TaskState,
            DescriptorKind::UserData,
            DescriptorKind::UserCode,
        ],
        r.1.code_selector == 8,
        r.1.tss_selector == 16,
        r.1.user_data_selector == 4 * 8 + 3,
        r.1.user_code_selector == 5 * 8 + 3,
        r.1.user_code_selector as int % 4 == 3,
        r.1.user_data_selector as int % 4 == 3,
{
    let mut gdt = GlobalDescriptorTable::new();
    let code_selector = gdt.add_entry(DescriptorKind::KernelCode);
    let tss_selector = gdt.add_entry(DescriptorKind::TaskState);

    // The selectors returned by `add_entry` carry ring-0 privilege bits;
    // ring-3 execution needs the requested-privilege level set to 3.
    let user_data_entry = gdt.add_entry(DescriptorKind::UserData);
    let user_code_entry = gdt.add_entry(DescriptorKind::UserCode);

    let user_data_selector = user_data_entry + 3;
    let user_code_selector = user_code_entry + 3;

    (
        gdt,
        Selectors { code_selector, tss_selector, user_code_selector, user_data_selector },
    )
}

/// The ring-3 code selector out of the boot path's selectors.
pub fn user_code_selector(selectors: &Selectors) -> (r: u16)
    ensures
        r == selectors.user_code_selector,
{
    selectors.user_code_selector
}

/// The ring-3 data selector out of the boot path's selectors.
pub fn user_data_selector(selectors: &Selectors) -> (r: u16)
    ensures
        r == selectors.user_data_selector,
{
    selectors.user_data_selector
}

} // verus!
