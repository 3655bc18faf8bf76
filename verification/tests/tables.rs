use self_rust_os::gdt::{
    build_task_state, init, user_code_selector, user_data_selector, DescriptorKind,
    DOUBLE_FAULT_STACK_SIZE, KERNEL_STACK_SIZE,
};
use self_rust_os::interrupts::{
    init_idt, keyboard_interrupt_handler, register_syscall_handler, timer_interrupt_handler,
    ChainedPics, HandlerKind, IdtEntry, InterruptDescriptorTable, InterruptIndex, PIC_1_OFFSET,
    PIC_2_OFFSET,
};
use self_rust_os::QemuExitCode;

#[test]
fn gdt_holds_the_four_descriptors_with_ring3_user_selectors() {
    let (_gdt, selectors) = init();
    assert_eq!(selectors.code_selector, 0x08);
    assert_eq!(selectors.tss_selector, 0x10);
    // The task-state descriptor is two slots wide, so the user segments
    // land in slots 4 and 5; their requested-privilege bits are 3.
    assert_eq!(selectors.user_data_selector, 0x23);
    assert_eq!(selectors.user_code_selector, 0x2b);
    assert_eq!(selectors.user_code_selector % 4, 3);
    assert_eq!(selectors.user_data_selector % 4, 3);
    assert_eq!(user_code_selector(&selectors), 0x2b);
    assert_eq!(user_data_selector(&selectors), 0x23);
}

#[test]
fn gdt_selector_slots_skip_the_wide_task_state_descriptor() {
    let mut gdt = self_rust_os::gdt::GlobalDescriptorTable::new();
    assert_eq!(gdt.add_entry(DescriptorKind::KernelCode), 1 * 8);
    assert_eq!(gdt.add_entry(DescriptorKind::TaskState), 2 * 8);
    assert_eq!(gdt.add_entry(DescriptorKind::UserData), 4 * 8);
    assert_eq!(gdt.add_entry(DescriptorKind::UserCode), 5 * 8);
}

#[test]
fn task_state_stacks_sit_on_top_of_their_buffers() {
    let tss = build_task_state(0x10_0000, 0x20_0000);
    assert_eq!(tss.double_fault_stack_top, 0x10_0000 + DOUBLE_FAULT_STACK_SIZE);
    assert_eq!(tss.privilege_stack_top, 0x20_0000 + KERNEL_STACK_SIZE);
}

#[test]
fn interrupt_indices_follow_the_remap_offset() {
    assert_eq!(PIC_1_OFFSET, 32);
    assert_eq!(PIC_2_OFFSET, 40);
    assert_eq!(InterruptIndex::Timer.as_u8(), 32);
    assert_eq!(InterruptIndex::Keyboard.as_u8(), 33);
    assert_eq!(InterruptIndex::Timer.as_usize(), 32);
    assert_eq!(InterruptIndex::Keyboard.as_usize(), 33);
}

#[test]
fn idt_routes_the_fixed_vectors() {
    let idt = init_idt();
    assert_eq!(
        idt.entries[3],
        Some(IdtEntry { handler: HandlerKind::Breakpoint, dpl: 0, stack_index: None })
    );
    // The double fault runs on the dedicated stack in IST slot 0.
    assert_eq!(
        idt.entries[8],
        Some(IdtEntry { handler: HandlerKind::DoubleFault, dpl: 0, stack_index: Some(0) })
    );
    assert_eq!(
        idt.entries[32],
        Some(IdtEntry { handler: HandlerKind::Timer, dpl: 0, stack_index: None })
    );
    assert_eq!(
        idt.entries[33],
        Some(IdtEntry { handler: HandlerKind::Keyboard, dpl: 0, stack_index: None })
    );
    // The syscall vector is the one entry user code may raise.
    assert_eq!(
        idt.entries[0x80],
        Some(IdtEntry { handler: HandlerKind::Syscall, dpl: 3, stack_index: None })
    );
    assert_eq!(idt.entries.len(), 256);
    let routed = [3usize, 8, 32, 33, 0x80];
    for v in 0..256 {
        if !routed.contains(&v) {
            assert_eq!(idt.entries[v], None);
        }
    }
}

#[test]
fn syscall_registration_sets_ring3_privilege() {
    let mut idt = InterruptDescriptorTable::new();
    register_syscall_handler(&mut idt);
    let entry = idt.entries[0x80].unwrap();
    assert_eq!(entry.dpl, 3);
    assert_eq!(entry.handler, HandlerKind::Syscall);
}

#[test]
fn timer_handler_acknowledges_its_line() {
    let mut pics = ChainedPics::new(PIC_1_OFFSET, PIC_2_OFFSET);
    timer_interrupt_handler(&mut pics);
    assert_eq!(pics.eoi_log, vec![32]);
    timer_interrupt_handler(&mut pics);
    assert_eq!(pics.eoi_log, vec![32, 32]);
}

#[test]
fn keyboard_handler_queues_the_scancode_and_acknowledges() {
    let mut pics = ChainedPics::new(PIC_1_OFFSET, PIC_2_OFFSET);
    let mut queue: Vec<u8> = Vec::new();
    keyboard_interrupt_handler(0x1e, &mut queue, &mut pics);
    keyboard_interrupt_handler(0x9e, &mut queue, &mut pics);
    assert_eq!(queue, vec![0x1e, 0x9e]);
    assert_eq!(pics.eoi_log, vec![33, 33]);
}

#[test]
fn qemu_exit_codes_have_distinct_values() {
    assert_eq!(QemuExitCode::Success.as_u32(), 0x10);
    assert_eq!(QemuExitCode::Failure.as_u32(), 0x11);
    assert_ne!(QemuExitCode::Success, QemuExitCode::Failure);
}
