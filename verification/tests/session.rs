use self_rust_os::memory::{BootInfoFrameAllocator, MemoryRegion, MemoryRegionType};
use self_rust_os::paging::PageMapper;
use self_rust_os::process::{map_user_binary, map_user_stack, ProcessError};
use self_rust_os::syscall::{SYSCALL_ERROR, SYS_EXIT, SYS_WRITE};
use self_rust_os::trampoline::{
    Kernel, ProcessState, SavedKernelContext, SyscallEvent, SyscallStep,
};
use self_rust_os::userspace::{USER_CODE_START, USER_STACK_TOP};

const USER_CS: u64 = 5 * 8 + 3;
const USER_DS: u64 = 4 * 8 + 3;

fn fresh_kernel(frames: u64) -> Kernel {
    let map = vec![MemoryRegion {
        start_frame_number: 2048,
        end_frame_number: 2048 + frames,
        region_type: MemoryRegionType::Usable,
    }];
    let allocator = BootInfoFrameAllocator::new(map);
    Kernel::new(PageMapper::new(), allocator)
}

fn event(num: u64, arg1: u64, arg2: u64) -> SyscallEvent {
    SyscallEvent { num, arg1, arg2, arg3: 0 }
}

#[test]
fn hello_process_runs_to_completion() {
    // A flat binary whose data holds the greeting; the program writes it
    // once and exits with code 0.
    let mut binary = vec![0u8; 4096];
    binary[16..21].copy_from_slice(b"Hello");
    let events = [
        event(SYS_WRITE, USER_CODE_START + 16, 5),
        event(SYS_EXIT, 0, 0),
    ];

    let mut kernel = fresh_kernel(64);
    let r = kernel.run(&binary, 4096, USER_CS, USER_DS, 0x1000_0000, &events);
    assert_eq!(r, Ok(()));
    // The greeting is on the sink exactly once, and the process is done.
    assert_eq!(kernel.output, b"Hello".to_vec());
    assert_eq!(kernel.current_state(), ProcessState::Exited { code: 0 });
}

#[test]
fn events_after_exit_are_never_served() {
    let mut binary = vec![0u8; 4096];
    binary[0..2].copy_from_slice(b"ab");
    let events = [
        event(SYS_WRITE, USER_CODE_START, 2),
        event(SYS_EXIT, 3, 0),
        event(SYS_WRITE, USER_CODE_START, 2),
    ];
    let mut kernel = fresh_kernel(64);
    kernel
        .run(&binary, 0, USER_CS, USER_DS, 0x2000, &events)
        .unwrap();
    assert_eq!(kernel.output, b"ab".to_vec());
    assert_eq!(kernel.current_state(), ProcessState::Exited { code: 3 });
}

#[test]
fn failed_writes_earn_the_error_and_the_session_continues() {
    let binary = vec![0u8; 64];
    let events = [
        event(SYS_WRITE, 0, 5),
        event(777, 0, 0),
        event(SYS_EXIT, 9, 0),
    ];
    let mut kernel = fresh_kernel(64);
    kernel
        .run(&binary, 0, USER_CS, USER_DS, 0x2000, &events)
        .unwrap();
    assert!(kernel.output.is_empty());
    assert_eq!(kernel.current_state(), ProcessState::Exited { code: 9 });
}

#[test]
fn run_reports_load_failure_before_any_transition() {
    let binary = vec![0u8; 5 * 4096];
    let events = [event(SYS_EXIT, 0, 0)];
    let mut kernel = fresh_kernel(3);
    let r = kernel.run(&binary, 0, USER_CS, USER_DS, 0x2000, &events);
    assert_eq!(r, Err(ProcessError::BinaryFrameAllocation));
    assert_eq!(kernel.current_state(), ProcessState::KernelRunning);
    assert!(kernel.output.is_empty());
}

#[test]
fn syscall_steps_walk_the_state_machine() {
    let mut kernel = fresh_kernel(64);
    let mut binary = vec![0u8; 32];
    binary[0..5].copy_from_slice(b"Hello");
    map_user_binary(&binary, 0, &mut kernel.mapper, &mut kernel.frame_allocator).unwrap();
    map_user_stack(&mut kernel.mapper, &mut kernel.frame_allocator).unwrap();

    assert_eq!(kernel.current_state(), ProcessState::KernelRunning);
    kernel.switch_to_user_mode(USER_CODE_START, USER_STACK_TOP, USER_CS, USER_DS, 0x55aa);
    assert_eq!(kernel.current_state(), ProcessState::UserRunning);

    let step = kernel.syscall(SYS_WRITE, USER_CODE_START, 5, 0);
    assert_eq!(step, SyscallStep::ReturnedToUser(5));
    assert_eq!(kernel.current_state(), ProcessState::UserRunning);

    let step = kernel.syscall(999, 0, 0, 0);
    assert_eq!(step, SyscallStep::ReturnedToUser(SYSCALL_ERROR));
    assert_eq!(kernel.current_state(), ProcessState::UserRunning);

    // The exit path consumes the very context the transition saved.
    let step = kernel.syscall(SYS_EXIT, 7, 0, 0);
    assert_eq!(
        step,
        SyscallStep::ExitedToKernel(SavedKernelContext { kernel_rsp: 0x55aa })
    );
    assert_eq!(kernel.current_state(), ProcessState::Exited { code: 7 });
    assert_eq!(kernel.saved_context, None);
    assert_eq!(kernel.output, b"Hello".to_vec());
}
