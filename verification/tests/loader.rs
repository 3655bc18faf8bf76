use self_rust_os::allocator::{init_heap, HeapInitError, HEAP_START};
use self_rust_os::memory::{BootInfoFrameAllocator, MemoryRegion, MemoryRegionType};
use self_rust_os::paging::{PageMapper, PageTableFlags};
use self_rust_os::process::{map_user_binary, map_user_stack, ProcessError};
use self_rust_os::userspace::{
    USER_CODE_START, USER_STACK_BOTTOM, USER_STACK_SIZE, USER_STACK_TOP,
};

fn allocator_with_frames(count: u64) -> BootInfoFrameAllocator {
    let map = vec![MemoryRegion {
        start_frame_number: 1024,
        end_frame_number: 1024 + count,
        region_type: MemoryRegionType::Usable,
    }];
    BootInfoFrameAllocator::new(map)
}

#[test]
fn layout_boundaries_are_consistent() {
    assert_eq!(USER_STACK_BOTTOM + USER_STACK_SIZE, USER_STACK_TOP);
    assert_eq!(USER_CODE_START % 4096, 0);
    assert_eq!(USER_STACK_BOTTOM % 4096, 0);
    assert_eq!(USER_STACK_TOP % 4096, 0);
    assert!(USER_CODE_START < USER_STACK_BOTTOM);
}

#[test]
fn loads_binary_with_write_xor_execute_flags() {
    let mut mapper = PageMapper::new();
    let mut allocator = allocator_with_frames(64);
    let binary: Vec<u8> = (0..5000u64).map(|i| (i % 251) as u8).collect();

    let r = map_user_binary(&binary, 4096, &mut mapper, &mut allocator);
    assert_eq!(r, Ok(()));

    // ceil(5000 / 4096) = 2 pages, the first read-only, the second writable.
    assert_eq!(
        mapper.page_flags(USER_CODE_START),
        Some(PageTableFlags { present: true, writable: false, user_accessible: true })
    );
    assert_eq!(
        mapper.page_flags(USER_CODE_START + 4096),
        Some(PageTableFlags { present: true, writable: true, user_accessible: true })
    );
    assert_eq!(mapper.page_flags(USER_CODE_START + 2 * 4096), None);
}

#[test]
fn loaded_binary_bytes_are_copied_and_zero_padded() {
    let mut mapper = PageMapper::new();
    let mut allocator = allocator_with_frames(64);
    let binary: Vec<u8> = (0..5000u64).map(|i| (i % 251) as u8).collect();

    map_user_binary(&binary, 4096, &mut mapper, &mut allocator).unwrap();

    assert_eq!(mapper.read_user_byte(USER_CODE_START), Some(binary[0]));
    assert_eq!(mapper.read_user_byte(USER_CODE_START + 123), Some(binary[123]));
    assert_eq!(
        mapper.read_user_byte(USER_CODE_START + 4999),
        Some(binary[4999])
    );
    // Past the binary's end, still inside the last page: zero-filled.
    assert_eq!(mapper.read_user_byte(USER_CODE_START + 5000), Some(0));
    assert_eq!(mapper.read_user_byte(USER_CODE_START + 2 * 4096 - 1), Some(0));
}

#[test]
fn readonly_size_larger_than_binary_makes_every_page_readonly() {
    let mut mapper = PageMapper::new();
    let mut allocator = allocator_with_frames(64);
    let binary = vec![7u8; 100];

    map_user_binary(&binary, 8192, &mut mapper, &mut allocator).unwrap();
    assert_eq!(
        mapper.page_flags(USER_CODE_START),
        Some(PageTableFlags { present: true, writable: false, user_accessible: true })
    );
    assert_eq!(mapper.page_flags(USER_CODE_START + 4096), None);
}

#[test]
fn binary_load_fails_when_frames_run_out() {
    let mut mapper = PageMapper::new();
    let mut allocator = allocator_with_frames(1);
    let binary = vec![1u8; 5000];
    let r = map_user_binary(&binary, 0, &mut mapper, &mut allocator);
    assert_eq!(r, Err(ProcessError::BinaryFrameAllocation));
}

#[test]
fn binary_load_fails_on_already_mapped_page() {
    let mut mapper = PageMapper::new();
    let mut allocator = allocator_with_frames(64);
    let frame = allocator.allocate_frame().unwrap();
    mapper
        .map_to(USER_CODE_START, frame, PageTableFlags::kernel_data())
        .unwrap();

    let binary = vec![1u8; 100];
    let r = map_user_binary(&binary, 0, &mut mapper, &mut allocator);
    assert_eq!(r, Err(ProcessError::BinaryPageMapping));
    // The pre-existing mapping is untouched.
    assert_eq!(
        mapper.page_flags(USER_CODE_START),
        Some(PageTableFlags { present: true, writable: true, user_accessible: false })
    );
}

#[test]
fn maps_and_zeroes_the_user_stack_window() {
    let mut mapper = PageMapper::new();
    let mut allocator = allocator_with_frames(16);
    assert_eq!(map_user_stack(&mut mapper, &mut allocator), Ok(()));

    let pages = USER_STACK_SIZE / 4096;
    for i in 0..pages {
        let page = USER_STACK_BOTTOM + i * 4096;
        assert_eq!(
            mapper.page_flags(page),
            Some(PageTableFlags { present: true, writable: true, user_accessible: true })
        );
        assert_eq!(mapper.read_user_byte(page), Some(0));
        assert_eq!(mapper.read_user_byte(page + 4095), Some(0));
    }
    assert_eq!(mapper.page_flags(USER_STACK_TOP), None);
    assert_eq!(mapper.page_flags(USER_STACK_BOTTOM - 4096), None);
}

#[test]
fn stack_load_fails_when_frames_run_out() {
    let mut mapper = PageMapper::new();
    let mut allocator = allocator_with_frames(2);
    assert_eq!(
        map_user_stack(&mut mapper, &mut allocator),
        Err(ProcessError::StackFrameAllocation)
    );
}

#[test]
fn stack_load_fails_on_already_mapped_page() {
    let mut mapper = PageMapper::new();
    let mut allocator = allocator_with_frames(16);
    let frame = allocator.allocate_frame().unwrap();
    mapper
        .map_to(USER_STACK_BOTTOM, frame, PageTableFlags::user_data())
        .unwrap();
    assert_eq!(
        map_user_stack(&mut mapper, &mut allocator),
        Err(ProcessError::StackPageMapping)
    );
}

#[test]
fn heap_window_is_mapped_kernel_writable() {
    let mut mapper = PageMapper::new();
    let mut allocator = allocator_with_frames(512);
    assert_eq!(init_heap(&mut mapper, &mut allocator), Ok(()));

    // 1000 KiB at 4 KiB per page: 250 pages.
    let kernel_rw = PageTableFlags { present: true, writable: true, user_accessible: false };
    assert_eq!(mapper.page_flags(HEAP_START), Some(kernel_rw));
    assert_eq!(mapper.page_flags(HEAP_START + 249 * 4096), Some(kernel_rw));
    assert_eq!(mapper.page_flags(HEAP_START + 250 * 4096), None);
}

#[test]
fn heap_mapping_fails_when_frames_run_out() {
    let mut mapper = PageMapper::new();
    let mut allocator = allocator_with_frames(10);
    assert_eq!(
        init_heap(&mut mapper, &mut allocator),
        Err(HeapInitError::FrameAllocationFailed)
    );
}

#[test]
fn loads_use_distinct_frames_for_every_page() {
    // Binary, stack and heap pages all draw from the same monotonic
    // allocator, so no two pages can share a frame.
    let mut mapper = PageMapper::new();
    let mut allocator = allocator_with_frames(512);
    let binary = vec![9u8; 3 * 4096];
    map_user_binary(&binary, 4096, &mut mapper, &mut allocator).unwrap();
    map_user_stack(&mut mapper, &mut allocator).unwrap();
    init_heap(&mut mapper, &mut allocator).unwrap();
    // 3 binary + 4 stack + 250 heap pages were served in order.
    assert_eq!(allocator.allocate_frame(), Some((1024 + 3 + 4 + 250) * 4096));
}
