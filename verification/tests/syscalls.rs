use self_rust_os::memory::{BootInfoFrameAllocator, MemoryRegion, MemoryRegionType};
use self_rust_os::paging::{PageMapper, PageTableFlags};
use self_rust_os::syscall::{
    syscall_dispatch, sys_write, PROCESS_EXIT_SENTINEL, SYSCALL_ERROR, SYS_EXIT, SYS_WRITE,
};
use self_rust_os::userspace::{USER_CODE_START, USER_STACK_TOP};

fn empty_mapper() -> PageMapper {
    PageMapper::new()
}

/// A mapper with one user-accessible page at the user code base holding
/// `data` (zero-padded).
fn mapper_with_user_page(data: &[u8]) -> PageMapper {
    let map = vec![MemoryRegion {
        start_frame_number: 512,
        end_frame_number: 768,
        region_type: MemoryRegionType::Usable,
    }];
    let mut allocator = BootInfoFrameAllocator::new(map);
    let mut mapper = PageMapper::new();
    let frame = allocator.allocate_frame().unwrap();
    mapper
        .map_to(USER_CODE_START, frame, PageTableFlags::user_data())
        .unwrap();
    mapper.fill_page_from(USER_CODE_START, data, 0);
    mapper
}

#[test]
fn test_unknown_syscall_returns_error() {
    let mapper = empty_mapper();
    let mut output: Vec<u8> = Vec::new();
    let result = syscall_dispatch(&mapper, &mut output, 999, 0, 0, 0);
    assert_eq!(
        result, SYSCALL_ERROR,
        "Unknown syscall should return SYSCALL_ERROR.",
    );
    assert!(output.is_empty());
}

#[test]
fn test_sys_exit_returns_sentinel() {
    let mapper = empty_mapper();
    let mut output: Vec<u8> = Vec::new();
    let result = syscall_dispatch(&mapper, &mut output, SYS_EXIT, 42, 0, 0);
    assert_eq!(
        result, PROCESS_EXIT_SENTINEL,
        "sys_exit should return PROCESS_EXIT_SENTINEL.",
    );
}

#[test]
fn test_sys_write_rejects_null_pointer() {
    let mapper = empty_mapper();
    let mut output: Vec<u8> = Vec::new();
    let result = syscall_dispatch(&mapper, &mut output, SYS_WRITE, 0, 10, 0);
    assert_eq!(
        result, SYSCALL_ERROR,
        "sys_write with address 0 should fail validation.",
    );
}

#[test]
fn test_sys_write_rejects_out_of_bounds_buffer() {
    // Buffer starting past the user stack top.
    let mapper = empty_mapper();
    let mut output: Vec<u8> = Vec::new();
    let result = syscall_dispatch(&mapper, &mut output, SYS_WRITE, USER_STACK_TOP + 1, 10, 0);
    assert_eq!(
        result, SYSCALL_ERROR,
        "sys_write with out-of-bounds address should fail validation.",
    );
}

#[test]
fn test_sys_write_rejects_overflow() {
    // Buffer that would overflow u64.
    let mapper = empty_mapper();
    let mut output: Vec<u8> = Vec::new();
    let result = syscall_dispatch(&mapper, &mut output, SYS_WRITE, USER_CODE_START, u64::MAX, 0);
    assert_eq!(
        result, SYSCALL_ERROR,
        "sys_write with overflowing length should fail validation.",
    );
}

#[test]
fn write_of_null_fails_for_every_positive_length() {
    let mapper = empty_mapper();
    for n in [1u64, 2, 10, 4096, u64::MAX] {
        let mut output: Vec<u8> = Vec::new();
        assert_eq!(sys_write(&mapper, &mut output, 0, n), SYSCALL_ERROR);
        assert!(output.is_empty());
    }
}

#[test]
fn write_crossing_the_stack_top_fails() {
    let mapper = empty_mapper();
    let mut output: Vec<u8> = Vec::new();
    assert_eq!(
        sys_write(&mapper, &mut output, USER_STACK_TOP - 4, 8),
        SYSCALL_ERROR
    );
    assert!(output.is_empty());
}

#[test]
fn write_emits_utf8_bytes_verbatim() {
    let text = "h\u{e9}llo\n";
    let mapper = mapper_with_user_page(text.as_bytes());
    let mut output: Vec<u8> = Vec::new();
    let len = text.as_bytes().len() as u64;
    let result = sys_write(&mapper, &mut output, USER_CODE_START, len);
    assert_eq!(result, len);
    assert_eq!(output, text.as_bytes().to_vec());
}

#[test]
fn write_renders_non_utf8_byte_by_byte() {
    let data = [0xff, 0x41, 0x20, 0x07];
    let mapper = mapper_with_user_page(&data);
    let mut output: Vec<u8> = Vec::new();
    let result = sys_write(&mapper, &mut output, USER_CODE_START, 4);
    assert_eq!(result, 4);
    assert_eq!(output, b".A .".to_vec());
}

#[test]
fn write_renders_truncated_utf8_as_dots() {
    // A two-byte form cut off before its continuation byte.
    let data = [0xc3, 0x28];
    let mapper = mapper_with_user_page(&data);
    let mut output: Vec<u8> = Vec::new();
    let result = sys_write(&mapper, &mut output, USER_CODE_START, 2);
    assert_eq!(result, 2);
    assert_eq!(output, b".(".to_vec());
}

#[test]
fn write_of_unmapped_window_address_fails() {
    // Inside the user window but with no live mapping behind it.
    let mapper = mapper_with_user_page(b"x");
    let mut output: Vec<u8> = Vec::new();
    let result = sys_write(&mapper, &mut output, USER_CODE_START + 4096, 1);
    assert_eq!(result, SYSCALL_ERROR);
    assert!(output.is_empty());
}

#[test]
fn exit_sentinel_differs_from_every_write_result() {
    let mapper = mapper_with_user_page(b"Hello");
    for code in [0u64, 1, 42, u64::MAX] {
        let mut output: Vec<u8> = Vec::new();
        let exit_result = syscall_dispatch(&mapper, &mut output, SYS_EXIT, code, 0, 0);
        assert_eq!(exit_result, PROCESS_EXIT_SENTINEL);
    }
    let mut output: Vec<u8> = Vec::new();
    let good = syscall_dispatch(&mapper, &mut output, SYS_WRITE, USER_CODE_START, 5, 0);
    assert_ne!(good, PROCESS_EXIT_SENTINEL);
    let mut output2: Vec<u8> = Vec::new();
    let bad = syscall_dispatch(&mapper, &mut output2, SYS_WRITE, 0, 5, 0);
    assert_ne!(bad, PROCESS_EXIT_SENTINEL);
    assert_ne!(SYSCALL_ERROR, PROCESS_EXIT_SENTINEL);
}

#[test]
fn unknown_syscall_error_differs_from_exit_sentinel() {
    let mapper = empty_mapper();
    let mut output: Vec<u8> = Vec::new();
    let result = syscall_dispatch(&mapper, &mut output, 999, 0, 0, 0);
    assert_eq!(result, SYSCALL_ERROR);
    assert_ne!(result, PROCESS_EXIT_SENTINEL);
}

#[test]
fn write_utf8_judgement_matches_the_standard_decoder() {
    // Shortest-form edge cases: overlong forms, surrogates, the code-point
    // ceiling, boundary continuations, and plain valid text.
    let cases: [&[u8]; 14] = [
        b"plain ascii",
        &[0xc2, 0x80],
        &[0xc0, 0xaf],
        &[0xe0, 0x9f, 0x80],
        &[0xe0, 0xa0, 0x80],
        &[0xed, 0x9f, 0xbf],
        &[0xed, 0xa0, 0x80],
        &[0xf0, 0x8f, 0xbf, 0xbf],
        &[0xf0, 0x90, 0x80, 0x80],
        &[0xf4, 0x8f, 0xbf, 0xbf],
        &[0xf4, 0x90, 0x80, 0x80],
        &[0x80],
        &[0xf0, 0x9f, 0x92, 0x96],
        &[0x41, 0xc3],
    ];
    for bytes in cases {
        let mapper = mapper_with_user_page(bytes);
        let mut output: Vec<u8> = Vec::new();
        let len = bytes.len() as u64;
        assert_eq!(sys_write(&mapper, &mut output, USER_CODE_START, len), len);
        let expected: Vec<u8> = if std::str::from_utf8(bytes).is_ok() {
            bytes.to_vec()
        } else {
            bytes
                .iter()
                .map(|&b| if (0x20..=0x7e).contains(&b) || b == 0x0a { b } else { b'.' })
                .collect()
        };
        assert_eq!(output, expected, "mismatch for {bytes:?}");
    }
}

#[test]
fn successful_write_returns_byte_count() {
    let mapper = mapper_with_user_page(b"Hello");
    let mut output: Vec<u8> = Vec::new();
    assert_eq!(
        syscall_dispatch(&mapper, &mut output, SYS_WRITE, USER_CODE_START, 5, 0),
        5
    );
    assert_eq!(output, b"Hello".to_vec());
}
