use self_rust_os::allocator::{init_heap, HeapInitError, HEAP_START};
use self_rust_os::memory::{BootInfoFrameAllocator, MemoryRegion, MemoryRegionType};
use self_rust_os::paging::{PageMapper, PageTableFlags, PagingError};

fn some_allocator() -> BootInfoFrameAllocator {
    let map = vec![MemoryRegion {
        start_frame_number: 64,
        end_frame_number: 1024,
        region_type: MemoryRegionType::Usable,
    }];
    BootInfoFrameAllocator::new(map)
}

#[test]
fn mapping_a_page_twice_is_refused() {
    let mut mapper = PageMapper::new();
    assert_eq!(mapper.map_to(0x1000, 0x40_0000, PageTableFlags::user_data()), Ok(()));
    assert_eq!(
        mapper.map_to(0x1000, 0x41_0000, PageTableFlags::user_data()),
        Err(PagingError::PageAlreadyMapped)
    );
    assert!(mapper.is_mapped(0x1000));
    assert!(!mapper.is_mapped(0x2000));
}

#[test]
fn updating_flags_of_an_unmapped_page_is_refused() {
    let mut mapper = PageMapper::new();
    assert_eq!(
        mapper.update_flags(0x1000, PageTableFlags::user_readonly()),
        Err(PagingError::PageNotMapped)
    );
}

#[test]
fn updating_flags_keeps_the_contents() {
    let mut mapper = PageMapper::new();
    mapper.map_to(0x1000, 0x40_0000, PageTableFlags::user_data()).unwrap();
    mapper.fill_page_from(0x1000, b"abc", 0);
    mapper.update_flags(0x1000, PageTableFlags::user_readonly()).unwrap();
    assert_eq!(
        mapper.page_flags(0x1000),
        Some(PageTableFlags { present: true, writable: false, user_accessible: true })
    );
    assert_eq!(mapper.read_user_byte(0x1000), Some(b'a'));
    assert_eq!(mapper.read_user_byte(0x1002), Some(b'c'));
    assert_eq!(mapper.read_user_byte(0x1003), Some(0));
}

#[test]
fn user_loads_refuse_kernel_only_pages() {
    let mut mapper = PageMapper::new();
    mapper.map_to(0x1000, 0x40_0000, PageTableFlags::kernel_data()).unwrap();
    mapper.fill_page_from(0x1000, b"secret", 0);
    assert_eq!(mapper.read_user_byte(0x1000), None);
}

#[test]
fn fill_from_an_offset_copies_the_right_chunk() {
    let mut mapper = PageMapper::new();
    mapper.map_to(0x3000, 0x40_0000, PageTableFlags::user_data()).unwrap();
    let src: Vec<u8> = (0..6000u64).map(|i| (i % 199) as u8).collect();
    mapper.fill_page_from(0x3000, &src, 4096);
    assert_eq!(mapper.read_user_byte(0x3000), Some(src[4096]));
    assert_eq!(mapper.read_user_byte(0x3000 + 1903), Some(src[5999]));
    assert_eq!(mapper.read_user_byte(0x3000 + 1904), Some(0));
}

#[test]
fn heap_mapping_fails_on_an_already_mapped_heap_page() {
    let mut mapper = PageMapper::new();
    let mut allocator = some_allocator();
    let frame = allocator.allocate_frame().unwrap();
    mapper
        .map_to(HEAP_START + 4096, frame, PageTableFlags::kernel_data())
        .unwrap();
    assert_eq!(
        init_heap(&mut mapper, &mut allocator),
        Err(HeapInitError::PageAlreadyMapped)
    );
}
