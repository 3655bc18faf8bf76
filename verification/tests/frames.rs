use self_rust_os::memory::{BootInfoFrameAllocator, MemoryRegion, MemoryRegionType};

fn region(start: u64, end: u64, region_type: MemoryRegionType) -> MemoryRegion {
    MemoryRegion { start_frame_number: start, end_frame_number: end, region_type }
}

#[test]
fn allocates_usable_frames_in_order() {
    let map = vec![
        region(16, 20, MemoryRegionType::Usable),
        region(20, 24, MemoryRegionType::Reserved),
        region(24, 26, MemoryRegionType::Usable),
    ];
    let mut allocator = BootInfoFrameAllocator::new(map);
    let expected: Vec<u64> = vec![
        16 * 4096,
        17 * 4096,
        18 * 4096,
        19 * 4096,
        24 * 4096,
        25 * 4096,
    ];
    for e in expected {
        assert_eq!(allocator.allocate_frame(), Some(e));
    }
    assert_eq!(allocator.allocate_frame(), None);
    assert_eq!(allocator.allocate_frame(), None);
}

#[test]
fn never_yields_the_same_frame_twice() {
    let map = vec![
        region(1, 5, MemoryRegionType::Usable),
        region(5, 7, MemoryRegionType::InUse),
        region(7, 9, MemoryRegionType::Usable),
        region(9, 12, MemoryRegionType::Usable),
    ];
    let mut allocator = BootInfoFrameAllocator::new(map);
    let mut seen: Vec<u64> = Vec::new();
    while let Some(addr) = allocator.allocate_frame() {
        assert!(!seen.contains(&addr), "frame address handed out twice");
        seen.push(addr);
    }
    assert_eq!(seen.len(), 4 + 2 + 3);
}

#[test]
fn frames_are_aligned_and_inside_usable_regions() {
    let usable = [(100u64, 104u64), (200, 201)];
    let map = vec![
        region(100, 104, MemoryRegionType::Usable),
        region(104, 200, MemoryRegionType::Reserved),
        region(200, 201, MemoryRegionType::Usable),
    ];
    let mut allocator = BootInfoFrameAllocator::new(map);
    while let Some(addr) = allocator.allocate_frame() {
        assert_eq!(addr % 4096, 0);
        let inside = usable
            .iter()
            .any(|&(s, e)| s * 4096 <= addr && addr + 4096 <= e * 4096);
        assert!(inside, "frame address outside every usable region");
    }
}

#[test]
fn skips_non_usable_regions_entirely() {
    let map = vec![
        region(0, 64, MemoryRegionType::Reserved),
        region(64, 128, MemoryRegionType::InUse),
    ];
    let mut allocator = BootInfoFrameAllocator::new(map);
    assert_eq!(allocator.allocate_frame(), None);
}

#[test]
fn empty_memory_map_yields_nothing() {
    let mut allocator = BootInfoFrameAllocator::new(Vec::new());
    assert_eq!(allocator.allocate_frame(), None);
}
