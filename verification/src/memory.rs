//! Physical-frame allocation from the firmware memory map.
//!
//! The firmware hands the kernel a list of physical-memory regions, each a
//! half-open range of frame numbers with a usability class. The allocator
//! flattens the usable regions into one ordered sequence of page-aligned
//! frame addresses and serves them in order through a monotonic cursor:
//! frames are never reclaimed.

use vstd::prelude::*;
use crate::userspace::PAGE_SIZE;

verus! {

/// Largest frame number whose start address still fits in a `u64`.
pub const MAX_FRAME_NUMBER: u64 = 0xF_FFFF_FFFF_FFFF;

/// Usability class of a memory-map region.
#[derive(Debug, Clone, Copy, PartialEq, Eq, Structural)]
pub enum MemoryRegionType {
    /// Free memory the kernel may allocate from.
    Usable,
    /// Memory already holding the kernel or boot structures.
    InUse,
    /// Memory the firmware reserves; never allocated.
    Reserved,
}

/// One region of the firmware memory map: the half-open frame-number range
/// `[start_frame_number, end_frame_number)` and its usability class.
#[derive(Debug, Clone, Copy, PartialEq, Eq, Structural)]
pub struct MemoryRegion {
    /// First frame number of the region.
    pub start_frame_number: u64,
    /// One past the last frame number of the region.
    pub end_frame_number: u64,
    /// Usability class of the region.
    pub region_type: MemoryRegionType,
}

/// A single region is well formed: a non-inverted range whose frame
/// addresses all fit in a `u64`.
pub open spec fn wf_region(r: MemoryRegion) -> bool {
    r.start_frame_number <= r.end_frame_number <= MAX_FRAME_NUMBER
}

/// The whole memory map is well formed: every region is well formed and the
/// regions are ordered and pairwise disjoint, as the firmware guarantees.
pub open spec fn wf_memory_map(regions: Seq<MemoryRegion>) -> bool {
    &&& (forall|k: int| 0 <= k < regions.len() ==> #[trigger] wf_region(regions[k]))
    &&& (forall|k1: int, k2: int|
        0 <= k1 < k2 < regions.len() ==> (#[trigger] regions[k1]).end_frame_number
            <= (#[trigger] regions[k2]).start_frame_number)
}

/// The frame start addresses of one region, in increasing order.
pub open spec fn region_frame_addrs(r: MemoryRegion) -> Seq<u64> {
    Seq::new(
        (r.end_frame_number - r.start_frame_number) as nat,
        |k: int| ((r.start_frame_number as int + k) * (PAGE_SIZE as int)) as u64,
    )
}

/// The frame addresses a region contributes to the allocation order:
/// all of its frames when it is usable, none otherwise.
pub open spec fn region_usable_addrs(r: MemoryRegion) -> Seq<u64> {
    if r.region_type is Usable {
        region_frame_addrs(r)
    } else {
        Seq::empty()
    }
}

/// All allocatable frame addresses of the map, region by region.
pub open spec fn usable_frame_addrs(regions: Seq<MemoryRegion>) -> Seq<u64>
    decreases regions.len(),
{
    if regions.len() == 0 {
        Seq::empty()
    } else {
        usable_frame_addrs(regions.drop_last()) + region_usable_addrs(regions.last())
    }
}

/// Taking one more region appends exactly that region's usable addresses.
proof fn lemma_take_one_more(regions: Seq<MemoryRegion>, i: int)
    requires
        0 <= i < regions.len(),
    ensures
        usable_frame_addrs(regions.take(i + 1)) == usable_frame_addrs(regions.take(i))
            + region_usable_addrs(regions[i]),
{
    let t = regions.take(i + 1);
    assert(t.drop_last() =~= regions.take(i));
    assert(t.last() == regions[i]);
}

/// The usable addresses of a prefix of the map are a prefix of the usable
/// addresses of the whole map.
proof fn lemma_prefix_agrees(regions: Seq<MemoryRegion>, i: int)
    requires
        0 <= i <= regions.len(),
    ensures
        usable_frame_addrs(regions.take(i)).len() <= usable_frame_addrs(regions).len(),
        forall|j: int|
            0 <= j < usable_frame_addrs(regions.take(i)).len()
                ==> #[trigger] usable_frame_addrs(regions)[j] == usable_frame_addrs(
                regions.take(i),
            )[j],
    decreases regions.len() - i,
{
    if i == regions.len() {
        assert(regions.take(i) =~= regions);
    } else {
        lemma_take_one_more(regions, i);
        lemma_prefix_agrees(regions, i + 1);
    }
}

/// A well-formed map holds at most `MAX_FRAME_NUMBER` usable frames, and
/// when it is non-empty the count is bounded by the last region's end.
proof fn lemma_addr_count_bounded(regions: Seq<MemoryRegion>)
    requires
        wf_memory_map(regions),
    ensures
        regions.len() > 0 ==> usable_frame_addrs(regions).len()
            <= regions.last().end_frame_number,
        usable_frame_addrs(regions).len() <= MAX_FRAME_NUMBER,
    decreases regions.len(),
{
    if regions.len() > 0 {
        let prefix = regions.drop_last();
        assert(wf_memory_map(prefix));
        lemma_addr_count_bounded(prefix);
        let last = regions.last();
        assert(wf_region(last));
        if prefix.len() > 0 {
            assert(prefix.last() == regions[regions.len() - 2]);
            assert(prefix.last().end_frame_number <= last.start_frame_number);
        }
    }
}

/// Every usable address is below the end of the map's last region.
proof fn lemma_addrs_below(regions: Seq<MemoryRegion>, i: int)
    requires
        wf_memory_map(regions),
        0 <= i < usable_frame_addrs(regions).len(),
    ensures
        regions.len() > 0,
        usable_frame_addrs(regions)[i] + PAGE_SIZE <= regions.last().end_frame_number as int
            * PAGE_SIZE as int,
    decreases regions.len(),
{
    let flat = usable_frame_addrs(regions);
    let prefix = regions.drop_last();
    let last = regions.last();
    assert(wf_memory_map(prefix));
    assert(wf_region(last));
    if i < usable_frame_addrs(prefix).len() {
        lemma_addrs_below(prefix, i);
        assert(prefix.last() == regions[regions.len() - 2]);
        assert(prefix.last().end_frame_number <= last.start_frame_number);
    } else {
        let k = i - usable_frame_addrs(prefix).len();
        assert(flat[i] == region_usable_addrs(last)[k]);
    }
}

/// The flattened usable addresses are strictly increasing: no address is
/// ever produced twice.
pub proof fn lemma_frame_addrs_strictly_increasing(regions: Seq<MemoryRegion>, i: int, j: int)
    requires
        wf_memory_map(regions),
        0 <= i < j < usable_frame_addrs(regions).len(),
    ensures
        usable_frame_addrs(regions)[i] < usable_frame_addrs(regions)[j],
    decreases regions.len(),
{
    let flat = usable_frame_addrs(regions);
    let prefix = regions.drop_last();
    let last = regions.last();
    assert(wf_memory_map(prefix));
    assert(wf_region(last));
    let plen = usable_frame_addrs(prefix).len();
    if j < plen {
        lemma_frame_addrs_strictly_increasing(prefix, i, j);
    } else if i >= plen {
        assert(flat[i] == region_usable_addrs(last)[i - plen]);
        assert(flat[j] == region_usable_addrs(last)[j - plen]);
    } else {
        lemma_addrs_below(prefix, i);
        assert(prefix.last() == regions[regions.len() - 2]);
        assert(prefix.last().end_frame_number <= last.start_frame_number);
        assert(flat[j] == region_usable_addrs(last)[j - plen]);
    }
}

/// Law: the allocation order never holds the same frame address twice, so
/// the allocator never yields a frame it has already served.
pub proof fn lemma_frame_addrs_distinct(regions: Seq<MemoryRegion>, i: int, j: int)
    requires
        wf_memory_map(regions),
        0 <= i < usable_frame_addrs(regions).len(),
        0 <= j < usable_frame_addrs(regions).len(),
        i != j,
    ensures
        usable_frame_addrs(regions)[i] != usable_frame_addrs(regions)[j],
{
    if i < j {
        lemma_frame_addrs_strictly_increasing(regions, i, j);
    } else {
        lemma_frame_addrs_strictly_increasing(regions, j, i);
    }
}

/// Every usable frame address lies inside some usable region of the map and
/// is page-aligned.
pub proof fn lemma_frame_addr_in_usable_region(regions: Seq<MemoryRegion>, i: int)
    requires
        wf_memory_map(regions),
        0 <= i < usable_frame_addrs(regions).len(),
    ensures
        usable_frame_addrs(regions)[i] as int % PAGE_SIZE as int == 0,
        exists|k: int|
            0 <= k < regions.len() && (#[trigger] regions[k]).region_type is Usable
                && regions[k].start_frame_number as int * PAGE_SIZE as int <= usable_frame_addrs(
                regions,
            )[i] as int && usable_frame_addrs(regions)[i] + PAGE_SIZE
                <= regions[k].end_frame_number as int * PAGE_SIZE as int,
    decreases regions.len(),
{
    let flat = usable_frame_addrs(regions);
    let prefix = regions.drop_last();
    let last = regions.last();
    assert(wf_memory_map(prefix));
    assert(wf_region(last));
    let plen = usable_frame_addrs(prefix).len();
    if i < plen {
        lemma_frame_addr_in_usable_region(prefix, i);
        let k = choose|k: int|
            0 <= k < prefix.len() && (#[trigger] prefix[k]).region_type is Usable
                && prefix[k].start_frame_number as int * PAGE_SIZE as int <= usable_frame_addrs(
                prefix,
            )[i] as int && usable_frame_addrs(prefix)[i] + PAGE_SIZE
                <= prefix[k].end_frame_number as int * PAGE_SIZE as int;
        assert(regions[k] == prefix[k]);
    } else {
        let off = i - plen;
        assert(flat[i] == region_usable_addrs(last)[off]);
        let k = regions.len() - 1;
        assert(regions[k].region_type is Usable);
        assert(flat[i] as int == (last.start_frame_number as int + off) * PAGE_SIZE as int);
    }
}

/// A frame allocator fed by the firmware memory map. It enumerates the
/// usable regions' frames in address order and serves the next one on each
/// request; nothing is ever freed or reused.
pub struct BootInfoFrameAllocator {
    memory_map: Vec<MemoryRegion>,
    next: u64,
}

impl BootInfoFrameAllocator {
    /// The memory map the allocator draws from.
    pub closed spec fn regions(&self) -> Seq<MemoryRegion> {
        self.memory_map@
    }

    /// How many frames have been handed out so far.
    pub closed spec fn next_index(&self) -> int {
        self.next as int
    }

    /// All frame addresses this allocator will ever return, in order.
    pub open spec fn frame_seq(&self) -> Seq<u64> {
        usable_frame_addrs(self.regions())
    }

    /// The allocator's invariant: a well-formed map and a cursor that never
    /// runs past the supply.
    pub open spec fn wf(&self) -> bool {
        &&& wf_memory_map(self.regions())
        &&& 0 <= self.next_index() <= self.frame_seq().len()
    }

    /// Create an allocator over the given memory map. The map must be the
    /// firmware's: well formed, ordered and disjoint.
    pub fn new(memory_map: Vec<MemoryRegion>) -> (r: Self)
        requires
            wf_memory_map(memory_map@),
        ensures
            r.wf(),
            r.regions() == memory_map@,
            r.next_index() == 0,
    {
        BootInfoFrameAllocator { memory_map, next: 0 }
    }

    /// The `n`th usable frame address of the map, if the map holds that many.
    fn nth_usable_frame(&self, n: u64) -> (r: Option<u64>)
        requires
            wf_memory_map(self.regions()),
        ensures
            r == if n < self.frame_seq().len() {
                Some(self.frame_seq()[n as int])
            } else {
                None::<u64>
            },
    {
        let ghost s = self.regions();
        let mut region_idx: usize = 0;
        let mut seen: u64 = 0;
        while region_idx < self.memory_map.len()
            invariant
                wf_memory_map(s),
                s == self.regions(),
                0 <= region_idx <= self.memory_map.len(),
                seen == usable_frame_addrs(s.take(region_idx as int)).len(),
                seen <= n,
            decreases self.memory_map.len() - region_idx,
        {
            let r = self.memory_map[region_idx];
            assert(r == s[region_idx as int]);
            assert(wf_region(s[region_idx as int]));
            let count: u64 = match r.region_type {
                MemoryRegionType::Usable => r.end_frame_number - r.start_frame_number,
                _ => 0,
            };
            proof {
                lemma_take_one_more(s, region_idx as int);
                assert(wf_memory_map(s.take(region_idx as int + 1)));
                lemma_addr_count_bounded(s.take(region_idx as int + 1));
                assert(s.take(region_idx as int + 1).last() == s[region_idx as int]);
            }
            if n - seen < count {
                let offset = n - seen;
                let addr = (r.start_frame_number + offset) * PAGE_SIZE;
                proof {
                    lemma_prefix_agrees(s, region_idx as int + 1);
                    assert(region_usable_addrs(r)[offset as int] == addr);
                    assert(usable_frame_addrs(s.take(region_idx as int + 1))[n as int] == addr);
                    assert(self.frame_seq()[n as int] == addr);
                }
                return Some(addr);
            }
            seen = seen + count;
            region_idx = region_idx + 1;
        }
        proof {
            assert(s.take(s.len() as int) =~= s);
        }
        None
    }

    /// Return the next usable frame's start address and advance the cursor,
    /// or `None` once the map's usable frames are exhausted.
    pub fn allocate_frame(&mut self) -> (r: Option<u64>)
        requires
            old(self).wf(),
        ensures
            final(self).wf(),
            final(self).regions() == old(self).regions(),
            r == if old(self).next_index() < old(self).frame_seq().len() {
                Some(old(self).frame_seq()[old(self).next_index()])
            } else {
                None::<u64>
            },
            final(self).next_index() == if old(self).next_index() < old(self).frame_seq().len() {
                old(self).next_index() + 1
            } else {
                old(self).next_index()
            },
    {
        let r = self.nth_usable_frame(self.next);
        if r.is_some() {
            proof {
                lemma_addr_count_bounded(self.regions());
            }
            self.next = self.next + 1;
        }
        r
    }

    /// How many usable frames remain to be served.
    pub open spec fn frames_left(&self) -> int {
        self.frame_seq().len() - self.next_index()
    }
}

} // verus!
