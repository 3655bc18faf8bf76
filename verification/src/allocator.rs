//! Mapping the kernel heap region.
//!
//! The heap itself is an outside collaborator consumed through one
//! `init(base, size)` call; what this kernel owes it is the mapping of the
//! heap's virtual window to fresh physical frames, kernel-writable and not
//! reachable from user mode. That mapping is built here; the embedder then
//! hands the window to the allocator.

use vstd::prelude::*;
use crate::memory::BootInfoFrameAllocator;
use crate::paging::{PageMapper, PageTableFlags, zero_page};
use crate::userspace::PAGE_SIZE;

verus! {

/// Start address of the heap window.
pub const HEAP_START: u64 = 0x4444_4444_0000;

/// Size of the heap window in bytes.
pub const HEAP_SIZE: u64 = 1000 * 1024;

/// How many pages the heap window spans (its start is page-aligned and its
/// size covers whole pages).
pub open spec fn num_heap_pages() -> int {
    (HEAP_SIZE + PAGE_SIZE - 1) / (PAGE_SIZE as int)
}

/// The virtual address of the `i`th heap page.
pub open spec fn heap_page_addr(i: int) -> int {
    HEAP_START + i * PAGE_SIZE
}

/// Whether `va` is one of the heap page addresses.
pub open spec fn in_heap_range(va: u64) -> bool {
    &&& HEAP_START <= va < HEAP_START + num_heap_pages() * PAGE_SIZE
    &&& (va - HEAP_START) % (PAGE_SIZE as int) == 0
}

/// The mapped heap window: every page present and writable for the kernel
/// alone.
pub open spec fn heap_pages_mapped(m: Map<u64, crate::paging::PageInfo>) -> bool {
    forall|i: int|
        #![trigger heap_page_addr(i)]
        0 <= i < num_heap_pages() ==> {
            &&& m.contains_key(heap_page_addr(i) as u64)
            &&& m[heap_page_addr(i) as u64].flags == (PageTableFlags {
                present: true,
                writable: true,
                user_accessible: false,
            })
        }
}

/// Why heap mapping failed.
#[derive(Debug, Clone, Copy, PartialEq, Eq, Structural)]
pub enum HeapInitError {
    /// The frame allocator ran dry.
    FrameAllocationFailed,
    /// A heap page was already mapped.
    PageAlreadyMapped,
}

/// Map the heap window to fresh frames, kernel-writable. Succeeds exactly
/// when enough frames remain and no heap page is already mapped; the
/// embedder must then hand the window to the heap allocator exactly once.
/// A failure aborts boot, so earlier heap pages are not unmapped; mappings
/// that existed before the call are never disturbed.
#[verifier::loop_isolation(false)]
#[verifier::rlimit(100)]
#[verifier::spinoff_prover]
pub fn init_heap(mapper: &mut PageMapper, frame_allocator: &mut BootInfoFrameAllocator) -> (r:
    Result<(), HeapInitError>)
    requires
        old(mapper).wf(),
        old(frame_allocator).wf(),
    ensures
        final(mapper).wf(),
        final(frame_allocator).wf(),
        final(frame_allocator).regions() == old(frame_allocator).regions(),
        r is Ok <==> {
            &&& num_heap_pages() <= old(frame_allocator).frames_left()
            &&& forall|i: int|
                #![trigger heap_page_addr(i)]
                0 <= i < num_heap_pages() ==> !old(mapper)@.contains_key(heap_page_addr(i) as u64)
        },
        r is Ok ==> heap_pages_mapped(final(mapper)@),
        r is Ok ==> forall|i: int|
            #![trigger heap_page_addr(i)]
            0 <= i < num_heap_pages() ==> final(mapper)@[heap_page_addr(i) as u64].frame
                == old(frame_allocator).frame_seq()[old(frame_allocator).next_index() + i]
                && final(mapper)@[heap_page_addr(i) as u64].bytes == zero_page(),
        r is Ok ==> final(frame_allocator).next_index() == old(frame_allocator).next_index()
            + num_heap_pages(),
        r is Ok ==> forall|va: u64|
            !in_heap_range(va) ==> (#[trigger] final(mapper)@.contains_key(va)
                == old(mapper)@.contains_key(va)),
        forall|va: u64|
            #[trigger] old(mapper)@.contains_key(va) ==> final(mapper)@.contains_key(va)
                && final(mapper)@[va] == old(mapper)@[va],
        r is Err ==> r == Err::<(), HeapInitError>(HeapInitError::FrameAllocationFailed) || r
            == Err::<(), HeapInitError>(HeapInitError::PageAlreadyMapped),
        r == Err::<(), HeapInitError>(HeapInitError::FrameAllocationFailed) ==> old(
            frame_allocator,
        ).frames_left() < num_heap_pages(),
        r == Err::<(), HeapInitError>(HeapInitError::PageAlreadyMapped) ==> exists|i: int|
            0 <= i < num_heap_pages() && old(mapper)@.contains_key(
                #[trigger] (heap_page_addr(i) as u64),
            ),
{
    let ghost m0 = mapper@;
    let ghost f0 = *frame_allocator;
    let num_pages: u64 = (HEAP_SIZE + PAGE_SIZE - 1) / PAGE_SIZE;
    assert(num_pages as int == num_heap_pages());

    let flags = PageTableFlags::kernel_data();
    let mut i: u64 = 0;
    while i < num_pages
        invariant
            mapper.wf(),
            frame_allocator.wf(),
            0 <= i <= num_pages,
            frame_allocator.regions() == f0.regions(),
            frame_allocator.next_index() == f0.next_index() + i,
            flags == (PageTableFlags { present: true, writable: true, user_accessible: false }),
            forall|j: int|
                #![trigger heap_page_addr(j)]
                0 <= j < i ==> {
                    &&& mapper@.contains_key(heap_page_addr(j) as u64)
                    &&& mapper@[heap_page_addr(j) as u64].flags == flags
                    &&& mapper@[heap_page_addr(j) as u64].bytes == zero_page()
                    &&& mapper@[heap_page_addr(j) as u64].frame == f0.frame_seq()[f0.next_index()
                        + j]
                    &&& !m0.contains_key(heap_page_addr(j) as u64)
                },
            forall|va: u64|
                !(HEAP_START <= va < HEAP_START + i * PAGE_SIZE && (va - HEAP_START) % (
                PAGE_SIZE as int) == 0) ==> (#[trigger] mapper@.contains_key(va)
                    == m0.contains_key(va)),
            forall|va: u64|
                !(HEAP_START <= va < HEAP_START + i * PAGE_SIZE && (va - HEAP_START) % (
                PAGE_SIZE as int) == 0) && m0.contains_key(va) ==> #[trigger] mapper@[va]
                    == m0[va],
            forall|va: u64|
                #[trigger] m0.contains_key(va) ==> mapper@.contains_key(va) && mapper@[va]
                    == m0[va],
        decreases num_pages - i,
    {
        let page: u64 = HEAP_START + i * PAGE_SIZE;
        assert(page == heap_page_addr(i as int) as u64);
        let frame = match frame_allocator.allocate_frame() {
            None => {
                assert(f0.frames_left() <= i < num_heap_pages());
                return Err(HeapInitError::FrameAllocationFailed);
            },
            Some(f) => f,
        };
        match mapper.map_to(page, frame, flags) {
            Err(_) => {
                assert(m0.contains_key(heap_page_addr(i as int) as u64));
                return Err(HeapInitError::PageAlreadyMapped);
            },
            Ok(_) => {},
        }
        assert(!m0.contains_key(page));
        proof {
            assert forall|va: u64|
                !(HEAP_START <= va < HEAP_START + (i as int + 1) * PAGE_SIZE && (va - HEAP_START)
                    % (PAGE_SIZE as int) == 0) implies (#[trigger] mapper@.contains_key(va)
                == m0.contains_key(va)) by {
                assert(va != page);
            };
            assert forall|va: u64| #[trigger]
                m0.contains_key(va) implies mapper@.contains_key(va) && mapper@[va] == m0[va] by {
                assert(va != page);
            };
        }
        i = i + 1;
    }
    Ok(())
}

} // verus!
