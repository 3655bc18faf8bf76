//! Loading a flat user binary under write-xor-execute.
//!
//! The loader maps the binary's pages and a fixed stack window into the
//! user-accessible part of the address space. Hardware page permissions are
//! page-granular, so loading runs in two phases: every page is first mapped
//! writable so the bytes can be copied in, then the pages of the read-only
//! prefix lose their write permission. Mapping failures abort immediately
//! with a descriptive error and without rolling back pages already mapped —
//! the boot path halts on such a failure, so the leak is accepted.

use vstd::prelude::*;
use crate::memory::BootInfoFrameAllocator;
use crate::paging::{PageInfo, PageMapper, PageTableFlags, padded_page, page_chunk, zero_page};
use crate::userspace::{
    PAGE_SIZE, USER_CODE_START, USER_STACK_BOTTOM, USER_STACK_SIZE, USER_STACK_TOP,
};

verus! {

/// Why loading a user process failed. Every variant is fatal to the boot
/// path that requested the load.
#[derive(Debug, Clone, Copy, PartialEq, Eq, Structural)]
pub enum ProcessError {
    /// The frame allocator ran dry while mapping the binary.
    BinaryFrameAllocation,
    /// A binary page was already mapped.
    BinaryPageMapping,
    /// Clearing the write permission of a read-only page failed.
    ReadOnlyFlagUpdate,
    /// The frame allocator ran dry while mapping the stack.
    StackFrameAllocation,
    /// A stack page was already mapped.
    StackPageMapping,
}

/// How many pages the binary spans.
pub open spec fn num_binary_pages(len: int) -> int {
    (len + PAGE_SIZE - 1) / (PAGE_SIZE as int)
}

/// The virtual address of the `i`th binary page.
pub open spec fn binary_page_addr(i: int) -> int {
    USER_CODE_START + i * PAGE_SIZE
}

/// The virtual address of the `i`th stack page.
pub open spec fn stack_page_addr(i: int) -> int {
    USER_STACK_BOTTOM + i * PAGE_SIZE
}

/// How many pages the user stack window spans.
pub open spec fn num_stack_pages() -> int {
    USER_STACK_SIZE as int / (PAGE_SIZE as int)
}

/// Whether `va` is one of the first `count` binary page addresses.
pub open spec fn in_binary_range(va: u64, count: int) -> bool {
    &&& USER_CODE_START <= va < USER_CODE_START + count * PAGE_SIZE
    &&& (va - USER_CODE_START) % (PAGE_SIZE as int) == 0
}

/// Whether `va` is one of the stack page addresses.
pub open spec fn in_stack_range(va: u64) -> bool {
    &&& USER_STACK_BOTTOM <= va < USER_STACK_TOP
    &&& (va - USER_STACK_BOTTOM) % (PAGE_SIZE as int) == 0
}

/// The loaded image: page `i` of the binary is mapped at its address,
/// carries the binary's bytes for that page zero-padded to a full frame, is
/// present and user-accessible, and is writable exactly when it lies beyond
/// the read-only prefix of `ro_pages` pages.
pub open spec fn binary_image_mapped(m: Map<u64, PageInfo>, binary: Seq<u8>, ro_pages: int) -> bool {
    forall|i: int|
        #![trigger binary_page_addr(i)]
        0 <= i < num_binary_pages(binary.len() as int) ==> {
            &&& m.contains_key(binary_page_addr(i) as u64)
            &&& m[binary_page_addr(i) as u64].flags == (PageTableFlags {
                present: true,
                writable: i >= ro_pages,
                user_accessible: true,
            })
            &&& m[binary_page_addr(i) as u64].bytes == padded_page(
                page_chunk(binary, i * (PAGE_SIZE as int)),
            )
        }
}

/// The mapped stack window: every page of it present, writable,
/// user-accessible and zeroed.
pub open spec fn stack_pages_mapped(m: Map<u64, PageInfo>) -> bool {
    forall|i: int|
        #![trigger stack_page_addr(i)]
        0 <= i < num_stack_pages() ==> {
            &&& m.contains_key(stack_page_addr(i) as u64)
            &&& m[stack_page_addr(i) as u64].flags == (PageTableFlags {
                present: true,
                writable: true,
                user_accessible: true,
            })
            &&& m[stack_page_addr(i) as u64].bytes == zero_page()
        }
}

/// An address inside the binary's page range is mapped once the image is.
pub proof fn lemma_in_binary_range_mapped(
    m: Map<u64, PageInfo>,
    binary: Seq<u8>,
    ro_pages: int,
    va: u64,
)
    requires
        binary_image_mapped(m, binary, ro_pages),
        in_binary_range(va, num_binary_pages(binary.len() as int)),
    ensures
        m.contains_key(va),
{
    let j = (va - USER_CODE_START) / (PAGE_SIZE as int);
    assert(binary_page_addr(j) == va);
    assert(0 <= j < num_binary_pages(binary.len() as int));
}

/// Phase one of the load: map every page the binary spans as present,
/// writable and user-accessible, back it with a freshly allocated frame,
/// and copy the binary's bytes in, zero-filling tails and pages past the
/// binary's end.
#[verifier::loop_isolation(false)]
#[verifier::rlimit(100)]
#[verifier::spinoff_prover]
fn map_binary_pages(
    binary: &[u8],
    mapper: &mut PageMapper,
    frame_allocator: &mut BootInfoFrameAllocator,
) -> (r: Result<(), ProcessError>)
    requires
        old(mapper).wf(),
        old(frame_allocator).wf(),
        binary@.len() + PAGE_SIZE <= 0x8000_0000_0000,
    ensures
        final(mapper).wf(),
        final(frame_allocator).wf(),
        final(frame_allocator).regions() == old(frame_allocator).regions(),
        r is Ok <==> {
            &&& num_binary_pages(binary@.len() as int) <= old(frame_allocator).frames_left()
            &&& forall|i: int|
                #![trigger binary_page_addr(i)]
                0 <= i < num_binary_pages(binary@.len() as int) ==> !old(mapper)@.contains_key(
                    binary_page_addr(i) as u64,
                )
        },
        r is Ok ==> final(frame_allocator).next_index() == old(frame_allocator).next_index()
            + num_binary_pages(binary@.len() as int),
        r is Ok ==> forall|j: int|
            #![trigger binary_page_addr(j)]
            0 <= j < num_binary_pages(binary@.len() as int) ==> {
                &&& final(mapper)@.contains_key(binary_page_addr(j) as u64)
                &&& final(mapper)@[binary_page_addr(j) as u64].flags == (PageTableFlags {
                    present: true,
                    writable: true,
                    user_accessible: true,
                })
                &&& final(mapper)@[binary_page_addr(j) as u64].bytes == padded_page(
                    page_chunk(binary@, j * (PAGE_SIZE as int)),
                )
                &&& final(mapper)@[binary_page_addr(j) as u64].frame == old(
                    frame_allocator,
                ).frame_seq()[old(frame_allocator).next_index() + j]
            },
        r is Ok ==> forall|va: u64|
            !in_binary_range(va, num_binary_pages(binary@.len() as int)) ==> (
            #[trigger] final(mapper)@.contains_key(va) == old(mapper)@.contains_key(va)),
        r is Ok ==> forall|va: u64|
            !in_binary_range(va, num_binary_pages(binary@.len() as int)) && old(
                mapper,
            )@.contains_key(va) ==> #[trigger] final(mapper)@[va] == old(mapper)@[va],
        forall|va: u64|
            #[trigger] old(mapper)@.contains_key(va) ==> final(mapper)@.contains_key(va)
                && final(mapper)@[va] == old(mapper)@[va],
        r is Err ==> r == Err::<(), ProcessError>(ProcessError::BinaryFrameAllocation) || r
            == Err::<(), ProcessError>(ProcessError::BinaryPageMapping),
        r == Err::<(), ProcessError>(ProcessError::BinaryFrameAllocation) ==> old(
            frame_allocator,
        ).frames_left() < num_binary_pages(binary@.len() as int),
        r == Err::<(), ProcessError>(ProcessError::BinaryPageMapping) ==> exists|i: int|
            0 <= i < num_binary_pages(binary@.len() as int) && old(mapper)@.contains_key(
                #[trigger] (binary_page_addr(i) as u64),
            ),
{
    let ghost m0 = mapper@;
    let ghost f0 = *frame_allocator;
    let num_pages: u64 = ((binary.len() as u64) + PAGE_SIZE - 1) / PAGE_SIZE;
    let ghost n = num_binary_pages(binary@.len() as int);
    assert(num_pages as int == n);

    let mut i: u64 = 0;
    while i < num_pages
        invariant
            mapper.wf(),
            frame_allocator.wf(),
            0 <= i <= num_pages,
            frame_allocator.regions() == f0.regions(),
            frame_allocator.next_index() == f0.next_index() + i,
            forall|j: int|
                #![trigger binary_page_addr(j)]
                0 <= j < i ==> {
                    &&& mapper@.contains_key(binary_page_addr(j) as u64)
                    &&& mapper@[binary_page_addr(j) as u64].flags == (PageTableFlags {
                        present: true,
                        writable: true,
                        user_accessible: true,
                    })
                    &&& mapper@[binary_page_addr(j) as u64].bytes == padded_page(
                        page_chunk(binary@, j * (PAGE_SIZE as int)),
                    )
                    &&& mapper@[binary_page_addr(j) as u64].frame == f0.frame_seq()[f0.next_index()
                        + j]
                    &&& !m0.contains_key(binary_page_addr(j) as u64)
                },
            forall|va: u64|
                !in_binary_range(va, i as int) ==> (#[trigger] mapper@.contains_key(va)
                    == m0.contains_key(va)),
            forall|va: u64|
                !in_binary_range(va, i as int) && m0.contains_key(va) ==> #[trigger] mapper@[va]
                    == m0[va],
            forall|va: u64|
                #[trigger] m0.contains_key(va) ==> mapper@.contains_key(va) && mapper@[va]
                    == m0[va],
        decreases num_pages - i,
    {
        let page: u64 = USER_CODE_START + i * PAGE_SIZE;
        assert(page == binary_page_addr(i as int) as u64);
        assert(!in_binary_range(page, i as int));
        let frame = match frame_allocator.allocate_frame() {
            None => {
                assert(f0.frames_left() <= i < n);
                return Err(ProcessError::BinaryFrameAllocation);
            },
            Some(f) => f,
        };
        match mapper.map_to(page, frame, PageTableFlags::user_data()) {
            Err(_) => {
                assert(m0.contains_key(binary_page_addr(i as int) as u64));
                return Err(ProcessError::BinaryPageMapping);
            },
            Ok(_) => {},
        }
        assert(!m0.contains_key(page));
        mapper.fill_page_from(page, binary, i * PAGE_SIZE);
        proof {
            assert forall|va: u64| !in_binary_range(va, i as int + 1) implies (
            #[trigger] mapper@.contains_key(va) == m0.contains_key(va)) by {
                assert(va != page);
                assert(!in_binary_range(va, i as int));
            };
            assert forall|va: u64| #[trigger] m0.contains_key(va) implies mapper@.contains_key(va)
                && mapper@[va] == m0[va] by {
                assert(va != page);
            };
        }
        i = i + 1;
    }
    proof {
        assert forall|va: u64| #[trigger] m0.contains_key(va) implies mapper@.contains_key(va)
            && mapper@[va] == m0[va] by {};
    }
    Ok(())
}

/// Phase two of the load: clear the write permission of the first `ro_end`
/// binary pages, all of which phase one mapped. Nothing else changes, and
/// with the pages mapped the walk cannot fail.
#[verifier::loop_isolation(false)]
#[verifier::rlimit(100)]
#[verifier::spinoff_prover]
fn protect_readonly_pages(mapper: &mut PageMapper, num_pages: u64, ro_end: u64) -> (r: Result<
    (),
    ProcessError,
>)
    requires
        old(mapper).wf(),
        ro_end <= num_pages,
        num_pages * PAGE_SIZE <= 0x8000_0000_0000,
        forall|j: int|
            #![trigger binary_page_addr(j)]
            0 <= j < num_pages ==> old(mapper)@.contains_key(binary_page_addr(j) as u64),
    ensures
        final(mapper).wf(),
        r == Ok::<(), ProcessError>(()),
        forall|va: u64| #[trigger]
            final(mapper)@.contains_key(va) == old(mapper)@.contains_key(va),
        forall|j: int|
            #![trigger binary_page_addr(j)]
            0 <= j < ro_end ==> final(mapper)@[binary_page_addr(j) as u64] == (PageInfo {
                frame: old(mapper)@[binary_page_addr(j) as u64].frame,
                flags: PageTableFlags { present: true, writable: false, user_accessible: true },
                bytes: old(mapper)@[binary_page_addr(j) as u64].bytes,
            }),
        forall|va: u64|
            old(mapper)@.contains_key(va) && !in_binary_range(va, ro_end as int)
                ==> #[trigger] final(mapper)@[va] == old(mapper)@[va],
{
    let ghost m1 = mapper@;
    let mut k: u64 = 0;
    while k < ro_end
        invariant
            mapper.wf(),
            0 <= k <= ro_end,
            forall|va: u64| #[trigger]
                mapper@.contains_key(va) == m1.contains_key(va),
            forall|j: int|
                #![trigger binary_page_addr(j)]
                0 <= j < k ==> mapper@[binary_page_addr(j) as u64] == (PageInfo {
                    frame: m1[binary_page_addr(j) as u64].frame,
                    flags: PageTableFlags {
                        present: true,
                        writable: false,
                        user_accessible: true,
                    },
                    bytes: m1[binary_page_addr(j) as u64].bytes,
                }),
            forall|va: u64|
                m1.contains_key(va) && !in_binary_range(va, k as int) ==> #[trigger] mapper@[va]
                    == m1[va],
        decreases ro_end - k,
    {
        let page: u64 = USER_CODE_START + k * PAGE_SIZE;
        assert(page == binary_page_addr(k as int) as u64);
        assert(mapper@.contains_key(page));
        let ghost mp_before = mapper@;
        match mapper.update_flags(page, PageTableFlags::user_readonly()) {
            Err(_) => {
                return Err(ProcessError::ReadOnlyFlagUpdate);
            },
            Ok(_) => {},
        }
        proof {
            assert forall|j: int| #![trigger binary_page_addr(j)] 0 <= j < k as int
                + 1 implies mapper@[binary_page_addr(j) as u64] == (PageInfo {
                frame: m1[binary_page_addr(j) as u64].frame,
                flags: PageTableFlags { present: true, writable: false, user_accessible: true },
                bytes: m1[binary_page_addr(j) as u64].bytes,
            }) by {
                if j < k as int {
                    assert(binary_page_addr(j) != binary_page_addr(k as int));
                    assert((binary_page_addr(j) as u64) != page);
                    assert(mapper@[binary_page_addr(j) as u64] == mp_before[binary_page_addr(j)
                        as u64]);
                } else {
                    assert(!in_binary_range(page, k as int));
                    assert(mp_before[page] == m1[page]);
                }
            };
            assert forall|va: u64|
                m1.contains_key(va) && !in_binary_range(va, k as int + 1) implies
            #[trigger] mapper@[va] == m1[va] by {
                assert(va != page);
                assert(!in_binary_range(va, k as int));
            };
        }
        k = k + 1;
    }
    Ok(())
}

/// Map the flat binary at the user code base under write-xor-execute.
///
/// Succeeds exactly when enough frames remain and no spanned page was
/// already mapped; the pages then carry the binary's bytes, backed by the
/// frames the allocator serves next, in order, and the pages of the
/// page-aligned `readonly_size` prefix end up non-writable. A failure
/// leaves earlier pages mapped but never disturbs mappings that existed
/// before the call.
#[verifier::rlimit(100)]
#[verifier::spinoff_prover]
pub fn map_user_binary(
    binary: &[u8],
    readonly_size: usize,
    mapper: &mut PageMapper,
    frame_allocator: &mut BootInfoFrameAllocator,
) -> (r: Result<(), ProcessError>)
    requires
        old(mapper).wf(),
        old(frame_allocator).wf(),
        readonly_size as int % (PAGE_SIZE as int) == 0,
        binary@.len() + PAGE_SIZE <= 0x8000_0000_0000,
    ensures
        final(mapper).wf(),
        final(frame_allocator).wf(),
        final(frame_allocator).regions() == old(frame_allocator).regions(),
        r is Ok <==> {
            &&& num_binary_pages(binary@.len() as int) <= old(frame_allocator).frames_left()
            &&& forall|i: int|
                #![trigger binary_page_addr(i)]
                0 <= i < num_binary_pages(binary@.len() as int) ==> !old(mapper)@.contains_key(
                    binary_page_addr(i) as u64,
                )
        },
        r is Ok ==> binary_image_mapped(
            final(mapper)@,
            binary@,
            readonly_size as int / (PAGE_SIZE as int),
        ),
        r is Ok ==> forall|i: int|
            #![trigger binary_page_addr(i)]
            0 <= i < num_binary_pages(binary@.len() as int) ==> final(mapper)@[binary_page_addr(i)
                as u64].frame == old(frame_allocator).frame_seq()[old(
                frame_allocator,
            ).next_index() + i],
        r is Ok ==> final(frame_allocator).next_index() == old(frame_allocator).next_index()
            + num_binary_pages(binary@.len() as int),
        r is Ok ==> forall|va: u64|
            !in_binary_range(va, num_binary_pages(binary@.len() as int)) ==> (
            #[trigger] final(mapper)@.contains_key(va) == old(mapper)@.contains_key(va)),
        forall|va: u64|
            #[trigger] old(mapper)@.contains_key(va) ==> final(mapper)@.contains_key(va)
                && final(mapper)@[va] == old(mapper)@[va],
        r is Err ==> r == Err::<(), ProcessError>(ProcessError::BinaryFrameAllocation) || r
            == Err::<(), ProcessError>(ProcessError::BinaryPageMapping),
        r == Err::<(), ProcessError>(ProcessError::BinaryFrameAllocation) ==> old(
            frame_allocator,
        ).frames_left() < num_binary_pages(binary@.len() as int),
        r == Err::<(), ProcessError>(ProcessError::BinaryPageMapping) ==> exists|i: int|
            0 <= i < num_binary_pages(binary@.len() as int) && old(mapper)@.contains_key(
                #[trigger] (binary_page_addr(i) as u64),
            ),
{
    let ghost m0 = mapper@;
    let num_pages: u64 = ((binary.len() as u64) + PAGE_SIZE - 1) / PAGE_SIZE;
    let readonly_pages: u64 = (readonly_size as u64) / PAGE_SIZE;
    let ghost n = num_binary_pages(binary@.len() as int);
    assert(num_pages as int == n);

    match map_binary_pages(binary, mapper, frame_allocator) {
        Err(e) => {
            return Err(e);
        },
        Ok(_) => {},
    }
    let ghost m1 = mapper@;

    let ro_end: u64 = if readonly_pages < num_pages {
        readonly_pages
    } else {
        num_pages
    };
    match protect_readonly_pages(mapper, num_pages, ro_end) {
        Err(_) => {
            return Err(ProcessError::ReadOnlyFlagUpdate);
        },
        Ok(_) => {},
    }
    proof {
        let ro = readonly_size as int / (PAGE_SIZE as int);
        assert forall|i: int| #![trigger binary_page_addr(i)] 0 <= i < n implies {
            &&& mapper@.contains_key(binary_page_addr(i) as u64)
            &&& mapper@[binary_page_addr(i) as u64].flags == (PageTableFlags {
                present: true,
                writable: i >= ro,
                user_accessible: true,
            })
            &&& mapper@[binary_page_addr(i) as u64].bytes == padded_page(
                page_chunk(binary@, i * (PAGE_SIZE as int)),
            )
            &&& mapper@[binary_page_addr(i) as u64].frame == old(frame_allocator).frame_seq()[old(
                frame_allocator,
            ).next_index() + i]
        } by {
            assert(m1.contains_key(binary_page_addr(i) as u64));
            if i >= ro_end as int {
                assert(!in_binary_range(binary_page_addr(i) as u64, ro_end as int));
                assert(mapper@[binary_page_addr(i) as u64] == m1[binary_page_addr(i) as u64]);
            }
        };
        assert forall|va: u64| #[trigger] m0.contains_key(va) implies mapper@.contains_key(va)
            && mapper@[va] == m0[va] by {
            assert(m1.contains_key(va) && m1[va] == m0[va]);
            if in_binary_range(va, n) {
                let j = (va - USER_CODE_START) / (PAGE_SIZE as int);
                assert(binary_page_addr(j) == va);
                assert(!m0.contains_key(binary_page_addr(j) as u64));
            }
            assert(!in_binary_range(va, ro_end as int));
        };
    }
    Ok(())
}

/// Map and zero the fixed user stack window below the stack top. Succeeds
/// exactly when enough frames remain and no stack page was already mapped;
/// a failure leaves earlier stack pages mapped but never disturbs mappings
/// that existed before the call.
#[verifier::loop_isolation(false)]
#[verifier::rlimit(100)]
#[verifier::spinoff_prover]
pub fn map_user_stack(mapper: &mut PageMapper, frame_allocator: &mut BootInfoFrameAllocator) -> (r:
    Result<(), ProcessError>)
    requires
        old(mapper).wf(),
        old(frame_allocator).wf(),
    ensures
        final(mapper).wf(),
        final(frame_allocator).wf(),
        final(frame_allocator).regions() == old(frame_allocator).regions(),
        r is Ok <==> {
            &&& num_stack_pages() <= old(frame_allocator).frames_left()
            &&& forall|i: int|
                #![trigger stack_page_addr(i)]
                0 <= i < num_stack_pages() ==> !old(mapper)@.contains_key(
                    stack_page_addr(i) as u64,
                )
        },
        r is Ok ==> stack_pages_mapped(final(mapper)@),
        r is Ok ==> forall|i: int|
            #![trigger stack_page_addr(i)]
            0 <= i < num_stack_pages() ==> final(mapper)@[stack_page_addr(i) as u64].frame == old(
                frame_allocator,
            ).frame_seq()[old(frame_allocator).next_index() + i],
        r is Ok ==> final(frame_allocator).next_index() == old(frame_allocator).next_index()
            + num_stack_pages(),
        r is Ok ==> forall|va: u64|
            !in_stack_range(va) ==> (#[trigger] final(mapper)@.contains_key(va) == old(
                mapper,
            )@.contains_key(va)),
        forall|va: u64|
            #[trigger] old(mapper)@.contains_key(va) ==> final(mapper)@.contains_key(va)
                && final(mapper)@[va] == old(mapper)@[va],
        r is Err ==> r == Err::<(), ProcessError>(ProcessError::StackFrameAllocation) || r
            == Err::<(), ProcessError>(ProcessError::StackPageMapping),
        r == Err::<(), ProcessError>(ProcessError::StackFrameAllocation) ==> old(
            frame_allocator,
        ).frames_left() < num_stack_pages(),
        r == Err::<(), ProcessError>(ProcessError::StackPageMapping) ==> exists|i: int|
            0 <= i < num_stack_pages() && old(mapper)@.contains_key(
                #[trigger] (stack_page_addr(i) as u64),
            ),
{
    let ghost m0 = mapper@;
    let ghost f0 = *frame_allocator;
    let num_pages: u64 = USER_STACK_SIZE / PAGE_SIZE;
    assert(num_pages as int == num_stack_pages());

    let mut i: u64 = 0;
    while i < num_pages
        invariant
            mapper.wf(),
            frame_allocator.wf(),
            0 <= i <= num_pages,
            frame_allocator.regions() == f0.regions(),
            frame_allocator.next_index() == f0.next_index() + i,
            forall|j: int|
                #![trigger stack_page_addr(j)]
                0 <= j < i ==> {
                    &&& mapper@.contains_key(stack_page_addr(j) as u64)
                    &&& mapper@[stack_page_addr(j) as u64].flags == (PageTableFlags {
                        present: true,
                        writable: true,
                        user_accessible: true,
                    })
                    &&& mapper@[stack_page_addr(j) as u64].bytes == zero_page()
                    &&& mapper@[stack_page_addr(j) as u64].frame == f0.frame_seq()[f0.next_index()
                        + j]
                    &&& !m0.contains_key(stack_page_addr(j) as u64)
                },
            forall|va: u64|
                !(USER_STACK_BOTTOM <= va < USER_STACK_BOTTOM + i * PAGE_SIZE && (va
                    - USER_STACK_BOTTOM) % (PAGE_SIZE as int) == 0) ==> (
                #[trigger] mapper@.contains_key(va) == m0.contains_key(va)),
            forall|va: u64|
                !(USER_STACK_BOTTOM <= va < USER_STACK_BOTTOM + i * PAGE_SIZE && (va
                    - USER_STACK_BOTTOM) % (PAGE_SIZE as int) == 0) && m0.contains_key(va)
                    ==> #[trigger] mapper@[va] == m0[va],
            forall|va: u64|
                #[trigger] m0.contains_key(va) ==> mapper@.contains_key(va) && mapper@[va]
                    == m0[va],
        decreases num_pages - i,
    {
        let page: u64 = USER_STACK_BOTTOM + i * PAGE_SIZE;
        assert(page == stack_page_addr(i as int) as u64);
        let frame = match frame_allocator.allocate_frame() {
            None => {
                assert(f0.frames_left() <= i < num_stack_pages());
                return Err(ProcessError::StackFrameAllocation);
            },
            Some(f) => f,
        };
        match mapper.map_to(page, frame, PageTableFlags::user_data()) {
            Err(_) => {
                assert(m0.contains_key(stack_page_addr(i as int) as u64));
                return Err(ProcessError::StackPageMapping);
            },
            Ok(_) => {},
        }
        assert(!m0.contains_key(page));
        mapper.fill_page_zero(page);
        proof {
            assert forall|va: u64|
                !(USER_STACK_BOTTOM <= va < USER_STACK_BOTTOM + (i as int + 1) * PAGE_SIZE && (va
                    - USER_STACK_BOTTOM) % (PAGE_SIZE as int) == 0) implies (
            #[trigger] mapper@.contains_key(va) == m0.contains_key(va)) by {
                assert(va != page);
            };
            assert forall|va: u64| #[trigger] m0.contains_key(va) implies mapper@.contains_key(va)
                && mapper@[va] == m0[va] by {
                assert(va != page);
            };
        }
        i = i + 1;
    }
    proof {
        assert forall|va: u64| #[trigger] m0.contains_key(va) implies mapper@.contains_key(va)
            && mapper@[va] == m0[va] by {};
    }
    Ok(())
}

} // verus!
