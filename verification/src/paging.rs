//! A model of the virtual page mapper.
//!
//! The hardware walks a four-level table; what the kernel's logic depends on
//! is only the finished relation it builds: which page-aligned virtual
//! address is backed by which physical frame, under which permission flags,
//! and what the backing frame holds. `PageMapper` keeps exactly that
//! relation, viewed as a map from page address to [`PageInfo`]. Writes to
//! mapped memory go through [`PageMapper::fill_page_from`] and
//! [`PageMapper::fill_page_zero`], which demand a writable mapping — the
//! page-table analogue of the hardware's write protection.

use vstd::prelude::*;
use crate::userspace::PAGE_SIZE;

verus! {

/// Permission flags of one page-table entry, as far as this kernel sets
/// them: present, writable, reachable from user mode.
#[derive(Debug, Clone, Copy, PartialEq, Eq, Structural)]
pub struct PageTableFlags {
    /// The mapping is live; the hardware may use it.
    pub present: bool,
    /// Stores through this page are allowed.
    pub writable: bool,
    /// Ring-3 code may touch the page.
    pub user_accessible: bool,
}

impl PageTableFlags {
    /// Flags of a live kernel-writable page.
    pub fn kernel_data() -> (r: Self)
        ensures
            r == (PageTableFlags { present: true, writable: true, user_accessible: false }),
    {
        PageTableFlags { present: true, writable: true, user_accessible: false }
    }

    /// Flags of a live user-writable page.
    pub fn user_data() -> (r: Self)
        ensures
            r == (PageTableFlags { present: true, writable: true, user_accessible: true }),
    {
        PageTableFlags { present: true, writable: true, user_accessible: true }
    }

    /// Flags of a live user page whose contents may no longer be written.
    pub fn user_readonly() -> (r: Self)
        ensures
            r == (PageTableFlags { present: true, writable: false, user_accessible: true }),
    {
        PageTableFlags { present: true, writable: false, user_accessible: true }
    }
}

/// What one mapping means: the backing frame's start address, the entry's
/// flags, and the frame's contents.
pub ghost struct PageInfo {
    /// Start address of the backing physical frame.
    pub frame: u64,
    /// Permission flags of the entry.
    pub flags: PageTableFlags,
    /// The `PAGE_SIZE` bytes the frame holds.
    pub bytes: Seq<u8>,
}

/// Failures of the mapping primitives.
#[derive(Debug, Clone, Copy, PartialEq, Eq, Structural)]
pub enum PagingError {
    /// `map_to` refused: the page already has a live mapping.
    PageAlreadyMapped,
    /// `update_flags` refused: the page has no mapping to change.
    PageNotMapped,
}

/// One live mapping held by the mapper.
struct MappedPage {
    page: u64,
    frame: u64,
    flags: PageTableFlags,
    bytes: Vec<u8>,
}

/// The meaning of one stored entry.
spec fn page_info_of(e: MappedPage) -> PageInfo {
    PageInfo { frame: e.frame, flags: e.flags, bytes: e.bytes@ }
}

/// The mapping relation a sequence of entries denotes.
spec fn entries_map(s: Seq<MappedPage>) -> Map<u64, PageInfo>
    decreases s.len(),
{
    if s.len() == 0 {
        Map::empty()
    } else {
        entries_map(s.drop_last()).insert(s.last().page, page_info_of(s.last()))
    }
}

/// No page address occurs twice among the entries.
spec fn unique_pages(s: Seq<MappedPage>) -> bool {
    forall|i: int, j: int| 0 <= i < j < s.len() ==> (#[trigger] s[i]).page != (#[trigger] s[j]).page
}

/// A page address is in the denoted map exactly when some entry holds it.
proof fn lemma_map_contains(s: Seq<MappedPage>, va: u64)
    ensures
        entries_map(s).contains_key(va) <==> exists|i: int|
            0 <= i < s.len() && (#[trigger] s[i]).page == va,
    decreases s.len(),
{
    if s.len() > 0 {
        lemma_map_contains(s.drop_last(), va);
        if s.last().page == va {
            assert(s[s.len() - 1].page == va);
        } else if entries_map(s).contains_key(va) {
            let i = choose|i: int| 0 <= i < s.drop_last().len() && (#[trigger] s.drop_last()[i]).page == va;
            assert(s[i].page == va);
        } else if exists|i: int| 0 <= i < s.len() && (#[trigger] s[i]).page == va {
            let i = choose|i: int| 0 <= i < s.len() && (#[trigger] s[i]).page == va;
            assert(s.drop_last()[i].page == va);
        }
    }
}

/// With unique page addresses, each entry is what the denoted map returns
/// for its page.
proof fn lemma_map_value(s: Seq<MappedPage>, i: int)
    requires
        unique_pages(s),
        0 <= i < s.len(),
    ensures
        entries_map(s).contains_key(s[i].page),
        entries_map(s)[s[i].page] == page_info_of(s[i]),
    decreases s.len(),
{
    if i == s.len() - 1 {
    } else {
        assert(unique_pages(s.drop_last()));
        assert(s.drop_last()[i] == s[i]);
        lemma_map_value(s.drop_last(), i);
        assert(s[i].page != s.last().page);
    }
}

/// Replacing the entry of one page rewrites exactly that page's image in
/// the denoted map.
proof fn lemma_map_update(s: Seq<MappedPage>, i: int, e: MappedPage)
    requires
        unique_pages(s),
        0 <= i < s.len(),
        e.page == s[i].page,
    ensures
        entries_map(s.update(i, e)) =~= entries_map(s).insert(e.page, page_info_of(e)),
    decreases s.len(),
{
    let s2 = s.update(i, e);
    if i == s.len() - 1 {
        assert(s2.drop_last() =~= s.drop_last());
        assert(s2.last() == e);
    } else {
        assert(s2.drop_last() =~= s.drop_last().update(i, e));
        assert(unique_pages(s.drop_last()));
        assert(s.drop_last()[i] == s[i]);
        lemma_map_update(s.drop_last(), i, e);
        assert(s2.last() == s.last());
        assert(e.page != s.last().page);
    }
}

/// The model page mapper: the one live instance of the kernel's address
/// space, passed by exclusive reference through the call chain.
pub struct PageMapper {
    entries: Vec<MappedPage>,
}

impl PageMapper {
    /// The mapping relation: page address to frame, flags and contents.
    pub closed spec fn view(&self) -> Map<u64, PageInfo> {
        entries_map(self.entries@)
    }

    /// The mapper's invariant: one entry per page, page-aligned addresses,
    /// full frames behind them.
    pub closed spec fn wf(&self) -> bool {
        &&& unique_pages(self.entries@)
        &&& forall|i: int|
            0 <= i < self.entries@.len() ==> (#[trigger] self.entries@[i]).page as int % (
            PAGE_SIZE as int) == 0
        &&& forall|i: int|
            0 <= i < self.entries@.len() ==> (#[trigger] self.entries@[i]).bytes@.len()
                == PAGE_SIZE
    }

    /// Every mapped page of a well-formed mapper is page-aligned and backed
    /// by a full frame image.
    pub proof fn lemma_wf_mapped(&self, page: u64)
        requires
            self.wf(),
            self@.contains_key(page),
        ensures
            page as int % (PAGE_SIZE as int) == 0,
            self@[page].bytes.len() == PAGE_SIZE,
    {
        lemma_map_contains(self.entries@, page);
        let i = choose|i: int|
            0 <= i < self.entries@.len() && (#[trigger] self.entries@[i]).page == page;
        lemma_map_value(self.entries@, i);
    }

    /// An empty address-space model: nothing mapped.
    pub fn new() -> (r: Self)
        ensures
            r.wf(),
            r@ =~= Map::<u64, PageInfo>::empty(),
    {
        PageMapper { entries: Vec::new() }
    }

    /// The position of the entry holding `page`, if any.
    fn index_of_page(&self, page: u64) -> (r: Option<usize>)
        ensures
            match r {
                Some(i) => i < self.entries@.len() && self.entries@[i as int].page == page,
                None => forall|i: int|
                    0 <= i < self.entries@.len() ==> (#[trigger] self.entries@[i]).page != page,
            },
    {
        let mut i: usize = 0;
        while i < self.entries.len()
            invariant
                0 <= i <= self.entries@.len(),
                forall|j: int| 0 <= j < i ==> (#[trigger] self.entries@[j]).page != page,
            decreases self.entries@.len() - i,
        {
            if self.entries[i].page == page {
                return Some(i);
            }
            i = i + 1;
        }
        None
    }

    /// The flags of `page`'s mapping, if it has one.
    pub fn page_flags(&self, page: u64) -> (r: Option<PageTableFlags>)
        requires
            self.wf(),
        ensures
            r == if self@.contains_key(page) {
                Some(self@[page].flags)
            } else {
                None::<PageTableFlags>
            },
    {
        proof {
            lemma_map_contains(self.entries@, page);
        }
        match self.index_of_page(page) {
            None => None,
            Some(i) => {
                proof {
                    lemma_map_value(self.entries@, i as int);
                }
                Some(self.entries[i].flags)
            },
        }
    }

    /// Whether `page` currently has a live mapping.
    pub fn is_mapped(&self, page: u64) -> (r: bool)
        ensures
            r == self@.contains_key(page),
    {
        proof {
            lemma_map_contains(self.entries@, page);
        }
        self.index_of_page(page).is_some()
    }

    /// Map `page` to `frame` under `flags`. Refused when the page already
    /// has a mapping; in the model a freshly mapped frame reads as zeroes
    /// until it is filled.
    pub fn map_to(&mut self, page: u64, frame: u64, flags: PageTableFlags) -> (r: Result<
        (),
        PagingError,
    >)
        requires
            old(self).wf(),
            page as int % (PAGE_SIZE as int) == 0,
        ensures
            final(self).wf(),
            old(self)@.contains_key(page) ==> r == Err::<(), PagingError>(
                PagingError::PageAlreadyMapped,
            ) && final(self)@ == old(self)@,
            !old(self)@.contains_key(page) ==> r == Ok::<(), PagingError>(()) && final(self)@
                =~= old(self)@.insert(page, PageInfo { frame, flags, bytes: zero_page() }),
    {
        proof {
            lemma_map_contains(self.entries@, page);
        }
        if self.index_of_page(page).is_some() {
            return Err(PagingError::PageAlreadyMapped);
        }
        let mut bytes: Vec<u8> = Vec::new();
        let mut k: usize = 0;
        while k < 4096
            invariant
                0 <= k <= 4096,
                bytes@ =~= Seq::new(k as nat, |j: int| 0u8),
            decreases 4096 - k,
        {
            bytes.push(0u8);
            k = k + 1;
        }
        let entry = MappedPage { page, frame, flags, bytes };
        proof {
            let s = self.entries@;
            let s2 = s.push(entry);
            assert(s2.drop_last() =~= s);
            assert(forall|i: int| 0 <= i < s.len() ==> (#[trigger] s2[i]) == s[i]);
        }
        self.entries.push(entry);
        Ok(())
    }

    /// Rewrite the flags of an already-mapped page, leaving its frame and
    /// contents untouched. Refused when the page has no mapping.
    pub fn update_flags(&mut self, page: u64, flags: PageTableFlags) -> (r: Result<
        (),
        PagingError,
    >)
        requires
            old(self).wf(),
        ensures
            final(self).wf(),
            !old(self)@.contains_key(page) ==> r == Err::<(), PagingError>(
                PagingError::PageNotMapped,
            ) && final(self)@ == old(self)@,
            old(self)@.contains_key(page) ==> r == Ok::<(), PagingError>(()) && final(self)@
                =~= old(self)@.insert(
                page,
                PageInfo {
                    frame: old(self)@[page].frame,
                    flags,
                    bytes: old(self)@[page].bytes,
                },
            ),
    {
        proof {
            lemma_map_contains(self.entries@, page);
        }
        match self.index_of_page(page) {
            None => Err(PagingError::PageNotMapped),
            Some(i) => {
                proof {
                    lemma_map_value(self.entries@, i as int);
                }
                let old_entry = &self.entries[i];
                let entry = MappedPage {
                    page,
                    frame: old_entry.frame,
                    flags,
                    bytes: clone_bytes(&old_entry.bytes),
                };
                proof {
                    lemma_map_update(self.entries@, i as int, entry);
                }
                self.entries.set(i, entry);
                Ok(())
            },
        }
    }

    /// Store a full frame image on a mapped, writable page. This is the only
    /// way memory contents change in the model, and it demands write
    /// permission — the page-table analogue of hardware write protection.
    fn store_page(&mut self, page: u64, bytes: Vec<u8>)
        requires
            old(self).wf(),
            old(self)@.contains_key(page),
            old(self)@[page].flags.present,
            old(self)@[page].flags.writable,
            bytes@.len() == PAGE_SIZE,
        ensures
            final(self).wf(),
            final(self)@ =~= old(self)@.insert(
                page,
                PageInfo {
                    frame: old(self)@[page].frame,
                    flags: old(self)@[page].flags,
                    bytes: bytes@,
                },
            ),
    {
        proof {
            lemma_map_contains(self.entries@, page);
        }
        let i = self.index_of_page(page).unwrap();
        proof {
            lemma_map_value(self.entries@, i as int);
        }
        let old_entry = &self.entries[i];
        let entry = MappedPage { page, frame: old_entry.frame, flags: old_entry.flags, bytes };
        proof {
            lemma_map_update(self.entries@, i as int, entry);
        }
        self.entries.set(i, entry);
    }

    /// Copy into a mapped, writable page the up-to-one-page chunk of `src`
    /// that starts at byte offset `start`, zero-filling the rest of the
    /// frame. A `start` at or past the end of `src` zero-fills the whole
    /// page.
    pub fn fill_page_from(&mut self, page: u64, src: &[u8], start: u64)
        requires
            old(self).wf(),
            old(self)@.contains_key(page),
            old(self)@[page].flags.present,
            old(self)@[page].flags.writable,
        ensures
            final(self).wf(),
            final(self)@ =~= old(self)@.insert(
                page,
                PageInfo {
                    frame: old(self)@[page].frame,
                    flags: old(self)@[page].flags,
                    bytes: padded_page(page_chunk(src@, start as int)),
                },
            ),
    {
        let ghost chunk = page_chunk(src@, start as int);
        let len: usize = src.len();
        let mut bytes: Vec<u8> = Vec::new();
        if start < len as u64 {
            let s = start as usize;
            let avail = len - s;
            let count = if avail < 4096 {
                avail
            } else {
                4096
            };
            assert(count as int == chunk.len());
            let mut k: usize = 0;
            while k < count
                invariant
                    0 <= k <= count,
                    s + count <= len == src@.len(),
                    count as int == chunk.len(),
                    chunk =~= src@.subrange(s as int, s as int + count),
                    bytes@ =~= chunk.take(k as int),
                decreases count - k,
            {
                bytes.push(src[s + k]);
                k = k + 1;
            }
            assert(bytes@ =~= chunk);
        } else {
            assert(chunk =~= Seq::<u8>::empty());
        }
        let base = bytes.len();
        let mut k: usize = base;
        while k < 4096
            invariant
                chunk.len() <= k <= 4096,
                bytes@ =~= chunk + Seq::new((k - chunk.len()) as nat, |j: int| 0u8),
            decreases 4096 - k,
        {
            bytes.push(0u8);
            k = k + 1;
        }
        assert(bytes@ =~= padded_page(chunk));
        self.store_page(page, bytes);
    }

    /// Zero a mapped, writable page, as the loader does for fresh stack
    /// pages.
    pub fn fill_page_zero(&mut self, page: u64)
        requires
            old(self).wf(),
            old(self)@.contains_key(page),
            old(self)@[page].flags.present,
            old(self)@[page].flags.writable,
        ensures
            final(self).wf(),
            final(self)@ =~= old(self)@.insert(
                page,
                PageInfo {
                    frame: old(self)@[page].frame,
                    flags: old(self)@[page].flags,
                    bytes: zero_page(),
                },
            ),
    {
        let mut bytes: Vec<u8> = Vec::new();
        let mut k: usize = 0;
        while k < 4096
            invariant
                0 <= k <= 4096,
                bytes@ =~= Seq::new(k as nat, |j: int| 0u8),
            decreases 4096 - k,
        {
            bytes.push(0u8);
            k = k + 1;
        }
        assert(bytes@ =~= zero_page());
        self.store_page(page, bytes);
    }

    /// The byte a user-mode load would see at virtual address `addr`, when
    /// the page holding it is mapped, present and user-accessible.
    pub fn read_user_byte(&self, addr: u64) -> (r: Option<u8>)
        requires
            self.wf(),
        ensures
            r == if user_readable(self@, addr as int) {
                Some(user_byte_at(self@, addr as int))
            } else {
                None::<u8>
            },
    {
        let page = addr - (addr % PAGE_SIZE);
        assert(page == align_down(addr as int));
        proof {
            lemma_map_contains(self.entries@, page);
        }
        match self.index_of_page(page) {
            None => None,
            Some(i) => {
                proof {
                    lemma_map_value(self.entries@, i as int);
                }
                let e = &self.entries[i];
                if e.flags.present && e.flags.user_accessible {
                    Some(e.bytes[(addr % PAGE_SIZE) as usize])
                } else {
                    None
                }
            },
        }
    }
}

/// `data` extended with zeroes to a full frame image.
pub open spec fn padded_page(data: Seq<u8>) -> Seq<u8> {
    data + Seq::new((PAGE_SIZE - data.len()) as nat, |j: int| 0u8)
}

/// A frame image of zeroes, as a freshly mapped page reads in this model.
pub open spec fn zero_page() -> Seq<u8> {
    Seq::new(PAGE_SIZE as nat, |j: int| 0u8)
}

/// The up-to-one-page chunk of `s` that starts at byte offset `start`:
/// empty once `start` is at or past the end of `s`.
pub open spec fn page_chunk(s: Seq<u8>, start: int) -> Seq<u8> {
    if start >= s.len() {
        Seq::empty()
    } else if start + PAGE_SIZE <= s.len() {
        s.subrange(start, start + PAGE_SIZE)
    } else {
        s.subrange(start, s.len() as int)
    }
}

/// The start address of the page holding byte address `a`.
pub open spec fn align_down(a: int) -> u64 {
    (a - a % (PAGE_SIZE as int)) as u64
}

/// Whether a user-mode load of byte address `a` succeeds under the mapping
/// relation `m`.
pub open spec fn user_readable(m: Map<u64, PageInfo>, a: int) -> bool {
    &&& m.contains_key(align_down(a))
    &&& m[align_down(a)].flags.present
    &&& m[align_down(a)].flags.user_accessible
}

/// The byte a user-mode load of address `a` returns under `m`.
pub open spec fn user_byte_at(m: Map<u64, PageInfo>, a: int) -> u8 {
    m[align_down(a)].bytes[a % (PAGE_SIZE as int)]
}

/// Whether a user-mode store to byte address `a` succeeds under `m`.
pub open spec fn user_writable(m: Map<u64, PageInfo>, a: int) -> bool {
    user_readable(m, a) && m[align_down(a)].flags.writable
}

/// An exact copy of a byte vector.
fn clone_bytes(v: &Vec<u8>) -> (r: Vec<u8>)
    ensures
        r@ =~= v@,
{
    let mut out: Vec<u8> = Vec::new();
    let mut i: usize = 0;
    while i < v.len()
        invariant
            0 <= i <= v@.len(),
            out@ =~= v@.take(i as int),
        decreases v@.len() - i,
    {
        out.push(v[i]);
        i = i + 1;
    }
    proof {
        assert(v@.take(v@.len() as int) =~= v@);
    }
    out
}

} // verus!
