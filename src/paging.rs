//! The address-space mapper: virtual pages mapped to physical frames with
//! protection flags, and the page-table frames that the mapping needs.

use vstd::prelude::*;
use crate::frame::FrameAllocator;
use x86_64::structures::paging::PageTableFlags;

verus! {

/// Protection of one mapped page.
#[derive(Clone, Copy, Debug, PartialEq, Eq, Structural)]
pub struct PageFlags {
    pub present: bool,
    pub writable: bool,
    pub user_accessible: bool,
    pub no_execute: bool,
}

impl PageFlags {
    /// A page is never both writable and executable.
    pub open spec fn wx_safe(self) -> bool {
        !(self.writable && !self.no_execute)
    }

    /// The hardware encoding of the flags in a page-table entry.
    pub open spec fn spec_bits(self) -> u64 {
        ((if self.present { 1u64 } else { 0u64 })
            | (if self.writable { 2u64 } else { 0u64 })
            | (if self.user_accessible { 4u64 } else { 0u64 })
            | (if self.no_execute { 0x8000_0000_0000_0000u64 } else { 0u64 }))
    }

    pub fn bits(&self) -> (r: u64)
        ensures
            r == self.spec_bits(),
    {
        flag_bits(self.present, self.writable, self.user_accessible, self.no_execute)
    }
}

/// Relies on x86_64's `PageTableFlags`: PRESENT is bit 0, WRITABLE bit 1,
/// USER_ACCESSIBLE bit 2 and NO_EXECUTE bit 63 of an entry.
#[verifier::external_body]
fn flag_bits(present: bool, writable: bool, user: bool, no_execute: bool) -> (r: u64)
    ensures
        r == ((if present { 1u64 } else { 0u64 }) | (if writable { 2u64 } else { 0u64 })
            | (if user { 4u64 } else { 0u64 })
            | (if no_execute { 0x8000_0000_0000_0000u64 } else { 0u64 })),
{
    let mut f = PageTableFlags::empty();
    f.set(PageTableFlags::PRESENT, present);
    f.set(PageTableFlags::WRITABLE, writable);
    f.set(PageTableFlags::USER_ACCESSIBLE, user);
    f.set(PageTableFlags::NO_EXECUTE, no_execute);
    f.bits()
}

/// Virtual page number `page` maps to the frame at physical address `frame`.
#[derive(Clone, Copy, Debug, PartialEq, Eq, Structural)]
pub struct Mapping {
    pub page: u64,
    pub frame: u64,
    pub flags: PageFlags,
}

impl Mapping {
    /// The page-table entry that holds this mapping.
    pub fn entry_word(&self) -> (r: u64)
        ensures
            r == self.frame | self.flags.spec_bits(),
    {
        self.frame | self.flags.bits()
    }
}

#[derive(Clone, Copy, Debug, PartialEq, Eq, Structural)]
pub enum MapError {
    /// No frame was left for a page table; fatal for the address space.
    FrameAllocationFailed,
    /// The page is mapped already; the caller decides whether that matters.
    PageAlreadyMapped,
}

/// Number of page-table levels above the leaf entries.
pub const TABLE_LEVELS: u64 = 3;

/// A table of `level` (1 = leaf table) that covers page numbers with `prefix`.
#[derive(Clone, Copy, Debug, PartialEq, Eq, Structural)]
pub struct TableId {
    pub level: u64,
    pub prefix: u64,
}

/// One top-level page table and everything below it.
pub struct AddressSpace {
    mappings: Vec<Mapping>,
    tables: Vec<TableId>,
}

/// The highest virtual page number plus one (48-bit addresses).
pub const PAGE_LIMIT: u64 = 0x10_0000_0000;

pub open spec fn table_prefix(page: u64, level: u64) -> u64 {
    (page >> (9 * level)) as u64
}

impl AddressSpace {
    pub closed spec fn view(&self) -> Seq<Mapping> {
        self.mappings@
    }

    pub closed spec fn tables(&self) -> Seq<TableId> {
        self.tables@
    }

    /// Page numbers are unique and no page is writable and executable.
    pub open spec fn wf(&self) -> bool {
        &&& forall|i: int, j: int|
            0 <= i < j < self@.len() ==> #[trigger] self@[i].page != #[trigger] self@[j].page
        &&& forall|i: int| 0 <= i < self@.len() ==> (#[trigger] self@[i]).flags.wx_safe()
    }

    pub open spec fn is_mapped(&self, page: u64) -> bool {
        exists|i: int| 0 <= i < self@.len() && (#[trigger] self@[i]).page == page
    }

    pub open spec fn has_table(&self, t: TableId) -> bool {
        self.tables().contains(t)
    }

    pub fn new() -> (r: AddressSpace)
        ensures
            r.wf(),
            r@.len() == 0,
            r.tables().len() == 0,
    {
        AddressSpace { mappings: Vec::new(), tables: Vec::new() }
    }

    /// Number of mappings.
    pub fn len(&self) -> (r: usize)
        ensures
            r == self@.len(),
    {
        self.mappings.len()
    }

    /// Drops every mapping made after the first `n`. The page-table frames
    /// taken meanwhile stay with the address space.
    pub fn rollback(&mut self, n: usize)
        requires
            old(self).wf(),
            n <= old(self)@.len(),
        ensures
            final(self).wf(),
            final(self)@ == old(self)@.take(n as int),
    {
        self.mappings.truncate(n);
        assert(self@ =~= old(self)@.take(n as int));
    }

    /// The mapping of `page`, if there is one.
    pub fn lookup(&self, page: u64) -> (r: Option<Mapping>)
        requires
            self.wf(),
        ensures
            match r {
                Some(m) => m.page == page && self@.contains(m),
                None => !self.is_mapped(page),
            },
    {
        let mut i: usize = 0;
        while i < self.mappings.len()
            invariant
                i <= self@.len(),
                forall|k: int| 0 <= k < i ==> (#[trigger] self@[k]).page != page,
            decreases self@.len() - i,
        {
            if self.mappings[i].page == page {
                return Some(self.mappings[i]);
            }
            i += 1;
        }
        None
    }

    fn find_table(&self, t: TableId) -> (r: bool)
        ensures
            r == self.has_table(t),
    {
        let mut i: usize = 0;
        while i < self.tables.len()
            invariant
                i <= self.tables().len(),
                forall|k: int| 0 <= k < i ==> self.tables()[k] != t,
            decreases self.tables().len() - i,
        {
            if self.tables[i] == t {
                return true;
            }
            i += 1;
        }
        false
    }

    /// Makes sure the table `t` exists, taking a frame for it if it does not.
    fn ensure_table(&mut self, t: TableId, alloc: &mut FrameAllocator) -> (r: Result<(), MapError>)
        requires
            old(alloc).wf(),
        ensures
            final(alloc).wf(),
            final(alloc).map() == old(alloc).map(),
            final(alloc).watermark() >= old(alloc).watermark(),
            final(self)@ == old(self)@,
            r is Ok ==> final(self).has_table(t),
            forall|u: TableId| old(self).has_table(u) ==> final(self).has_table(u),
            r is Err ==> r == Err::<(), MapError>(MapError::FrameAllocationFailed)
                && forall|g: int| !final(alloc).available(g),
    {
        if self.find_table(t) {
            return Ok(());
        }
        match alloc.allocate_frame() {
            Some(_f) => {
                self.tables.push(t);
                proof {
                    assert(self.tables()[self.tables().len() - 1] == t);
                    assert forall|u: TableId| old(self).has_table(u) implies self.has_table(u) by {
                        let k = choose|k: int| 0 <= k < old(self).tables().len() && old(self).tables()[k] == u;
                        assert(self.tables()[k] == u);
                    }
                }
                Ok(())
            },
            None => {
                assert forall|g: int| !alloc.available(g) by {
                    assert(!old(alloc).available(g));
                }
                Err(MapError::FrameAllocationFailed)
            },
        }
    }

    /// Maps `page` to `frame` with `flags`, creating the page tables on the
    /// way with frames from `alloc`.
    pub fn map_to(&mut self, page: u64, frame: u64, flags: PageFlags, alloc: &mut FrameAllocator) -> (r: Result<(), MapError>)
        requires
            old(self).wf(),
            old(alloc).wf(),
            flags.wx_safe(),
            page < PAGE_LIMIT,
        ensures
            final(self).wf(),
            final(alloc).wf(),
            final(alloc).map() == old(alloc).map(),
            final(alloc).watermark() >= old(alloc).watermark(),
            match r {
                Ok(()) => {
                    &&& !old(self).is_mapped(page)
                    &&& final(self)@ == old(self)@.push(Mapping { page, frame, flags })
                    &&& forall|l: u64| 1 <= l <= TABLE_LEVELS ==>
                        final(self).has_table(TableId { level: l, prefix: table_prefix(page, l) })
                },
                Err(MapError::PageAlreadyMapped) => {
                    &&& old(self).is_mapped(page)
                    &&& final(self)@ == old(self)@
                },
                Err(MapError::FrameAllocationFailed) => {
                    &&& !old(self).is_mapped(page)
                    &&& final(self)@ == old(self)@
                    &&& forall|g: int| !final(alloc).available(g)
                },
            },
    {
        if self.lookup(page).is_some() {
            return Err(MapError::PageAlreadyMapped);
        }
        let mut level: u64 = TABLE_LEVELS;
        while level > 0
            invariant
                level <= TABLE_LEVELS,
                self.wf(),
                alloc.wf(),
                alloc.map() == old(alloc).map(),
                alloc.watermark() >= old(alloc).watermark(),
                self@ == old(self)@,
                !old(self).is_mapped(page),
                forall|l: u64| level < l <= TABLE_LEVELS ==>
                    self.has_table(TableId { level: l, prefix: table_prefix(page, l) }),
            decreases level,
        {
            let t = TableId { level, prefix: page >> (9 * level) };
            match self.ensure_table(t, alloc) {
                Ok(()) => {},
                Err(e) => {
                    return Err(e);
                },
            }
            level -= 1;
        }
        let m = Mapping { page, frame, flags };
        self.mappings.push(m);
        proof {
            assert forall|i: int| 0 <= i < self@.len() implies (#[trigger] self@[i]).flags.wx_safe() by {
                if i < old(self)@.len() {
                    assert(self@[i] == old(self)@[i]);
                }
            }
            assert forall|i: int, j: int| 0 <= i < j < self@.len() implies
                #[trigger] self@[i].page != #[trigger] self@[j].page by {
                if j == self@.len() - 1 {
                    assert(self@[i] == old(self)@[i]);
                }
            }
        }
        Ok(())
    }
}

/// No page of a well-formed address space is both writable and executable.
pub proof fn lemma_never_writable_and_executable(space: AddressSpace, i: int)
    requires
        space.wf(),
        0 <= i < space@.len(),
    ensures
        !(space@[i].flags.writable && !space@[i].flags.no_execute),
{
}

} // verus!
