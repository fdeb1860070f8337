//! Building the payload's address space: the randomized stack, the
//! relocated segments, the process stack contents and the entry point.

use vstd::prelude::*;
use crate::aslr::{lemma_layout_in_windows, randomize, spec_layout, Entropy, Layout, APP_WINDOW_END, USER_STACK_SIZE};
use crate::elf::{spec_header, LoadError, PHDR_SIZE};
use crate::frame::FrameAllocator;
use crate::loader::{check_image, checked_entry, image_loads, link_base, load_elf, segment_loaded, segment_ok, spec_bias, LoadedSegment, APP_SPAN};
use crate::paging::{AddressSpace, MapError, Mapping, PageFlags, PAGE_LIMIT};
use crate::stack::{
    aux_data, build_stack, chunks, cstr, lemma_flatten_bound, push_word, stack_fits, stack_layout, views, word_bytes, AuxEntry, AuxValue, ProcessStack, AT_CLKTCK, AT_EGID, AT_EUID,
    AT_EXECFN, AT_FLAGS, AT_GID, AT_HWCAP, AT_HWCAP2, AT_PAGESZ, AT_PHDR, AT_PHENT, AT_PHNUM,
    AT_PLATFORM, AT_RANDOM, AT_SECURE, AT_UID,
};

verus! {

/// Number of pages of the stack region.
pub const STACK_PAGES: u64 = 2048;

/// What the payload is started with, once its address space is built.
pub struct Launch {
    /// Runtime entry point; zero when the payload gives no usable entry
    /// point, in which case it must not be entered.
    pub entry: u64,
    /// Runtime address of file offset 0, where the program headers are
    /// found at `load_base + e_phoff` (zero without loadable segments).
    pub load_base: u64,
    pub phnum: u16,
    pub layout: Layout,
    pub stack: ProcessStack,
    /// The loaded segments, at their biased link-time addresses; each is
    /// mapped at `vaddr + layout.relocation`.
    pub segments: Vec<LoadedSegment>,
}

/// `s1` extends `s0`, and every mapping it adds uses its own frame, free in
/// `a0` and handed out by the time the allocator became `a1`.
pub open spec fn added_fresh(s0: Seq<Mapping>, s1: Seq<Mapping>, a0: FrameAllocator, a1: FrameAllocator) -> bool {
    &&& s0.len() <= s1.len()
    &&& s1.subrange(0, s0.len() as int) == s0
    &&& forall|i: int| s0.len() <= i < s1.len() ==>
        a0.available((#[trigger] s1[i]).frame as int) && s1[i].frame < a1.watermark()
    &&& forall|i: int, j: int| s0.len() <= i < j < s1.len() ==> (#[trigger] s1[i]).frame < (#[trigger] s1[j]).frame
}

proof fn lemma_fresh_trans(s0: Seq<Mapping>, s1: Seq<Mapping>, s2: Seq<Mapping>, a0: FrameAllocator, a1: FrameAllocator, a2: FrameAllocator)
    requires
        added_fresh(s0, s1, a0, a1),
        added_fresh(s1, s2, a1, a2),
        a0.map() == a1.map(),
        a0.watermark() <= a1.watermark() <= a2.watermark(),
    ensures
        added_fresh(s0, s2, a0, a2),
{
    assert(s2.subrange(0, s0.len() as int) =~= s1.subrange(0, s1.len() as int).subrange(0, s0.len() as int));
    assert(s2.subrange(0, s0.len() as int) =~= s0) by {
        assert forall|i: int| 0 <= i < s0.len() implies s2[i] == s0[i] by {
            assert(s2.subrange(0, s1.len() as int)[i] == s1[i]);
            assert(s1.subrange(0, s0.len() as int)[i] == s0[i]);
        }
    }
    assert forall|i: int| s0.len() <= i < s2.len() implies
        a0.available((#[trigger] s2[i]).frame as int) && s2[i].frame < a2.watermark() by {
        if i < s1.len() {
            assert(s2.subrange(0, s1.len() as int)[i] == s1[i]);
        } else {
            assert(a1.available(s2[i].frame as int));
        }
    }
    assert forall|i: int, j: int| s0.len() <= i < j < s2.len() implies (#[trigger] s2[i]).frame < (#[trigger] s2[j]).frame by {
        if j < s1.len() {
            assert(s2.subrange(0, s1.len() as int)[i] == s1[i]);
            assert(s2.subrange(0, s1.len() as int)[j] == s1[j]);
        } else if i < s1.len() {
            assert(s2.subrange(0, s1.len() as int)[i] == s1[i]);
            assert(a1.available(s2[j].frame as int));
        }
    }
}

proof fn lemma_push_step(
    old_s: Seq<Mapping>,
    before: AddressSpace,
    after: AddressSpace,
    m: Mapping,
    a0: FrameAllocator,
    a_t: FrameAllocator,
    a1: FrameAllocator,
)
    requires
        after@ == before@.push(m),
        added_fresh(old_s, before@, a0, a_t),
        a_t.available(m.frame as int),
        m.frame < a1.watermark(),
        a0.map() == a_t.map(),
        a0.watermark() <= a_t.watermark() <= a1.watermark(),
    ensures
        added_fresh(old_s, after@, a0, a1),
        forall|p: u64| before.is_mapped(p) ==> after.is_mapped(p),
        after.is_mapped(m.page),
        forall|k: int| 0 <= k < before@.len() ==> after@[k] == before@[k],
{
    let n = before@.len() as int;
    assert(after@[n] == m);
    assert forall|p: u64| before.is_mapped(p) implies after.is_mapped(p) by {
        let k = choose|k: int| 0 <= k < before@.len() && (#[trigger] before@[k]).page == p;
        assert(after@[k] == before@[k]);
    }
    assert(added_fresh(before@, after@, a_t, a1)) by {
        assert(after@.subrange(0, n) =~= before@);
    }
    lemma_fresh_trans(old_s, before@, after@, a0, a_t, a1);
}

/// Maps `count` pages from `first`, each to a fresh frame. Pages mapped
/// already are skipped when `tolerate_mapped`, and are an error otherwise.
#[verifier::rlimit(40)]
fn map_range(
    space: &mut AddressSpace,
    alloc: &mut FrameAllocator,
    first: u64,
    count: u64,
    flags: PageFlags,
    tolerate_mapped: bool,
) -> (r: Result<(), LoadError>)
    requires
        old(space).wf(),
        old(alloc).wf(),
        flags.wx_safe(),
        first + count <= PAGE_LIMIT,
    ensures
        final(space).wf(),
        final(alloc).wf(),
        final(alloc).map() == old(alloc).map(),
        final(alloc).watermark() >= old(alloc).watermark(),
        added_fresh(old(space)@, final(space)@, *old(alloc), *final(alloc)),
        forall|i: int| old(space)@.len() <= i < final(space)@.len() ==>
            (#[trigger] final(space)@[i]).flags == flags && first <= final(space)@[i].page < first + count,
        match r {
            Ok(()) => {
                &&& forall|p: u64| first <= p < first + count ==> final(space).is_mapped(p)
                &&& !tolerate_mapped ==> forall|p: u64| first <= p < first + count ==> !old(space).is_mapped(p)
                &&& !tolerate_mapped ==> final(space)@.len() == old(space)@.len() + count
            },
            Err(LoadError::OutOfMemory) => forall|g: int| !final(alloc).available(g),
            Err(LoadError::StackMapConflict) => !tolerate_mapped
                && exists|p: u64| first <= p < first + count && old(space).is_mapped(p),
            Err(_) => false,
        },
{
    assert(space@.subrange(0, space@.len() as int) =~= space@);
    let mut i: u64 = 0;
    while i < count
        invariant
            i <= count,
            first + count <= PAGE_LIMIT,
            flags.wx_safe(),
            space.wf(),
            alloc.wf(),
            alloc.map() == old(alloc).map(),
            alloc.watermark() >= old(alloc).watermark(),
            added_fresh(old(space)@, space@, *old(alloc), *alloc),
            forall|k: int| old(space)@.len() <= k < space@.len() ==>
                (#[trigger] space@[k]).flags == flags && first <= space@[k].page < first + i,
            forall|p: u64| first <= p < first + i ==> space.is_mapped(p),
            !tolerate_mapped ==> forall|p: u64| first <= p < first + i ==> !old(space).is_mapped(p),
            !tolerate_mapped ==> space@.len() == old(space)@.len() + i,
        decreases count - i,
    {
        let page = first + i;
        proof {
            assert forall|p: u64| old(space).is_mapped(p) implies space.is_mapped(p) by {
                let k = choose|k: int| 0 <= k < old(space)@.len() && (#[trigger] old(space)@[k]).page == p;
                assert(space@.subrange(0, old(space)@.len() as int)[k] == old(space)@[k]);
            }
        }
        let found = space.lookup(page);
        if found.is_some() {
            proof {
                let m = found.unwrap();
                let k = choose|k: int| 0 <= k < space@.len() && space@[k] == m;
                assert(space@[k].page == page);
                assert(space.is_mapped(page));
                if k >= old(space)@.len() {
                    assert(false);
                }
                assert(old(space)@[k] == space@.subrange(0, old(space)@.len() as int)[k]);
                assert(old(space).is_mapped(page));
            }
            if !tolerate_mapped {
                return Err(LoadError::StackMapConflict);
            }
        } else {
            let ghost a_t = *alloc;
            let frame = match alloc.allocate_frame() {
                Some(f) => f,
                None => {
                    assert forall|g: int| !alloc.available(g) by {
                        assert(!a_t.available(g));
                    }
                    return Err(LoadError::OutOfMemory);
                },
            };
            let ghost before = *space;
            match space.map_to(page, frame, flags, alloc) {
                Ok(()) => {
                    proof {
                        let n = before@.len() as int;
                        lemma_push_step(old(space)@, before, *space, Mapping { page, frame, flags }, *old(alloc), a_t, *alloc);
                        assert forall|p: u64| first <= p < first + i + 1 implies space.is_mapped(p) by {
                            if p < first + i {
                                assert(before.is_mapped(p));
                            }
                        }
                        assert forall|k: int| old(space)@.len() <= k < space@.len() implies
                            (#[trigger] space@[k]).flags == flags && first <= space@[k].page < first + i + 1 by {
                            if k < n {
                                assert(space@[k] == before@[k]);
                            }
                        }
                        if !tolerate_mapped {
                            assert(!old(space).is_mapped(page)) by {
                                if old(space).is_mapped(page) {
                                    let k = choose|k: int| 0 <= k < old(space)@.len() && (#[trigger] old(space)@[k]).page == page;
                                    assert(before@.subrange(0, old(space)@.len() as int)[k] == old(space)@[k]);
                                    assert(before@[k].page == page);
                                }
                            }
                        }
                    }
                },
                Err(MapError::PageAlreadyMapped) => {
                    assert(false);
                },
                Err(MapError::FrameAllocationFailed) => {
                    return Err(LoadError::OutOfMemory);
                },
            }
        }
        i += 1;
    }
    Ok(())
}

/// "/init"
pub open spec fn spec_init() -> Seq<u8> {
    seq![0x2fu8, 0x69, 0x6e, 0x69, 0x74]
}

/// "x86_64"
pub open spec fn spec_platform() -> Seq<u8> {
    seq![0x78u8, 0x38, 0x36, 0x5f, 0x36, 0x34]
}

/// "LANG=C"
pub open spec fn spec_lang() -> Seq<u8> {
    seq![0x4cu8, 0x41, 0x4e, 0x47, 0x3d, 0x43]
}

/// The payload's argument vector: its own name.
pub open spec fn spec_args() -> Seq<Seq<u8>> {
    seq![spec_init()]
}

/// The payload's environment.
pub open spec fn spec_env() -> Seq<Seq<u8>> {
    seq![spec_lang()]
}

pub open spec fn is_word(e: AuxEntry, key: u64, v: u64) -> bool {
    e.key == key && match e.value {
        AuxValue::Word(w) => w == v,
        _ => false,
    }
}

pub open spec fn is_text(e: AuxEntry, key: u64, t: Seq<u8>) -> bool {
    e.key == key && match e.value {
        AuxValue::Text(s) => s@ == t,
        _ => false,
    }
}

pub open spec fn is_bytes(e: AuxEntry, key: u64, b: Seq<u8>) -> bool {
    e.key == key && match e.value {
        AuxValue::Bytes(s) => s@ == b,
        _ => false,
    }
}

/// The auxiliary vector handed to the payload.
pub open spec fn auxv_spec(x: Seq<AuxEntry>, phdr: u64, phnum: u64, hwcap: u64, random: Seq<u8>) -> bool {
    &&& x.len() == 16
    &&& is_text(x[0], AT_EXECFN, spec_init())
    &&& is_text(x[1], AT_PLATFORM, spec_platform())
    &&& is_word(x[2], AT_UID, 1000)
    &&& is_word(x[3], AT_EUID, 1000)
    &&& is_word(x[4], AT_GID, 1000)
    &&& is_word(x[5], AT_EGID, 1000)
    &&& is_word(x[6], AT_PAGESZ, 4096)
    &&& is_word(x[7], AT_SECURE, 0)
    &&& is_word(x[8], AT_CLKTCK, 100)
    &&& is_word(x[9], AT_FLAGS, 0)
    &&& is_word(x[10], AT_PHDR, phdr)
    &&& is_word(x[11], AT_PHENT, PHDR_SIZE)
    &&& is_word(x[12], AT_PHNUM, phnum)
    &&& is_word(x[13], AT_HWCAP, hwcap)
    &&& is_word(x[14], AT_HWCAP2, 0)
    &&& is_bytes(x[15], AT_RANDOM, random)
}

fn process_args() -> (r: Vec<Vec<u8>>)
    ensures
        views(r@) == spec_args(),
{
    let mut r: Vec<Vec<u8>> = Vec::new();
    r.push(vec![0x2fu8, 0x69, 0x6e, 0x69, 0x74]);
    assert(views(r@) =~= spec_args());
    r
}

fn process_env() -> (r: Vec<Vec<u8>>)
    ensures
        views(r@) == spec_env(),
{
    let mut r: Vec<Vec<u8>> = Vec::new();
    r.push(vec![0x4cu8, 0x41, 0x4e, 0x47, 0x3d, 0x43]);
    assert(views(r@) =~= spec_env());
    r
}

fn word(key: u64, v: u64) -> (e: AuxEntry)
    ensures
        is_word(e, key, v),
{
    AuxEntry { key, value: AuxValue::Word(v) }
}

fn auxv(phdr: u64, phnum: u64, hwcap: u64, r1: u64, r2: u64) -> (x: Vec<AuxEntry>)
    ensures
        auxv_spec(x@, phdr, phnum, hwcap, word_bytes(r1) + word_bytes(r2)),
{
    let mut random: Vec<u8> = Vec::new();
    push_word(&mut random, r1);
    push_word(&mut random, r2);
    let mut x: Vec<AuxEntry> = Vec::new();
    x.push(AuxEntry { key: AT_EXECFN, value: AuxValue::Text(vec![0x2fu8, 0x69, 0x6e, 0x69, 0x74]) });
    x.push(AuxEntry { key: AT_PLATFORM, value: AuxValue::Text(vec![0x78u8, 0x38, 0x36, 0x5f, 0x36, 0x34]) });
    x.push(word(AT_UID, 1000));
    x.push(word(AT_EUID, 1000));
    x.push(word(AT_GID, 1000));
    x.push(word(AT_EGID, 1000));
    x.push(word(AT_PAGESZ, 4096));
    x.push(word(AT_SECURE, 0));
    x.push(word(AT_CLKTCK, 100));
    x.push(word(AT_FLAGS, 0));
    x.push(word(AT_PHDR, phdr));
    x.push(word(AT_PHENT, PHDR_SIZE));
    x.push(word(AT_PHNUM, phnum));
    x.push(word(AT_HWCAP, hwcap));
    x.push(word(AT_HWCAP2, 0));
    x.push(AuxEntry { key: AT_RANDOM, value: AuxValue::Bytes(random) });
    assert(x@[0].value matches AuxValue::Text(t) && t@ == spec_init());
    assert(x@[1].value matches AuxValue::Text(t) && t@ == spec_platform());
    x
}

/// The page that holds link-time address `a` after relocation.
pub open spec fn runtime_page(a: int, relocation: u64) -> u64 {
    ((a + relocation) / 4096) as u64
}

/// Every byte of segment `seg`, relocated by `relocation`, lies in a mapped page.
pub open spec fn segment_mapped(space: AddressSpace, seg: LoadedSegment, relocation: u64) -> bool {
    forall|a: int| seg.vaddr <= a < seg.vaddr + seg.bytes@.len() ==>
        space.is_mapped(#[trigger] runtime_page(a, relocation))
}

/// Segments that fit in the payload window.
pub open spec fn segments_in_span(segs: Seq<LoadedSegment>) -> bool {
    forall|k: int| 0 <= k < segs.len() ==> {
        &&& (#[trigger] segs[k]).vaddr + segs[k].bytes@.len() <= APP_SPAN
        &&& segs[k].flags.wx_safe()
    }
}

/// Page `p` holds a byte of segment `seg` relocated by `relocation`.
pub open spec fn covers(seg: LoadedSegment, relocation: u64, p: u64) -> bool {
    &&& seg.bytes@.len() > 0
    &&& (seg.vaddr + relocation) / 4096 <= p
    &&& p <= (seg.vaddr + relocation + seg.bytes@.len() - 1) / 4096
}

/// Every mapping of `s1` past the first `n` is for a page of some segment
/// of `segs`, with that segment's protection, below the payload window's end.
pub open spec fn segment_pages(s1: Seq<Mapping>, n: int, segs: Seq<LoadedSegment>, relocation: u64) -> bool {
    forall|i: int| n <= i < s1.len() ==> {
        &&& (#[trigger] s1[i]).page < APP_WINDOW_END / 4096
        &&& exists|j: int| 0 <= j < segs.len() && covers(#[trigger] segs[j], relocation, s1[i].page)
            && s1[i].flags == segs[j].flags
    }
}

/// Maps the pages of every segment at its runtime address. Pages shared by
/// two segments keep the protection of the first.
fn map_segments(space: &mut AddressSpace, alloc: &mut FrameAllocator, segs: &Vec<LoadedSegment>, relocation: u64) -> (r: Result<(), LoadError>)
    requires
        old(space).wf(),
        old(alloc).wf(),
        segments_in_span(segs@),
        relocation + APP_SPAN <= APP_WINDOW_END,
    ensures
        final(space).wf(),
        final(alloc).wf(),
        final(alloc).map() == old(alloc).map(),
        final(alloc).watermark() >= old(alloc).watermark(),
        added_fresh(old(space)@, final(space)@, *old(alloc), *final(alloc)),
        segment_pages(final(space)@, old(space)@.len() as int, segs@, relocation),
        forall|p: u64| old(space).is_mapped(p) ==> final(space).is_mapped(p),
        match r {
            Ok(()) => forall|k: int| 0 <= k < segs@.len() ==> segment_mapped(*final(space), #[trigger] segs@[k], relocation),
            Err(e) => e == LoadError::OutOfMemory && forall|g: int| !final(alloc).available(g),
        },
{
    assert(space@.subrange(0, space@.len() as int) =~= space@);
    let mut k: usize = 0;
    while k < segs.len()
        invariant
            k <= segs@.len(),
            space.wf(),
            alloc.wf(),
            alloc.map() == old(alloc).map(),
            alloc.watermark() >= old(alloc).watermark(),
            added_fresh(old(space)@, space@, *old(alloc), *alloc),
            segment_pages(space@, old(space)@.len() as int, segs@, relocation),
            segments_in_span(segs@),
            relocation + APP_SPAN <= APP_WINDOW_END,
            forall|p: u64| old(space).is_mapped(p) ==> space.is_mapped(p),
            forall|j: int| 0 <= j < k ==> segment_mapped(*space, #[trigger] segs@[j], relocation),
        decreases segs@.len() - k,
    {
        let seg = &segs[k];
        let len: usize = seg.bytes.len();
        assert(segs@[k as int].vaddr + segs@[k as int].bytes@.len() <= APP_SPAN);
        if len > 0 {
            let start: u64 = seg.vaddr + relocation;
            let first: u64 = start / 4096;
            let last: u64 = (start + len as u64 - 1) / 4096;
            let ghost before = *space;
            let ghost a_before = *alloc;
            let res = map_range(space, alloc, first, last - first + 1, seg.flags, true);
            proof {
                lemma_fresh_trans(old(space)@, before@, space@, *old(alloc), a_before, *alloc);
                assert forall|i: int| old(space)@.len() <= i < space@.len() implies {
                    &&& (#[trigger] space@[i]).page < APP_WINDOW_END / 4096
                    &&& exists|j: int| 0 <= j < segs@.len() && covers(#[trigger] segs@[j], relocation, space@[i].page)
                        && space@[i].flags == segs@[j].flags
                } by {
                    if i < before@.len() {
                        assert(space@.subrange(0, before@.len() as int)[i] == before@[i]);
                    } else {
                        assert(covers(segs@[k as int], relocation, space@[i].page));
                    }
                }
            }
            match res {
                Ok(()) => {
                    proof {
                        assert forall|j: int| 0 <= j < k + 1 implies segment_mapped(*space, #[trigger] segs@[j], relocation) by {
                            if j < k {
                                assert(segment_mapped(before, segs@[j], relocation));
                                assert forall|a: int| segs@[j].vaddr <= a < segs@[j].vaddr + segs@[j].bytes@.len() implies
                                    space.is_mapped(#[trigger] runtime_page(a, relocation)) by {
                                    assert(before.is_mapped(runtime_page(a, relocation)));
                                }
                            } else {
                                assert forall|a: int| segs@[j].vaddr <= a < segs@[j].vaddr + segs@[j].bytes@.len() implies
                                    space.is_mapped(#[trigger] runtime_page(a, relocation)) by {
                                    let p = runtime_page(a, relocation);
                                    assert(first <= p <= last);
                                }
                            }
                        }
                    }
                },
                Err(e) => {
                    return Err(e);
                },
            }
        } else {
            assert(segment_mapped(*space, segs@[k as int], relocation));
        }
        k += 1;
    }
    Ok(())
}

/// Lowest page number of the stack region.
pub open spec fn stack_first_page(l: Layout) -> u64 {
    (l.stack_start / 4096) as u64
}

/// The address of the program-header table in the payload's memory.
pub open spec fn phdr_address(load_base: u64, phoff: u64) -> u64 {
    if phoff <= APP_SPAN { (load_base + phoff) as u64 } else { 0 }
}

/// `a` can hand out `n` distinct frames: there are `n` free frames in
/// ascending order.
pub open spec fn has_free_frames(a: FrameAllocator, n: nat) -> bool {
    exists|fs: Seq<u64>| fs.len() == n
        && (forall|i: int| 0 <= i < n ==> a.available(#[trigger] fs[i] as int))
        && (forall|i: int, j: int| 0 <= i < j < n ==> (#[trigger] fs[i]) < (#[trigger] fs[j]))
}

/// Protection of the stack pages: read/write for the payload, never executable.
pub open spec fn stack_flags() -> PageFlags {
    PageFlags { present: true, writable: true, user_accessible: true, no_execute: true }
}

/// Page `p` is mapped present, user-accessible and executable.
pub open spec fn exec_mapped(space: AddressSpace, p: u64) -> bool {
    exists|i: int| 0 <= i < space@.len() && (#[trigger] space@[i]).page == p
        && space@[i].flags.present && space@[i].flags.user_accessible && !space@[i].flags.no_execute
}

/// `l` is the launch of image `s` with the given random words and hardware
/// capabilities, whose address space is now `space`.
pub open spec fn launched(l: Launch, s: Seq<u8>, entropy: Entropy, hwcap: u64, space: AddressSpace) -> bool {
    let h = spec_header(s);
    let loads = image_loads(s, h);
    let bias = spec_bias(loads);
    let lay = spec_layout(entropy.r3);
    let e = checked_entry(l.segments@, h.entry, bias);
    &&& check_image(s) is Ok
    &&& l.layout == lay
    &&& l.phnum == h.phnum
    &&& l.segments@.len() == loads.len()
    &&& forall|k: int| 0 <= k < loads.len() ==> segment_loaded(#[trigger] l.segments@[k], s, loads[k], bias)
    &&& forall|k: int| 0 <= k < loads.len() ==> segment_mapped(space, #[trigger] l.segments@[k], lay.relocation)
    &&& forall|p: u64| stack_first_page(lay) <= p < stack_first_page(lay) + STACK_PAGES ==> space.is_mapped(p)
    &&& l.load_base == (if loads.len() > 0 { (link_base(loads, bias) + lay.relocation) as u64 } else { 0 })
    &&& l.entry == (if e != 0 && exec_mapped(space, ((e + lay.relocation) / 4096) as u64) {
        (e + lay.relocation) as u64
    } else {
        0
    })
    &&& lay.stack_start <= l.stack.sp
    &&& exists|x: Seq<AuxEntry>|
        #[trigger] auxv_spec(x, phdr_address(l.load_base, h.phoff), h.phnum as u64, hwcap,
            word_bytes(entropy.r1) + word_bytes(entropy.r2))
        && (l.stack.sp as int, l.stack.bytes@)
            == stack_layout(lay.stack_start + USER_STACK_SIZE, spec_args(), spec_env(), x)
}

/// How the launch changed the address space `s0` into `s1`: every mapping
/// it added has a fresh frame from `a0`; each is either a stack page with
/// the stack's protection or a page of a loaded segment with that
/// segment's protection; and every stack page is one it added.
pub open spec fn launch_mappings(s0: AddressSpace, s1: AddressSpace, a0: FrameAllocator, a1: FrameAllocator, l: Launch) -> bool {
    launch_mappings_at(s0, s1, a0, a1, stack_first_page(l.layout), l.segments@, l.layout.relocation)
}

pub open spec fn launch_mappings_at(
    s0: AddressSpace,
    s1: AddressSpace,
    a0: FrameAllocator,
    a1: FrameAllocator,
    first: u64,
    segs: Seq<LoadedSegment>,
    relocation: u64,
) -> bool {
    &&& added_fresh(s0@, s1@, a0, a1)
    &&& forall|i: int| 0 <= i < s1@.len() && first <= (#[trigger] s1@[i]).page < first + STACK_PAGES ==>
        i >= s0@.len() && s1@[i].flags == stack_flags()
    &&& forall|i: int| s0@.len() <= i < s1@.len() && !(first <= (#[trigger] s1@[i]).page < first + STACK_PAGES) ==>
        exists|j: int| 0 <= j < segs.len() && covers(#[trigger] segs[j], relocation, s1@[i].page)
            && s1@[i].flags == segs[j].flags
    &&& !s0.is_mapped((first - 1) as u64) ==> !s1.is_mapped((first - 1) as u64)
}

proof fn lemma_launch_mappings(
    s0: AddressSpace,
    s1: AddressSpace,
    s2: AddressSpace,
    a0: FrameAllocator,
    a1: FrameAllocator,
    a2: FrameAllocator,
    first: u64,
    segs: Seq<LoadedSegment>,
    relocation: u64,
)
    requires
        1 <= first,
        APP_WINDOW_END / 4096 < first - 1,
        added_fresh(s0@, s1@, a0, a1),
        added_fresh(s0@, s2@, a0, a2),
        s2@.subrange(0, s1@.len() as int) == s1@,
        s1@.len() <= s2@.len(),
        forall|i: int| s0@.len() <= i < s1@.len() ==>
            (#[trigger] s1@[i]).flags == stack_flags() && first <= s1@[i].page < first + STACK_PAGES,
        forall|p: u64| first <= p < first + STACK_PAGES ==> !s0.is_mapped(p),
        segment_pages(s2@, s1@.len() as int, segs, relocation),
    ensures
        launch_mappings_at(s0, s2, a0, a2, first, segs, relocation),
        (forall|g: int| !a0.available(g)) ==> !s2.is_mapped(first),
{
    assert forall|i: int| 0 <= i < s2@.len() && first <= (#[trigger] s2@[i]).page < first + STACK_PAGES implies
        i >= s0@.len() && s2@[i].flags == stack_flags() by {
        if i < s0@.len() {
            assert(s2@.subrange(0, s0@.len() as int)[i] == s0@[i]);
            assert(s0.is_mapped(s2@[i].page));
        } else if i < s1@.len() {
            assert(s2@.subrange(0, s1@.len() as int)[i] == s1@[i]);
        }
    }
    assert forall|i: int| s0@.len() <= i < s2@.len() && !(first <= (#[trigger] s2@[i]).page < first + STACK_PAGES) implies
        exists|j: int| 0 <= j < segs.len() && covers(#[trigger] segs[j], relocation, s2@[i].page)
            && s2@[i].flags == segs[j].flags by {
        if i < s1@.len() {
            assert(s2@.subrange(0, s1@.len() as int)[i] == s1@[i]);
        }
    }
    assert(!s0.is_mapped((first - 1) as u64) ==> !s2.is_mapped((first - 1) as u64)) by {
        if !s0.is_mapped((first - 1) as u64) && s2.is_mapped((first - 1) as u64) {
            let i = choose|i: int| 0 <= i < s2@.len() && (#[trigger] s2@[i]).page == (first - 1) as u64;
            if i < s0@.len() {
                assert(s2@.subrange(0, s0@.len() as int)[i] == s0@[i]);
            } else if i < s1@.len() {
                assert(s2@.subrange(0, s1@.len() as int)[i] == s1@[i]);
            }
        }
    }
    assert((forall|g: int| !a0.available(g)) ==> !s2.is_mapped(first)) by {
        if s2.is_mapped(first) {
            let i = choose|i: int| 0 <= i < s2@.len() && (#[trigger] s2@[i]).page == first;
            if i < s0@.len() {
                assert(s2@.subrange(0, s0@.len() as int)[i] == s0@[i]);
                assert(s0.is_mapped(first));
            } else {
                assert(a0.available(s2@[i].frame as int));
            }
        }
    }
}

/// The payload's stack always fits in its region.
proof fn lemma_launch_stack_fits(x: Seq<AuxEntry>, phdr: u64, phnum: u64, hwcap: u64, random: Seq<u8>)
    requires
        auxv_spec(x, phdr, phnum, hwcap, random),
        random.len() == 16,
    ensures
        stack_fits(USER_STACK_SIZE as int, spec_args(), spec_env(), x),
{
    let cs = chunks(spec_args(), spec_env(), x);
    assert(cs.len() == 18);
    assert forall|k: int| 0 <= k < cs.len() implies (#[trigger] cs[k]).len() <= 16 by {
        if k == 0 {
            assert(cs[k] == cstr(spec_init()));
        } else if k == 1 {
            assert(cs[k] == cstr(spec_lang()));
        } else {
            assert(cs[k] == aux_data(x[k - 2]));
            assert(0 <= k - 2 < 16);
        }
    }
    lemma_flatten_bound(cs, 16);
}

/// Loads the payload `image` into `space`: maps a randomized stack, maps
/// every `LOAD` segment at its randomized address, and lays out the process
/// stack. The entry point of the result is zero when the payload gives no
/// entry point in an executable, user-accessible page; such a payload must
/// not be entered. On an error the mappings of `space` are as they were.
#[verifier::rlimit(60)]
pub fn exec_elf(image: &Vec<u8>, space: &mut AddressSpace, alloc: &mut FrameAllocator, entropy: Entropy, hwcap: u64) -> (r: Result<Launch, LoadError>)
    requires
        old(space).wf(),
        old(alloc).wf(),
    ensures
        final(space).wf(),
        final(alloc).wf(),
        final(alloc).map() == old(alloc).map(),
        final(alloc).watermark() >= old(alloc).watermark(),
        forall|p: u64| old(space).is_mapped(p) ==> final(space).is_mapped(p),
        (forall|g: int| !old(alloc).available(g)) ==> r is Err,
        r is Ok ==> has_free_frames(*old(alloc), STACK_PAGES as nat),
        match r {
            Ok(l) => launched(l, image@, entropy, hwcap, *final(space))
                && launch_mappings(*old(space), *final(space), *old(alloc), *final(alloc), l),
            Err(e) => final(space)@ == old(space)@ && match check_image(image@) {
                Err(ie) => e == ie && final(alloc).watermark() == old(alloc).watermark(),
                Ok(_) => {
                    ||| e == LoadError::OutOfMemory && forall|g: int| !final(alloc).available(g)
                    ||| e == LoadError::StackMapConflict && exists|p: u64|
                        stack_first_page(spec_layout(entropy.r3)) <= p < stack_first_page(spec_layout(entropy.r3)) + STACK_PAGES
                            && old(space).is_mapped(p)
                },
            },
        },
{
    let img = match load_elf(image) {
        Ok(img) => img,
        Err(e) => {
            return Err(e);
        },
    };
    let ghost h = spec_header(image@);
    let ghost loads = image_loads(image@, h);
    let layout = randomize(entropy.r3);
    proof {
        lemma_layout_in_windows(entropy.r3, 0);
        lemma_layout_in_windows(entropy.r3, APP_SPAN as int);
        assert forall|k: int| 0 <= k < img.segments@.len() implies {
            &&& (#[trigger] img.segments@[k]).vaddr + img.segments@[k].bytes@.len() <= APP_SPAN
            &&& img.segments@[k].flags.wx_safe()
        } by {
            assert(segment_loaded(img.segments@[k], image@, loads[k], img.bias));
            assert(segment_ok(image@.len() as int, loads[k], img.bias)) by {
                assert(check_image(image@) is Ok);
                if !segment_ok(image@.len() as int, loads[k], spec_bias(loads)) {
                    assert(exists|k: int| 0 <= k < loads.len()
                        && !segment_ok(image@.len() as int, #[trigger] loads[k], spec_bias(loads)));
                }
            }
        }
    }
    let n0: usize = space.len();
    let first: u64 = layout.stack_start / 4096;
    let ghost s0 = *space;
    let ghost a0 = *alloc;
    match map_range(space, alloc, first, STACK_PAGES, PageFlags { present: true, writable: true, user_accessible: true, no_execute: true }, false) {
        Ok(()) => {},
        Err(e) => {
            space.rollback(n0);
            assert(space@ =~= old(space)@);
            return Err(e);
        },
    }
    let ghost s1 = *space;
    let ghost a1 = *alloc;
    proof {
        let fs = Seq::new(STACK_PAGES as nat, |i: int| s1@[s0@.len() + i].frame);
        assert forall|i: int| 0 <= i < STACK_PAGES implies a0.available(#[trigger] fs[i] as int) by {
            assert(a0.available(s1@[s0@.len() + i].frame as int));
        }
        assert forall|i: int, j: int| 0 <= i < j < STACK_PAGES implies (#[trigger] fs[i]) < (#[trigger] fs[j]) by {
            assert(s1@[s0@.len() + i].frame < s1@[s0@.len() + j].frame);
        }
        assert(fs.len() == STACK_PAGES as nat);
        assert(fs.len() == STACK_PAGES as nat
            && (forall|i: int| 0 <= i < STACK_PAGES as nat ==> a0.available(#[trigger] fs[i] as int))
            && (forall|i: int, j: int| 0 <= i < j < STACK_PAGES as nat ==> (#[trigger] fs[i]) < (#[trigger] fs[j])));
        assert(has_free_frames(a0, STACK_PAGES as nat));
    }
    let res = map_segments(space, alloc, &img.segments, layout.relocation);
    proof {
        lemma_fresh_trans(s0@, s1@, space@, a0, a1, *alloc);
    }
    match res {
        Ok(()) => {},
        Err(e) => {
            space.rollback(n0);
            assert(space@ =~= old(space)@);
            return Err(e);
        },
    }
    let load_base: u64 = if img.segments.len() > 0 {
        proof {
            assert(segment_loaded(img.segments@[0], image@, loads[0], img.bias));
            assert(segment_ok(image@.len() as int, loads[0], img.bias)) by {
                if !segment_ok(image@.len() as int, loads[0], spec_bias(loads)) {
                    assert(exists|k: int| 0 <= k < loads.len()
                        && !segment_ok(image@.len() as int, #[trigger] loads[k], spec_bias(loads)));
                }
            }
        }
        img.base + layout.relocation
    } else {
        0
    };
    let phdr: u64 = if img.phoff <= APP_SPAN { load_base + img.phoff } else { 0 };
    let x = auxv(phdr, img.phnum as u64, hwcap, entropy.r1, entropy.r2);
    let args = process_args();
    let env = process_env();
    let top: u64 = layout.stack_start + USER_STACK_SIZE;
    proof {
        assert((word_bytes(entropy.r1) + word_bytes(entropy.r2)).len() == 16);
        lemma_launch_stack_fits(x@, phdr, img.phnum as u64, hwcap, word_bytes(entropy.r1) + word_bytes(entropy.r2));
    }
    let stack = match build_stack(top, USER_STACK_SIZE, &args, &env, &x) {
        Ok(st) => st,
        Err(e) => {
            space.rollback(n0);
            assert(space@ =~= old(space)@);
            return Err(e);
        },
    };
    let mut entry: u64 = 0;
    if img.entry != 0 {
        proof {
            let k = choose|k: int| 0 <= k < img.segments@.len() && !(#[trigger] img.segments@[k]).flags.no_execute
                && img.segments@[k].vaddr <= h.entry + img.bias < img.segments@[k].vaddr + img.segments@[k].bytes@.len();
            assert(img.segments@[k].vaddr + img.segments@[k].bytes@.len() <= APP_SPAN);
        }
        let e: u64 = img.entry + layout.relocation;
        match space.lookup(e / 4096) {
            Some(m) => {
                if m.flags.present && m.flags.user_accessible && !m.flags.no_execute {
                    entry = e;
                }
                proof {
                    let k = choose|k: int| 0 <= k < space@.len() && space@[k] == m;
                    if exec_mapped(*space, e / 4096) {
                        let i = choose|i: int| 0 <= i < space@.len() && (#[trigger] space@[i]).page == e / 4096
                            && space@[i].flags.present && space@[i].flags.user_accessible && !space@[i].flags.no_execute;
                        assert(i == k);
                    }
                }
            },
            None => {},
        }
    }
    proof {
        assert(space@.subrange(0, s1@.len() as int) == s1@);
        lemma_launch_mappings(s0, s1, *space, a0, a1, *alloc, first, img.segments@, layout.relocation);
    }
    let l = Launch { entry, load_base, phnum: img.phnum, layout, stack, segments: img.segments };
    assert(auxv_spec(x@, phdr_address(l.load_base, h.phoff), h.phnum as u64, hwcap,
        word_bytes(entropy.r1) + word_bytes(entropy.r2)));
    Ok(l)
}

} // verus!
