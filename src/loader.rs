//! Reading a payload image into loadable segments: header validation, the
//! load bias of position-independent payloads, and the contents of every
//! `LOAD` segment (file bytes, then zero fill).

use vstd::prelude::*;
use crate::elf::{
    check_header, parse_header, check_table, parse_program_header, spec_header, spec_phdrs,
    table_in_bounds, ElfHeader, LoadError, ProgramHeader, PF_W, PF_X, PT_INTERP, PT_LOAD,
};
use crate::mem::{memcpy, splice, range};
use crate::paging::PageFlags;

verus! {

/// Load bias given to a payload whose first `LOAD` segment sits at address 0.
pub const DYN_BIAS: u64 = 0x40_0000;

/// Every segment of a payload ends below this link-time address (after bias).
pub const APP_SPAN: u64 = 0x80_0000_0000;

/// Page protection of a segment with ELF flags `pf`: writable only when not
/// executable (execute wins where the file asks for both), and never
/// executable unless the file asks for it.
pub open spec fn segment_flags(pf: u32) -> PageFlags {
    PageFlags {
        present: true,
        writable: pf & PF_W != 0 && pf & PF_X == 0,
        user_accessible: true,
        no_execute: pf & PF_X == 0,
    }
}

pub fn flags_of(pf: u32) -> (r: PageFlags)
    ensures
        r == segment_flags(pf),
        r.wx_safe(),
{
    PageFlags {
        present: true,
        writable: pf & PF_W != 0 && pf & PF_X == 0,
        user_accessible: true,
        no_execute: pf & PF_X == 0,
    }
}

/// A loadable segment that is consistent with an image of `len` bytes.
pub open spec fn segment_ok(len: int, p: ProgramHeader, bias: u64) -> bool {
    &&& p.file_size <= p.mem_size
    &&& p.mem_size <= usize::MAX
    &&& p.offset + p.file_size <= len
    &&& p.vaddr + bias + p.mem_size <= APP_SPAN
}

/// The memory image of segment `p`: its file bytes, then zeros up to its
/// memory size.
pub open spec fn segment_bytes(s: Seq<u8>, p: ProgramHeader) -> Seq<u8> {
    s.subrange(p.offset as int, p.offset + p.file_size)
        + Seq::new((p.mem_size - p.file_size) as nat, |k: int| 0u8)
}

/// A segment in memory: its (biased) link-time address, contents and protection.
pub struct LoadedSegment {
    pub vaddr: u64,
    pub bytes: Vec<u8>,
    pub flags: PageFlags,
}

pub open spec fn segment_loaded(seg: LoadedSegment, s: Seq<u8>, p: ProgramHeader, bias: u64) -> bool {
    &&& seg.vaddr == p.vaddr + bias
    &&& seg.bytes@ == segment_bytes(s, p)
    &&& seg.flags == segment_flags(p.flags)
}

/// Builds the memory image of the `LOAD` segment `p` of `image`.
pub fn map_user_segment(image: &Vec<u8>, p: &ProgramHeader, bias: u64) -> (r: LoadedSegment)
    requires
        p.p_type == PT_LOAD,
        p.file_size <= p.mem_size,
        p.mem_size <= usize::MAX,
        p.offset + p.file_size <= image@.len(),
        p.vaddr + bias + p.mem_size <= APP_SPAN,
    ensures
        segment_loaded(r, image@, *p, bias),
{
    let size: usize = p.mem_size as usize;
    let mut bytes: Vec<u8> = Vec::new();
    while bytes.len() < size
        invariant
            size == p.mem_size,
            bytes@.len() <= size,
            forall|k: int| 0 <= k < bytes@.len() ==> bytes@[k] == 0u8,
        decreases size - bytes@.len(),
    {
        bytes.push(0u8);
    }
    let ghost zeros = bytes@;
    assert(zeros.len() == p.mem_size);
    let _n: usize = image.len();
    memcpy(&mut bytes, 0, image, p.offset as usize, p.file_size as usize);
    proof {
        let data = range(image@, p.offset as int, p.offset + p.file_size);
        assert(bytes@ == splice(zeros, 0, data));
        assert(zeros.subrange(data.len() as int, zeros.len() as int)
            =~= Seq::new((p.mem_size - p.file_size) as nat, |k: int| 0u8));
        assert(zeros.subrange(0, 0) + data =~= data);
        assert(bytes@ =~= segment_bytes(image@, *p));
    }
    LoadedSegment { vaddr: p.vaddr + bias, bytes, flags: flags_of(p.flags) }
}

/// The `LOAD` entries of `hs`, in order.
pub open spec fn load_headers(hs: Seq<ProgramHeader>) -> Seq<ProgramHeader>
    decreases hs.len(),
{
    if hs.len() == 0 {
        Seq::empty()
    } else {
        let prev = load_headers(hs.drop_last());
        if hs.last().p_type == PT_LOAD {
            prev.push(hs.last())
        } else {
            prev
        }
    }
}

proof fn lemma_loads_are_load(hs: Seq<ProgramHeader>)
    ensures
        forall|j: int| 0 <= j < load_headers(hs).len() ==> (#[trigger] load_headers(hs)[j]).p_type == PT_LOAD,
    decreases hs.len(),
{
    if hs.len() > 0 {
        let prev = load_headers(hs.drop_last());
        lemma_loads_are_load(hs.drop_last());
        assert forall|j: int| 0 <= j < load_headers(hs).len() implies
            (#[trigger] load_headers(hs)[j]).p_type == PT_LOAD by {
            if hs.last().p_type == PT_LOAD && j == prev.len() {
            } else {
                assert(load_headers(hs)[j] == prev[j]);
            }
        }
    }
}

pub open spec fn has_interp(hs: Seq<ProgramHeader>) -> bool {
    exists|i: int| 0 <= i < hs.len() && (#[trigger] hs[i]).p_type == PT_INTERP
}

pub open spec fn spec_bias(loads: Seq<ProgramHeader>) -> u64 {
    if loads.len() > 0 && loads[0].vaddr == 0 {
        DYN_BIAS
    } else {
        0
    }
}

/// The `LOAD` entries of the image `s` with header `h`.
pub open spec fn image_loads(s: Seq<u8>, h: ElfHeader) -> Seq<ProgramHeader> {
    load_headers(spec_phdrs(s, h))
}

/// Whether `s` is a loadable payload, and if not, why.
pub open spec fn check_image(s: Seq<u8>) -> Result<ElfHeader, LoadError> {
    match check_header(s) {
        Err(e) => Err(e),
        Ok(h) => {
            let loads = image_loads(s, h);
            if !table_in_bounds(s.len() as int, h) {
                Err(LoadError::TruncatedHeaders)
            } else if has_interp(spec_phdrs(s, h)) {
                Err(LoadError::DynamicallyLinked)
            } else if exists|k: int| 0 <= k < loads.len()
                && !segment_ok(s.len() as int, #[trigger] loads[k], spec_bias(loads)) {
                Err(LoadError::BadSegment)
            } else if !base_ok(loads, spec_bias(loads)) {
                Err(LoadError::BadLoadBase)
            } else {
                Ok(h)
            }
        },
    }
}

/// The link-time address `e` lies in an executable segment.
pub open spec fn runs_at(segs: Seq<LoadedSegment>, e: int) -> bool {
    exists|k: int|
        0 <= k < segs.len() && !(#[trigger] segs[k]).flags.no_execute && segs[k].vaddr <= e
            < segs[k].vaddr + segs[k].bytes@.len()
}

/// Finds whether the link-time address `e` lies in an executable segment.
pub fn find_entry(segs: &Vec<LoadedSegment>, e: u64) -> (r: bool)
    ensures
        r == runs_at(segs@, e as int),
{
    let mut k: usize = 0;
    while k < segs.len()
        invariant
            k <= segs@.len(),
            forall|j: int| 0 <= j < k ==> !(!(#[trigger] segs@[j]).flags.no_execute && segs@[j].vaddr <= e
                < segs@[j].vaddr + segs@[j].bytes@.len()),
        decreases segs@.len() - k,
    {
        let seg = &segs[k];
        if !seg.flags.no_execute && seg.vaddr <= e && (e as u128) < seg.vaddr as u128 + seg.bytes.len() as u128 {
            return true;
        }
        k += 1;
    }
    false
}

/// The checked entry point: the header's entry plus the bias when that lies
/// in an executable `LOAD` segment, else zero (nothing to run).
pub open spec fn checked_entry(segs: Seq<LoadedSegment>, entry: u64, bias: u64) -> u64 {
    if runs_at(segs, entry + bias) { (entry + bias) as u64 } else { 0 }
}

/// The first `LOAD` segment places file offset 0 at a page-aligned
/// address: its file offset is not above its (biased) address, and the two
/// differ by a whole number of pages.
pub open spec fn base_ok(loads: Seq<ProgramHeader>, bias: u64) -> bool {
    loads.len() > 0 ==> {
        &&& loads[0].offset <= loads[0].vaddr + bias
        &&& (loads[0].vaddr + bias - loads[0].offset) % 4096 == 0
    }
}

/// Address of file offset 0 at link time (after bias): where the first
/// `LOAD` segment's file bytes start, minus their offset.
pub open spec fn link_base(loads: Seq<ProgramHeader>, bias: u64) -> u64 {
    if loads.len() > 0 { (loads[0].vaddr + bias - loads[0].offset) as u64 } else { 0 }
}

/// A payload read into memory, before relocation.
pub struct ElfImage {
    /// The checked entry point (see `checked_entry`); zero without one.
    pub entry: u64,
    pub phoff: u64,
    pub phnum: u16,
    pub bias: u64,
    /// Link-time address (after bias) of file offset 0; zero without segments.
    pub base: u64,
    pub segments: Vec<LoadedSegment>,
}

impl ElfImage {
    /// `self` is what loading the image `s` with header `h` gives.
    pub open spec fn loaded_from(&self, s: Seq<u8>, h: ElfHeader) -> bool {
        let loads = image_loads(s, h);
        &&& self.entry == checked_entry(self.segments@, h.entry, self.bias)
        &&& self.phoff == h.phoff
        &&& self.phnum == h.phnum
        &&& self.bias == spec_bias(loads)
        &&& self.base == link_base(loads, self.bias)
        &&& self.base % 4096 == 0
        &&& self.segments@.len() == loads.len()
        &&& forall|k: int| 0 <= k < loads.len() ==>
            segment_loaded(#[trigger] self.segments@[k], s, loads[k], self.bias)
    }
}

/// Validates `image` and builds the memory image of each `LOAD` segment.
pub fn load_elf(image: &Vec<u8>) -> (r: Result<ElfImage, LoadError>)
    ensures
        match r {
            Ok(img) => check_image(image@) is Ok && img.loaded_from(image@, spec_header(image@)),
            Err(e) => check_image(image@) == Err::<ElfHeader, LoadError>(e),
        },
{
    let h = match parse_header(image) {
        Ok(h) => h,
        Err(e) => {
            return Err(e);
        },
    };
    if !check_table(image, &h) {
        return Err(LoadError::TruncatedHeaders);
    }
    let ghost hs = spec_phdrs(image@, h);
    let mut loads: Vec<ProgramHeader> = Vec::new();
    let mut i: u16 = 0;
    while i < h.phnum
        invariant
            h == spec_header(image@),
            check_header(image@) == Ok::<ElfHeader, LoadError>(h),
            table_in_bounds(image@.len() as int, h),
            hs == spec_phdrs(image@, h),
            i <= h.phnum,
            loads@ == load_headers(hs.take(i as int)),
            forall|j: int| 0 <= j < i ==> (#[trigger] hs[j]).p_type != PT_INTERP,
        decreases h.phnum - i,
    {
        let p = parse_program_header(image, &h, i);
        assert(hs.take(i + 1).drop_last() =~= hs.take(i as int));
        if p.p_type == PT_INTERP {
            assert(hs[i as int] == p);
            return Err(LoadError::DynamicallyLinked);
        }
        if p.p_type == PT_LOAD {
            loads.push(p);
        }
        i += 1;
    }
    assert(hs.take(h.phnum as int) =~= hs);
    let bias: u64 = if loads.len() > 0 && loads[0].vaddr == 0 { DYN_BIAS } else { 0 };
    assert(!has_interp(hs));
    let mut k: usize = 0;
    while k < loads.len()
        invariant
            k <= loads@.len(),
            check_header(image@) == Ok::<ElfHeader, LoadError>(h),
            table_in_bounds(image@.len() as int, h),
            !has_interp(spec_phdrs(image@, h)),
            loads@ == image_loads(image@, h),
            bias == spec_bias(loads@),
            forall|j: int| 0 <= j < k ==> segment_ok(image@.len() as int, #[trigger] loads@[j], bias),
        decreases loads@.len() - k,
    {
        let p = loads[k];
        if !(p.file_size <= p.mem_size && p.mem_size <= usize::MAX as u64 && p.offset as u128 + p.file_size as u128 <= image.len() as u128
            && p.vaddr as u128 + bias as u128 + p.mem_size as u128 <= APP_SPAN as u128) {
            assert(!segment_ok(image@.len() as int, loads@[k as int], bias));
            return Err(LoadError::BadSegment);
        }
        k += 1;
    }
    if loads.len() > 0 && !(loads[0].offset as u128 <= loads[0].vaddr as u128 + bias as u128
        && (loads[0].vaddr as u128 + bias as u128 - loads[0].offset as u128) % 4096 == 0) {
        return Err(LoadError::BadLoadBase);
    }
    proof {
        lemma_loads_are_load(spec_phdrs(image@, h));
    }
    let mut segments: Vec<LoadedSegment> = Vec::new();
    let mut k: usize = 0;
    while k < loads.len()
        invariant
            k <= loads@.len(),
            loads@ == image_loads(image@, h),
            forall|j: int| 0 <= j < loads@.len() ==> (#[trigger] loads@[j]).p_type == PT_LOAD,
            segments@.len() == k,
            forall|j: int| 0 <= j < loads@.len() ==> segment_ok(image@.len() as int, #[trigger] loads@[j], bias),
            forall|j: int| 0 <= j < k ==> segment_loaded(#[trigger] segments@[j], image@, loads@[j], bias),
        decreases loads@.len() - k,
    {
        let seg = map_user_segment(image, &loads[k], bias);
        segments.push(seg);
        assert(segments@[k as int] == seg);
        k += 1;
    }
    let entry: u64 = if h.entry <= APP_SPAN && find_entry(&segments, h.entry + bias) { h.entry + bias } else { 0 };
    proof {
        if runs_at(segments@, h.entry + bias) {
            let k = choose|k: int| 0 <= k < segments@.len() && !(#[trigger] segments@[k]).flags.no_execute
                && segments@[k].vaddr <= h.entry + bias < segments@[k].vaddr + segments@[k].bytes@.len();
            assert(segment_ok(image@.len() as int, loads@[k], bias));
        }
    }
    let base: u64 = if loads.len() > 0 { loads[0].vaddr + bias - loads[0].offset } else { 0 };
    Ok(ElfImage { entry, phoff: h.phoff, phnum: h.phnum, bias, base, segments })
}

/// Reading back a loaded segment gives the file bytes for its file part and
/// zeros for the rest of its memory size.
pub proof fn lemma_segment_read_back(seg: LoadedSegment, s: Seq<u8>, p: ProgramHeader, bias: u64, j: int)
    requires
        segment_loaded(seg, s, p, bias),
        p.file_size <= p.mem_size,
        p.offset + p.file_size <= s.len(),
        0 <= j < p.mem_size,
    ensures
        seg.bytes@.len() == p.mem_size,
        j < p.file_size ==> seg.bytes@[j] == s[p.offset + j],
        j >= p.file_size ==> seg.bytes@[j] == 0u8,
{
}

} // verus!
