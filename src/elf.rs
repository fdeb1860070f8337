//! The parts of a 64-bit little-endian ELF image that the loader reads:
//! the file header and the program-header table.

use vstd::prelude::*;

verus! {

pub const EHDR_SIZE: u64 = 64;
pub const PHDR_SIZE: u64 = 56;
pub const ELFCLASS64: u8 = 2;
pub const ELFDATA2LSB: u8 = 1;
pub const EM_X86_64: u16 = 62;
pub const PT_LOAD: u32 = 1;
pub const PT_INTERP: u32 = 3;
pub const PF_X: u32 = 1;
pub const PF_W: u32 = 2;
pub const PF_R: u32 = 4;

/// Why an image was refused or could not be loaded.
#[derive(Clone, Copy, Debug, PartialEq, Eq, Structural)]
pub enum LoadError {
    /// Too short for a file header, or no ELF magic number.
    NotElf,
    /// Not a 64-bit little-endian image.
    UnsupportedClass,
    /// Built for another machine than x86-64.
    WrongMachine,
    /// The program-header table does not lie inside the image.
    TruncatedHeaders,
    /// The image asks for an interpreter: only static payloads run.
    DynamicallyLinked,
    /// A loadable segment is inconsistent: its file part is larger than its
    /// memory part, lies outside the image, or the segment leaves the
    /// payload window.
    BadSegment,
    /// The first loadable segment does not put file offset 0 at a
    /// page-aligned address.
    BadLoadBase,
    /// Physical memory ran out while building the address space.
    OutOfMemory,
    /// A stack page was mapped already.
    StackMapConflict,
    /// The process stack does not fit in its reserved region.
    StackOverflow,
    /// No strong random source, and pseudo-random values are not allowed.
    NoEntropy,
}

pub open spec fn u16_at(s: Seq<u8>, o: int) -> int {
    s[o] + s[o + 1] * 0x100
}

pub open spec fn u32_at(s: Seq<u8>, o: int) -> int {
    u16_at(s, o) + u16_at(s, o + 2) * 0x1_0000
}

pub open spec fn u64_at(s: Seq<u8>, o: int) -> int {
    u32_at(s, o) + u32_at(s, o + 4) * 0x1_0000_0000
}

pub fn read_u16(s: &Vec<u8>, o: usize) -> (r: u16)
    requires
        o + 2 <= s@.len(),
    ensures
        r == u16_at(s@, o as int),
{
    let _n: usize = s.len();
    s[o] as u16 + (s[o + 1] as u16) * 0x100
}

pub fn read_u32(s: &Vec<u8>, o: usize) -> (r: u32)
    requires
        o + 4 <= s@.len(),
    ensures
        r == u32_at(s@, o as int),
{
    let _n: usize = s.len();
    read_u16(s, o) as u32 + (read_u16(s, o + 2) as u32) * 0x1_0000
}

pub fn read_u64(s: &Vec<u8>, o: usize) -> (r: u64)
    requires
        o + 8 <= s@.len(),
    ensures
        r == u64_at(s@, o as int),
{
    let _n: usize = s.len();
    read_u32(s, o) as u64 + (read_u32(s, o + 4) as u64) * 0x1_0000_0000
}

/// The file-header fields that loading needs.
#[derive(Clone, Copy, Debug, PartialEq, Eq, Structural)]
pub struct ElfHeader {
    pub entry: u64,
    pub phoff: u64,
    pub phentsize: u16,
    pub phnum: u16,
}

/// One entry of the program-header table.
#[derive(Clone, Copy, Debug, PartialEq, Eq, Structural)]
pub struct ProgramHeader {
    pub p_type: u32,
    pub flags: u32,
    pub offset: u64,
    pub vaddr: u64,
    pub paddr: u64,
    pub file_size: u64,
    pub mem_size: u64,
    pub align: u64,
}

pub open spec fn has_magic(s: Seq<u8>) -> bool {
    s[0] == 0x7f && s[1] == 0x45 && s[2] == 0x4c && s[3] == 0x46
}

pub open spec fn spec_header(s: Seq<u8>) -> ElfHeader {
    ElfHeader {
        entry: u64_at(s, 24) as u64,
        phoff: u64_at(s, 32) as u64,
        phentsize: u16_at(s, 54) as u16,
        phnum: u16_at(s, 56) as u16,
    }
}

/// What reading the file header of `s` gives.
pub open spec fn check_header(s: Seq<u8>) -> Result<ElfHeader, LoadError> {
    if s.len() < EHDR_SIZE || !has_magic(s) {
        Err(LoadError::NotElf)
    } else if s[4] != ELFCLASS64 || s[5] != ELFDATA2LSB {
        Err(LoadError::UnsupportedClass)
    } else if u16_at(s, 18) != EM_X86_64 {
        Err(LoadError::WrongMachine)
    } else {
        Ok(spec_header(s))
    }
}

/// Validates the file header of `image` and reads its fields.
pub fn parse_header(image: &Vec<u8>) -> (r: Result<ElfHeader, LoadError>)
    ensures
        r == check_header(image@),
{
    if image.len() < 64 || image[0] != 0x7f || image[1] != 0x45 || image[2] != 0x4c || image[3] != 0x46 {
        return Err(LoadError::NotElf);
    }
    if image[4] != ELFCLASS64 || image[5] != ELFDATA2LSB {
        return Err(LoadError::UnsupportedClass);
    }
    if read_u16(image, 18) != EM_X86_64 {
        return Err(LoadError::WrongMachine);
    }
    Ok(ElfHeader {
        entry: read_u64(image, 24),
        phoff: read_u64(image, 32),
        phentsize: read_u16(image, 54),
        phnum: read_u16(image, 56),
    })
}

/// Every entry of the program-header table lies inside the image.
pub open spec fn table_in_bounds(len: int, h: ElfHeader) -> bool {
    h.phnum == 0 || (h.phentsize >= PHDR_SIZE && h.phoff + (h.phnum - 1) * h.phentsize + PHDR_SIZE <= len)
}

pub open spec fn phdr_offset(h: ElfHeader, i: int) -> int {
    h.phoff + i * h.phentsize
}

pub open spec fn spec_phdr(s: Seq<u8>, h: ElfHeader, i: int) -> ProgramHeader {
    let o = phdr_offset(h, i);
    ProgramHeader {
        p_type: u32_at(s, o) as u32,
        flags: u32_at(s, o + 4) as u32,
        offset: u64_at(s, o + 8) as u64,
        vaddr: u64_at(s, o + 16) as u64,
        paddr: u64_at(s, o + 24) as u64,
        file_size: u64_at(s, o + 32) as u64,
        mem_size: u64_at(s, o + 40) as u64,
        align: u64_at(s, o + 48) as u64,
    }
}

/// The program-header table of `s`, in file order.
pub open spec fn spec_phdrs(s: Seq<u8>, h: ElfHeader) -> Seq<ProgramHeader> {
    Seq::new(h.phnum as nat, |i: int| spec_phdr(s, h, i))
}

pub fn check_table(image: &Vec<u8>, h: &ElfHeader) -> (r: bool)
    ensures
        r == table_in_bounds(image@.len() as int, *h),
{
    if h.phnum == 0 {
        return true;
    }
    if (h.phentsize as u64) < PHDR_SIZE || h.phoff > image.len() as u64 {
        return false;
    }
    let a: u64 = h.phnum as u64 - 1;
    let b: u64 = h.phentsize as u64;
    assert(a * b <= 0xFFFF * 0xFFFF) by (nonlinear_arith)
        requires a <= 0xFFFF, b <= 0xFFFF;
    let span: u64 = a * b;
    h.phoff as u128 + span as u128 + PHDR_SIZE as u128 <= image.len() as u128
}

/// Reads entry `i` of a program-header table that lies inside the image.
pub fn parse_program_header(image: &Vec<u8>, h: &ElfHeader, i: u16) -> (r: ProgramHeader)
    requires
        table_in_bounds(image@.len() as int, *h),
        i < h.phnum,
    ensures
        r == spec_phdr(image@, *h, i as int),
{
    let _n: usize = image.len();
    let a: u64 = i as u64;
    let b: u64 = h.phentsize as u64;
    assert(a * b <= (h.phnum - 1) * h.phentsize) by (nonlinear_arith)
        requires a <= h.phnum - 1, b == h.phentsize, b >= 0;
    let o: usize = (h.phoff + a * b) as usize;
    ProgramHeader {
        p_type: read_u32(image, o),
        flags: read_u32(image, o + 4),
        offset: read_u64(image, o + 8),
        vaddr: read_u64(image, o + 16),
        paddr: read_u64(image, o + 24),
        file_size: read_u64(image, o + 32),
        mem_size: read_u64(image, o + 40),
        align: read_u64(image, o + 48),
    }
}

} // verus!
