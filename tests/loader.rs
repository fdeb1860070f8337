use enarx::channel::Message;
use enarx::keep::{Command, Keep, TRAP_SYSCALL};
use enarx::aslr::{choose_entropy, randomize, Entropy, APP_WINDOW_END, APP_WINDOW_START, PSEUDO_RANDOM, STACK_WINDOW_END, STACK_WINDOW_START, USER_STACK_SIZE};
use enarx::elf::{parse_header, LoadError, PF_R, PF_W, PF_X, PT_INTERP, PT_LOAD};
use enarx::frame::{FrameAllocator, MemoryRegion};
use enarx::launch::{exec_elf, STACK_PAGES};
use enarx::loader::{load_elf, DYN_BIAS};
use enarx::paging::AddressSpace;

struct Seg {
    p_type: u32,
    flags: u32,
    vaddr: u64,
    data: Vec<u8>,
    mem_size: u64,
}

fn put16(b: &mut Vec<u8>, o: usize, v: u16) {
    b[o..o + 2].copy_from_slice(&v.to_le_bytes());
}

fn put32(b: &mut Vec<u8>, o: usize, v: u32) {
    b[o..o + 4].copy_from_slice(&v.to_le_bytes());
}

fn put64(b: &mut Vec<u8>, o: usize, v: u64) {
    b[o..o + 8].copy_from_slice(&v.to_le_bytes());
}

/// A 64-bit x86-64 ELF image with the given program headers; segment data
/// follows the header table.
fn elf(entry: u64, segs: &[Seg]) -> Vec<u8> {
    let phoff = 64usize;
    let table_end = phoff + 56 * segs.len();
    let mut b = vec![0u8; table_end];
    b[0..4].copy_from_slice(&[0x7f, b'E', b'L', b'F']);
    b[4] = 2;
    b[5] = 1;
    b[6] = 1;
    put16(&mut b, 16, 3);
    put16(&mut b, 18, 62);
    put32(&mut b, 20, 1);
    put64(&mut b, 24, entry);
    put64(&mut b, 32, phoff as u64);
    put16(&mut b, 52, 64);
    put16(&mut b, 54, 56);
    put16(&mut b, 56, segs.len() as u16);
    for (i, s) in segs.iter().enumerate() {
        let o = phoff + 56 * i;
        // segment data starts on a page boundary, as linkers lay it out
        b.resize((b.len() + 4095) / 4096 * 4096, 0);
        let off = b.len() as u64;
        put32(&mut b, o, s.p_type);
        put32(&mut b, o + 4, s.flags);
        put64(&mut b, o + 8, off);
        put64(&mut b, o + 16, s.vaddr);
        put64(&mut b, o + 24, s.vaddr);
        put64(&mut b, o + 32, s.data.len() as u64);
        put64(&mut b, o + 40, s.mem_size);
        put64(&mut b, o + 48, 4096);
        b.extend_from_slice(&s.data);
    }
    b
}

fn allocator(frames: u64) -> FrameAllocator {
    FrameAllocator::new(vec![MemoryRegion { start: 0x10_0000, end: 0x10_0000 + frames * 4096 }]).unwrap()
}

fn entropy() -> Entropy {
    Entropy { r1: 0x0102_0304_0506_0708, r2: 0x1112_1314_1516_1718, r3: 0x0123_4567_89AB_CDEF }
}

fn exit42_payload() -> Vec<u8> {
    // mov edi, 42; mov eax, 60; syscall
    let mut code = vec![0x90; 0x10];
    code.extend_from_slice(&[0xbf, 42, 0, 0, 0, 0xb8, 60, 0, 0, 0, 0x0f, 0x05]);
    elf(0x10, &[
        Seg { p_type: PT_LOAD, flags: PF_R | PF_X, vaddr: 0, data: code, mem_size: 0x20 },
        Seg { p_type: PT_LOAD, flags: PF_R | PF_W, vaddr: 0x2000, data: vec![7, 8, 9], mem_size: 0x1800 },
    ])
}

#[test]
fn header_fields_are_read() {
    let img = exit42_payload();
    let h = parse_header(&img).unwrap();
    assert_eq!(h.entry, 0x10);
    assert_eq!(h.phoff, 64);
    assert_eq!(h.phentsize, 56);
    assert_eq!(h.phnum, 2);
}

#[test]
fn malformed_headers_are_refused() {
    assert_eq!(parse_header(&vec![0u8; 10]).unwrap_err(), LoadError::NotElf);
    let mut img = exit42_payload();
    img[4] = 1;
    assert_eq!(parse_header(&img).unwrap_err(), LoadError::UnsupportedClass);
    let mut img = exit42_payload();
    img[18] = 3;
    assert_eq!(parse_header(&img).unwrap_err(), LoadError::WrongMachine);
    let mut img = exit42_payload();
    img.truncate(100);
    assert_eq!(load_elf(&img).err(), Some(LoadError::TruncatedHeaders));
}

#[test]
fn interpreter_is_refused() {
    let img = elf(0, &[Seg { p_type: PT_INTERP, flags: PF_R, vaddr: 0, data: b"/lib/ld.so\0".to_vec(), mem_size: 11 }]);
    assert_eq!(load_elf(&img).err(), Some(LoadError::DynamicallyLinked));
}

#[test]
fn inconsistent_segment_is_refused() {
    let img = elf(0, &[Seg { p_type: PT_LOAD, flags: PF_R, vaddr: 0, data: vec![1, 2, 3, 4], mem_size: 2 }]);
    assert_eq!(load_elf(&img).err(), Some(LoadError::BadSegment));
    let img = elf(0, &[Seg { p_type: PT_LOAD, flags: PF_R, vaddr: 0x80_0000_0000, data: vec![1], mem_size: 1 }]);
    assert_eq!(load_elf(&img).err(), Some(LoadError::BadSegment));
}

#[test]
fn segments_hold_file_bytes_then_zeros() {
    let img = exit42_payload();
    let e = load_elf(&img).unwrap();
    assert_eq!(e.bias, DYN_BIAS);
    assert_eq!(e.segments.len(), 2);
    let s0 = &e.segments[0];
    assert_eq!(s0.vaddr, DYN_BIAS);
    assert_eq!(s0.bytes.len(), 0x20);
    assert_eq!(&s0.bytes[..0x10], &[0x90; 0x10]);
    assert_eq!(&s0.bytes[0x10..0x1c], &[0xbf, 42, 0, 0, 0, 0xb8, 60, 0, 0, 0, 0x0f, 0x05]);
    assert!(s0.bytes[0x1c..].iter().all(|b| *b == 0));
    let s1 = &e.segments[1];
    assert_eq!(s1.vaddr, DYN_BIAS + 0x2000);
    assert_eq!(&s1.bytes[..3], &[7, 8, 9]);
    assert_eq!(s1.bytes.len(), 0x1800);
    assert!(s1.bytes[3..].iter().all(|b| *b == 0));
}

#[test]
fn segment_protection_never_writable_and_executable() {
    let img = elf(0x10, &[Seg { p_type: PT_LOAD, flags: PF_R | PF_W | PF_X, vaddr: 0, data: vec![0x90; 16], mem_size: 16 }]);
    let e = load_elf(&img).unwrap();
    let f = e.segments[0].flags;
    assert!(!f.writable);
    assert!(!f.no_execute);
    let img = elf(0x10, &[Seg { p_type: PT_LOAD, flags: PF_R | PF_W, vaddr: 0, data: vec![1; 16], mem_size: 16 }]);
    let f = load_elf(&img).unwrap().segments[0].flags;
    assert!(f.writable);
    assert!(f.no_execute);
}

#[test]
fn exec_maps_stack_and_segments() {
    let img = exit42_payload();
    let mut space = AddressSpace::new();
    let mut alloc = allocator(4096);
    let l = exec_elf(&img, &mut space, &mut alloc, entropy(), 0x1234).unwrap();
    let lay = randomize(entropy().r3);
    assert_eq!(l.layout, lay);
    assert_eq!(l.entry, 0x10 + DYN_BIAS + lay.relocation);
    // the first segment's file bytes start at file offset 0x1000
    assert_eq!(l.load_base, DYN_BIAS - 0x1000 + lay.relocation);
    assert_eq!(l.phnum, 2);
    let first = lay.stack_start / 4096;
    for p in first..first + STACK_PAGES {
        let m = space.lookup(p).unwrap();
        assert!(m.flags.writable && m.flags.no_execute && m.flags.user_accessible);
    }
    assert!(space.lookup(first - 1).is_none());
    // every page has its own frame
    let mut frames: Vec<u64> = (first..first + STACK_PAGES).map(|p| space.lookup(p).unwrap().frame).collect();
    frames.sort();
    frames.dedup();
    assert_eq!(frames.len() as u64, STACK_PAGES);
    let code = space.lookup((DYN_BIAS + lay.relocation) / 4096).unwrap();
    assert!(!code.flags.writable && !code.flags.no_execute);
    let data = space.lookup((DYN_BIAS + 0x2000 + lay.relocation) / 4096).unwrap();
    assert!(data.flags.writable && data.flags.no_execute);
    assert!(l.stack.sp >= lay.stack_start);
    assert_eq!(l.stack.sp % 16, 0);
    assert_eq!(l.stack.sp + l.stack.bytes.len() as u64, lay.stack_start + USER_STACK_SIZE);
    // argc
    assert_eq!(&l.stack.bytes[0..8], &1u64.to_le_bytes());
    // the data area ends with the sixteen random bytes
    let n = l.stack.bytes.len();
    let mut random = entropy().r1.to_le_bytes().to_vec();
    random.extend_from_slice(&entropy().r2.to_le_bytes());
    assert_eq!(&l.stack.bytes[n - 16..], &random[..]);
}

#[test]
fn zero_load_segments_give_null_entry() {
    let img = elf(0x1000, &[]);
    let mut space = AddressSpace::new();
    let mut alloc = allocator(4096);
    let l = exec_elf(&img, &mut space, &mut alloc, entropy(), 0).unwrap();
    assert_eq!(l.entry, 0);
    assert_eq!(l.load_base, 0);
    assert!(l.segments.is_empty());
}

#[test]
fn entry_outside_executable_segment_gives_null_entry() {
    let img = elf(0x5000, &[Seg { p_type: PT_LOAD, flags: PF_R | PF_X, vaddr: 0, data: vec![0x90; 16], mem_size: 16 }]);
    let mut space = AddressSpace::new();
    let mut alloc = allocator(4096);
    let l = exec_elf(&img, &mut space, &mut alloc, entropy(), 0).unwrap();
    assert_eq!(l.entry, 0);
}

#[test]
fn exhausted_memory_is_a_fatal_load_error() {
    let img = exit42_payload();
    let mut space = AddressSpace::new();
    let mut alloc = allocator(100);
    assert_eq!(exec_elf(&img, &mut space, &mut alloc, entropy(), 0).err(), Some(LoadError::OutOfMemory));
    assert_eq!(alloc.allocate_frame(), None);
}

#[test]
fn stack_already_mapped_is_refused() {
    let img = exit42_payload();
    let mut space = AddressSpace::new();
    let mut alloc = allocator(4096);
    let lay = randomize(entropy().r3);
    let f = alloc.allocate_frame().unwrap();
    let flags = enarx::paging::PageFlags { present: true, writable: false, user_accessible: true, no_execute: true };
    space.map_to(lay.stack_start / 4096 + 5, f, flags, &mut alloc).unwrap();
    assert_eq!(exec_elf(&img, &mut space, &mut alloc, entropy(), 0).err(), Some(LoadError::StackMapConflict));
}

#[test]
fn layout_stays_in_windows_for_many_random_words() {
    let mut x: u64 = 0x9E37_79B9_7F4A_7C15;
    for _ in 0..1000 {
        x ^= x << 13;
        x ^= x >> 7;
        x ^= x << 17;
        let l = randomize(x);
        assert!(STACK_WINDOW_START <= l.stack_start && l.stack_start + USER_STACK_SIZE <= STACK_WINDOW_END);
        assert!(APP_WINDOW_START <= l.relocation && l.relocation + 0x80_0000_0000 <= APP_WINDOW_END);
        assert!(APP_WINDOW_END < l.stack_start - 4096);
        assert_eq!(l.stack_start % 4096, 0);
        assert_eq!(l.relocation % 4096, 0);
    }
}

#[test]
fn layout_formula() {
    let l = randomize(0x0123_4567_89AB_CDEF);
    assert_eq!(l.stack_start, 0x7eff_0000_0000 + (0xBCDEF << 12));
    assert_eq!(l.relocation, 0x7e77_0000_0000 + ((0x0123_4567_89AB_CDEFu64 & 0xFF_FFF0_0000) >> 8));
    assert_eq!(l.mmap_base, 0x5555_0000_0000 + ((0x0123_4567_89AB_CDEFu64 & 0xFFF_FF00_0000_0000) >> 20));
}

#[test]
fn entropy_choice() {
    let e = choose_entropy(Some(1), Some(2), Some(3), false).unwrap();
    assert_eq!((e.r1, e.r2, e.r3), (1, 2, 3));
    assert_eq!(choose_entropy(None, Some(2), Some(3), false).err(), Some(LoadError::NoEntropy));
    let e = choose_entropy(Some(1), None, Some(3), true).unwrap();
    assert_eq!((e.r1, e.r2, e.r3), PSEUDO_RANDOM);
}

#[test]
fn exit_payload_stops_with_exit_42() {
    let img = exit42_payload();
    let mut space = AddressSpace::new();
    let mut alloc = allocator(4096);
    let l = exec_elf(&img, &mut space, &mut alloc, entropy(), 0).unwrap();
    assert_ne!(l.entry, 0);
    // the entry point's first instructions: mov edi, 42; mov eax, 60; syscall
    let off = (l.entry - l.layout.relocation - l.segments[0].vaddr) as usize;
    let code = &l.segments[0].bytes[off..off + 12];
    assert_eq!(code, &[0xbf, 42, 0, 0, 0, 0xb8, 60, 0, 0, 0, 0x0f, 0x05]);
    let mut keep = Keep::new(1);
    let mut thread = keep.spawn().unwrap();
    thread.resume().unwrap();
    let num = u32::from_le_bytes(code[6..10].try_into().unwrap()) as u64;
    let arg = u32::from_le_bytes(code[1..5].try_into().unwrap()) as u64;
    let cmd = thread.stop(TRAP_SYSCALL, Message::new(num, [arg, 0, 0, 0, 0, 0])).unwrap();
    assert_eq!(cmd, Command::Exit(42));
}

#[test]
fn load_elf_checks_the_entry_point() {
    let e = load_elf(&elf(0x1000, &[])).unwrap();
    assert_eq!(e.entry, 0);
    assert_eq!(e.base, 0);
    let img = elf(0x5000, &[Seg { p_type: PT_LOAD, flags: PF_R | PF_X, vaddr: 0, data: vec![0x90; 16], mem_size: 16 }]);
    assert_eq!(load_elf(&img).unwrap().entry, 0);
    let img = elf(0x8, &[Seg { p_type: PT_LOAD, flags: PF_R | PF_W, vaddr: 0, data: vec![0x90; 16], mem_size: 16 }]);
    assert_eq!(load_elf(&img).unwrap().entry, 0);
    let e = load_elf(&exit42_payload()).unwrap();
    assert_eq!(e.entry, 0x10 + DYN_BIAS);
    assert_eq!(e.base, DYN_BIAS - 0x1000);
}

#[test]
fn malformed_image_leaves_space_untouched() {
    let mut space = AddressSpace::new();
    let mut alloc = allocator(4096);
    assert_eq!(exec_elf(&vec![0u8; 10], &mut space, &mut alloc, entropy(), 0).err(), Some(LoadError::NotElf));
    assert_eq!(space.len(), 0);
    assert_eq!(alloc.allocate_frame(), Some(0x10_0000));
}

#[test]
fn failed_load_rolls_back_mappings() {
    let img = exit42_payload();
    let mut space = AddressSpace::new();
    let mut alloc = allocator(1000);
    assert_eq!(exec_elf(&img, &mut space, &mut alloc, entropy(), 0).err(), Some(LoadError::OutOfMemory));
    assert_eq!(space.len(), 0);
}

#[test]
fn misaligned_load_base_is_refused() {
    // file offset 0x1000 at address 0x1800: offset 0 would land mid-page
    let img = elf(0x1800, &[Seg { p_type: PT_LOAD, flags: PF_R | PF_X, vaddr: 0x1800, data: vec![0x90; 16], mem_size: 16 }]);
    assert_eq!(load_elf(&img).err(), Some(LoadError::BadLoadBase));
}

#[test]
fn later_segments_may_sit_below_their_file_offset() {
    // the second segment's file offset (0x2000) lies above its address (0x100)
    let img = elf(0x1000, &[
        Seg { p_type: PT_LOAD, flags: PF_R | PF_X, vaddr: 0x1000, data: vec![0x90; 16], mem_size: 16 },
        Seg { p_type: PT_LOAD, flags: PF_R | PF_W, vaddr: 0x100, data: vec![7, 8, 9], mem_size: 8 },
    ]);
    let e = load_elf(&img).unwrap();
    assert_eq!(e.bias, 0);
    assert_eq!(e.base, 0);
    assert_eq!(e.entry, 0x1000);
    assert_eq!(e.segments[1].vaddr, 0x100);
    assert_eq!(e.segments[1].bytes, vec![7, 8, 9, 0, 0, 0, 0, 0]);
}
