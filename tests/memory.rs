use enarx::frame::{FrameAllocator, MemoryRegion};
use enarx::mem::{bcmp, memcmp, memcpy, memmove, memset};
use enarx::paging::{AddressSpace, MapError, Mapping, PageFlags};

fn rw() -> PageFlags {
    PageFlags { present: true, writable: true, user_accessible: true, no_execute: true }
}

#[test]
fn frames_come_in_order_and_never_twice() {
    let mut a = FrameAllocator::new(vec![
        MemoryRegion { start: 0x1000, end: 0x3000 },
        MemoryRegion { start: 0x5000, end: 0x5000 },
        MemoryRegion { start: 0x8000, end: 0x9000 },
    ])
    .unwrap();
    assert_eq!(a.allocate_frame(), Some(0x1000));
    assert_eq!(a.allocate_frame(), Some(0x2000));
    assert_eq!(a.allocate_frame(), Some(0x8000));
    assert_eq!(a.allocate_frame(), None);
    assert_eq!(a.allocate_frame(), None);
}

#[test]
fn empty_map_has_no_frames() {
    let mut a = FrameAllocator::new(vec![]).unwrap();
    assert_eq!(a.allocate_frame(), None);
}

#[test]
fn mapping_takes_table_frames_and_refuses_duplicates() {
    let mut a = FrameAllocator::new(vec![MemoryRegion { start: 0x10_0000, end: 0x10_0000 + 16 * 4096 }]).unwrap();
    let mut s = AddressSpace::new();
    assert_eq!(s.map_to(0x400, 0x20_0000, rw(), &mut a), Ok(()));
    assert_eq!(s.map_to(0x400, 0x21_0000, rw(), &mut a), Err(MapError::PageAlreadyMapped));
    // same leaf table: no new table frames
    assert_eq!(s.map_to(0x401, 0x22_0000, rw(), &mut a), Ok(()));
    let m = s.lookup(0x401).unwrap();
    assert_eq!(m.frame, 0x22_0000);
    assert!(s.lookup(0x402).is_none());
    // three table frames were taken for the first page
    assert_eq!(a.allocate_frame(), Some(0x10_0000 + 3 * 4096));
}

#[test]
fn mapping_without_table_frames_fails() {
    let mut a = FrameAllocator::new(vec![MemoryRegion { start: 0x10_0000, end: 0x10_0000 + 2 * 4096 }]).unwrap();
    let mut s = AddressSpace::new();
    assert_eq!(s.map_to(0x400, 0x20_0000, rw(), &mut a), Err(MapError::FrameAllocationFailed));
    assert!(s.lookup(0x400).is_none());
}

#[test]
fn entry_word_encodes_flags() {
    let m = Mapping { page: 1, frame: 0x5000, flags: rw() };
    assert_eq!(m.entry_word(), 0x8000_0000_0000_5007);
    let ro_exec = Mapping { page: 1, frame: 0x6000, flags: PageFlags { present: true, writable: false, user_accessible: false, no_execute: false } };
    assert_eq!(ro_exec.entry_word(), 0x6001);
}

#[test]
fn copy_move_set_compare() {
    let mut d = vec![0u8; 8];
    memcpy(&mut d, 2, &vec![1, 2, 3, 4], 1, 3);
    assert_eq!(d, vec![0, 0, 2, 3, 4, 0, 0, 0]);
    let mut b = vec![1u8, 2, 3, 4, 5, 6];
    memmove(&mut b, 2, 0, 4);
    assert_eq!(b, vec![1, 2, 1, 2, 3, 4]);
    let mut b = vec![1u8, 2, 3, 4, 5, 6];
    memmove(&mut b, 0, 2, 4);
    assert_eq!(b, vec![3, 4, 5, 6, 5, 6]);
    let mut s = vec![9u8; 5];
    memset(&mut s, 1, 0, 3);
    assert_eq!(s, vec![9, 0, 0, 0, 9]);
    assert_eq!(memcmp(&vec![1, 2, 3], &vec![1, 2, 4], 3), -1);
    assert_eq!(memcmp(&vec![1, 9, 3], &vec![1, 2, 4], 3), 7);
    assert_eq!(memcmp(&vec![1, 2, 3], &vec![1, 2, 4], 2), 0);
    assert_eq!(bcmp(&vec![5], &vec![5], 1), 0);
    assert_ne!(bcmp(&vec![5], &vec![6], 1), 0);
}

#[test]
fn invalid_memory_maps_are_refused() {
    assert!(FrameAllocator::new(vec![MemoryRegion { start: 0x1001, end: 0x3000 }]).is_none());
    assert!(FrameAllocator::new(vec![MemoryRegion { start: 0x3000, end: 0x1000 }]).is_none());
    assert!(FrameAllocator::new(vec![
        MemoryRegion { start: 0x5000, end: 0x8000 },
        MemoryRegion { start: 0x1000, end: 0x2000 },
    ])
    .is_none());
    assert!(FrameAllocator::new(vec![
        MemoryRegion { start: 0x1000, end: 0x3000 },
        MemoryRegion { start: 0x2000, end: 0x4000 },
    ])
    .is_none());
}
