//! Physical frame allocation from the boot-provided free-memory map.

use vstd::prelude::*;

verus! {

/// Size of a page and of a physical frame, in bytes.
pub const PAGE_SIZE: u64 = 4096;

/// A range `[start, end)` of free physical memory.
#[derive(Clone, Copy, Debug, PartialEq, Eq, Structural)]
pub struct MemoryRegion {
    pub start: u64,
    pub end: u64,
}

/// A well-formed memory map: page-aligned regions in ascending order that
/// do not overlap.
pub open spec fn valid_map(regions: Seq<MemoryRegion>) -> bool {
    &&& forall|i: int| 0 <= i < regions.len() ==> {
        &&& regions[i].start <= regions[i].end
        &&& regions[i].start % 4096 == 0
        &&& regions[i].end % 4096 == 0
    }
    &&& forall|i: int, j: int| 0 <= i < j < regions.len() ==> regions[i].end <= regions[j].start
}

/// `f` is a page-aligned frame that lies wholly in one region of the map.
pub open spec fn in_map(regions: Seq<MemoryRegion>, f: int) -> bool {
    exists|i: int| 0 <= i < regions.len() && frame_in(regions[i], f)
}

/// Region `r` holds no frame at or above `next`.
pub open spec fn exhausted(r: MemoryRegion, next: int) -> bool {
    r.end <= next || r.end <= r.start
}

pub open spec fn frame_in(r: MemoryRegion, f: int) -> bool {
    &&& f % 4096 == 0
    &&& r.start <= f
    &&& f + 4096 <= r.end
}

/// Hands out frames in ascending address order; every frame below `next`
/// has been handed out or was never free. Frames are never given back.
pub struct FrameAllocator {
    regions: Vec<MemoryRegion>,
    region: usize,
    next: u64,
}

impl FrameAllocator {
    pub closed spec fn map(&self) -> Seq<MemoryRegion> {
        self.regions@
    }

    /// The lowest address that may still be handed out.
    pub closed spec fn watermark(&self) -> int {
        self.next as int
    }

    pub closed spec fn wf(&self) -> bool {
        &&& valid_map(self.regions@)
        &&& self.region <= self.regions@.len()
        &&& self.next % 4096 == 0
        &&& forall|j: int| 0 <= j < self.region ==> exhausted(self.regions@[j], self.next as int)
    }

    /// A frame of the map that has not been handed out yet.
    pub open spec fn available(&self, f: int) -> bool {
        in_map(self.map(), f) && f >= self.watermark()
    }

    /// An allocator over the boot memory map `regions`; `None` when the map
    /// is not a list of page-aligned regions in ascending order that do not
    /// overlap.
    pub fn new(regions: Vec<MemoryRegion>) -> (r: Option<FrameAllocator>)
        ensures
            r is Some <==> valid_map(regions@),
            r matches Some(a) ==> a.wf() && a.map() == regions@ && a.watermark() == 0,
    {
        let mut i: usize = 0;
        while i < regions.len()
            invariant
                i <= regions@.len(),
                valid_map(regions@.take(i as int)),
            decreases regions@.len() - i,
        {
            let r = regions[i];
            if !(r.start <= r.end && r.start % 4096 == 0 && r.end % 4096 == 0) {
                assert(!valid_map(regions@)) by {
                    assert(regions@[i as int] == r);
                }
                return None;
            }
            if i > 0 && regions[i - 1].end > r.start {
                assert(!valid_map(regions@)) by {
                    assert(regions@[i - 1].end > regions@[i as int].start);
                }
                return None;
            }
            proof {
                let t = regions@.take(i + 1);
                assert forall|k: int| 0 <= k < t.len() implies {
                    &&& t[k].start <= t[k].end
                    &&& t[k].start % 4096 == 0
                    &&& t[k].end % 4096 == 0
                } by {
                    if k < i {
                        assert(t[k] == regions@.take(i as int)[k]);
                    }
                }
                assert forall|k: int, j: int| 0 <= k < j < t.len() implies t[k].end <= t[j].start by {
                    if j < i {
                        assert(t[k] == regions@.take(i as int)[k]);
                        assert(t[j] == regions@.take(i as int)[j]);
                    } else if k < i - 1 {
                        assert(t[k] == regions@.take(i as int)[k]);
                        assert(regions@.take(i as int)[i - 1] == regions@[i - 1]);
                        assert(regions@.take(i as int)[k].end <= regions@.take(i as int)[i - 1].start);
                    }
                }
            }
            i += 1;
        }
        assert(regions@.take(regions@.len() as int) =~= regions@);
        Some(FrameAllocator { regions, region: 0, next: 0 })
    }

    /// Returns the lowest free frame, or `None` when physical memory is
    /// exhausted. A returned frame is never returned again.
    pub fn allocate_frame(&mut self) -> (r: Option<u64>)
        requires
            old(self).wf(),
        ensures
            final(self).wf(),
            final(self).map() == old(self).map(),
            final(self).watermark() >= old(self).watermark(),
            match r {
                Some(f) => {
                    &&& old(self).available(f as int)
                    &&& final(self).watermark() == f + 4096
                    &&& forall|g: int| old(self).available(g) ==> g >= f
                },
                None => {
                    &&& forall|g: int| !old(self).available(g)
                    &&& final(self).watermark() == old(self).watermark()
                },
            },
    {
        let mut i: usize = self.region;
        while i < self.regions.len()
            invariant
                self.wf(),
                self.region <= i <= self.regions@.len(),
                self.map() == old(self).map(),
                self.next == old(self).next,
                forall|j: int| 0 <= j < i ==> exhausted(self.regions@[j], self.next as int),
            decreases self.regions@.len() - i,
        {
            let r = self.regions[i];
            let cand = if r.start < self.next { self.next } else { r.start };
            if cand < r.end {
                proof {
                    assert(frame_in(self.regions@[i as int], cand as int));
                    assert(forall|g: int| old(self).available(g) ==> g >= cand) by {
                        assert forall|g: int| old(self).available(g) implies g >= cand by {
                            let k = choose|k: int| 0 <= k < self.regions@.len() && frame_in(self.regions@[k], g);
                            if k < i {
                                assert(exhausted(self.regions@[k], self.next as int));
                            } else if k > i {
                                assert(self.regions@[i as int].end <= self.regions@[k].start);
                            }
                        }
                    }
                }
                self.region = i;
                self.next = cand + 4096;
                return Some(cand);
            }
            i += 1;
        }
        proof {
            assert forall|g: int| !old(self).available(g) by {
                if in_map(self.map(), g) {
                    let k = choose|k: int| 0 <= k < self.regions@.len() && frame_in(self.regions@[k], g);
                    assert(exhausted(self.regions@[k], self.next as int));
                }
            }
        }
        self.region = i;
        None
    }
}

} // verus!
