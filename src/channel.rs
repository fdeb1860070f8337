//! The syscall proxy channel: the fixed-layout record shared by the keep and
//! the host, and the host's check of every address range a request names.

use vstd::prelude::*;

verus! {

/// Number of argument words of a request.
pub const ARGS: usize = 6;

/// A request from the keep and the host's reply. The layout is the same on
/// both sides of the boundary: no padding, eight-byte words only.
#[derive(Clone, Copy, Debug, PartialEq, Eq)]
pub struct Message {
    pub num: u64,
    pub argv: [u64; 6],
    pub ret: u64,
}

impl Message {
    pub fn new(num: u64, argv: [u64; 6]) -> (m: Message)
        ensures
            m.num == num,
            m.argv@ == argv@,
            m.ret == 0,
    {
        Message { num, argv, ret: 0 }
    }

    /// Writes the reply word.
    pub fn reply(&mut self, ret: u64)
        ensures
            final(self).ret == ret,
            final(self).num == old(self).num,
            final(self).argv@ == old(self).argv@,
    {
        self.ret = ret;
    }

    /// Argument word `i`.
    pub fn arg(&self, i: usize) -> (r: u64)
        requires
            i < ARGS,
        ensures
            r == self.argv@[i as int],
    {
        self.argv[i]
    }

    /// Writes argument word `i`, as the host does with the results of a
    /// processor-feature query.
    pub fn set_arg(&mut self, i: usize, v: u64)
        requires
            i < ARGS,
        ensures
            final(self).argv@ == old(self).argv@.update(i as int, v),
            final(self).num == old(self).num,
            final(self).ret == old(self).ret,
    {
        self.argv[i] = v;
    }
}

/// The keep's memory as the keep reported it: `size` bytes from `base`.
#[derive(Clone, Copy, Debug, PartialEq, Eq, Structural)]
pub struct KeepMemory {
    pub base: u64,
    pub size: u64,
}

/// `[addr, addr + len)` lies inside the keep's reported memory.
pub open spec fn range_inside(m: KeepMemory, addr: int, len: int) -> bool {
    m.base <= addr && addr + len <= m.base + m.size
}

impl KeepMemory {
    /// Translates the range `[addr, addr + len)` named by a request into an
    /// offset in the keep's memory; `None` when any byte of it lies outside.
    pub fn translate(&self, addr: u64, len: u64) -> (r: Option<u64>)
        ensures
            match r {
                Some(off) => range_inside(*self, addr as int, len as int) && off == addr - self.base,
                None => !range_inside(*self, addr as int, len as int),
            },
    {
        if addr < self.base {
            return None;
        }
        let off: u64 = addr - self.base;
        if off > self.size || len > self.size - off {
            return None;
        }
        Some(off)
    }
}

} // verus!
