//! Bounded buffer operations: every copy, fill and comparison names its
//! destination range and length, and is checked against the buffer bounds.

use vstd::prelude::*;

verus! {

/// The bytes of `s` from `start` (inclusive) to `end` (exclusive).
pub open spec fn range(s: Seq<u8>, start: int, end: int) -> Seq<u8> {
    s.subrange(start, end)
}

/// `s` with `n` bytes starting at `at` replaced by `data`.
pub open spec fn splice(s: Seq<u8>, at: int, data: Seq<u8>) -> Seq<u8> {
    s.subrange(0, at) + data + s.subrange(at + data.len(), s.len() as int)
}

/// Copies `n` bytes from `src[src_off..]` into `dest[dest_off..]`.
pub fn memcpy(dest: &mut Vec<u8>, dest_off: usize, src: &Vec<u8>, src_off: usize, n: usize)
    requires
        dest_off + n <= old(dest)@.len(),
        src_off + n <= src@.len(),
    ensures
        final(dest)@ == splice(old(dest)@, dest_off as int, range(src@, src_off as int, src_off + n)),
{
    let len: usize = dest.len();
    let slen: usize = src.len();
    let mut i: usize = 0;
    while i < n
        invariant
            i <= n,
            len == old(dest)@.len(),
            slen == src@.len(),
            dest_off + n <= old(dest)@.len(),
            src_off + n <= src@.len(),
            dest@.len() == old(dest)@.len(),
            forall|k: int| 0 <= k < dest_off ==> dest@[k] == old(dest)@[k],
            forall|k: int| dest_off + n <= k < dest@.len() ==> dest@[k] == old(dest)@[k],
            forall|k: int| dest_off + i <= k < dest_off + n ==> dest@[k] == old(dest)@[k],
            forall|k: int| dest_off <= k < dest_off + i ==> dest@[k] == src@[src_off + k - dest_off],
        decreases n - i,
    {
        dest.set(dest_off + i, src[src_off + i]);
        i += 1;
    }
    assert(dest@ =~= splice(old(dest)@, dest_off as int, range(src@, src_off as int, src_off + n)));
}

/// Moves `n` bytes inside `buf` from offset `from` to offset `to`; the two
/// ranges may overlap, and the result is as if the source were copied first.
pub fn memmove(buf: &mut Vec<u8>, to: usize, from: usize, n: usize)
    requires
        to + n <= old(buf)@.len(),
        from + n <= old(buf)@.len(),
    ensures
        final(buf)@ == splice(old(buf)@, to as int, range(old(buf)@, from as int, from + n)),
{
    let ghost orig = buf@;
    let len: usize = buf.len();
    if from < to {
        // copy from the end, so that no source byte is overwritten before it is read
        let mut i: usize = n;
        while i != 0
            invariant
                i <= n,
                from < to,
                len == orig.len(),
                to + n <= orig.len(),
                buf@.len() == orig.len(),
                forall|k: int| 0 <= k < to + i ==> buf@[k] == orig[k],
                from + n <= orig.len(),
                forall|k: int| to + n <= k < buf@.len() ==> buf@[k] == orig[k],
                forall|k: int| to + i <= k < to + n ==> buf@[k] == orig[from + k - to],
            decreases i,
        {
            i -= 1;
            let b = buf[from + i];
            buf.set(to + i, b);
        }
    } else {
        let mut i: usize = 0;
        while i < n
            invariant
                i <= n,
                from >= to,
                len == orig.len(),
                to + n <= orig.len(),
                from + n <= orig.len(),
                buf@.len() == orig.len(),
                forall|k: int| 0 <= k < to ==> buf@[k] == orig[k],
                forall|k: int| to + i <= k < buf@.len() ==> buf@[k] == orig[k],
                forall|k: int| to <= k < to + i ==> buf@[k] == orig[from + k - to],
            decreases n - i,
        {
            let b = buf[from + i];
            buf.set(to + i, b);
            i += 1;
        }
    }
    assert(buf@ =~= splice(orig, to as int, range(orig, from as int, from + n)));
}

/// Sets `n` bytes of `s` from offset `off` to `c`.
pub fn memset(s: &mut Vec<u8>, off: usize, c: u8, n: usize)
    requires
        off + n <= old(s)@.len(),
    ensures
        final(s)@ == splice(old(s)@, off as int, Seq::new(n as nat, |k: int| c)),
{
    let len: usize = s.len();
    let mut i: usize = 0;
    while i < n
        invariant
            i <= n,
            len == old(s)@.len(),
            off + n <= old(s)@.len(),
            s@.len() == old(s)@.len(),
            forall|k: int| 0 <= k < off ==> s@[k] == old(s)@[k],
            forall|k: int| off + i <= k < s@.len() ==> s@[k] == old(s)@[k],
            forall|k: int| off <= k < off + i ==> s@[k] == c,
        decreases n - i,
    {
        s.set(off + i, c);
        i += 1;
    }
    assert(s@ =~= splice(old(s)@, off as int, Seq::new(n as nat, |k: int| c)));
}

/// The result of comparing `s1` and `s2` from index `i` up to `n`: the
/// difference of the first pair of bytes that differ, or zero.
pub open spec fn spec_memcmp(s1: Seq<u8>, s2: Seq<u8>, i: int, n: int) -> i32
    decreases n - i,
{
    if i >= n {
        0
    } else if s1[i] != s2[i] {
        (s1[i] - s2[i]) as i32
    } else {
        spec_memcmp(s1, s2, i + 1, n)
    }
}

/// Compares the first `n` bytes of `s1` and `s2`: zero when they agree,
/// otherwise the difference of the first pair of bytes that differ.
pub fn memcmp(s1: &Vec<u8>, s2: &Vec<u8>, n: usize) -> (r: i32)
    requires
        n <= s1@.len(),
        n <= s2@.len(),
    ensures
        r == spec_memcmp(s1@, s2@, 0, n as int),
        r == 0 <==> range(s1@, 0, n as int) == range(s2@, 0, n as int),
        r != 0 ==> exists|i: int|
            0 <= i < n && s1@[i] != s2@[i] && r == s1@[i] - s2@[i]
                && forall|k: int| 0 <= k < i ==> s1@[k] == s2@[k],
{
    let mut i: usize = 0;
    while i < n
        invariant
            i <= n,
            n <= s1@.len(),
            n <= s2@.len(),
            forall|k: int| 0 <= k < i ==> s1@[k] == s2@[k],
            spec_memcmp(s1@, s2@, 0, n as int) == spec_memcmp(s1@, s2@, i as int, n as int),
        decreases n - i,
    {
        let a = s1[i];
        let b = s2[i];
        if a != b {
            proof {
                assert(range(s1@, 0, n as int)[i as int] != range(s2@, 0, n as int)[i as int]);
            }
            return a as i32 - b as i32;
        }
        i += 1;
    }
    assert(range(s1@, 0, n as int) =~= range(s2@, 0, n as int));
    0
}

/// The same as `memcmp`; callers use only zero against non-zero.
pub fn bcmp(s1: &Vec<u8>, s2: &Vec<u8>, n: usize) -> (r: i32)
    requires
        n <= s1@.len(),
        n <= s2@.len(),
    ensures
        r == spec_memcmp(s1@, s2@, 0, n as int),
        r == 0 <==> range(s1@, 0, n as int) == range(s2@, 0, n as int),
{
    memcmp(s1, s2, n)
}

} // verus!
