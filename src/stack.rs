//! The process stack: argument and environment strings, auxiliary vector,
//! and the pointer tables a freshly started process expects, laid out below
//! the top of a reserved region.

use vstd::prelude::*;
use crate::elf::LoadError;

verus! {

pub const AT_NULL: u64 = 0;
pub const AT_PHDR: u64 = 3;
pub const AT_PHENT: u64 = 4;
pub const AT_PHNUM: u64 = 5;
pub const AT_PAGESZ: u64 = 6;
pub const AT_FLAGS: u64 = 8;
pub const AT_UID: u64 = 11;
pub const AT_EUID: u64 = 12;
pub const AT_GID: u64 = 13;
pub const AT_EGID: u64 = 14;
pub const AT_PLATFORM: u64 = 15;
pub const AT_HWCAP: u64 = 16;
pub const AT_CLKTCK: u64 = 17;
pub const AT_SECURE: u64 = 23;
pub const AT_RANDOM: u64 = 25;
pub const AT_HWCAP2: u64 = 26;
pub const AT_EXECFN: u64 = 31;

/// The value of an auxiliary-vector entry: a word, or data placed on the
/// stack whose address becomes the value.
pub enum AuxValue {
    Word(u64),
    /// A string, stored with a terminating zero byte.
    Text(Vec<u8>),
    /// Raw bytes, such as the sixteen random bytes.
    Bytes(Vec<u8>),
}

pub struct AuxEntry {
    pub key: u64,
    pub value: AuxValue,
}

/// The stack of a new process: `bytes` fill the region from `sp` to the top.
pub struct ProcessStack {
    pub sp: u64,
    pub bytes: Vec<u8>,
}

pub open spec fn cstr(s: Seq<u8>) -> Seq<u8> {
    s.push(0u8)
}

pub open spec fn aux_data(e: AuxEntry) -> Seq<u8> {
    match e.value {
        AuxValue::Word(_) => Seq::empty(),
        AuxValue::Text(t) => cstr(t@),
        AuxValue::Bytes(b) => b@,
    }
}

pub open spec fn aux_word(e: AuxEntry, p: u64) -> u64 {
    match e.value {
        AuxValue::Word(v) => v,
        _ => p,
    }
}

pub open spec fn views(v: Seq<Vec<u8>>) -> Seq<Seq<u8>> {
    v.map_values(|x: Vec<u8>| x@)
}

/// The pieces of the data area, in address order: argument strings,
/// environment strings, then the data of each auxiliary entry.
pub open spec fn chunks(args: Seq<Seq<u8>>, envs: Seq<Seq<u8>>, aux: Seq<AuxEntry>) -> Seq<Seq<u8>> {
    args.map_values(|a: Seq<u8>| cstr(a)) + envs.map_values(|e: Seq<u8>| cstr(e))
        + aux.map_values(|e: AuxEntry| aux_data(e))
}

pub open spec fn flatten(cs: Seq<Seq<u8>>) -> Seq<u8>
    decreases cs.len(),
{
    if cs.len() == 0 {
        Seq::empty()
    } else {
        flatten(cs.drop_last()) + cs.last()
    }
}

/// Offset of piece `k` in the data area.
pub open spec fn chunk_offset(cs: Seq<Seq<u8>>, k: int) -> int {
    flatten(cs.take(k)).len() as int
}

pub open spec fn ptr(cs: Seq<Seq<u8>>, ds: int, k: int) -> u64 {
    (ds + chunk_offset(cs, k)) as u64
}

/// The words from the stack pointer up: argument count, argument pointers,
/// zero, environment pointers, zero, key/value pairs, and the closing pair.
pub open spec fn stack_words(args: Seq<Seq<u8>>, envs: Seq<Seq<u8>>, aux: Seq<AuxEntry>, ds: int) -> Seq<u64> {
    let cs = chunks(args, envs, aux);
    let na = args.len() as int;
    let ne = envs.len() as int;
    seq![na as u64] + Seq::new(na as nat, |i: int| ptr(cs, ds, i)) + seq![0u64]
        + Seq::new(ne as nat, |j: int| ptr(cs, ds, na + j)) + seq![0u64]
        + Seq::new((2 * aux.len()) as nat, |t: int|
            if t % 2 == 0 { aux[t / 2].key } else { aux_word(aux[t / 2], ptr(cs, ds, na + ne + t / 2)) })
        + seq![AT_NULL, 0u64]
}

pub open spec fn word_bytes(w: u64) -> Seq<u8> {
    Seq::new(8, |k: int| ((w >> (8 * k) as u64) & 0xff) as u8)
}

pub open spec fn words_bytes(ws: Seq<u64>) -> Seq<u8>
    decreases ws.len(),
{
    if ws.len() == 0 {
        Seq::empty()
    } else {
        words_bytes(ws.drop_last()) + word_bytes(ws.last())
    }
}

/// The stack built below `top`: its pointer, and the bytes from there to
/// `top`. The data area ends at `top`; the words start at the highest
/// 16-byte aligned address that leaves room for them below the data.
pub open spec fn stack_layout(top: int, args: Seq<Seq<u8>>, envs: Seq<Seq<u8>>, aux: Seq<AuxEntry>) -> (int, Seq<u8>) {
    let d = flatten(chunks(args, envs, aux));
    let ds = top - d.len();
    let wb = words_bytes(stack_words(args, envs, aux, ds));
    let low = ds - wb.len();
    let sp = low - low % 16;
    (sp, wb + Seq::new((low - sp) as nat, |k: int| 0u8) + d)
}

/// The stack fits in `size` bytes.
pub open spec fn stack_fits(size: int, args: Seq<Seq<u8>>, envs: Seq<Seq<u8>>, aux: Seq<AuxEntry>) -> bool {
    let d = flatten(chunks(args, envs, aux));
    d.len() + 8 * (args.len() + envs.len() + 2 * aux.len() + 5) <= size
}

proof fn lemma_words_bytes_len(ws: Seq<u64>)
    ensures
        words_bytes(ws).len() == 8 * ws.len(),
    decreases ws.len(),
{
    if ws.len() > 0 {
        lemma_words_bytes_len(ws.drop_last());
    }
}

/// Appends `src` to `dst`.
fn append(dst: &mut Vec<u8>, src: &Vec<u8>)
    ensures
        final(dst)@ == old(dst)@ + src@,
{
    let mut i: usize = 0;
    while i < src.len()
        invariant
            i <= src@.len(),
            dst@ == old(dst)@ + src@.take(i as int),
        decreases src@.len() - i,
    {
        dst.push(src[i]);
        assert(src@.take(i + 1) =~= src@.take(i as int).push(src@[i as int]));
        i += 1;
    }
    assert(src@.take(src@.len() as int) =~= src@);
}

/// Appends the eight little-endian bytes of `w` to `dst`.
pub(crate) fn push_word(dst: &mut Vec<u8>, w: u64)
    ensures
        final(dst)@ == old(dst)@ + word_bytes(w),
{
    let mut k: u64 = 0;
    while k < 8
        invariant
            k <= 8,
            dst@ == old(dst)@ + word_bytes(w).take(k as int),
        decreases 8 - k,
    {
        dst.push(((w >> (8 * k)) & 0xff) as u8);
        assert(word_bytes(w).take(k + 1) =~= word_bytes(w).take(k as int).push(((w >> (8 * k)) & 0xff) as u8));
        k += 1;
    }
    assert(word_bytes(w).take(8) =~= word_bytes(w));
}

proof fn lemma_flatten_step(cs: Seq<Seq<u8>>, k: int)
    requires
        0 <= k < cs.len(),
    ensures
        flatten(cs.take(k + 1)) == flatten(cs.take(k)) + cs[k],
{
    assert(cs.take(k + 1).drop_last() =~= cs.take(k));
}

proof fn lemma_flatten_prefix_len(cs: Seq<Seq<u8>>, k: int)
    requires
        0 <= k <= cs.len(),
    ensures
        flatten(cs.take(k)).len() <= flatten(cs).len(),
    decreases cs.len(),
{
    if k == cs.len() {
        assert(cs.take(k) =~= cs);
    } else {
        assert(cs.drop_last().take(k) =~= cs.take(k));
        lemma_flatten_prefix_len(cs.drop_last(), k);
    }
}

proof fn lemma_words_bytes_step(ws: Seq<u64>, k: int)
    requires
        0 <= k < ws.len(),
    ensures
        words_bytes(ws.take(k + 1)) == words_bytes(ws.take(k)) + word_bytes(ws[k]),
{
    assert(ws.take(k + 1).drop_last() =~= ws.take(k));
}

/// The data area and the offset of each of its pieces.
fn data_area(args: &Vec<Vec<u8>>, envs: &Vec<Vec<u8>>, aux: &Vec<AuxEntry>) -> (r: (Vec<u8>, Vec<u64>))
    ensures
        r.0@ == flatten(chunks(views(args@), views(envs@), aux@)),
        r.1@.len() == args@.len() + envs@.len() + aux@.len(),
        forall|k: int| 0 <= k < r.1@.len() ==>
            r.1@[k] == chunk_offset(chunks(views(args@), views(envs@), aux@), k),
{
    let ghost a = views(args@);
    let ghost e = views(envs@);
    let ghost x = aux@;
    let ghost cs = chunks(a, e, x);
    let na: usize = args.len();
    let ne: usize = envs.len();
    let nx: usize = aux.len();
    let mut data: Vec<u8> = Vec::new();
    let mut offs: Vec<u64> = Vec::new();
    let mut i: usize = 0;
    while i < na
        invariant
            na == args@.len(),
            a == views(args@),
            a.len() == na,
            e.len() == ne,
            x.len() == nx,
            cs == chunks(a, e, x),
            i <= na,
            data@ == flatten(cs.take(i as int)),
            offs@.len() == i,
            forall|j: int| 0 <= j < i ==> offs@[j] == chunk_offset(cs, j),
        decreases na - i,
    {
        proof {
            lemma_flatten_step(cs, i as int);
            assert(cs[i as int] == cstr(args@[i as int]@));
        }
        offs.push(data.len() as u64);
        append(&mut data, &args[i]);
        data.push(0u8);
        i += 1;
    }
    let mut j: usize = 0;
    while j < ne
        invariant
            ne == envs@.len(),
            e == views(envs@),
            a.len() == na,
            e.len() == ne,
            x.len() == nx,
            cs == chunks(a, e, x),
            j <= ne,
            data@ == flatten(cs.take(na + j)),
            offs@.len() == na + j,
            forall|k: int| 0 <= k < na + j ==> offs@[k] == chunk_offset(cs, k),
        decreases ne - j,
    {
        proof {
            lemma_flatten_step(cs, na + j);
            assert(cs[na + j] == cstr(envs@[j as int]@));
        }
        offs.push(data.len() as u64);
        append(&mut data, &envs[j]);
        data.push(0u8);
        j += 1;
    }
    let mut t: usize = 0;
    while t < nx
        invariant
            nx == aux@.len(),
            x == aux@,
            a.len() == na,
            e.len() == ne,
            x.len() == nx,
            cs == chunks(a, e, x),
            t <= nx,
            data@ == flatten(cs.take(na + ne + t)),
            offs@.len() == na + ne + t,
            forall|k: int| 0 <= k < na + ne + t ==> offs@[k] == chunk_offset(cs, k),
        decreases nx - t,
    {
        proof {
            lemma_flatten_step(cs, na + ne + t);
            assert(cs[na + ne + t] == aux_data(aux@[t as int]));
        }
        offs.push(data.len() as u64);
        match &aux[t].value {
            AuxValue::Word(_) => {
                assert(data@ + aux_data(aux@[t as int]) =~= data@);
            },
            AuxValue::Text(txt) => {
                append(&mut data, txt);
                data.push(0u8);
            },
            AuxValue::Bytes(b) => {
                append(&mut data, b);
            },
        }
        t += 1;
    }
    assert(cs.take(cs.len() as int) =~= cs);
    (data, offs)
}

/// The words of the stack, for a data area that starts at `ds`.
fn word_list(args: &Vec<Vec<u8>>, envs: &Vec<Vec<u8>>, aux: &Vec<AuxEntry>, offs: &Vec<u64>, ds: u64, top: u64) -> (r: Vec<u64>)
    requires
        offs@.len() == args@.len() + envs@.len() + aux@.len(),
        forall|k: int| 0 <= k < offs@.len() ==>
            offs@[k] == chunk_offset(chunks(views(args@), views(envs@), aux@), k),
        forall|k: int| 0 <= k < offs@.len() ==> ds + offs@[k] <= top,
    ensures
        r@ == stack_words(views(args@), views(envs@), aux@, ds as int),
{
    let ghost a = views(args@);
    let ghost e = views(envs@);
    let ghost x = aux@;
    let ghost cs = chunks(a, e, x);
    let na: usize = args.len();
    let ne: usize = envs.len();
    let nx: usize = aux.len();
    let no: usize = offs.len();
    let ghost f_args = Seq::new(na as nat, |i: int| ptr(cs, ds as int, i));
    let ghost f_envs = Seq::new(ne as nat, |j: int| ptr(cs, ds as int, na + j));
    let ghost f_aux = Seq::new((2 * nx) as nat, |t: int|
        if t % 2 == 0 { x[t / 2].key } else { aux_word(x[t / 2], ptr(cs, ds as int, na + ne + t / 2)) });
    let mut words: Vec<u64> = Vec::new();
    words.push(na as u64);
    let mut i: usize = 0;
    while i < na
        invariant
            i <= na,
            no == offs@.len(),
            no == na + ne + nx,
            forall|k: int| 0 <= k < no ==> offs@[k] == chunk_offset(cs, k),
            forall|k: int| 0 <= k < no ==> ds + offs@[k] <= top,
            f_args == Seq::new(na as nat, |i: int| ptr(cs, ds as int, i)),
            words@ == seq![na as u64] + f_args.take(i as int),
        decreases na - i,
    {
        words.push(ds + offs[i]);
        assert(f_args.take(i + 1) =~= f_args.take(i as int).push(f_args[i as int]));
        i += 1;
    }
    assert(f_args.take(na as int) =~= f_args);
    words.push(0u64);
    let ghost pre1 = words@;
    let mut j: usize = 0;
    while j < ne
        invariant
            j <= ne,
            no == offs@.len(),
            no == na + ne + nx,
            forall|k: int| 0 <= k < no ==> offs@[k] == chunk_offset(cs, k),
            forall|k: int| 0 <= k < no ==> ds + offs@[k] <= top,
            f_envs == Seq::new(ne as nat, |j: int| ptr(cs, ds as int, na + j)),
            words@ == pre1 + f_envs.take(j as int),
        decreases ne - j,
    {
        words.push(ds + offs[na + j]);
        assert(f_envs.take(j + 1) =~= f_envs.take(j as int).push(f_envs[j as int]));
        j += 1;
    }
    assert(f_envs.take(ne as int) =~= f_envs);
    words.push(0u64);
    let ghost pre2 = words@;
    let mut t: usize = 0;
    while t < nx
        invariant
            t <= nx,
            nx == aux@.len(),
            x == aux@,
            no == offs@.len(),
            no == na + ne + nx,
            forall|k: int| 0 <= k < no ==> offs@[k] == chunk_offset(cs, k),
            forall|k: int| 0 <= k < no ==> ds + offs@[k] <= top,
            f_aux == Seq::new((2 * nx) as nat, |t: int|
                if t % 2 == 0 { x[t / 2].key } else { aux_word(x[t / 2], ptr(cs, ds as int, na + ne + t / 2)) }),
            words@ == pre2 + f_aux.take(2 * t),
        decreases nx - t,
    {
        words.push(aux[t].key);
        let v: u64 = match &aux[t].value {
            AuxValue::Word(v) => *v,
            _ => ds + offs[na + ne + t],
        };
        words.push(v);
        assert(f_aux[2 * t] == aux@[t as int].key);
        assert((2 * t + 1) / 2 == t);
        assert(f_aux[2 * t + 1] == v);
        assert(f_aux.take(2 * t + 2) =~= f_aux.take(2 * t).push(f_aux[2 * t]).push(f_aux[2 * t + 1]));
        t += 1;
    }
    assert(f_aux.take(2 * nx) =~= f_aux);
    words.push(AT_NULL);
    words.push(0u64);
    assert(words@ =~= stack_words(a, e, x, ds as int));
    words
}

/// The little-endian bytes of `words`, in order.
fn words_to_bytes(words: &Vec<u64>) -> (r: Vec<u8>)
    ensures
        r@ == words_bytes(words@),
{
    let mut bytes: Vec<u8> = Vec::new();
    let mut k: usize = 0;
    while k < words.len()
        invariant
            k <= words@.len(),
            bytes@ == words_bytes(words@.take(k as int)),
        decreases words@.len() - k,
    {
        proof {
            lemma_words_bytes_step(words@, k as int);
        }
        push_word(&mut bytes, words[k]);
        k += 1;
    }
    assert(words@.take(words@.len() as int) =~= words@);
    bytes
}

/// A data area made of pieces of at most `m` bytes each is at most `m`
/// bytes per piece long.
pub proof fn lemma_flatten_bound(cs: Seq<Seq<u8>>, m: int)
    requires
        forall|k: int| 0 <= k < cs.len() ==> (#[trigger] cs[k]).len() <= m,
    ensures
        flatten(cs).len() <= m * cs.len(),
    decreases cs.len(),
{
    if cs.len() > 0 {
        assert forall|k: int| 0 <= k < cs.drop_last().len() implies (#[trigger] cs.drop_last()[k]).len() <= m by {
            assert(cs.drop_last()[k] == cs[k]);
        }
        lemma_flatten_bound(cs.drop_last(), m);
        assert(m * (cs.len() - 1) + m == m * cs.len()) by (nonlinear_arith);
    }
}

/// Lays out the stack of a new process below `top`, in a region of `size`
/// bytes. Fails, writing nothing, when the layout does not fit.
pub fn build_stack(top: u64, size: u64, args: &Vec<Vec<u8>>, envs: &Vec<Vec<u8>>, aux: &Vec<AuxEntry>) -> (r: Result<ProcessStack, LoadError>)
    requires
        size <= top,
        top % 16 == 0,
        (top - size) % 16 == 0,
    ensures
        match r {
            Ok(st) => {
                &&& stack_fits(size as int, views(args@), views(envs@), aux@)
                &&& (st.sp as int, st.bytes@) == stack_layout(top as int, views(args@), views(envs@), aux@)
                &&& top - size <= st.sp
            },
            Err(e) => {
                &&& e == LoadError::StackOverflow
                &&& !stack_fits(size as int, views(args@), views(envs@), aux@)
            },
        },
{
    let ghost cs = chunks(views(args@), views(envs@), aux@);
    let (data, offs) = data_area(args, envs, aux);
    let d_len: usize = data.len();
    let nw: u128 = args.len() as u128 + envs.len() as u128 + 2 * (aux.len() as u128) + 5;
    if d_len as u128 + 8 * nw > size as u128 {
        return Err(LoadError::StackOverflow);
    }
    let ds: u64 = top - d_len as u64;
    proof {
        assert forall|k: int| 0 <= k < offs@.len() implies ds + offs@[k] <= top by {
            lemma_flatten_prefix_len(cs, k);
        }
    }
    let words = word_list(args, envs, aux, &offs, ds, top);
    let mut bytes = words_to_bytes(&words);
    proof {
        lemma_words_bytes_len(words@);
    }
    let low: u64 = ds - 8 * (words.len() as u64);
    let sp: u64 = low - low % 16;
    let mut g: u64 = 0;
    let ghost wb = bytes@;
    while g < low - sp
        invariant
            g <= low - sp,
            bytes@ == wb + Seq::new(g as nat, |k: int| 0u8),
        decreases low - sp - g,
    {
        bytes.push(0u8);
        assert(wb + Seq::new((g + 1) as nat, |k: int| 0u8) =~= (wb + Seq::new(g as nat, |k: int| 0u8)).push(0u8));
        g += 1;
    }
    append(&mut bytes, &data);
    Ok(ProcessStack { sp, bytes })
}

/// Building the stack twice from the same inputs gives the same stack
/// pointer and the same bytes.
pub proof fn lemma_stack_deterministic(
    top: int,
    args1: Seq<Seq<u8>>,
    envs1: Seq<Seq<u8>>,
    aux1: Seq<AuxEntry>,
    args2: Seq<Seq<u8>>,
    envs2: Seq<Seq<u8>>,
    aux2: Seq<AuxEntry>,
)
    requires
        args1 == args2,
        envs1 == envs2,
        aux1 == aux2,
    ensures
        stack_layout(top, args1, envs1, aux1) == stack_layout(top, args2, envs2, aux2),
{
}

} // verus!
