//! Fixed-width unsigned integers read from and written to byte buffers in either
//! byte order, with the exact bytes stated as spec functions.
use crate::container::Endian;
use vstd::prelude::*;

verus! {

/// `s` with `t` written over it from position `off` on.
pub open spec fn splice(s: Seq<u8>, off: int, t: Seq<u8>) -> Seq<u8> {
    s.subrange(0, off) + t + s.subrange(off + t.len(), s.len() as int)
}

/// How many whole records of `size` bytes fit from `offset` on in `len` bytes.
pub open spec fn fitting(len: int, offset: int, size: int) -> int {
    if offset > len {
        0
    } else {
        (len - offset) / size
    }
}

/// The start of the first record of `size` bytes from `offset` on that does not fit
/// in `len` bytes.
pub open spec fn first_short(len: int, offset: int, size: int) -> int {
    offset + fitting(len, offset, size) * size
}

/// Record `i` from `offset` on fits exactly when `i` is below `fitting`.
pub proof fn lemma_fitting(len: int, offset: int, size: int, i: int)
    requires
        0 <= offset,
        0 <= len,
        0 < size,
        0 <= i,
    ensures
        0 <= fitting(len, offset, size),
        first_short(len, offset, size) + size > len,
        fitting(len, offset, size) > 0 ==> first_short(len, offset, size) <= len,
        i < fitting(len, offset, size) <==> offset + (i + 1) * size <= len,
        i < fitting(len, offset, size) ==> offset + i * size < first_short(len, offset, size),
        i >= fitting(len, offset, size) ==> offset + i * size >= first_short(len, offset, size),
{
    let k = fitting(len, offset, size);
    if offset <= len {
        vstd::arithmetic::div_mod::lemma_fundamental_div_mod(len - offset, size);
        assert(0 <= (len - offset) % size < size) by {
            vstd::arithmetic::div_mod::lemma_mod_bound(len - offset, size);
        }
        assert(k >= 0) by {
            vstd::arithmetic::div_mod::lemma_div_pos_is_pos(len - offset, size);
        }
        assert(k * size <= len - offset < k * size + size);
    }
    assert(i < k <==> offset + (i + 1) * size <= len) by (nonlinear_arith)
        requires
            offset <= len ==> k * size <= len - offset < k * size + size,
            offset > len ==> k == 0,
            size > 0,
            i >= 0,
    ;
    assert(i < k ==> i * size < k * size) by (nonlinear_arith)
        requires
            size > 0,
    ;
    assert(i >= k ==> i * size >= k * size) by (nonlinear_arith)
        requires
            size > 0,
    ;
}

/// The value of the two bytes of `b` from position `at` on.
pub open spec fn u16_at(b: Seq<u8>, at: int, e: Endian) -> u16 {
    match e {
        Endian::Little => (b[at] as u16) | ((b[at + 1] as u16) << 8u16),
        Endian::Big => (b[at + 1] as u16) | ((b[at] as u16) << 8u16),
    }
}

/// The value of the four bytes of `b` from position `at` on.
pub open spec fn u32_at(b: Seq<u8>, at: int, e: Endian) -> u32 {
    match e {
        Endian::Little => u32_from_le(b[at], b[at + 1], b[at + 2], b[at + 3]),
        Endian::Big => u32_from_le(b[at + 3], b[at + 2], b[at + 1], b[at]),
    }
}

/// The value of the eight bytes of `b` from position `at` on.
pub open spec fn u64_at(b: Seq<u8>, at: int, e: Endian) -> u64 {
    match e {
        Endian::Little => u64_from_le(
            b[at],
            b[at + 1],
            b[at + 2],
            b[at + 3],
            b[at + 4],
            b[at + 5],
            b[at + 6],
            b[at + 7],
        ),
        Endian::Big => u64_from_le(
            b[at + 7],
            b[at + 6],
            b[at + 5],
            b[at + 4],
            b[at + 3],
            b[at + 2],
            b[at + 1],
            b[at],
        ),
    }
}

pub open spec fn u32_from_le(b0: u8, b1: u8, b2: u8, b3: u8) -> u32 {
    (b0 as u32) | ((b1 as u32) << 8u32) | ((b2 as u32) << 16u32) | ((b3 as u32) << 24u32)
}

pub open spec fn u64_from_le(b0: u8, b1: u8, b2: u8, b3: u8, b4: u8, b5: u8, b6: u8, b7: u8) -> u64 {
    (b0 as u64) | ((b1 as u64) << 8u64) | ((b2 as u64) << 16u64) | ((b3 as u64) << 24u64) | ((
    b4 as u64) << 32u64) | ((b5 as u64) << 40u64) | ((b6 as u64) << 48u64) | ((b7 as u64)
        << 56u64)
}

/// The two bytes that encode `v`.
pub open spec fn u16_bytes(v: u16, e: Endian) -> Seq<u8> {
    let (b0, b1) = (v as u8, (v >> 8u16) as u8);
    match e {
        Endian::Little => seq![b0, b1],
        Endian::Big => seq![b1, b0],
    }
}

/// The four bytes that encode `v`.
pub open spec fn u32_bytes(v: u32, e: Endian) -> Seq<u8> {
    let le = seq![v as u8, (v >> 8u32) as u8, (v >> 16u32) as u8, (v >> 24u32) as u8];
    match e {
        Endian::Little => le,
        Endian::Big => seq![le[3], le[2], le[1], le[0]],
    }
}

/// The eight bytes that encode `v`.
pub open spec fn u64_bytes(v: u64, e: Endian) -> Seq<u8> {
    let le = seq![
        v as u8,
        (v >> 8u64) as u8,
        (v >> 16u64) as u8,
        (v >> 24u64) as u8,
        (v >> 32u64) as u8,
        (v >> 40u64) as u8,
        (v >> 48u64) as u8,
        (v >> 56u64) as u8,
    ];
    match e {
        Endian::Little => le,
        Endian::Big => seq![le[7], le[6], le[5], le[4], le[3], le[2], le[1], le[0]],
    }
}

/// Reading back the bytes of a `u16` gives the value written.
pub proof fn lemma_u16_round_trip(v: u16, e: Endian)
    ensures
        u16_bytes(v, e).len() == 2,
        u16_at(u16_bytes(v, e), 0, e) == v,
{
    assert(((v as u8) as u16) | ((((v >> 8u16) as u8) as u16) << 8u16) == v) by (bit_vector);
}

/// Reading back the bytes of a `u32` gives the value written.
pub proof fn lemma_u32_round_trip(v: u32, e: Endian)
    ensures
        u32_bytes(v, e).len() == 4,
        u32_at(u32_bytes(v, e), 0, e) == v,
{
    assert(u32_from_le(v as u8, (v >> 8u32) as u8, (v >> 16u32) as u8, (v >> 24u32) as u8) == v)
        by (bit_vector);
}

/// Reading back the bytes of a `u64` gives the value written.
pub proof fn lemma_u64_round_trip(v: u64, e: Endian)
    ensures
        u64_bytes(v, e).len() == 8,
        u64_at(u64_bytes(v, e), 0, e) == v,
{
    assert(u64_from_le(
        v as u8,
        (v >> 8u64) as u8,
        (v >> 16u64) as u8,
        (v >> 24u64) as u8,
        (v >> 32u64) as u8,
        (v >> 40u64) as u8,
        (v >> 48u64) as u8,
        (v >> 56u64) as u8,
    ) == v) by (bit_vector);
}

/// Writing `a` and then `b` right after it is writing `a + b`.
pub proof fn lemma_splice_splice(s: Seq<u8>, off: int, a: Seq<u8>, b: Seq<u8>)
    requires
        0 <= off,
        off + a.len() + b.len() <= s.len(),
    ensures
        splice(splice(s, off, a), off + a.len(), b) == splice(s, off, a + b),
{
    assert(splice(splice(s, off, a), off + a.len(), b) =~= splice(s, off, a + b));
}

/// The four bytes of `b` from `at` on are those of `v`, so `v` is read there.
pub proof fn lemma_u32_at(b: Seq<u8>, at: int, v: u32, e: Endian)
    requires
        0 <= at,
        at + 4 <= b.len(),
        b.subrange(at, at + 4) == u32_bytes(v, e),
    ensures
        u32_at(b, at, e) == v,
{
    lemma_u32_round_trip(v, e);
    let w = b.subrange(at, at + 4);
    assert(b[at] == w[0] && b[at + 1] == w[1] && b[at + 2] == w[2] && b[at + 3] == w[3]);
}

/// The eight bytes of `b` from `at` on are those of `v`, so `v` is read there.
pub proof fn lemma_u64_at(b: Seq<u8>, at: int, v: u64, e: Endian)
    requires
        0 <= at,
        at + 8 <= b.len(),
        b.subrange(at, at + 8) == u64_bytes(v, e),
    ensures
        u64_at(b, at, e) == v,
{
    lemma_u64_round_trip(v, e);
    let w = b.subrange(at, at + 8);
    assert(b[at] == w[0] && b[at + 1] == w[1] && b[at + 2] == w[2] && b[at + 3] == w[3]);
    assert(b[at + 4] == w[4] && b[at + 5] == w[5] && b[at + 6] == w[6] && b[at + 7] == w[7]);
}

/// The two bytes of `b` from `at` on are those of `v`, so `v` is read there.
pub proof fn lemma_u16_at(b: Seq<u8>, at: int, v: u16, e: Endian)
    requires
        0 <= at,
        at + 2 <= b.len(),
        b.subrange(at, at + 2) == u16_bytes(v, e),
    ensures
        u16_at(b, at, e) == v,
{
    lemma_u16_round_trip(v, e);
    let w = b.subrange(at, at + 2);
    assert(b[at] == w[0] && b[at + 1] == w[1]);
}

pub fn read_u16(data: &[u8], off: usize, e: Endian) -> (r: u16)
    requires
        off + 2 <= data@.len(),
    ensures
        r == u16_at(data@, off as int, e),
{
    let b0 = data[off] as u16;
    let b1 = data[off + 1] as u16;
    match e {
        Endian::Little => b0 | (b1 << 8u16),
        Endian::Big => b1 | (b0 << 8u16),
    }
}

pub fn read_u32(data: &[u8], off: usize, e: Endian) -> (r: u32)
    requires
        off + 4 <= data@.len(),
    ensures
        r == u32_at(data@, off as int, e),
{
    let b0 = data[off] as u32;
    let b1 = data[off + 1] as u32;
    let b2 = data[off + 2] as u32;
    let b3 = data[off + 3] as u32;
    match e {
        Endian::Little => b0 | (b1 << 8u32) | (b2 << 16u32) | (b3 << 24u32),
        Endian::Big => b3 | (b2 << 8u32) | (b1 << 16u32) | (b0 << 24u32),
    }
}

fn u64_of_le(b0: u8, b1: u8, b2: u8, b3: u8, b4: u8, b5: u8, b6: u8, b7: u8) -> (r: u64)
    ensures
        r == u64_from_le(b0, b1, b2, b3, b4, b5, b6, b7),
{
    (b0 as u64) | ((b1 as u64) << 8u64) | ((b2 as u64) << 16u64) | ((b3 as u64) << 24u64) | ((
    b4 as u64) << 32u64) | ((b5 as u64) << 40u64) | ((b6 as u64) << 48u64) | ((b7 as u64)
        << 56u64)
}

pub fn read_u64(data: &[u8], off: usize, e: Endian) -> (r: u64)
    requires
        off + 8 <= data@.len(),
    ensures
        r == u64_at(data@, off as int, e),
{
    let (b0, b1, b2, b3) = (data[off], data[off + 1], data[off + 2], data[off + 3]);
    let (b4, b5, b6, b7) = (data[off + 4], data[off + 5], data[off + 6], data[off + 7]);
    match e {
        Endian::Little => u64_of_le(b0, b1, b2, b3, b4, b5, b6, b7),
        Endian::Big => u64_of_le(b7, b6, b5, b4, b3, b2, b1, b0),
    }
}

/// Copies `src` into `buf` from position `off` on.
pub fn write_bytes(buf: &mut [u8], off: usize, src: &[u8])
    requires
        off + src@.len() <= old(buf)@.len(),
    ensures
        final(buf)@ == splice(old(buf)@, off as int, src@),
{
    let len = buf.len();
    let mut i: usize = 0;
    while i < src.len()
        invariant
            i <= src@.len(),
            off + src@.len() <= buf@.len(),
            buf@.len() == old(buf)@.len(),
            buf@.len() == len,
            buf@ == splice(old(buf)@, off as int, src@.subrange(0, i as int)),
        decreases src@.len() - i,
    {
        buf[off + i] = src[i];
        i = i + 1;
        assert(buf@ =~= splice(old(buf)@, off as int, src@.subrange(0, i as int)));
    }
    assert(src@.subrange(0, i as int) =~= src@);
}

pub fn write_u8(buf: &mut [u8], off: usize, v: u8)
    requires
        off + 1 <= old(buf)@.len(),
    ensures
        final(buf)@ == splice(old(buf)@, off as int, seq![v]),
{
    buf[off] = v;
    assert(buf@ =~= splice(old(buf)@, off as int, seq![v]));
}

pub fn write_u16(buf: &mut [u8], off: usize, v: u16, e: Endian)
    requires
        off + 2 <= old(buf)@.len(),
    ensures
        final(buf)@ == splice(old(buf)@, off as int, u16_bytes(v, e)),
{
    let (b0, b1) = (v as u8, (v >> 8u16) as u8);
    let bytes: [u8; 2] = match e {
        Endian::Little => [b0, b1],
        Endian::Big => [b1, b0],
    };
    assert(bytes@ =~= u16_bytes(v, e));
    write_bytes(buf, off, &bytes);
}

pub fn write_u32(buf: &mut [u8], off: usize, v: u32, e: Endian)
    requires
        off + 4 <= old(buf)@.len(),
    ensures
        final(buf)@ == splice(old(buf)@, off as int, u32_bytes(v, e)),
{
    let (b0, b1, b2, b3) = (v as u8, (v >> 8u32) as u8, (v >> 16u32) as u8, (v >> 24u32) as u8);
    let bytes: [u8; 4] = match e {
        Endian::Little => [b0, b1, b2, b3],
        Endian::Big => [b3, b2, b1, b0],
    };
    assert(bytes@ =~= u32_bytes(v, e));
    write_bytes(buf, off, &bytes);
}

pub fn write_u64(buf: &mut [u8], off: usize, v: u64, e: Endian)
    requires
        off + 8 <= old(buf)@.len(),
    ensures
        final(buf)@ == splice(old(buf)@, off as int, u64_bytes(v, e)),
{
    let (b0, b1, b2, b3) = (v as u8, (v >> 8u64) as u8, (v >> 16u64) as u8, (v >> 24u64) as u8);
    let (b4, b5, b6, b7) = ((v >> 32u64) as u8, (v >> 40u64) as u8, (v >> 48u64) as u8, (v
        >> 56u64) as u8);
    let bytes: [u8; 8] = match e {
        Endian::Little => [b0, b1, b2, b3, b4, b5, b6, b7],
        Endian::Big => [b7, b6, b5, b4, b3, b2, b1, b0],
    };
    assert(bytes@ =~= u64_bytes(v, e));
    write_bytes(buf, off, &bytes);
}

} // verus!
