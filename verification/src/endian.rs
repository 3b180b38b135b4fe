//! Little-endian integers inside byte buffers.
//!
//! All binary documents handled by this crate store their integers in little-endian
//! order. The spec functions here give the meaning of those bytes; the executable
//! readers and writers go through `byteorder` and are specified against them.

use crate::errors::Error;
use byteorder::{ByteOrder, LittleEndian};
use vstd::prelude::*;

verus! {

/// The value of the two bytes `b0, b1` read in little-endian order.
pub open spec fn le_u16(b0: u8, b1: u8) -> int {
    b0 as int + 256 * (b1 as int)
}

/// The value of the four bytes `b0..b3` read in little-endian order.
pub open spec fn le_u32(b0: u8, b1: u8, b2: u8, b3: u8) -> int {
    b0 as int + 256 * (b1 as int) + 65536 * (b2 as int) + 16777216 * (b3 as int)
}

/// The `u16` stored at `pos` in `data`, when the two bytes are there.
pub open spec fn u16_at(data: Seq<u8>, pos: int) -> u16
    recommends
        0 <= pos,
        pos + 2 <= data.len(),
{
    le_u16(data[pos], data[pos + 1]) as u16
}

/// The `u32` stored at `pos` in `data`, when the four bytes are there.
pub open spec fn u32_at(data: Seq<u8>, pos: int) -> u32
    recommends
        0 <= pos,
        pos + 4 <= data.len(),
{
    le_u32(data[pos], data[pos + 1], data[pos + 2], data[pos + 3]) as u32
}

/// What a cursor placed at `pos` reads as a `u8`: `None` past the end.
pub open spec fn read_u8_spec(data: Seq<u8>, pos: int) -> Option<u8> {
    if 0 <= pos && pos + 1 <= data.len() {
        Some(data[pos])
    } else {
        None
    }
}

/// What a cursor placed at `pos` reads as a little-endian `u16`: `None` past the end.
pub open spec fn read_u16_spec(data: Seq<u8>, pos: int) -> Option<u16> {
    if 0 <= pos && pos + 2 <= data.len() {
        Some(u16_at(data, pos))
    } else {
        None
    }
}

/// What a cursor placed at `pos` reads as a little-endian `u32`: `None` past the end.
pub open spec fn read_u32_spec(data: Seq<u8>, pos: int) -> Option<u32> {
    if 0 <= pos && pos + 4 <= data.len() {
        Some(u32_at(data, pos))
    } else {
        None
    }
}

/// The two bytes that encode `v` in little-endian order.
pub open spec fn u16_bytes(v: u16) -> Seq<u8> {
    seq![(v % 256) as u8, (v / 256) as u8]
}

/// The four bytes that encode `v` in little-endian order.
pub open spec fn u32_bytes(v: u32) -> Seq<u8> {
    seq![
        (v % 256) as u8,
        ((v / 256) % 256) as u8,
        ((v / 65536) % 256) as u8,
        (v / 16777216) as u8,
    ]
}

/// Reading back the bytes written for a `u16` gives the `u16`.
pub proof fn lemma_u16_roundtrip(v: u16)
    ensures
        u16_bytes(v).len() == 2,
        u16_at(u16_bytes(v), 0) == v,
{
    let b = u16_bytes(v);
    assert(b[0] as int + 256 * (b[1] as int) == v as int);
}

/// Reading back the bytes written for a `u32` gives the `u32`.
pub proof fn lemma_u32_roundtrip(v: u32)
    ensures
        u32_bytes(v).len() == 4,
        u32_at(u32_bytes(v), 0) == v,
{
    let b = u32_bytes(v);
    let x = v as int;
    assert(x == x % 256 + 256 * ((x / 256) % 256) + 65536 * ((x / 65536) % 256) + 16777216 * (
    x / 16777216)) by (nonlinear_arith)
        requires
            0 <= x <= u32::MAX,
    ;
}

/// A `u32` is read back from wherever its four bytes were placed.
pub proof fn lemma_read_u32_placed(s: Seq<u8>, p: int, v: u32)
    requires
        0 <= p,
        p + 4 <= s.len(),
        s.subrange(p, p + 4) == u32_bytes(v),
    ensures
        read_u32_spec(s, p) == Some(v),
{
    lemma_u32_roundtrip(v);
    let b = s.subrange(p, p + 4);
    assert(s[p] == b[0] && s[p + 1] == b[1] && s[p + 2] == b[2] && s[p + 3] == b[3]);
}

/// A `u16` is read back from wherever its two bytes were placed.
pub proof fn lemma_read_u16_placed(s: Seq<u8>, p: int, v: u16)
    requires
        0 <= p,
        p + 2 <= s.len(),
        s.subrange(p, p + 2) == u16_bytes(v),
    ensures
        read_u16_spec(s, p) == Some(v),
{
    lemma_u16_roundtrip(v);
    let b = s.subrange(p, p + 2);
    assert(s[p] == b[0] && s[p + 1] == b[1]);
}

/// A `u32` placed at `k` of a part that sits at `off` of `c` is read back at `off + k`.
pub proof fn lemma_read_u32_in_part(c: Seq<u8>, off: int, part: Seq<u8>, k: int, v: u32)
    requires
        0 <= off,
        off + part.len() <= c.len(),
        c.subrange(off, off + part.len()) == part,
        0 <= k,
        k + 4 <= part.len(),
        part.subrange(k, k + 4) == u32_bytes(v),
    ensures
        read_u32_spec(c, off + k) == Some(v),
{
    assert(c.subrange(off + k, off + k + 4) =~= part.subrange(k, k + 4));
    lemma_read_u32_placed(c, off + k, v);
}

/// The low sixteen bits of a `u32` are read back from the first two of its bytes.
pub proof fn lemma_read_u16_of_u32(s: Seq<u8>, p: int, v: u32)
    requires
        0 <= p,
        p + 4 <= s.len(),
        s.subrange(p, p + 4) == u32_bytes(v),
    ensures
        read_u16_spec(s, p) == Some((v % 0x1_0000) as u16),
{
    let b = s.subrange(p, p + 4);
    assert(s[p] == b[0] && s[p + 1] == b[1]);
    let x = v as int;
    assert(x % 256 + 256 * ((x / 256) % 256) == x % 65536) by (nonlinear_arith)
        requires
            0 <= x,
    ;
}

/// The bytes of a little-endian `u16` read from `data` are the bytes it was read from.
pub(crate) proof fn lemma_u16_bytes_at(data: Seq<u8>, p: int)
    requires
        0 <= p,
        p + 2 <= data.len(),
    ensures
        u16_bytes(u16_at(data, p)) == data.subrange(p, p + 2),
{
    let b0 = data[p] as int;
    let b1 = data[p + 1] as int;
    let v = b0 + 256 * b1;
    assert(v % 256 == b0 && v / 256 == b1) by (nonlinear_arith)
        requires
            0 <= b0 < 256,
            0 <= b1 < 256,
            v == b0 + 256 * b1,
    ;
    assert(u16_bytes(u16_at(data, p)) =~= data.subrange(p, p + 2));
}

/// The bytes of a little-endian `u32` read from `data` are the bytes it was read from.
pub(crate) proof fn lemma_u32_bytes_at(data: Seq<u8>, p: int)
    requires
        0 <= p,
        p + 4 <= data.len(),
    ensures
        u32_bytes(u32_at(data, p)) == data.subrange(p, p + 4),
{
    let b0 = data[p] as int;
    let b1 = data[p + 1] as int;
    let b2 = data[p + 2] as int;
    let b3 = data[p + 3] as int;
    let v = b0 + 256 * b1 + 65536 * b2 + 16777216 * b3;
    assert(v % 256 == b0 && (v / 256) % 256 == b1 && (v / 65536) % 256 == b2 && v / 16777216
        == b3) by (nonlinear_arith)
        requires
            0 <= b0 < 256,
            0 <= b1 < 256,
            0 <= b2 < 256,
            0 <= b3 < 256,
            v == b0 + 256 * b1 + 65536 * b2 + 16777216 * b3,
    ;
    assert(u32_bytes(u32_at(data, p)) =~= data.subrange(p, p + 4));
}

/// The `i`-th block of `size` bytes of `s` from `start` on.
pub open spec fn block_at(s: Seq<u8>, start: int, size: int, i: int) -> Seq<u8> {
    s.subrange(start + size * i, start + size * i + size)
}

/// Two byte strings of the same length are equal when they agree up to `start` and on
/// each of the `n` blocks of `size` bytes that fill them after it.
pub(crate) proof fn lemma_agree_by_blocks(c: Seq<u8>, d: Seq<u8>, start: int, size: int, n: int)
    requires
        0 <= start,
        0 < size,
        0 <= n,
        c.len() == start + size * n,
        d.len() == start + size * n,
        c.subrange(0, start) == d.subrange(0, start),
        forall|i: int|
            0 <= i < n ==> #[trigger] block_at(c, start, size, i) == block_at(d, start, size, i),
    ensures
        c == d,
{
    assert forall|k: int| 0 <= k < c.len() implies c[k] == d[k] by {
        if k < start {
            assert(start <= c.len() && start <= d.len());
            assert(c.subrange(0, start)[k] == c[k]);
            assert(d.subrange(0, start)[k] == d[k]);
        } else {
            let i = (k - start) / size;
            let r = (k - start) % size;
            assert(0 <= i < n && 0 <= r < size && k == start + size * i + r
                && start + size * i + size <= start + size * n) by (nonlinear_arith)
                requires
                    start <= k < start + size * n,
                    0 < size,
                    i == (k - start) / size,
                    r == (k - start) % size,
            ;
            assert(block_at(c, start, size, i) == block_at(d, start, size, i));
            assert(block_at(c, start, size, i)[r] == c[k]);
            assert(block_at(d, start, size, i)[r] == d[k]);
        }
    }
    assert(c =~= d);
}

/// `byteorder`'s `LittleEndian::read_u16` on the two bytes at `pos`.
/// Its contract claims the little-endian value of those bytes, as
/// `u16::from_le_bytes` in its source computes it.
#[verifier::external_body]
fn byteorder_read_u16(data: &[u8], pos: usize) -> (r: u16)
    requires
        pos + 2 <= data@.len(),
    ensures
        r == u16_at(data@, pos as int),
{
    LittleEndian::read_u16(&data[pos..pos + 2])
}

/// `byteorder`'s `LittleEndian::read_u32` on the four bytes at `pos`.
/// Its contract claims the little-endian value of those bytes, as
/// `u32::from_le_bytes` in its source computes it.
#[verifier::external_body]
fn byteorder_read_u32(data: &[u8], pos: usize) -> (r: u32)
    requires
        pos + 4 <= data@.len(),
    ensures
        r == u32_at(data@, pos as int),
{
    LittleEndian::read_u32(&data[pos..pos + 4])
}

/// `byteorder`'s `LittleEndian::write_u16` into a fresh two-byte array.
/// Its contract claims the array holds the little-endian bytes of `v`, as
/// `u16::to_le_bytes` in its source writes them.
#[verifier::external_body]
fn byteorder_write_u16(v: u16) -> (r: [u8; 2])
    ensures
        r@ == u16_bytes(v),
{
    let mut buf = [0u8; 2];
    LittleEndian::write_u16(&mut buf, v);
    buf
}

/// `byteorder`'s `LittleEndian::write_u32` into a fresh four-byte array.
/// Its contract claims the array holds the little-endian bytes of `v`, as
/// `u32::to_le_bytes` in its source writes them.
#[verifier::external_body]
fn byteorder_write_u32(v: u32) -> (r: [u8; 4])
    ensures
        r@ == u32_bytes(v),
{
    let mut buf = [0u8; 4];
    LittleEndian::write_u32(&mut buf, v);
    buf
}

/// Reads the byte at `pos`, or `None` when `pos` is past the end.
pub fn read_u8(data: &[u8], pos: u64) -> (r: Option<u8>)
    ensures
        r == read_u8_spec(data@, pos as int),
{
    if pos < data.len() as u64 {
        Some(data[pos as usize])
    } else {
        None
    }
}

/// Reads the little-endian `u16` at `pos`, or `None` when it does not fit.
pub fn read_u16(data: &[u8], pos: u64) -> (r: Option<u16>)
    ensures
        r == read_u16_spec(data@, pos as int),
{
    let len = data.len() as u64;
    if pos <= len && 2 <= len - pos {
        Some(byteorder_read_u16(data, pos as usize))
    } else {
        None
    }
}

/// Reads the little-endian `u32` at `pos`, or `None` when it does not fit.
pub fn read_u32(data: &[u8], pos: u64) -> (r: Option<u32>)
    ensures
        r == read_u32_spec(data@, pos as int),
{
    let len = data.len() as u64;
    if pos <= len && 4 <= len - pos {
        Some(byteorder_read_u32(data, pos as usize))
    } else {
        None
    }
}

/// A read that found nothing becomes the end-of-data error.
pub open spec fn or_eof<T>(o: Option<T>) -> Result<T, Error> {
    match o {
        Some(v) => Ok(v),
        None => Err(Error::UnexpectedEof),
    }
}

/// Reads the byte at `pos`, failing past the end.
pub fn get_u8(data: &[u8], pos: u64) -> (r: Result<u8, Error>)
    ensures
        r == or_eof(read_u8_spec(data@, pos as int)),
{
    match read_u8(data, pos) {
        Some(v) => Ok(v),
        None => Err(Error::UnexpectedEof),
    }
}

/// Reads the little-endian `u16` at `pos`, failing when it does not fit.
pub fn get_u16(data: &[u8], pos: u64) -> (r: Result<u16, Error>)
    ensures
        r == or_eof(read_u16_spec(data@, pos as int)),
{
    match read_u16(data, pos) {
        Some(v) => Ok(v),
        None => Err(Error::UnexpectedEof),
    }
}

/// Reads the little-endian `u32` at `pos`, failing when it does not fit.
pub fn get_u32(data: &[u8], pos: u64) -> (r: Result<u32, Error>)
    ensures
        r == or_eof(read_u32_spec(data@, pos as int)),
{
    match read_u32(data, pos) {
        Some(v) => Ok(v),
        None => Err(Error::UnexpectedEof),
    }
}

/// Appends one byte.
pub fn push_u8(out: &mut Vec<u8>, v: u8)
    ensures
        final(out)@ == old(out)@.push(v),
{
    out.push(v);
}

/// Appends the little-endian bytes of `v`.
pub fn push_u16(out: &mut Vec<u8>, v: u16)
    ensures
        final(out)@ == old(out)@ + u16_bytes(v),
{
    let b = byteorder_write_u16(v);
    out.push(b[0]);
    out.push(b[1]);
    assert(final(out)@ =~= old(out)@ + u16_bytes(v));
}

/// Appends the little-endian bytes of `v`.
pub fn push_u32(out: &mut Vec<u8>, v: u32)
    ensures
        final(out)@ == old(out)@ + u32_bytes(v),
{
    let b = byteorder_write_u32(v);
    out.push(b[0]);
    out.push(b[1]);
    out.push(b[2]);
    out.push(b[3]);
    assert(final(out)@ =~= old(out)@ + u32_bytes(v));
}

/// Appends all of `bytes`.
pub fn push_bytes(out: &mut Vec<u8>, bytes: &[u8])
    ensures
        final(out)@ == old(out)@ + bytes@,
{
    let mut i: usize = 0;
    while i < bytes.len()
        invariant
            i <= bytes@.len(),
            out@ == old(out)@ + bytes@.subrange(0, i as int),
        decreases bytes@.len() - i,
    {
        out.push(bytes[i]);
        i = i + 1;
        assert(out@ =~= old(out)@ + bytes@.subrange(0, i as int));
    }
    assert(bytes@.subrange(0, i as int) =~= bytes@);
}

} // verus!
