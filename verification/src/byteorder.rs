//! # Fixed-width integers on the wire
//!
//! RTMP writes its integers either in big endian (most of the header fields and
//! the chunk data) or in little endian (the two-byte chunk stream id and the
//! message stream id). The spec functions here say which bytes stand for which
//! value, and the executable functions read and append those bytes.
use vstd::prelude::*;

verus! {

/// The value of the big-endian two bytes at `i` in `s`.
pub open spec fn be2(s: Seq<u8>, i: int) -> int {
    s[i] * 256 + s[i + 1]
}

/// The value of the big-endian three bytes at `i` in `s`.
pub open spec fn be3(s: Seq<u8>, i: int) -> int {
    s[i] * 65536 + s[i + 1] * 256 + s[i + 2]
}

/// The value of the big-endian four bytes at `i` in `s`.
pub open spec fn be4(s: Seq<u8>, i: int) -> int {
    s[i] * 16777216 + s[i + 1] * 65536 + s[i + 2] * 256 + s[i + 3]
}

/// The value of the big-endian eight bytes at `i` in `s`.
pub open spec fn be8(s: Seq<u8>, i: int) -> int {
    be4(s, i) * 4294967296 + be4(s, i + 4)
}

/// The value of the little-endian two bytes at `i` in `s`.
pub open spec fn le2(s: Seq<u8>, i: int) -> int {
    s[i + 1] * 256 + s[i]
}

/// The value of the little-endian four bytes at `i` in `s`.
pub open spec fn le4(s: Seq<u8>, i: int) -> int {
    s[i + 3] * 16777216 + s[i + 2] * 65536 + s[i + 1] * 256 + s[i]
}

/// The big-endian two bytes of `v` (its lowest 16 bits).
pub open spec fn be2_bytes(v: int) -> Seq<u8> {
    seq![(v / 256 % 256) as u8, (v % 256) as u8]
}

/// The big-endian three bytes of `v` (its lowest 24 bits).
pub open spec fn be3_bytes(v: int) -> Seq<u8> {
    seq![(v / 65536 % 256) as u8, (v / 256 % 256) as u8, (v % 256) as u8]
}

/// The big-endian four bytes of `v` (its lowest 32 bits).
pub open spec fn be4_bytes(v: int) -> Seq<u8> {
    seq![(v / 16777216 % 256) as u8, (v / 65536 % 256) as u8, (v / 256 % 256) as u8, (v % 256) as u8]
}

/// The big-endian eight bytes of `v` (its lowest 64 bits).
pub open spec fn be8_bytes(v: int) -> Seq<u8> {
    be4_bytes(v / 4294967296) + be4_bytes(v % 4294967296)
}

/// The little-endian two bytes of `v` (its lowest 16 bits).
pub open spec fn le2_bytes(v: int) -> Seq<u8> {
    seq![(v % 256) as u8, (v / 256 % 256) as u8]
}

/// The little-endian four bytes of `v` (its lowest 32 bits).
pub open spec fn le4_bytes(v: int) -> Seq<u8> {
    seq![(v % 256) as u8, (v / 256 % 256) as u8, (v / 65536 % 256) as u8, (v / 16777216 % 256) as u8]
}

/// Reading back the bytes that `be2_bytes` wrote gives the value back, and the
/// same holds of each other width and byte order.
pub proof fn lemma_be2_roundtrip(v: u16)
    ensures
        be2(be2_bytes(v as int), 0) == v,
        be2_bytes(v as int).len() == 2,
{
    assert((v / 256 % 256) * 256 + v % 256 == v) by (nonlinear_arith);
}

pub proof fn lemma_be3_roundtrip(v: u32)
    requires
        v < 0x1000000,
    ensures
        be3(be3_bytes(v as int), 0) == v,
        be3_bytes(v as int).len() == 3,
{
    assert((v / 65536 % 256) * 65536 + (v / 256 % 256) * 256 + v % 256 == v) by (nonlinear_arith)
        requires
            v < 0x1000000,
    ;
}

pub proof fn lemma_be4_roundtrip(v: u32)
    ensures
        be4(be4_bytes(v as int), 0) == v,
        be4_bytes(v as int).len() == 4,
{
    assert((v / 16777216 % 256) * 16777216 + (v / 65536 % 256) * 65536 + (v / 256 % 256) * 256 + v
        % 256 == v) by (nonlinear_arith);
}

pub proof fn lemma_be8_roundtrip(v: u64)
    ensures
        be8(be8_bytes(v as int), 0) == v,
        be8_bytes(v as int).len() == 8,
{
    let hi = (v / 4294967296) as u32;
    let lo = (v % 4294967296) as u32;
    lemma_be4_roundtrip(hi);
    lemma_be4_roundtrip(lo);
    let s = be8_bytes(v as int);
    assert(s.subrange(0, 4) =~= be4_bytes(hi as int));
    assert(s.subrange(4, 8) =~= be4_bytes(lo as int));
    assert(be4(s, 0) == be4(be4_bytes(hi as int), 0));
    assert(be4(s, 4) == be4(be4_bytes(lo as int), 0));
    assert(hi * 4294967296 + lo == v) by (nonlinear_arith)
        requires
            hi == v / 4294967296,
            lo == v % 4294967296,
    ;
}

pub proof fn lemma_le2_roundtrip(v: u16)
    ensures
        le2(le2_bytes(v as int), 0) == v,
        le2_bytes(v as int).len() == 2,
{
    assert((v / 256 % 256) * 256 + v % 256 == v) by (nonlinear_arith);
}

pub proof fn lemma_le4_roundtrip(v: u32)
    ensures
        le4(le4_bytes(v as int), 0) == v,
        le4_bytes(v as int).len() == 4,
{
    assert((v / 16777216 % 256) * 16777216 + (v / 65536 % 256) * 65536 + (v / 256 % 256) * 256 + v
        % 256 == v) by (nonlinear_arith);
}

/// Reads the big-endian `u16` at `i`.
pub fn read_be_u16(bytes: &Vec<u8>, i: usize) -> (r: u16)
    requires
        i + 2 <= bytes.len(),
    ensures
        r == be2(bytes@, i as int),
{
    (bytes[i] as u16) * 256 + (bytes[i + 1] as u16)
}

/// Reads the big-endian 24-bit value at `i`.
pub fn read_be_u24(bytes: &Vec<u8>, i: usize) -> (r: u32)
    requires
        i + 3 <= bytes.len(),
    ensures
        r == be3(bytes@, i as int),
        r < 0x1000000,
{
    (bytes[i] as u32) * 65536 + (bytes[i + 1] as u32) * 256 + (bytes[i + 2] as u32)
}

/// Reads the big-endian `u32` at `i`.
pub fn read_be_u32(bytes: &Vec<u8>, i: usize) -> (r: u32)
    requires
        i + 4 <= bytes.len(),
    ensures
        r == be4(bytes@, i as int),
{
    (bytes[i] as u32) * 16777216 + (bytes[i + 1] as u32) * 65536 + (bytes[i + 2] as u32) * 256 + (
    bytes[i + 3] as u32)
}

/// Reads the big-endian `u64` at `i`.
pub fn read_be_u64(bytes: &Vec<u8>, i: usize) -> (r: u64)
    requires
        i + 8 <= bytes.len(),
    ensures
        r == be8(bytes@, i as int),
{
    let hi = read_be_u32(bytes, i);
    let lo = read_be_u32(bytes, i + 4);
    (hi as u64) * 4294967296 + (lo as u64)
}

/// Reads the little-endian `u16` at `i`.
pub fn read_le_u16(bytes: &Vec<u8>, i: usize) -> (r: u16)
    requires
        i + 2 <= bytes.len(),
    ensures
        r == le2(bytes@, i as int),
{
    (bytes[i + 1] as u16) * 256 + (bytes[i] as u16)
}

/// Reads the little-endian `u32` at `i`.
pub fn read_le_u32(bytes: &Vec<u8>, i: usize) -> (r: u32)
    requires
        i + 4 <= bytes.len(),
    ensures
        r == le4(bytes@, i as int),
{
    (bytes[i + 3] as u32) * 16777216 + (bytes[i + 2] as u32) * 65536 + (bytes[i + 1] as u32) * 256 + (
    bytes[i] as u32)
}

/// Appends the big-endian bytes of `v`.
pub fn push_be_u16(out: &mut Vec<u8>, v: u16)
    ensures
        final(out)@ == old(out)@ + be2_bytes(v as int),
{
    out.push((v / 256) as u8);
    out.push((v % 256) as u8);
}

/// Appends the lowest three big-endian bytes of `v`.
pub fn push_be_u24(out: &mut Vec<u8>, v: u32)
    ensures
        final(out)@ == old(out)@ + be3_bytes(v as int),
{
    out.push(((v / 65536) % 256) as u8);
    out.push(((v / 256) % 256) as u8);
    out.push((v % 256) as u8);
}

/// Appends the big-endian bytes of `v`.
pub fn push_be_u32(out: &mut Vec<u8>, v: u32)
    ensures
        final(out)@ == old(out)@ + be4_bytes(v as int),
{
    out.push((v / 16777216) as u8);
    out.push(((v / 65536) % 256) as u8);
    out.push(((v / 256) % 256) as u8);
    out.push((v % 256) as u8);
}

/// Appends the big-endian bytes of `v`.
pub fn push_be_u64(out: &mut Vec<u8>, v: u64)
    ensures
        final(out)@ == old(out)@ + be8_bytes(v as int),
{
    push_be_u32(out, (v / 4294967296) as u32);
    push_be_u32(out, (v % 4294967296) as u32);
}

/// Appends the little-endian bytes of `v`.
pub fn push_le_u16(out: &mut Vec<u8>, v: u16)
    ensures
        final(out)@ == old(out)@ + le2_bytes(v as int),
{
    out.push((v % 256) as u8);
    out.push((v / 256) as u8);
}

/// Appends the little-endian bytes of `v`.
pub fn push_le_u32(out: &mut Vec<u8>, v: u32)
    ensures
        final(out)@ == old(out)@ + le4_bytes(v as int),
{
    out.push((v % 256) as u8);
    out.push(((v / 256) % 256) as u8);
    out.push(((v / 65536) % 256) as u8);
    out.push((v / 16777216) as u8);
}

/// Appends all of `bytes`.
pub fn push_all(out: &mut Vec<u8>, bytes: &Vec<u8>)
    ensures
        final(out)@ == old(out)@ + bytes@,
{
    let mut i: usize = 0;
    while i < bytes.len()
        invariant
            i <= bytes.len(),
            out@ == old(out)@ + bytes@.subrange(0, i as int),
        decreases bytes@.len() - i,
    {
        out.push(bytes[i]);
        i = i + 1;
        assert(bytes@.subrange(0, i as int) =~= bytes@.subrange(0, i - 1) + seq![bytes@[i - 1]]);
    }
    assert(bytes@.subrange(0, bytes@.len() as int) =~= bytes@);
}

/// The bytes of `bytes` from `start` (inclusive) to `end` (exclusive).
pub fn slice_to_vec(bytes: &Vec<u8>, start: usize, end: usize) -> (r: Vec<u8>)
    requires
        start <= end <= bytes.len(),
    ensures
        r@ == bytes@.subrange(start as int, end as int),
{
    let mut r: Vec<u8> = Vec::new();
    let mut i: usize = start;
    while i < end
        invariant
            start <= i <= end <= bytes.len(),
            r@ == bytes@.subrange(start as int, i as int),
        decreases end - i,
    {
        r.push(bytes[i]);
        i = i + 1;
        assert(bytes@.subrange(start as int, i as int) =~= bytes@.subrange(start as int, i - 1)
            + seq![bytes@[i - 1]]);
    }
    r
}

} // verus!
