//! Little-endian encoding of the values exchanged with the target process,
//! and the 32-bit address arithmetic used to locate them.
use vstd::prelude::*;

verus! {

/// Size of the 32-bit address space of the target process.
pub open spec fn addr_space() -> int {
    0x1_0000_0000
}

/// An address computed with 32-bit wrap-around.
pub open spec fn wrap32(x: int) -> u32 {
    (x % addr_space()) as u32
}

/// The `u32` stored little-endian in `b[at..at + 4]`.
pub open spec fn le_u32(b: Seq<u8>, at: int) -> u32 {
    (b[at] as int + 0x100 * b[at + 1] as int + 0x1_0000 * b[at + 2] as int + 0x100_0000
        * b[at + 3] as int) as u32
}

/// The `i32` stored little-endian (two's complement) in `b[at..at + 4]`.
pub open spec fn le_i32(b: Seq<u8>, at: int) -> i32 {
    le_u32(b, at) as i32
}

/// The four little-endian bytes of `v`.
pub open spec fn u32_bytes(v: u32) -> Seq<u8> {
    seq![(v % 0x100) as u8, ((v / 0x100) % 0x100) as u8, ((v / 0x1_0000) % 0x100) as u8, (v / 0x100_0000) as u8]
}

/// Reads the little-endian `u32` at `b[at..at + 4]`.
pub fn read_u32_le(b: &Vec<u8>, at: usize) -> (v: u32)
    requires
        at + 4 <= b.len(),
    ensures
        v == le_u32(b@, at as int),
{
    let b0 = b[at] as u32;
    let b1 = b[at + 1] as u32;
    let b2 = b[at + 2] as u32;
    let b3 = b[at + 3] as u32;
    b0 + 0x100 * b1 + 0x1_0000 * b2 + 0x100_0000 * b3
}

/// Reads the little-endian `i32` at `b[at..at + 4]`.
pub fn read_i32_le(b: &Vec<u8>, at: usize) -> (v: i32)
    requires
        at + 4 <= b.len(),
    ensures
        v == le_i32(b@, at as int),
{
    let u = read_u32_le(b, at);
    u as i32
}

/// Appends the four little-endian bytes of `v` to `out`.
pub fn push_u32_le(out: &mut Vec<u8>, v: u32)
    ensures
        final(out)@ == old(out)@ + u32_bytes(v),
{
    out.push((v % 0x100) as u8);
    out.push(((v / 0x100) % 0x100) as u8);
    out.push(((v / 0x1_0000) % 0x100) as u8);
    out.push((v / 0x100_0000) as u8);
    assert(final(out)@ =~= old(out)@ + u32_bytes(v));
}

/// The four little-endian bytes of `v`.
pub fn u32_le_bytes(v: u32) -> (b: Vec<u8>)
    ensures
        b@ == u32_bytes(v),
{
    let mut b = Vec::new();
    push_u32_le(&mut b, v);
    assert(b@ =~= u32_bytes(v));
    b
}

/// `a + b` in the 32-bit address space.
pub fn addr_add(a: u32, b: u32) -> (r: u32)
    ensures
        r == wrap32(a + b),
{
    ((a as u64 + b as u64) % 0x1_0000_0000u64) as u32
}

/// Encoding then decoding a `u32` gives it back.
pub proof fn lemma_u32_roundtrip(v: u32)
    ensures
        u32_bytes(v).len() == 4,
        le_u32(u32_bytes(v), 0) == v,
{
    let b = u32_bytes(v);
    assert(b[0] == v % 0x100);
    assert(b[1] == (v / 0x100) % 0x100);
    assert(b[2] == (v / 0x1_0000) % 0x100);
    assert(b[3] == v / 0x100_0000);
    assert(v == v % 0x100 + 0x100 * ((v / 0x100) % 0x100) + 0x1_0000 * ((v / 0x1_0000) % 0x100)
        + 0x100_0000 * (v / 0x100_0000)) by (nonlinear_arith);
}

/// Decoding four bytes then encoding the value gives the bytes back.
pub proof fn lemma_bytes_roundtrip(b: Seq<u8>)
    requires
        b.len() == 4,
    ensures
        u32_bytes(le_u32(b, 0)) == b,
{
    let v = le_u32(b, 0);
    let (b0, b1, b2, b3) = (b[0] as int, b[1] as int, b[2] as int, b[3] as int);
    assert(v == b0 + 0x100 * b1 + 0x1_0000 * b2 + 0x100_0000 * b3);
    assert(v % 0x100 == b0 && (v / 0x100) % 0x100 == b1 && (v / 0x1_0000) % 0x100 == b2 && v
        / 0x100_0000 == b3) by (nonlinear_arith)
        requires
            v == b0 + 0x100 * b1 + 0x1_0000 * b2 + 0x100_0000 * b3,
            0 <= b0 < 0x100,
            0 <= b1 < 0x100,
            0 <= b2 < 0x100,
            0 <= b3 < 0x100,
    ;
    assert(u32_bytes(v) =~= b);
}

} // verus!
