//! Big-endian field encodings used by the Diameter framing.
use vstd::prelude::*;

verus! {

/// The 24-bit big-endian number stored at `b[i..i + 3]`.
pub open spec fn be24_at(b: Seq<u8>, i: int) -> int {
    b[i] * 65536 + b[i + 1] * 256 + b[i + 2]
}

/// The 32-bit big-endian number stored at `b[i..i + 4]`.
pub open spec fn be32_at(b: Seq<u8>, i: int) -> u32 {
    (b[i] * 16777216 + b[i + 1] * 65536 + b[i + 2] * 256 + b[i + 3]) as u32
}

/// The four big-endian bytes of `v`.
pub open spec fn u32_bytes(v: u32) -> Seq<u8> {
    seq![(v / 16777216) as u8, (v / 65536 % 256) as u8, (v / 256 % 256) as u8, (v % 256) as u8]
}

/// The low three bytes of `n`, big-endian.
pub open spec fn u24_bytes(n: nat) -> Seq<u8> {
    seq![(n / 65536 % 256) as u8, (n / 256 % 256) as u8, (n % 256) as u8]
}

/// `n` rounded up to a multiple of four.
pub open spec fn round4(n: int) -> int {
    (n + 3) / 4 * 4
}

pub proof fn lemma_round4(n: int)
    requires
        n >= 0,
    ensures
        n <= round4(n) < n + 4,
        round4(n) % 4 == 0,
{
}

pub proof fn lemma_u32_bytes_roundtrip(v: u32)
    ensures
        u32_bytes(v).len() == 4,
        be32_at(u32_bytes(v), 0) == v,
{
    let b = u32_bytes(v);
    assert(b[0] * 16777216 + b[1] * 65536 + b[2] * 256 + b[3] == v) by (nonlinear_arith)
        requires
            b[0] == v / 16777216,
            b[1] == v / 65536 % 256,
            b[2] == v / 256 % 256,
            b[3] == v % 256,
            0 <= v < 4294967296,
    ;
}

pub proof fn lemma_u24_bytes_roundtrip(n: nat)
    requires
        n < 16777216,
    ensures
        u24_bytes(n).len() == 3,
        be24_at(u24_bytes(n), 0) == n,
{
    let b = u24_bytes(n);
    assert(b[0] * 65536 + b[1] * 256 + b[2] == n) by (nonlinear_arith)
        requires
            b[0] == n / 65536 % 256,
            b[1] == n / 256 % 256,
            b[2] == n % 256,
            0 <= n < 16777216,
    ;
}

/// Reads a 24-bit big-endian number.
pub fn read_u24(b: &[u8], i: usize) -> (n: usize)
    requires
        i + 3 <= b@.len(),
    ensures
        n == be24_at(b@, i as int),
        n < 16777216,
{
    (b[i] as usize) * 65536 + (b[i + 1] as usize) * 256 + b[i + 2] as usize
}

/// Reads a 32-bit big-endian number.
pub fn read_u32(b: &[u8], i: usize) -> (n: u32)
    requires
        i + 4 <= b@.len(),
    ensures
        n == be32_at(b@, i as int),
{
    (b[i] as u32) * 16777216 + (b[i + 1] as u32) * 65536 + (b[i + 2] as u32) * 256 + b[i + 3] as u32
}

/// Appends the four big-endian bytes of `v`.
pub fn push_u32(out: &mut Vec<u8>, v: u32)
    ensures
        final(out)@ == old(out)@ + u32_bytes(v),
{
    out.push((v / 16777216) as u8);
    out.push((v / 65536 % 256) as u8);
    out.push((v / 256 % 256) as u8);
    out.push((v % 256) as u8);
    assert(out@ =~= old(out)@ + u32_bytes(v));
}

/// Appends the low three bytes of `n`, big-endian.
pub fn push_u24(out: &mut Vec<u8>, n: usize)
    ensures
        final(out)@ == old(out)@ + u24_bytes(n as nat),
{
    out.push((n / 65536 % 256) as u8);
    out.push((n / 256 % 256) as u8);
    out.push((n % 256) as u8);
    assert(out@ =~= old(out)@ + u24_bytes(n as nat));
}

} // verus!
