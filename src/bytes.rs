//! Fixed-width integer fields in byte buffers.
//!
//! Mach-O fields are read in little-endian order, Plan 9 header fields are
//! written in big-endian order; both go through the `byteorder` crate.

use vstd::prelude::*;
use byteorder::{BigEndian, ByteOrder, LittleEndian};

verus! {

/// The little-endian unsigned integer held by the four bytes of `b` at `off`.
pub open spec fn le_u32(b: Seq<u8>, off: int) -> int {
    b[off] as int + 256 * (b[off + 1] as int) + 65536 * (b[off + 2] as int)
        + 16777216 * (b[off + 3] as int)
}

/// The little-endian unsigned integer held by the eight bytes of `b` at `off`.
pub open spec fn le_u64(b: Seq<u8>, off: int) -> int {
    le_u32(b, off) + 4294967296 * le_u32(b, off + 4)
}

/// The big-endian unsigned integer held by the four bytes of `b` at `off`.
pub open spec fn be_u32(b: Seq<u8>, off: int) -> int {
    16777216 * (b[off] as int) + 65536 * (b[off + 1] as int) + 256 * (b[off + 2] as int)
        + b[off + 3] as int
}

/// The four bytes of `n`, most significant first.
pub open spec fn be_bytes(n: u32) -> Seq<u8> {
    seq![
        (n / 16777216) as u8,
        ((n / 65536) % 256) as u8,
        ((n / 256) % 256) as u8,
        (n % 256) as u8,
    ]
}

/// Relies on byteorder's `LittleEndian::read_u32`, which decodes the first
/// four bytes of its argument in little-endian order (it panics on fewer).
#[verifier::external_body]
pub(crate) fn read_le_u32(b: &[u8], off: usize) -> (r: u32)
    requires
        off + 4 <= b@.len(),
    ensures
        r as int == le_u32(b@, off as int),
{
    LittleEndian::read_u32(&b[off..off + 4])
}

/// Relies on byteorder's `LittleEndian::read_u64`, which decodes the first
/// eight bytes of its argument in little-endian order (it panics on fewer).
#[verifier::external_body]
pub(crate) fn read_le_u64(b: &[u8], off: usize) -> (r: u64)
    requires
        off + 8 <= b@.len(),
    ensures
        r as int == le_u64(b@, off as int),
{
    LittleEndian::read_u64(&b[off..off + 8])
}

/// Relies on byteorder's `BigEndian::write_u32`, which stores `n` into the
/// first four bytes of its buffer, most significant byte first.
#[verifier::external_body]
pub(crate) fn be_u32_bytes(n: u32) -> (r: [u8; 4])
    ensures
        r@ == be_bytes(n),
{
    let mut buf = [0u8; 4];
    BigEndian::write_u32(&mut buf, n);
    buf
}

/// Reading back the four bytes written for `n` gives `n`.
pub proof fn lemma_be_round_trip(n: u32)
    ensures
        be_u32(be_bytes(n), 0) == n as int,
{
    let b = be_bytes(n);
    let x = n as int;
    assert(b[0] as int == x / 16777216);
    assert(b[1] as int == (x / 65536) % 256);
    assert(b[2] as int == (x / 256) % 256);
    assert(b[3] as int == x % 256);
    assert(16777216 * (x / 16777216) + 65536 * ((x / 65536) % 256) + 256 * ((x / 256) % 256)
        + x % 256 == x) by (nonlinear_arith)
        requires 0 <= x < 4294967296;
}

} // verus!
