//! Little-endian integer fields inside IEX byte buffers.
use vstd::prelude::*;

verus! {

/// The unsigned 16-bit little-endian integer stored at `b[off..off + 2]`.
pub open spec fn le_u16_at(b: Seq<u8>, off: int) -> u16 {
    (b[off] + 0x100 * b[off + 1]) as u16
}

/// The unsigned 32-bit little-endian integer stored at `b[off..off + 4]`.
pub open spec fn le_u32_at(b: Seq<u8>, off: int) -> u32 {
    (b[off] + 0x100 * b[off + 1] + 0x1_0000 * b[off + 2] + 0x100_0000 * b[off + 3]) as u32
}

/// The unsigned 64-bit little-endian integer stored at `b[off..off + 8]`.
pub open spec fn le_u64_at(b: Seq<u8>, off: int) -> u64 {
    (le_u32_at(b, off) + 0x1_0000_0000 * le_u32_at(b, off + 4)) as u64
}

/// Reads the little-endian `u16` at `offset`.
pub fn read_u16_le(bytes: &[u8], offset: usize) -> (v: u16)
    requires
        offset + 2 <= bytes.len(),
    ensures
        v == le_u16_at(bytes@, offset as int),
{
    (bytes[offset] as u16) + (bytes[offset + 1] as u16) * 0x100
}

/// Reads the little-endian `u32` at `offset`.
pub fn read_u32_le(bytes: &[u8], offset: usize) -> (v: u32)
    requires
        offset + 4 <= bytes.len(),
    ensures
        v == le_u32_at(bytes@, offset as int),
{
    (bytes[offset] as u32) + (bytes[offset + 1] as u32) * 0x100 + (bytes[offset + 2] as u32)
        * 0x1_0000 + (bytes[offset + 3] as u32) * 0x100_0000
}

/// Reads the little-endian `u64` at `offset`.
pub fn read_u64_le(bytes: &[u8], offset: usize) -> (v: u64)
    requires
        offset + 8 <= bytes.len(),
    ensures
        v == le_u64_at(bytes@, offset as int),
{
    let lo = read_u32_le(bytes, offset) as u64;
    let hi = read_u32_le(bytes, offset + 4) as u64;
    lo + hi * 0x1_0000_0000
}

} // verus!
