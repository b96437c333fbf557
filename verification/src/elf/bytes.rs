//! Little-endian integer decoding from byte sequences.
use vstd::prelude::*;

verus! {

/// The little-endian `u16` stored at `off`.
pub open spec fn le_u16(s: Seq<u8>, off: int) -> int {
    s[off] + s[off + 1] * 0x100
}

/// The little-endian `u32` stored at `off`.
pub open spec fn le_u32(s: Seq<u8>, off: int) -> int {
    le_u16(s, off) + le_u16(s, off + 2) * 0x1_0000
}

/// The little-endian `u64` stored at `off`.
pub open spec fn le_u64(s: Seq<u8>, off: int) -> int {
    le_u32(s, off) + le_u32(s, off + 4) * 0x1_0000_0000
}

/// Reads a little-endian `u16` at `off`.
pub fn read_le_u16(data: &[u8], off: usize) -> (r: u16)
    requires
        off + 2 <= data@.len(),
    ensures
        r == le_u16(data@, off as int),
{
    let _n = data.len();
    data[off] as u16 + (data[off + 1] as u16) * 0x100
}

/// Reads a little-endian `u32` at `off`.
pub fn read_le_u32(data: &[u8], off: usize) -> (r: u32)
    requires
        off + 4 <= data@.len(),
    ensures
        r == le_u32(data@, off as int),
{
    let _n = data.len();
    let lo = read_le_u16(data, off) as u32;
    let hi = read_le_u16(data, off + 2) as u32;
    lo + hi * 0x1_0000
}

/// Reads a little-endian `u64` at `off`.
pub fn read_le_u64(data: &[u8], off: usize) -> (r: u64)
    requires
        off + 8 <= data@.len(),
    ensures
        r == le_u64(data@, off as int),
{
    let _n = data.len();
    let lo = read_le_u32(data, off) as u64;
    let hi = read_le_u32(data, off + 4) as u64;
    lo + hi * 0x1_0000_0000
}

} // verus!
