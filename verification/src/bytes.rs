//! Little-endian scalar reads from the raw model buffer, shared by the
//! track tables' load step.

use vstd::prelude::*;

verus! {

/// The 16-bit little-endian value at offset `i` of `b`.
pub open spec fn le16_at(b: Seq<u8>, i: int) -> u16 {
    (b[i] + b[i + 1] * 0x100) as u16
}

/// The 32-bit little-endian value at offset `i` of `b`.
pub open spec fn le32_at(b: Seq<u8>, i: int) -> u32 {
    (b[i] + b[i + 1] * 0x100 + b[i + 2] * 0x1_0000 + b[i + 3] * 0x100_0000) as u32
}

pub fn read_le16(data: &[u8], off: usize) -> (r: u16)
    requires
        off + 2 <= data@.len(),
    ensures
        r == le16_at(data@, off as int),
{
    let b0: u8 = data[off];
    let b1: u8 = data[off + 1];
    (b0 as u16) + (b1 as u16) * 0x100
}

pub fn read_le32(data: &[u8], off: usize) -> (r: u32)
    requires
        off + 4 <= data@.len(),
    ensures
        r == le32_at(data@, off as int),
{
    let b0: u8 = data[off];
    let b1: u8 = data[off + 1];
    let b2: u8 = data[off + 2];
    let b3: u8 = data[off + 3];
    (b0 as u32) + (b1 as u32) * 0x100 + (b2 as u32) * 0x1_0000 + (b3 as u32) * 0x100_0000
}

} // verus!
