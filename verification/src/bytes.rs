//! Little-endian integer decoding for the on-disk records.
//!
//! Every multi-byte field of the format (superblock words, allocation-table
//! links, directory-entry fields) is a fixed-width little-endian integer;
//! these helpers read one from a byte buffer at a given offset.

use vstd::prelude::*;

verus! {

/// The 16-bit little-endian integer stored at `off` in `b`.
pub open spec fn le16(b: Seq<u8>, off: int) -> int {
    b[off] + 256 * b[off + 1]
}

/// The 32-bit little-endian integer stored at `off` in `b`.
pub open spec fn le32(b: Seq<u8>, off: int) -> int {
    b[off] + 256 * b[off + 1] + 65536 * b[off + 2] + 16777216 * b[off + 3]
}

/// Reads the 16-bit little-endian integer at `off`.
pub fn read_le16(b: &Vec<u8>, off: usize) -> (r: u16)
    requires
        off + 2 <= b@.len(),
    ensures
        r == le16(b@, off as int),
{
    let n: usize = b.len();
    let lo = b[off];
    let hi = b[off + 1];
    lo as u16 + 256 * (hi as u16)
}

/// Reads the 32-bit little-endian integer at `off`.
pub fn read_le32(b: &Vec<u8>, off: usize) -> (r: u32)
    requires
        off + 4 <= b@.len(),
    ensures
        r == le32(b@, off as int),
{
    let n: usize = b.len();
    let b0 = b[off] as u32;
    let b1 = b[off + 1] as u32;
    let b2 = b[off + 2] as u32;
    let b3 = b[off + 3] as u32;
    b0 + 256 * b1 + 65536 * b2 + 16777216 * b3
}

} // verus!
