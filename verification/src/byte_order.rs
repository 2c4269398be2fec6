use vstd::prelude::*;

verus! {

/// The 16-bit little-endian integer whose bytes sit at `i` and `i + 1`.
pub open spec fn le16_at(d: Seq<u8>, i: int) -> u16
    recommends
        0 <= i,
        i + 2 <= d.len(),
{
    (d[i] as int + d[i + 1] as int * 0x100) as u16
}

/// The 32-bit little-endian integer whose bytes sit at `i` .. `i + 4`.
pub open spec fn le32_at(d: Seq<u8>, i: int) -> u32
    recommends
        0 <= i,
        i + 4 <= d.len(),
{
    (d[i] as int + d[i + 1] as int * 0x100 + d[i + 2] as int * 0x1_0000 + d[i + 3] as int
        * 0x100_0000) as u32
}

/// Combines two bytes into the 16-bit little-endian integer they encode.
pub fn le16(b0: u8, b1: u8) -> (r: u16)
    ensures
        r == (b0 as int + b1 as int * 0x100) as u16,
{
    b0 as u16 + b1 as u16 * 0x100
}

/// Combines four bytes into the 32-bit little-endian integer they encode.
pub fn le32(b0: u8, b1: u8, b2: u8, b3: u8) -> (r: u32)
    ensures
        r == (b0 as int + b1 as int * 0x100 + b2 as int * 0x1_0000 + b3 as int
            * 0x100_0000) as u32,
{
    b0 as u32 + b1 as u32 * 0x100 + b2 as u32 * 0x1_0000 + b3 as u32 * 0x100_0000
}

} // verus!
