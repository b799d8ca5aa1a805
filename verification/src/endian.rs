//! Reading unsigned integers of fixed width in either byte order.

use vstd::prelude::*;

verus! {

/// The 16-bit number whose two bytes stand at `from` in `buf`, least
/// significant byte first if `little`, most significant first otherwise.
pub open spec fn load_u16(buf: Seq<u8>, from: int, little: bool) -> u16
    recommends
        0 <= from,
        from + 2 <= buf.len(),
{
    if little {
        (buf[from] + 0x100 * buf[from + 1]) as u16
    } else {
        (0x100 * buf[from] + buf[from + 1]) as u16
    }
}

/// The 32-bit number whose four bytes stand at `from` in `buf`.
pub open spec fn load_u32(buf: Seq<u8>, from: int, little: bool) -> u32
    recommends
        0 <= from,
        from + 4 <= buf.len(),
{
    if little {
        (buf[from] + 0x100 * buf[from + 1] + 0x1_0000 * buf[from + 2] + 0x100_0000 * buf[from
            + 3]) as u32
    } else {
        (0x100_0000 * buf[from] + 0x1_0000 * buf[from + 1] + 0x100 * buf[from + 2] + buf[from
            + 3]) as u32
    }
}

/// The 64-bit number whose eight bytes stand at `from` in `buf`.
pub open spec fn load_u64(buf: Seq<u8>, from: int, little: bool) -> u64
    recommends
        0 <= from,
        from + 8 <= buf.len(),
{
    if little {
        (load_u32(buf, from, little) + 0x1_0000_0000 * load_u32(buf, from + 4, little)) as u64
    } else {
        (0x1_0000_0000 * load_u32(buf, from, little) + load_u32(buf, from + 4, little)) as u64
    }
}

/// A byte order, as a capability to read integers from a buffer.
///
/// The parsers are generic over this trait, so that the byte order is chosen
/// once, by type, and never tested while a directory is walked.
pub trait Endian {
    /// Whether the least significant byte comes first.
    spec fn little() -> bool;

    /// Reads the 16-bit number at `from`.
    fn loadu16(buf: &[u8], from: usize) -> (r: u16)
        requires
            from + 2 <= buf.len(),
        ensures
            r == load_u16(buf@, from as int, Self::little()),
    ;

    /// Reads the 32-bit number at `from`.
    fn loadu32(buf: &[u8], from: usize) -> (r: u32)
        requires
            from + 4 <= buf.len(),
        ensures
            r == load_u32(buf@, from as int, Self::little()),
    ;

    /// Reads the 64-bit number at `from`.
    fn loadu64(buf: &[u8], from: usize) -> (r: u64)
        requires
            from + 8 <= buf.len(),
        ensures
            r == load_u64(buf@, from as int, Self::little()),
    ;
}

/// Most significant byte first.
pub struct BigEndian;

/// Least significant byte first.
pub struct LittleEndian;

impl Endian for BigEndian {
    open spec fn little() -> bool {
        false
    }

    fn loadu16(buf: &[u8], from: usize) -> (r: u16) {
        let hi: u16 = buf[from] as u16;
        let lo: u16 = buf[from + 1] as u16;
        hi * 0x100 + lo
    }

    fn loadu32(buf: &[u8], from: usize) -> (r: u32) {
        let b0: u32 = buf[from] as u32;
        let b1: u32 = buf[from + 1] as u32;
        let b2: u32 = buf[from + 2] as u32;
        let b3: u32 = buf[from + 3] as u32;
        b0 * 0x100_0000 + b1 * 0x1_0000 + b2 * 0x100 + b3
    }

    fn loadu64(buf: &[u8], from: usize) -> (r: u64) {
        let hi: u64 = Self::loadu32(buf, from) as u64;
        let lo: u64 = Self::loadu32(buf, from + 4) as u64;
        hi * 0x1_0000_0000 + lo
    }
}

impl Endian for LittleEndian {
    open spec fn little() -> bool {
        true
    }

    fn loadu16(buf: &[u8], from: usize) -> (r: u16) {
        let lo: u16 = buf[from] as u16;
        let hi: u16 = buf[from + 1] as u16;
        hi * 0x100 + lo
    }

    fn loadu32(buf: &[u8], from: usize) -> (r: u32) {
        let b0: u32 = buf[from] as u32;
        let b1: u32 = buf[from + 1] as u32;
        let b2: u32 = buf[from + 2] as u32;
        let b3: u32 = buf[from + 3] as u32;
        b3 * 0x100_0000 + b2 * 0x1_0000 + b1 * 0x100 + b0
    }

    fn loadu64(buf: &[u8], from: usize) -> (r: u64) {
        let lo: u64 = Self::loadu32(buf, from) as u64;
        let hi: u64 = Self::loadu32(buf, from + 4) as u64;
        hi * 0x1_0000_0000 + lo
    }
}

} // verus!
