//! Little-endian decoding of the integer fields of the BSP file format.

use vstd::prelude::*;

verus! {

/// The unsigned value of the two bytes at `pos`, least significant first.
pub open spec fn spec_u16(b: Seq<u8>, pos: int) -> int {
    b[pos] + 256 * b[pos + 1]
}

/// The unsigned value of the four bytes at `pos`, least significant first.
pub open spec fn spec_u32(b: Seq<u8>, pos: int) -> int {
    b[pos] + 256 * b[pos + 1] + 65536 * b[pos + 2] + 16777216 * b[pos + 3]
}

/// The two's-complement value of the two bytes at `pos`.
pub open spec fn spec_i16(b: Seq<u8>, pos: int) -> int {
    if spec_u16(b, pos) < 32768 {
        spec_u16(b, pos)
    } else {
        spec_u16(b, pos) - 65536
    }
}

/// The two's-complement value of the four bytes at `pos`.
pub open spec fn spec_i32(b: Seq<u8>, pos: int) -> int {
    if spec_u32(b, pos) < 2147483648 {
        spec_u32(b, pos)
    } else {
        spec_u32(b, pos) - 4294967296
    }
}

/// Reads an unsigned 16-bit little-endian integer.
pub fn read_u16(bytes: &[u8], pos: usize) -> (r: u16)
    requires
        pos + 2 <= bytes.len(),
    ensures
        r == spec_u16(bytes@, pos as int),
{
    let lo = bytes[pos] as u16;
    let hi = bytes[pos + 1] as u16;
    lo + hi * 256
}

/// Reads a signed 16-bit little-endian integer.
pub fn read_i16(bytes: &[u8], pos: usize) -> (r: i16)
    requires
        pos + 2 <= bytes.len(),
    ensures
        r == spec_i16(bytes@, pos as int),
{
    let u = read_u16(bytes, pos);
    if u < 32768 {
        u as i16
    } else {
        (u as i32 - 65536) as i16
    }
}

/// Reads an unsigned 32-bit little-endian integer.
pub fn read_u32(bytes: &[u8], pos: usize) -> (r: u32)
    requires
        pos + 4 <= bytes.len(),
    ensures
        r == spec_u32(bytes@, pos as int),
{
    let b0 = bytes[pos] as u32;
    let b1 = bytes[pos + 1] as u32;
    let b2 = bytes[pos + 2] as u32;
    let b3 = bytes[pos + 3] as u32;
    b0 + b1 * 256 + b2 * 65536 + b3 * 16777216
}

/// Reads a signed 32-bit little-endian integer.
pub fn read_i32(bytes: &[u8], pos: usize) -> (r: i32)
    requires
        pos + 4 <= bytes.len(),
    ensures
        r == spec_i32(bytes@, pos as int),
{
    let u = read_u32(bytes, pos);
    if u < 2147483648 {
        u as i32
    } else {
        (u as i64 - 4294967296) as i32
    }
}

} // verus!
