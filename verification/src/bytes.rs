//! Numbers as they lie in a buffer of bytes, in little-endian order.

use vstd::prelude::*;

verus! {

/// The number that the two bytes from `at` on hold.
pub open spec fn le_u16_at(data: Seq<u8>, at: int) -> int {
    data[at] as int + data[at + 1] as int * 0x100
}

/// The number that the four bytes from `at` on hold.
pub open spec fn le_u32_at(data: Seq<u8>, at: int) -> int {
    le_u16_at(data, at) + le_u16_at(data, at + 2) * 0x1_0000
}

/// The number that the eight bytes from `at` on hold.
pub open spec fn le_u64_at(data: Seq<u8>, at: int) -> int {
    le_u32_at(data, at) + le_u32_at(data, at + 4) * 0x1_0000_0000
}

/// The number that the eight bytes from `at` on hold, read as a signed
/// number in two's complement.
pub open spec fn le_i64_at(data: Seq<u8>, at: int) -> int {
    if le_u64_at(data, at) < 0x8000_0000_0000_0000 {
        le_u64_at(data, at)
    } else {
        le_u64_at(data, at) - 0x1_0000_0000_0000_0000
    }
}

/// Whether `width` bytes from `at` on lie inside a buffer of `len` bytes.
pub open spec fn in_buffer(len: int, at: int, width: int) -> bool {
    0 <= at && at + width <= len
}

/// Whether `width` bytes from `at` on lie inside `data`.
pub fn fits(data: &[u8], at: usize, width: usize) -> (b: bool)
    ensures
        b == in_buffer(data@.len() as int, at as int, width as int),
        data@.len() <= usize::MAX,
{
    width <= data.len() && at <= data.len() - width
}

pub fn read_u16(data: &[u8], at: usize) -> (value: u16)
    requires
        in_buffer(data@.len() as int, at as int, 2),
    ensures
        value == le_u16_at(data@, at as int),
{
    data[at] as u16 + data[at + 1] as u16 * 0x100
}

pub fn read_u32(data: &[u8], at: usize) -> (value: u32)
    requires
        in_buffer(data@.len() as int, at as int, 4),
    ensures
        value == le_u32_at(data@, at as int),
{
    let len = data.len();
    assert(at + 4 <= len);
    read_u16(data, at) as u32 + read_u16(data, at + 2) as u32 * 0x1_0000
}

pub fn read_u64(data: &[u8], at: usize) -> (value: u64)
    requires
        in_buffer(data@.len() as int, at as int, 8),
    ensures
        value == le_u64_at(data@, at as int),
{
    let len = data.len();
    assert(at + 8 <= len);
    read_u32(data, at) as u64 + read_u32(data, at + 4) as u64 * 0x1_0000_0000
}

pub fn read_i64(data: &[u8], at: usize) -> (value: i64)
    requires
        in_buffer(data@.len() as int, at as int, 8),
    ensures
        value == le_i64_at(data@, at as int),
{
    let raw = read_u64(data, at);
    if raw < 0x8000_0000_0000_0000 {
        raw as i64
    } else {
        ((raw - 0x8000_0000_0000_0000) as i64) + i64::MIN
    }
}

} // verus!
