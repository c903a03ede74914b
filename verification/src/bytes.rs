//! little endian numbers in byte buffers.

use vstd::prelude::*;

verus! {

/// the 16 bit number stored at `at`.
pub open spec fn le16(bytes: Seq<u8>, at: int) -> u16 {
    (bytes[at] + bytes[at + 1] * 0x100) as u16
}

/// the 32 bit number stored at `at`.
pub open spec fn le32(bytes: Seq<u8>, at: int) -> u32 {
    (bytes[at] + bytes[at + 1] * 0x100 + bytes[at + 2] * 0x1_0000 + bytes[at + 3] * 0x100_0000) as u32
}

/// the 64 bit number stored at `at`.
pub open spec fn le64(bytes: Seq<u8>, at: int) -> u64 {
    (le32(bytes, at) + le32(bytes, at + 4) * 0x1_0000_0000) as u64
}

/// the four bytes that store value, the lowest first.
pub open spec fn le_bytes(value: u32) -> Seq<u8> {
    seq![
        (value % 0x100) as u8,
        (value / 0x100 % 0x100) as u8,
        (value / 0x1_0000 % 0x100) as u8,
        (value / 0x100_0000) as u8,
    ]
}

/// bytes with value stored at `at`.
pub open spec fn stored(bytes: Seq<u8>, at: int, value: u32) -> Seq<u8> {
    Seq::new(
        bytes.len(),
        |i: int|
            if at <= i < at + 4 {
                le_bytes(value)[i - at]
            } else {
                bytes[i]
            },
    )
}

pub fn u16_at(bytes: &[u8], offset: usize) -> (value: u16)
    requires
        offset + 2 <= bytes@.len(),
    ensures
        value == le16(bytes@, offset as int),
{
    bytes[offset] as u16 + bytes[offset + 1] as u16 * 0x100
}

pub fn u32_at(bytes: &[u8], offset: usize) -> (value: u32)
    requires
        offset + 4 <= bytes@.len(),
    ensures
        value == le32(bytes@, offset as int),
{
    bytes[offset] as u32 + bytes[offset + 1] as u32 * 0x100 + bytes[offset + 2] as u32 * 0x1_0000
        + bytes[offset + 3] as u32 * 0x100_0000
}

pub fn u64_at(bytes: &[u8], offset: usize) -> (value: u64)
    requires
        offset + 8 <= bytes@.len(),
    ensures
        value == le64(bytes@, offset as int),
{
    assert(offset + 8 <= bytes.len());
    u32_at(bytes, offset) as u64 + u32_at(bytes, offset + 4) as u64 * 0x1_0000_0000
}

/// stores value at offset.
pub fn put32(bytes: &mut Vec<u8>, offset: usize, value: u32)
    requires
        offset + 4 <= old(bytes)@.len(),
    ensures
        final(bytes)@ == stored(old(bytes)@, offset as int, value),
{
    assert(offset + 4 <= bytes.len());
    bytes[offset] = (value % 0x100) as u8;
    bytes[offset + 1] = (value / 0x100 % 0x100) as u8;
    bytes[offset + 2] = (value / 0x1_0000 % 0x100) as u8;
    bytes[offset + 3] = (value / 0x100_0000) as u8;
    assert(bytes@ =~= stored(old(bytes)@, offset as int, value));
}

/// the bytes from start up to end, or nothing when the buffer ends before.
pub fn part(bytes: &[u8], start: u64, end: u64) -> (found: Option<&[u8]>)
    ensures
        found is Some <==> start <= end <= bytes@.len(),
        found matches Some(slice) ==> slice@ == bytes@.subrange(start as int, end as int),
{
    if start <= end && end <= bytes.len() as u64 {
        Some(vstd::slice::slice_subrange(bytes, start as usize, end as usize))
    } else {
        None
    }
}

/// a copy of bytes.
pub fn copied(bytes: &[u8]) -> (copy: Vec<u8>)
    ensures
        copy@ == bytes@,
{
    vstd::slice::slice_to_vec(bytes)
}

/// size zero bytes.
pub fn zeros(size: usize) -> (bytes: Vec<u8>)
    ensures
        bytes@ == Seq::new(size as nat, |i: int| 0u8),
{
    let mut bytes: Vec<u8> = Vec::new();
    bytes.resize(size, 0);
    assert(bytes@ =~= Seq::new(size as nat, |i: int| 0u8));
    bytes
}

/// reading a number back from where it was stored gives the number.
pub proof fn law_stored_reads_back(bytes: Seq<u8>, at: int, value: u32)
    requires
        0 <= at,
        at + 4 <= bytes.len(),
    ensures
        le32(stored(bytes, at, value), at) == value,
{
    let after = stored(bytes, at, value);
    assert(after[at] == (value % 0x100) as u8);
    assert(after[at + 1] == (value / 0x100 % 0x100) as u8);
    assert(after[at + 2] == (value / 0x1_0000 % 0x100) as u8);
    assert(after[at + 3] == (value / 0x100_0000) as u8);
}

/// storing a number leaves every number elsewhere as it was.
pub proof fn law_stored_elsewhere(bytes: Seq<u8>, at: int, value: u32, other: int)
    requires
        0 <= at,
        at + 4 <= bytes.len(),
        0 <= other,
        other + 4 <= bytes.len(),
        other + 4 <= at || at + 4 <= other,
    ensures
        le32(stored(bytes, at, value), other) == le32(bytes, other),
        stored(bytes, at, value).len() == bytes.len(),
{
}

} // verus!
