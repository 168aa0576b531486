//! Big-endian integers in byte buffers.

use vstd::prelude::*;

verus! {

/// The 16-bit number whose big-endian bytes are `bytes[0]` and `bytes[1]`.
pub open spec fn be_u16(bytes: Seq<u8>) -> u16 {
    (bytes[0] as int * 0x100 + bytes[1] as int) as u16
}

/// The 32-bit number whose big-endian bytes are `bytes[0]` to `bytes[3]`.
pub open spec fn be_u32(bytes: Seq<u8>) -> u32 {
    (bytes[0] as int * 0x100_0000 + bytes[1] as int * 0x1_0000 + bytes[2] as int * 0x100
        + bytes[3] as int) as u32
}

/// The two big-endian bytes of `value`.
pub open spec fn be_u16_bytes(value: u16) -> Seq<u8> {
    seq![(value / 0x100) as u8, (value % 0x100) as u8]
}

/// The four big-endian bytes of `value`.
pub open spec fn be_u32_bytes(value: u32) -> Seq<u8> {
    seq![
        (value / 0x100_0000) as u8,
        (value / 0x1_0000 % 0x100) as u8,
        (value / 0x100 % 0x100) as u8,
        (value % 0x100) as u8,
    ]
}

/// Reading back the big-endian bytes of a 16-bit number gives the number.
pub proof fn lemma_be_u16_of_bytes(value: u16)
    ensures
        be_u16_bytes(value).len() == 2,
        be_u16(be_u16_bytes(value)) == value,
{
}

/// Reading back the big-endian bytes of a 32-bit number gives the number.
pub proof fn lemma_be_u32_of_bytes(value: u32)
    ensures
        be_u32_bytes(value).len() == 4,
        be_u32(be_u32_bytes(value)) == value,
{
}

/// The 16-bit big-endian number at `at` in `bytes`.
pub fn read_be_u16(bytes: &[u8], at: usize) -> (value: u16)
    requires
        at + 2 <= bytes@.len(),
    ensures
        value == be_u16(bytes@.subrange(at as int, at + 2)),
{
    (bytes[at] as u16) * 0x100 + (bytes[at + 1] as u16)
}

/// The 32-bit big-endian number at `at` in `bytes`.
pub fn read_be_u32(bytes: &[u8], at: usize) -> (value: u32)
    requires
        at + 4 <= bytes@.len(),
    ensures
        value == be_u32(bytes@.subrange(at as int, at + 4)),
{
    (bytes[at] as u32) * 0x100_0000 + (bytes[at + 1] as u32) * 0x1_0000 + (bytes[at + 2] as u32)
        * 0x100 + (bytes[at + 3] as u32)
}

/// Writes the two big-endian bytes of `value` at `at` in `bytes`.
pub fn write_be_u16(bytes: &mut [u8], at: usize, value: u16)
    requires
        at + 2 <= old(bytes)@.len(),
    ensures
        final(bytes)@ == old(bytes)@.subrange(0, at as int) + be_u16_bytes(value) + old(
            bytes,
        )@.skip(at + 2),
{
    bytes[at] = (value / 0x100) as u8;
    bytes[at + 1] = (value % 0x100) as u8;
    assert(bytes@ =~= old(bytes)@.subrange(0, at as int) + be_u16_bytes(value) + old(bytes)@.skip(
        at + 2,
    ));
}

/// Writes the four big-endian bytes of `value` at `at` in `bytes`.
pub fn write_be_u32(bytes: &mut [u8], at: usize, value: u32)
    requires
        at + 4 <= old(bytes)@.len(),
    ensures
        final(bytes)@ == old(bytes)@.subrange(0, at as int) + be_u32_bytes(value) + old(
            bytes,
        )@.skip(at + 4),
{
    bytes[at] = (value / 0x100_0000) as u8;
    bytes[at + 1] = (value / 0x1_0000 % 0x100) as u8;
    bytes[at + 2] = (value / 0x100 % 0x100) as u8;
    bytes[at + 3] = (value % 0x100) as u8;
    assert(bytes@ =~= old(bytes)@.subrange(0, at as int) + be_u32_bytes(value) + old(bytes)@.skip(
        at + 4,
    ));
}

} // verus!
