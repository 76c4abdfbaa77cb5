//! Little-endian 32-bit fields of a record.

use vstd::prelude::*;

verus! {

/// The four bytes of a 32-bit value, lowest first.
pub open spec fn le_bytes(value: u32) -> Seq<u8> {
    seq![
        (value % 0x100) as u8,
        (value / 0x100 % 0x100) as u8,
        (value / 0x1_0000 % 0x100) as u8,
        (value / 0x100_0000) as u8,
    ]
}

/// The 32-bit value that four bytes hold, lowest first.
pub open spec fn le_value(bytes: Seq<u8>) -> u32
    recommends
        bytes.len() == 4,
{
    (bytes[0] + bytes[1] * 0x100 + bytes[2] * 0x1_0000 + bytes[3] * 0x100_0000) as u32
}

/// A value comes back from its four bytes.
pub proof fn lemma_le_value_of_bytes(value: u32)
    ensures
        le_bytes(value).len() == 4,
        le_value(le_bytes(value)) == value,
{
}

/// Four bytes come back from their value.
pub proof fn lemma_le_bytes_of_value(bytes: Seq<u8>)
    requires
        bytes.len() == 4,
    ensures
        le_bytes(le_value(bytes)) == bytes,
{
    let (b0, b1, b2, b3) = (bytes[0], bytes[1], bytes[2], bytes[3]);
    assert({
        let value = (b0 + b1 * 0x100 + b2 * 0x1_0000 + b3 * 0x100_0000) as u32;
        &&& (value % 0x100) as u8 == b0
        &&& (value / 0x100 % 0x100) as u8 == b1
        &&& (value / 0x1_0000 % 0x100) as u8 == b2
        &&& (value / 0x100_0000) as u8 == b3
    }) by (bit_vector);
    assert(le_bytes(le_value(bytes)) =~= bytes);
}

/// Reads the 32-bit field that starts at `at`.
pub fn get_u32_le(data: &[u8; 32], at: usize) -> (value: u32)
    requires
        at + 4 <= 32,
    ensures
        value == le_value(data@.subrange(at as int, at + 4)),
{
    data[at] as u32 + data[at + 1] as u32 * 0x100 + data[at + 2] as u32 * 0x1_0000 + data[at
        + 3] as u32 * 0x100_0000
}

/// Writes `value` as the 32-bit field that starts at `at`. The bytes
/// outside the field stay as they were.
pub fn put_u32_le(data: &mut [u8; 32], at: usize, value: u32)
    requires
        at + 4 <= 32,
    ensures
        final(data)@ == old(data)@.subrange(0, at as int) + le_bytes(value) + old(data)@.subrange(
            at + 4,
            32,
        ),
{
    data[at] = (value % 0x100) as u8;
    data[at + 1] = (value / 0x100 % 0x100) as u8;
    data[at + 2] = (value / 0x1_0000 % 0x100) as u8;
    data[at + 3] = (value / 0x100_0000) as u8;
    assert(data@ =~= old(data)@.subrange(0, at as int) + le_bytes(value) + old(data)@.subrange(
        at + 4,
        32,
    ));
}

/// Copies the 16 bytes that start at `at` out of a record.
pub fn get_field(data: &[u8; 32], at: usize) -> (field: [u8; 16])
    requires
        at + 16 <= 32,
    ensures
        field@ == data@.subrange(at as int, at + 16),
{
    let mut field = [0u8; 16];
    let mut i: usize = 0;
    while i < 16
        invariant
            i <= 16,
            at + 16 <= 32,
            forall|j: int| 0 <= j < i ==> field[j] == data[at + j],
        decreases 16 - i,
    {
        field[i] = data[at + i];
        i = i + 1;
    }
    assert(field@ =~= data@.subrange(at as int, at + 16));
    field
}

/// Copies 16 bytes into a record, from `at` on. The bytes outside the field
/// stay as they were.
pub fn put_field(data: &mut [u8; 32], at: usize, field: &[u8; 16])
    requires
        at + 16 <= 32,
    ensures
        final(data)@ == old(data)@.subrange(0, at as int) + field@ + old(data)@.subrange(
            at + 16,
            32,
        ),
{
    let mut i: usize = 0;
    while i < 16
        invariant
            i <= 16,
            at + 16 <= 32,
            forall|j: int| 0 <= j < at ==> data[j] == old(data)[j],
            forall|j: int| 0 <= j < i ==> data[at + j] == field[j],
            forall|j: int| at + i <= j < 32 ==> data[j] == old(data)[j],
        decreases 16 - i,
    {
        data[at + i] = field[i];
        i = i + 1;
    }
    assert(data@ =~= old(data)@.subrange(0, at as int) + field@ + old(data)@.subrange(
        at + 16,
        32,
    ));
}

} // verus!
