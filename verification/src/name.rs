//! Partition names: at most 16 bytes of UTF-8, held in a bounded string and
//! written to a record as a field of 16 bytes that is padded with NUL.

use crate::error::PartitionError;
use vstd::prelude::*;
use vstd::slice::slice_subrange;
use vstd::string::StringSliceAdditionalSpecFns;
use vstd::utf8::*;

verus! {

/// Length of the name field of a record, and the most bytes a name can have.
pub const MAX_NAME_LEN: usize = 16;

/// The bounded string of the `heapless` crate. Nothing inside it is visible
/// to the verifier.
#[verifier::external_type_specification]
#[verifier::external_body]
pub struct ExBoundedString<const N: usize>(heapless::String<N>);

/// The bytes that a name holds.
pub uninterp spec fn name_bytes(name: heapless::String<16>) -> Seq<u8>;

/// `heapless::String::new`: the name without any bytes.
#[verifier::external_body]
pub(crate) fn name_empty() -> (name: heapless::String<16>)
    ensures
        name_bytes(name) == Seq::<u8>::empty(),
{
    heapless::String::new()
}

/// `heapless::String::try_from` on a string slice: the bytes of the slice
/// become the name if they are at most 16, and the slice is refused
/// otherwise.
#[verifier::external_body]
pub(crate) fn name_try_from(s: &str) -> (name: Option<heapless::String<16>>)
    ensures
        name is Some <==> s.spec_bytes().len() <= 16,
        name is Some ==> name_bytes(name->0) == s.spec_bytes(),
{
    heapless::String::try_from(s).ok()
}

/// `heapless::String::as_str`: the string slice that holds the bytes of the
/// name, which are never more than 16.
#[verifier::external_body]
pub(crate) fn name_as_str(name: &heapless::String<16>) -> (s: &str)
    ensures
        s.spec_bytes() == name_bytes(*name),
        s.spec_bytes().len() <= 16,
{
    name.as_str()
}

/// `Clone::clone` of `heapless::String`: the copy holds the same bytes.
#[verifier::external_body]
pub(crate) fn name_clone(name: &heapless::String<16>) -> (copy: heapless::String<16>)
    ensures
        name_bytes(copy) == name_bytes(*name),
{
    name.clone()
}

/// `core::str::from_utf8`: the bytes as a string slice if they are valid
/// UTF-8, and nothing otherwise.
#[verifier::external_body]
pub(crate) fn str_from_utf8(bytes: &[u8]) -> (s: Option<&str>)
    ensures
        s is Some <==> valid_utf8(bytes@),
        s is Some ==> s->0.spec_bytes() == bytes@,
{
    core::str::from_utf8(bytes).ok()
}

/// How many bytes stand before the first NUL of `data`, or in all of `data`
/// if it has none.
pub open spec fn trimmed_len(data: Seq<u8>) -> nat
    decreases data.len(),
{
    if data.len() == 0 || data[0] == 0 {
        0
    } else {
        1 + trimmed_len(data.drop_first())
    }
}

/// The bytes of `data` before its first NUL.
pub open spec fn trim(data: Seq<u8>) -> Seq<u8> {
    data.take(trimmed_len(data) as int)
}

/// The name field of a record for a name of at most 16 bytes: the name,
/// then NUL up to the end of the field.
pub open spec fn padded(name: Seq<u8>) -> Seq<u8> {
    Seq::new(MAX_NAME_LEN as nat, |i: int| if i < name.len() { name[i] } else { 0u8 })
}

/// Whether no byte of `data` is NUL.
pub open spec fn no_nul(data: Seq<u8>) -> bool {
    forall|i: int| 0 <= i < data.len() ==> data[i] != 0
}

/// `trimmed_len(data)` is the one position that has no NUL before it and
/// either a NUL at it or the end of `data`.
pub proof fn lemma_trimmed_len(data: Seq<u8>, n: int)
    ensures
        trimmed_len(data) <= data.len(),
        no_nul(trim(data)),
        trimmed_len(data) < data.len() ==> data[trimmed_len(data) as int] == 0,
        (0 <= n <= data.len() && no_nul(data.take(n)) && (n < data.len() ==> data[n] == 0))
            ==> trimmed_len(data) == n,
    decreases data.len(),
{
    if data.len() == 0 || data[0] == 0 {
        if 0 < n <= data.len() && no_nul(data.take(n)) {
            assert(data.take(n)[0] == data[0]);
        }
    } else {
        let rest = data.drop_first();
        lemma_trimmed_len(rest, n - 1);
        let k = trimmed_len(rest) as int;
        assert forall|i: int| 0 <= i < trim(data).len() implies trim(data)[i] != 0 by {
            if i > 0 {
                assert(trim(rest)[i - 1] == rest[i - 1]);
            }
        }
        if 0 <= n <= data.len() && no_nul(data.take(n)) && (n < data.len() ==> data[n] == 0) {
            assert(n > 0);
            let head = rest.take(n - 1);
            assert forall|i: int| 0 <= i < head.len() implies #[trigger] head[i] != 0 by {
                assert(data.take(n)[i + 1] == head[i]);
            }
        }
    }
}

/// A name without NUL comes back from its field as it went in.
pub proof fn lemma_trim_padded(name: Seq<u8>)
    requires
        name.len() <= MAX_NAME_LEN,
        no_nul(name),
    ensures
        trim(padded(name)) == name,
{
    let field = padded(name);
    let n = name.len() as int;
    assert(field.take(n) =~= name);
    lemma_trimmed_len(field, n);
    assert(trim(field) =~= name);
}

/// What comes back from the field of any name is the name up to its first
/// NUL.
pub proof fn lemma_trim_padded_any(name: Seq<u8>)
    requires
        name.len() <= MAX_NAME_LEN,
    ensures
        trim(padded(name)) == trim(name),
{
    let field = padded(name);
    let n = trimmed_len(name) as int;
    lemma_trimmed_len(name, n);
    assert(field.take(n) =~= name.take(n));
    lemma_trimmed_len(field, n);
    assert(trim(field) =~= trim(name));
}

/// Cutting valid UTF-8 at its first NUL leaves valid UTF-8: a NUL is a
/// character of its own.
pub proof fn lemma_trim_valid_utf8(data: Seq<u8>)
    requires
        valid_utf8(data),
    ensures
        valid_utf8(trim(data)),
{
    let n = trimmed_len(data) as int;
    lemma_trimmed_len(data, n);
    if n < data.len() {
        is_char_boundary_iff_not_is_continuation_byte(data, n);
        valid_utf8_split(data, n);
    } else {
        assert(data.take(n) =~= data);
    }
}

/// The bytes of a name field before its first NUL.
pub fn name_trim(data: &[u8; 16]) -> (name: &[u8])
    ensures
        name@ == trim(data@),
        name@.len() <= MAX_NAME_LEN,
        no_nul(name@),
        name@.len() < MAX_NAME_LEN ==> data[name@.len() as int] == 0,
{
    let mut n: usize = 0;
    while n < MAX_NAME_LEN && data[n] != 0
        invariant
            n <= MAX_NAME_LEN,
            forall|i: int| 0 <= i < n ==> data[i] != 0,
        decreases MAX_NAME_LEN - n,
    {
        n = n + 1;
    }
    proof {
        assert(no_nul(data@.take(n as int)));
        lemma_trimmed_len(data@, n as int);
    }
    slice_subrange(data.as_slice(), 0, n)
}

/// The name in a name field: its bytes before the first NUL, which have to
/// be UTF-8.
pub fn name_from(data: &[u8; 16]) -> (r: Result<&str, PartitionError>)
    ensures
        valid_utf8(trim(data@)) ==> r is Ok && r->Ok_0.spec_bytes() == trim(data@),
        r is Ok ==> r->Ok_0.spec_bytes().len() <= MAX_NAME_LEN,
        !valid_utf8(trim(data@)) ==> r == Err::<&str, PartitionError>(
            PartitionError::InvalidString,
        ),
{
    match str_from_utf8(name_trim(data)) {
        Some(name) => Ok(name),
        None => Err(PartitionError::InvalidString),
    }
}

/// Fills a name field with a name. A name of more than 16 bytes is refused
/// and the field stays as it was.
pub fn name_into(data: &mut [u8; 16], name: &str) -> (r: Result<(), PartitionError>)
    ensures
        name.spec_bytes().len() <= MAX_NAME_LEN ==> r is Ok && final(data)@ == padded(
            name.spec_bytes(),
        ),
        name.spec_bytes().len() > MAX_NAME_LEN ==> r == Err::<(), PartitionError>(
            PartitionError::InvalidString,
        ) && final(data)@ == old(data)@,
{
    let bytes = name.as_bytes();
    let len = bytes.len();
    if len > MAX_NAME_LEN {
        return Err(PartitionError::InvalidString);
    }
    let mut i: usize = 0;
    while i < MAX_NAME_LEN
        invariant
            i <= MAX_NAME_LEN,
            len == bytes@.len(),
            len <= MAX_NAME_LEN,
            forall|j: int| 0 <= j < i ==> data[j] == padded(bytes@)[j],
        decreases MAX_NAME_LEN - i,
    {
        data[i] = if i < len {
            bytes[i]
        } else {
            0
        };
        i = i + 1;
    }
    assert(data@ =~= padded(bytes@));
    Ok(())
}

} // verus!
