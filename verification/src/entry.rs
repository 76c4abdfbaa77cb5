//! The two kinds of record in a partition table, and their 32 bytes.
//!
//! A partition entry:
//!
//! Off | Len | Field
//! --- | --- | -----
//!   0 |   2 | Magic
//!   2 |   1 | Type
//!   3 |   1 | Subtype
//!   4 |   4 | Offset
//!   8 |   4 | Size
//!  12 |  16 | Name
//!  28 |   4 | Flags
//!
//! An MD5 record:
//!
//! Off | Len | Field
//! --- | --- | -----
//!   0 |   2 | Magic
//!   2 |  14 | Reserved
//!  16 |  16 | MD5 digest

use crate::error::PartitionError;
use crate::name::{
    name_as_str, name_bytes, name_clone, name_empty, name_from, name_into, name_try_from, padded,
    trim, MAX_NAME_LEN,
};
use crate::types::PartitionType;
use crate::wire::{get_field, get_u32_le, le_bytes, le_value, put_field, put_u32_le};
use vstd::prelude::*;
use vstd::string::StringSliceAdditionalSpecFns;
use vstd::utf8::{encode_utf8_valid_utf8, valid_utf8};

verus! {

/// The bytes of one record.
pub type PartitionBuffer = [u8; 32];

/// The bytes of an MD5 digest.
pub type Md5Data = [u8; 16];

/// Size of a record in bytes.
pub const RECORD_SIZE: usize = 32;

/// First magic byte of a partition entry.
pub const ENTRY_MAGIC_0: u8 = 0xAA;

/// Second magic byte of a partition entry.
pub const ENTRY_MAGIC_1: u8 = 0x50;

/// Both magic bytes of an MD5 record.
pub const MD5_MAGIC: u8 = 0xEB;

/// The byte that fills the reserved space of an MD5 record, and erased
/// flash.
pub const ERASED: u8 = 0xFF;

/// What a partition entry says, as plain values. The name is given by its
/// bytes.
pub struct EntryModel {
    pub type_: PartitionType,
    pub offset: u32,
    pub size: usize,
    pub name: Seq<u8>,
    pub encrypted: bool,
}

impl EntryModel {
    /// Whether the name is one that an entry can hold: UTF-8 of at most 16
    /// bytes.
    pub open spec fn wf(self) -> bool {
        self.name.len() <= MAX_NAME_LEN && valid_utf8(self.name)
    }

    /// The size as the record holds it: its low 32 bits.
    pub open spec fn size_field(self) -> u32 {
        (self.size as int % 0x1_0000_0000) as u32
    }

    /// The flags as the record holds them: bit 0 says whether the partition
    /// is encrypted, and no other bit is set.
    pub open spec fn flags(self) -> u32 {
        if self.encrypted {
            1
        } else {
            0
        }
    }

    /// The record of an entry, or why it has none. The offset is looked at
    /// first, then the type, then the name.
    pub open spec fn encode(self) -> Result<Seq<u8>, PartitionError> {
        if !self.type_.aligned(self.offset) {
            Err(PartitionError::InvalidAlignment)
        } else {
            match self.type_.encode() {
                Err(error) => Err(error),
                Ok(raw) => if self.name.len() > MAX_NAME_LEN {
                    Err(PartitionError::InvalidString)
                } else {
                    Ok(
                        seq![ENTRY_MAGIC_0, ENTRY_MAGIC_1, raw.0, raw.1] + le_bytes(self.offset)
                            + le_bytes(self.size_field()) + padded(self.name) + le_bytes(
                            self.flags(),
                        ),
                    )
                },
            }
        }
    }

    /// What a buffer holds after the entry was encoded into it, whether that
    /// went well or not. A misaligned offset leaves the buffer as it was, a
    /// type without bytes leaves the magic in it, and a name that is too long
    /// leaves the fields before the name.
    pub open spec fn written(self, before: Seq<u8>) -> Seq<u8> {
        if !self.type_.aligned(self.offset) {
            before
        } else {
            match self.type_.encode() {
                Err(_) => seq![ENTRY_MAGIC_0, ENTRY_MAGIC_1] + before.subrange(2, 32),
                Ok(raw) => if self.name.len() > MAX_NAME_LEN {
                    seq![ENTRY_MAGIC_0, ENTRY_MAGIC_1, raw.0, raw.1] + le_bytes(self.offset)
                        + le_bytes(self.size_field()) + before.subrange(12, 32)
                } else {
                    self.encode()->Ok_0
                },
            }
        }
    }

    /// The entry that a record holds, or why it holds none. The magic is
    /// looked at first, then the type, then the name. Of the flags only bit 0
    /// counts.
    pub open spec fn decode(record: Seq<u8>) -> Result<EntryModel, PartitionError>
        recommends
            record.len() == RECORD_SIZE,
    {
        if record[0] != ENTRY_MAGIC_0 || record[1] != ENTRY_MAGIC_1 {
            Err(PartitionError::InvalidMagic)
        } else {
            match PartitionType::decode(record[2], record[3]) {
                Err(error) => Err(error),
                Ok(type_) => if !valid_utf8(trim(record.subrange(12, 28))) {
                    Err(PartitionError::InvalidString)
                } else {
                    Ok(
                        EntryModel {
                            type_,
                            offset: le_value(record.subrange(4, 8)),
                            size: le_value(record.subrange(8, 12)) as usize,
                            name: trim(record.subrange(12, 28)),
                            encrypted: le_value(record.subrange(28, 32)) & 1 != 0,
                        },
                    )
                },
            }
        }
    }
}

/// One partition of the flash.
#[derive(Debug, PartialEq, Eq)]
pub struct PartitionEntry {
    /// Type and subtype
    pub type_: PartitionType,
    /// Address of the first byte
    pub offset: u32,
    /// Size in bytes
    pub size: usize,
    /// Name
    pub name: heapless::String<16>,
    /// Whether the partition is encrypted
    pub encrypted: bool,
}

impl View for PartitionEntry {
    type V = EntryModel;

    open spec fn view(&self) -> EntryModel {
        EntryModel {
            type_: self.type_,
            offset: self.offset,
            size: self.size,
            name: name_bytes(self.name),
            encrypted: self.encrypted,
        }
    }
}

impl Clone for PartitionEntry {
    fn clone(&self) -> (copy: Self)
        ensures
            copy@ == self@,
    {
        PartitionEntry {
            type_: self.type_,
            offset: self.offset,
            size: self.size,
            name: name_clone(&self.name),
            encrypted: self.encrypted,
        }
    }
}

impl Default for PartitionEntry {
    fn default() -> (entry: Self)
        ensures
            entry@ == (EntryModel {
                type_: PartitionType::Any,
                offset: 0,
                size: 0,
                name: Seq::<u8>::empty(),
                encrypted: false,
            }),
    {
        PartitionEntry {
            type_: PartitionType::Any,
            offset: 0,
            size: 0,
            name: name_empty(),
            encrypted: false,
        }
    }
}

impl PartitionEntry {
    /// Magic bytes at the start of a partition entry
    pub const MAGIC: [u8; 2] = [0xAA, 0x50];

    /// Size of a record in bytes
    pub const SIZE: usize = 32;

    /// The most bytes a name can have
    pub const MAX_NAME_LEN: usize = 16;

    /// Makes an entry. A name of more than 16 bytes is refused; the offset is
    /// taken as it is.
    pub fn new(type_: PartitionType, offset: u32, size: usize, name: &str, encrypted: bool) -> (r:
        Result<Self, PartitionError>)
        ensures
            name.spec_bytes().len() <= MAX_NAME_LEN ==> r is Ok && r->Ok_0@ == (EntryModel {
                type_,
                offset,
                size,
                name: name.spec_bytes(),
                encrypted,
            }) && r->Ok_0@.wf(),
            name.spec_bytes().len() > MAX_NAME_LEN ==> r == Err::<Self, PartitionError>(
                PartitionError::InvalidString,
            ),
    {
        match name_try_from(name) {
            Some(name_held) => {
                proof {
                    encode_utf8_valid_utf8(name@);
                }
                Ok(PartitionEntry { type_, offset, size, name: name_held, encrypted })
            },
            None => Err(PartitionError::InvalidString),
        }
    }

    /// Sets the offset if it is a multiple of the alignment of the entry's
    /// type, and leaves the entry as it was otherwise.
    pub fn set_offset(&mut self, offset: u32) -> (r: Result<(), PartitionError>)
        ensures
            old(self).type_.aligned(offset) ==> r is Ok && final(self)@ == (EntryModel {
                offset,
                ..old(self)@
            }),
            !old(self).type_.aligned(offset) ==> r == Err::<(), PartitionError>(
                PartitionError::InvalidAlignment,
            ) && *final(self) == *old(self),
    {
        match self.type_.check_offset(offset) {
            Ok(()) => {
                self.offset = offset;
                Ok(())
            },
            Err(error) => Err(error),
        }
    }

    /// The name of the partition.
    pub fn name(&self) -> (name: &str)
        ensures
            name.spec_bytes() == self@.name,
            self@.wf(),
    {
        let name = name_as_str(&self.name);
        proof {
            encode_utf8_valid_utf8(name@);
        }
        name
    }

    /// Sets the name. A name of more than 16 bytes is refused and the entry
    /// stays as it was.
    pub fn set_name(&mut self, name: &str) -> (r: Result<(), PartitionError>)
        ensures
            name.spec_bytes().len() <= MAX_NAME_LEN ==> r is Ok && final(self)@ == (EntryModel {
                name: name.spec_bytes(),
                ..old(self)@
            }),
            name.spec_bytes().len() > MAX_NAME_LEN ==> r == Err::<(), PartitionError>(
                PartitionError::InvalidString,
            ) && *final(self) == *old(self),
    {
        match name_try_from(name) {
            Some(name_held) => {
                self.name = name_held;
                Ok(())
            },
            None => Err(PartitionError::InvalidString),
        }
    }

    /// Reads an entry from its record.
    pub fn from_bytes(data: &PartitionBuffer) -> (r: Result<Self, PartitionError>)
        ensures
            match EntryModel::decode(data@) {
                Ok(entry) => r is Ok && r->Ok_0@ == entry && entry.wf(),
                Err(error) => r == Err::<Self, PartitionError>(error),
            },
    {
        if data[0] != ENTRY_MAGIC_0 || data[1] != ENTRY_MAGIC_1 {
            return Err(PartitionError::InvalidMagic);
        }
        let type_ = match PartitionType::try_from((data[2], data[3])) {
            Ok(type_) => type_,
            Err(error) => {
                return Err(error);
            },
        };
        let offset = get_u32_le(data, 4);
        let size = get_u32_le(data, 8) as usize;
        let field = get_field(data, 12);
        let name = match name_from(&field) {
            Ok(name) => name,
            Err(error) => {
                return Err(error);
            },
        };
        let name_held = match name_try_from(name) {
            Some(name_held) => name_held,
            None => {
                return Err(PartitionError::InvalidString);
            },
        };
        let flags = get_u32_le(data, 28);
        let encrypted = flags & 0x01 != 0;
        Ok(PartitionEntry { type_, offset, size, name: name_held, encrypted })
    }

    /// Writes the record of an entry into `data`. The offset has to be a
    /// multiple of the alignment of the type, and is looked at before a byte
    /// is written.
    pub fn to_bytes(&self, data: &mut PartitionBuffer) -> (r: Result<(), PartitionError>)
        ensures
            match self@.encode() {
                Ok(record) => r is Ok && final(data)@ == record,
                Err(error) => r == Err::<(), PartitionError>(error),
            },
            !self.type_.aligned(self.offset) ==> r == Err::<(), PartitionError>(
                PartitionError::InvalidAlignment,
            ),
            final(data)@ == self@.written(old(data)@),
    {
        match self.type_.check_offset(self.offset) {
            Ok(()) => {},
            Err(error) => {
                return Err(error);
            },
        }
        data[0] = ENTRY_MAGIC_0;
        data[1] = ENTRY_MAGIC_1;
        let raw = match <(u8, u8)>::try_from(self.type_) {
            Ok(raw) => raw,
            Err(error) => {
                assert(data@ =~= self@.written(old(data)@));
                return Err(error);
            },
        };
        data[2] = raw.0;
        data[3] = raw.1;
        put_u32_le(data, 4, self.offset);
        put_u32_le(data, 8, (self.size as u64 % 0x1_0000_0000) as u32);
        let mut field = [0u8; 16];
        match name_into(&mut field, name_as_str(&self.name)) {
            Ok(()) => {},
            Err(error) => {
                assert(data@ =~= self@.written(old(data)@));
                return Err(error);
            },
        }
        put_field(data, 12, &field);
        put_u32_le(
            data,
            28,
            if self.encrypted {
                1
            } else {
                0
            },
        );
        assert(data@ =~= self@.encode()->Ok_0);
        Ok(())
    }
}

impl TryFrom<&[u8]> for PartitionEntry {
    type Error = PartitionError;

    /// Reads an entry from a slice, which has to be one record long.
    fn try_from(data: &[u8]) -> (r: Result<Self, PartitionError>)
        ensures
            data@.len() != RECORD_SIZE ==> r == Err::<Self, PartitionError>(
                PartitionError::NotEnoughData,
            ),
            data@.len() == RECORD_SIZE ==> match EntryModel::decode(data@) {
                Ok(entry) => r is Ok && r->Ok_0@ == entry,
                Err(error) => r == Err::<Self, PartitionError>(error),
            },
    {
        match record_of(data) {
            Some(record) => Self::from_bytes(&record),
            None => Err(PartitionError::NotEnoughData),
        }
    }
}

/// What this conversion returns is stated by its own contract.
impl vstd::std_specs::convert::TryFromSpecImpl<&[u8]> for PartitionEntry {
    open spec fn obeys_try_from_spec() -> bool {
        false
    }

    open spec fn try_from_spec(data: &[u8]) -> Result<Self, PartitionError> {
        arbitrary()
    }
}

/// The record in a slice that is one record long.
pub fn record_of(data: &[u8]) -> (r: Option<PartitionBuffer>)
    ensures
        data@.len() == RECORD_SIZE ==> r is Some && r->0@ == data@,
        data@.len() != RECORD_SIZE ==> r is None,
{
    if data.len() != RECORD_SIZE {
        return None;
    }
    let mut record = [0u8; 32];
    let mut i: usize = 0;
    while i < RECORD_SIZE
        invariant
            i <= RECORD_SIZE,
            data@.len() == RECORD_SIZE,
            forall|j: int| 0 <= j < i ==> record[j] == data[j],
        decreases RECORD_SIZE - i,
    {
        record[i] = data[i];
        i = i + 1;
    }
    assert(record@ =~= data@);
    Some(record)
}

/// The MD5 record of a digest of 16 bytes.
pub open spec fn md5_record(digest: Seq<u8>) -> Seq<u8> {
    seq![MD5_MAGIC, MD5_MAGIC] + Seq::new(14, |i: int| ERASED) + digest
}

/// The digest that an MD5 record holds. A record whose magic is wrong, or
/// whose reserved bytes are not all `ERASED`, holds none.
pub open spec fn md5_of_record(record: Seq<u8>) -> Result<Seq<u8>, PartitionError>
    recommends
        record.len() == RECORD_SIZE,
{
    if record[0] == MD5_MAGIC && record[1] == MD5_MAGIC && (forall|i: int|
        2 <= i < 16 ==> record[i] == ERASED) {
        Ok(record.subrange(16, 32))
    } else {
        Err(PartitionError::InvalidMagic)
    }
}

/// The MD5 checksum of the entries of a table.
#[derive(Debug, PartialEq, Eq)]
pub struct PartitionMd5 {
    /// The digest
    pub data: Md5Data,
}

impl Clone for PartitionMd5 {
    fn clone(&self) -> (copy: Self)
        ensures
            copy == *self,
    {
        PartitionMd5 { data: self.data }
    }
}

impl Default for PartitionMd5 {
    fn default() -> (md5: Self)
        ensures
            md5.data@ == Seq::new(16, |i: int| 0u8),
    {
        let md5 = PartitionMd5 { data: [0u8; 16] };
        assert(md5.data@ =~= Seq::new(16, |i: int| 0u8));
        md5
    }
}

impl From<Md5Data> for PartitionMd5 {
    fn from(data: Md5Data) -> (md5: Self)
        ensures
            md5.data == data,
    {
        PartitionMd5 { data }
    }
}

impl vstd::std_specs::convert::FromSpecImpl<Md5Data> for PartitionMd5 {
    open spec fn obeys_from_spec() -> bool {
        true
    }

    open spec fn from_spec(data: Md5Data) -> Self {
        PartitionMd5 { data }
    }
}

impl PartitionMd5 {
    /// Magic bytes at the start of an MD5 record
    pub const MAGIC: [u8; 2] = [0xEB, 0xEB];

    /// Number of reserved bytes between the magic and the digest
    pub const RESERVED_SIZE: usize = 14;

    /// The byte that fills the reserved space
    pub const RESERVED_DATA: u8 = 0xFF;

    /// Reads the digest from an MD5 record.
    pub fn from_bytes(data: &PartitionBuffer) -> (r: Result<Self, PartitionError>)
        ensures
            match md5_of_record(data@) {
                Ok(digest) => r is Ok && r->Ok_0.data@ == digest,
                Err(error) => r == Err::<Self, PartitionError>(error),
            },
    {
        if data[0] != MD5_MAGIC || data[1] != MD5_MAGIC {
            return Err(PartitionError::InvalidMagic);
        }
        let mut i: usize = 2;
        while i < 16
            invariant
                2 <= i <= 16,
                forall|j: int| 2 <= j < i ==> data[j] == ERASED,
            decreases 16 - i,
        {
            if data[i] != ERASED {
                return Err(PartitionError::InvalidMagic);
            }
            i = i + 1;
        }
        Ok(PartitionMd5 { data: get_field(data, 16) })
    }

    /// Writes the MD5 record of the digest into `data`. This never fails.
    pub fn to_bytes(&self, data: &mut PartitionBuffer) -> (r: Result<(), PartitionError>)
        ensures
            r is Ok,
            final(data)@ == md5_record(self.data@),
    {
        data[0] = MD5_MAGIC;
        data[1] = MD5_MAGIC;
        let mut i: usize = 2;
        while i < 16
            invariant
                2 <= i <= 16,
                data[0] == MD5_MAGIC,
                data[1] == MD5_MAGIC,
                forall|j: int| 2 <= j < i ==> data[j] == ERASED,
            decreases 16 - i,
        {
            data[i] = ERASED;
            i = i + 1;
        }
        put_field(data, 16, &self.data);
        assert(data@ =~= md5_record(self.data@));
        Ok(())
    }
}

impl TryFrom<&[u8]> for PartitionMd5 {
    type Error = PartitionError;

    /// Reads the digest from a slice, which has to be one record long.
    fn try_from(data: &[u8]) -> (r: Result<Self, PartitionError>)
        ensures
            data@.len() != RECORD_SIZE ==> r == Err::<Self, PartitionError>(
                PartitionError::NotEnoughData,
            ),
            data@.len() == RECORD_SIZE ==> match md5_of_record(data@) {
                Ok(digest) => r is Ok && r->Ok_0.data@ == digest,
                Err(error) => r == Err::<Self, PartitionError>(error),
            },
    {
        match record_of(data) {
            Some(record) => Self::from_bytes(&record),
            None => Err(PartitionError::NotEnoughData),
        }
    }
}

/// What this conversion returns is stated by its own contract.
impl vstd::std_specs::convert::TryFromSpecImpl<&[u8]> for PartitionMd5 {
    open spec fn obeys_try_from_spec() -> bool {
        false
    }

    open spec fn try_from_spec(data: &[u8]) -> Result<Self, PartitionError> {
        arbitrary()
    }
}

impl TryFrom<&PartitionBuffer> for PartitionEntry {
    type Error = PartitionError;

    fn try_from(data: &PartitionBuffer) -> (r: Result<Self, PartitionError>)
        ensures
            match EntryModel::decode(data@) {
                Ok(entry) => r is Ok && r->Ok_0@ == entry && entry.wf(),
                Err(error) => r == Err::<Self, PartitionError>(error),
            },
    {
        Self::from_bytes(data)
    }
}

/// What this conversion returns is stated by its own contract.
impl vstd::std_specs::convert::TryFromSpecImpl<&PartitionBuffer> for PartitionEntry {
    open spec fn obeys_try_from_spec() -> bool {
        false
    }

    open spec fn try_from_spec(data: &PartitionBuffer) -> Result<Self, PartitionError> {
        arbitrary()
    }
}

impl TryFrom<&PartitionBuffer> for PartitionMd5 {
    type Error = PartitionError;

    fn try_from(data: &PartitionBuffer) -> (r: Result<Self, PartitionError>)
        ensures
            match md5_of_record(data@) {
                Ok(digest) => r is Ok && r->Ok_0.data@ == digest,
                Err(error) => r == Err::<Self, PartitionError>(error),
            },
    {
        Self::from_bytes(data)
    }
}

/// What this conversion returns is stated by its own contract.
impl vstd::std_specs::convert::TryFromSpecImpl<&PartitionBuffer> for PartitionMd5 {
    open spec fn obeys_try_from_spec() -> bool {
        false
    }

    open spec fn try_from_spec(data: &PartitionBuffer) -> Result<Self, PartitionError> {
        arbitrary()
    }
}

impl From<PartitionMd5> for Md5Data {
    fn from(md5: PartitionMd5) -> (data: Md5Data)
        ensures
            data == md5.data,
    {
        md5.data
    }
}

impl vstd::std_specs::convert::FromSpecImpl<PartitionMd5> for Md5Data {
    open spec fn obeys_from_spec() -> bool {
        true
    }

    open spec fn from_spec(md5: PartitionMd5) -> Md5Data {
        md5.data
    }
}

} // verus!
