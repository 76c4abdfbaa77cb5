//! The region that holds a partition table, and the reader and the writer
//! that walk it one record at a time.

use crate::digest::{md5_consume, md5_finish, md5_input, md5_new, md5_of};
use crate::entry::{
    md5_of_record, md5_record, EntryModel, Md5Data, PartitionBuffer, PartitionEntry, PartitionMd5,
    ENTRY_MAGIC_0, ENTRY_MAGIC_1, ERASED, MD5_MAGIC, RECORD_SIZE,
};
use crate::error::PartitionError;
use vstd::prelude::*;

verus! {

/// Where a partition table lies in the flash.
#[derive(Clone, Copy, Debug, PartialEq, Eq, Structural)]
pub struct PartitionTable {
    /// Address of the table
    pub addr: u32,
    /// Size of the table in bytes
    pub size: usize,
}

impl PartitionTable {
    /// Address of the table unless another is given
    pub const DEFAULT_ADDR: u32 = 0x8000;

    /// The largest size of a table, and its size unless another is given
    pub const MAX_SIZE: usize = 0x1000;

    /// The most records that a table can hold
    pub const MAX_ENTRIES: usize = 128;

    /// A table of `size` bytes at `addr`.
    pub fn new(addr: u32, size: usize) -> (table: Self)
        ensures
            table.addr == addr,
            table.size == size,
    {
        Self { addr, size }
    }

    /// How many records fit into the table.
    pub fn max_entries(&self) -> (n: usize)
        ensures
            n == self.size / RECORD_SIZE,
    {
        self.size / RECORD_SIZE
    }
}

impl Default for PartitionTable {
    fn default() -> (table: Self)
        ensures
            table.addr == 0x8000,
            table.size == 0x1000,
    {
        Self::new(Self::DEFAULT_ADDR, Self::MAX_SIZE)
    }
}

/// Whether a region of `length` bytes at `offset`, filled up to a whole
/// number of records, ends within the 32-bit address space.
pub open spec fn region_fits(offset: u32, length: usize) -> bool {
    offset + (length + 31) / 32 * 32 <= u32::MAX
}

/// Whether a cursor that moves by one record at a time, and only while it
/// is before `end`, stays within the 32-bit address space.
pub open spec fn cursor_fits(offset: u32, end: u32) -> bool {
    offset < end ==> offset + (end - offset + 31) / 32 * 32 <= u32::MAX
}

/// Phase of a reader or a writer.
#[derive(Clone, Copy, Debug, PartialEq, Eq, Structural)]
pub enum InternalState {
    /// Nothing was written yet
    Init,
    /// Records are read or written
    Proc,
    /// The end was reached: no more records are read or written
    Done,
}

/// The running checksum of a reader or a writer.
pub enum Md5Model {
    /// It still takes bytes in, and has taken in these.
    Open(Seq<u8>),
    /// It was finalized, with this digest.
    Closed(Seq<u8>),
}

impl Md5Model {
    /// The checksum after it was fed a record, where `tracking` is on and
    /// the checksum still takes bytes in.
    pub open spec fn fed(self, tracking: bool, record: Seq<u8>) -> Md5Model {
        match self {
            Md5Model::Open(input) if tracking => Md5Model::Open(input + record),
            _ => self,
        }
    }

    /// The checksum after it was finalized, where `tracking` is on and the
    /// checksum was not finalized before.
    pub open spec fn frozen(self, tracking: bool) -> Md5Model {
        match self {
            Md5Model::Open(input) if tracking => Md5Model::Closed(md5_of(input)),
            _ => self,
        }
    }

    /// The digest, once the checksum was finalized.
    pub open spec fn digest(self) -> Option<Seq<u8>> {
        match self {
            Md5Model::Open(_) => None,
            Md5Model::Closed(digest) => Some(digest),
        }
    }
}

/// What a reader knows, as plain values.
pub struct ReaderModel {
    /// Address of the next record
    pub offset: u32,
    /// Address behind the table
    pub end: u32,
    /// Whether the checksum of the entries is computed
    pub calc_md5: bool,
    /// The checksum of the entries read so far
    pub md5: Md5Model,
    /// The digest that an MD5 record held
    pub stored_md5: Option<Seq<u8>>,
    /// Whether the reader has reached the end
    pub done: bool,
}

impl ReaderModel {
    /// The reader at the start of a table.
    pub open spec fn new(offset: u32, length: usize, calc_md5: bool) -> ReaderModel {
        ReaderModel {
            offset,
            end: (offset + length) as u32,
            calc_md5,
            md5: Md5Model::Open(Seq::empty()),
            stored_md5: None,
            done: false,
        }
    }

    /// Whether the cursor can move on without leaving the address space.
    pub open spec fn wf(self) -> bool {
        cursor_fits(self.offset, self.end)
    }

    /// The reader after it was handed the record at its cursor, and what it
    /// found there.
    ///
    /// A reader that is done, or whose cursor is at the end of the table,
    /// is done and answers `NotEnoughData` whatever the record holds.
    /// Otherwise the first two bytes decide:
    /// - the magic of an entry: the record is fed to the checksum and
    ///   decoded; an entry moves the cursor on, and a record that cannot be
    ///   decoded finalizes the checksum and ends the reading;
    /// - the magic of an MD5 record: the digest in it is kept and the cursor
    ///   moves on, the checksum is finalized and the reading ends with
    ///   `NotEnoughData`; a record that cannot be decoded finalizes the
    ///   checksum and ends the reading with `InvalidMagic`;
    /// - erased flash: the checksum is finalized and the reading ends with
    ///   `NotEnoughData`;
    /// - anything else ends the reading with `InvalidMagic`.
    pub open spec fn read(self, record: Seq<u8>) -> (ReaderModel, Result<
        EntryModel,
        PartitionError,
    >) {
        if self.done || self.offset >= self.end {
            (ReaderModel { done: true, ..self }, Err(PartitionError::NotEnoughData))
        } else if record[0] == ENTRY_MAGIC_0 && record[1] == ENTRY_MAGIC_1 {
            let md5 = self.md5.fed(self.calc_md5, record);
            match EntryModel::decode(record) {
                Ok(entry) => (
                    ReaderModel { offset: (self.offset + 32) as u32, md5, ..self },
                    Ok(entry),
                ),
                Err(error) => (
                    ReaderModel { md5: md5.frozen(self.calc_md5), done: true, ..self },
                    Err(error),
                ),
            }
        } else if record[0] == MD5_MAGIC && record[1] == MD5_MAGIC {
            match md5_of_record(record) {
                Ok(digest) => (
                    ReaderModel {
                        offset: (self.offset + 32) as u32,
                        md5: self.md5.frozen(self.calc_md5),
                        stored_md5: Some(digest),
                        done: true,
                        ..self
                    },
                    Err(PartitionError::NotEnoughData),
                ),
                Err(error) => (
                    ReaderModel { md5: self.md5.frozen(self.calc_md5), done: true, ..self },
                    Err(error),
                ),
            }
        } else if record[0] == ERASED && record[1] == ERASED {
            (
                ReaderModel { md5: self.md5.frozen(self.calc_md5), done: true, ..self },
                Err(PartitionError::NotEnoughData),
            )
        } else {
            (ReaderModel { done: true, ..self }, Err(PartitionError::InvalidMagic))
        }
    }

    /// Whether the digest that was read is the digest that was computed,
    /// once both are there.
    pub open spec fn check_md5(self) -> Option<bool> {
        match (self.stored_md5, self.md5.digest()) {
            (Some(stored), Some(actual)) => Some(stored == actual),
            _ => None,
        }
    }

    /// Whether the checksum is in order for a caller who asks for it as
    /// `check_md5` says: `None` asks for nothing, `Some(false)` asks that a
    /// digest that was read be the one computed, and `Some(true)` asks
    /// besides that there be both.
    pub open spec fn accepts(self, check_md5: Option<bool>) -> bool {
        match check_md5 {
            None => true,
            Some(mandatory) => match self.check_md5() {
                Some(same) => same,
                None => !mandatory,
            },
        }
    }
}

/// Whether two digests hold the same bytes.
fn same_digest(a: &Md5Data, b: &Md5Data) -> (same: bool)
    ensures
        same == (a@ == b@),
{
    let mut i: usize = 0;
    while i < 16
        invariant
            i <= 16,
            forall|j: int| 0 <= j < i ==> a[j] == b[j],
        decreases 16 - i,
    {
        if a[i] != b[i] {
            return false;
        }
        i = i + 1;
    }
    assert(a@ =~= b@);
    true
}

/// Reads a partition table from the records that it is handed one by one.
pub struct PartitionReaderState {
    offset: u32,
    end: u32,
    ctx: md5::Context,
    md5: Option<Md5Data>,
    calc_md5: bool,
    stored_md5: Option<Md5Data>,
    state: InternalState,
}

impl View for PartitionReaderState {
    type V = ReaderModel;

    closed spec fn view(&self) -> ReaderModel {
        ReaderModel {
            offset: self.offset,
            end: self.end,
            calc_md5: self.calc_md5,
            md5: match self.md5 {
                Some(digest) => Md5Model::Closed(digest@),
                None => Md5Model::Open(md5_input(self.ctx)),
            },
            stored_md5: match self.stored_md5 {
                Some(digest) => Some(digest@),
                None => None,
            },
            done: self.state is Done,
        }
    }
}

impl Clone for PartitionReaderState {
    fn clone(&self) -> (copy: Self)
        ensures
            copy@ == self@,
    {
        PartitionReaderState {
            offset: self.offset,
            end: self.end,
            ctx: self.ctx.clone(),
            md5: self.md5,
            calc_md5: self.calc_md5,
            stored_md5: self.stored_md5,
            state: self.state,
        }
    }
}

impl PartitionReaderState {
    /// A reader for the table of `length` bytes at `offset`. With `calc_md5`
    /// it computes the checksum of the entries that it reads.
    pub fn new(offset: u32, length: usize, calc_md5: bool) -> (reader: Self)
        requires
            region_fits(offset, length),
        ensures
            reader@ == ReaderModel::new(offset, length, calc_md5),
            reader@.wf(),
    {
        PartitionReaderState {
            offset,
            end: offset + length as u32,
            ctx: md5_new(),
            md5: None,
            calc_md5,
            stored_md5: None,
            state: InternalState::Proc,
        }
    }

    /// Address of the next record.
    pub fn offset(&self) -> (offset: u32)
        ensures
            offset == self@.offset,
    {
        self.offset
    }

    /// Whether the reader has reached the end.
    pub fn is_done(&self) -> (done: bool)
        ensures
            done == self@.done,
    {
        match self.state {
            InternalState::Done => true,
            _ => false,
        }
    }

    /// The digest that an MD5 record held, if the reader has met one.
    pub fn stored_md5(&self) -> (stored: Option<&Md5Data>)
        ensures
            stored is Some <==> self@.stored_md5 is Some,
            stored is Some ==> stored->0@ == self@.stored_md5->0,
    {
        self.stored_md5.as_ref()
    }

    /// The digest of the entries that were read, once the checksum was
    /// finalized.
    pub fn actual_md5(&self) -> (actual: Option<&Md5Data>)
        ensures
            actual is Some <==> self@.md5.digest() is Some,
            actual is Some ==> actual->0@ == self@.md5.digest()->0,
    {
        self.md5.as_ref()
    }

    /// Whether the digest that was read is the digest that was computed.
    /// There is no answer before both are there.
    pub fn check_md5(&self) -> (same: Option<bool>)
        ensures
            same == self@.check_md5(),
    {
        match (self.stored_md5(), self.actual_md5()) {
            (Some(stored), Some(actual)) => Some(same_digest(stored, actual)),
            _ => None,
        }
    }

    /// Judges the checksum once the table was read. A checksum that is not
    /// as the caller asks is reported as `InvalidMd5`.
    pub fn require_md5(&self, check_md5: Option<bool>) -> (r: Result<(), PartitionError>)
        ensures
            self@.accepts(check_md5) ==> r is Ok,
            !self@.accepts(check_md5) ==> r == Err::<(), PartitionError>(
                PartitionError::InvalidMd5,
            ),
    {
        let in_order = match check_md5 {
            None => true,
            Some(mandatory) => match self.check_md5() {
                Some(same) => same,
                None => !mandatory,
            },
        };
        if in_order {
            Ok(())
        } else {
            Err(PartitionError::InvalidMd5)
        }
    }

    /// Takes the record at the cursor like `read`, and tells the end of the
    /// table from a failure: the end is `None`, and `NotEnoughData` is
    /// never returned.
    pub fn next_entry(&mut self, buffer: &PartitionBuffer) -> (r: Option<
        Result<PartitionEntry, PartitionError>,
    >)
        requires
            old(self)@.wf(),
        ensures
            final(self)@ == old(self)@.read(buffer@).0,
            final(self)@.wf(),
            match old(self)@.read(buffer@).1 {
                Ok(entry) => r is Some && r->0 is Ok && r->0->Ok_0@ == entry,
                Err(PartitionError::NotEnoughData) => r is None,
                Err(error) => r == Some(Err::<PartitionEntry, PartitionError>(error)),
            },
    {
        match self.read(buffer) {
            Ok(entry) => Some(Ok(entry)),
            Err(PartitionError::NotEnoughData) => None,
            Err(error) => Some(Err(error)),
        }
    }

    /// Takes the record at the cursor and returns the entry in it. The end
    /// of the table is reported as `NotEnoughData`. Once a call has failed,
    /// the reader is done and every later call fails too.
    pub fn read(&mut self, buffer: &PartitionBuffer) -> (r: Result<PartitionEntry, PartitionError>)
        requires
            old(self)@.wf(),
        ensures
            final(self)@ == old(self)@.read(buffer@).0,
            match old(self)@.read(buffer@).1 {
                Ok(entry) => r is Ok && r->Ok_0@ == entry && entry.wf(),
                Err(error) => r == Err::<PartitionEntry, PartitionError>(error),
            },
            final(self)@.wf(),
            r is Err ==> final(self)@.done,
            old(self)@.done ==> r == Err::<PartitionEntry, PartitionError>(
                PartitionError::NotEnoughData,
            ),
    {
        if self.offset >= self.end {
            self.state = InternalState::Done;
        }
        if self.is_done() {
            return Err(PartitionError::NotEnoughData);
        }
        let mut freeze = true;
        let result = if buffer[0] == ENTRY_MAGIC_0 && buffer[1] == ENTRY_MAGIC_1 {
            if self.calc_md5 && self.md5.is_none() {
                md5_consume(&mut self.ctx, buffer);
            }
            PartitionEntry::from_bytes(buffer)
        } else if buffer[0] == MD5_MAGIC && buffer[1] == MD5_MAGIC {
            match PartitionMd5::from_bytes(buffer) {
                Ok(md5) => {
                    self.stored_md5 = Some(md5.data);
                    self.offset = self.offset + RECORD_SIZE as u32;
                    Err(PartitionError::NotEnoughData)
                },
                Err(error) => Err(error),
            }
        } else if buffer[0] == ERASED && buffer[1] == ERASED {
            Err(PartitionError::NotEnoughData)
        } else {
            freeze = false;
            Err(PartitionError::InvalidMagic)
        };
        match result {
            Ok(entry) => {
                self.offset = self.offset + RECORD_SIZE as u32;
                Ok(entry)
            },
            Err(error) => {
                if freeze && self.calc_md5 && self.md5.is_none() {
                    self.md5 = Some(md5_finish(&self.ctx));
                }
                self.state = InternalState::Done;
                Err(error)
            },
        }
    }
}

/// What a writer knows, as plain values.
pub struct WriterModel {
    /// Address of the record that was written last, or of the first record
    pub offset: u32,
    /// Address behind the table
    pub end: u32,
    /// Whether the checksum of the entries is computed and written
    pub write_md5: bool,
    /// The checksum of the entries written so far
    pub md5: Md5Model,
    /// Phase of the writer
    pub state: InternalState,
}

impl WriterModel {
    /// The writer at the start of a table.
    pub open spec fn new(offset: u32, length: usize, write_md5: bool) -> WriterModel {
        WriterModel {
            offset,
            end: (offset + length) as u32,
            write_md5,
            md5: Md5Model::Open(Seq::empty()),
            state: InternalState::Init,
        }
    }

    /// Whether the cursor can move on without leaving the address space.
    pub open spec fn wf(self) -> bool {
        cursor_fits(self.offset, self.end)
    }

    /// The writer after the step that every write begins with, and whether
    /// the write may go on. A writer whose cursor is at the end of the
    /// table is done. The first write leaves the cursor where it is, each
    /// later one moves it by a record, and a writer that is done refuses
    /// with `TooManyData`.
    pub open spec fn check(self) -> (WriterModel, Result<(), PartitionError>) {
        if self.offset >= self.end || self.state is Done {
            (WriterModel { state: InternalState::Done, ..self }, Err(PartitionError::TooManyData))
        } else if self.state is Init {
            (WriterModel { state: InternalState::Proc, ..self }, Ok(()))
        } else {
            (WriterModel { offset: (self.offset + 32) as u32, ..self }, Ok(()))
        }
    }

    /// The writer after it was asked to write an entry, what the buffer then
    /// holds, and how the write went. The record of the entry is fed to the
    /// checksum. An entry without a record leaves the writer where the first
    /// step took it.
    pub open spec fn write(self, before: Seq<u8>, entry: EntryModel) -> (
        WriterModel,
        Seq<u8>,
        Result<(), PartitionError>,
    ) {
        let (checked, may) = self.check();
        if may is Err {
            (checked, before, may)
        } else {
            match entry.encode() {
                Ok(record) => (
                    WriterModel { md5: checked.md5.fed(self.write_md5, record), ..checked },
                    record,
                    Ok(()),
                ),
                Err(error) => (checked, entry.written(before), Err(error)),
            }
        }
    }

    /// The writer after it was asked to end the table, what the buffer then
    /// holds, and how that went. A writer that computes the checksum
    /// finalizes it and writes the MD5 record; any other leaves the buffer
    /// as it was. Either way the writer is done.
    pub open spec fn write_md5(self, before: Seq<u8>) -> (
        WriterModel,
        Seq<u8>,
        Result<(), PartitionError>,
    ) {
        let (checked, may) = self.check();
        if may is Err {
            (checked, before, may)
        } else {
            match checked.md5 {
                Md5Model::Open(input) if self.write_md5 => (
                    WriterModel {
                        md5: Md5Model::Closed(md5_of(input)),
                        state: InternalState::Done,
                        ..checked
                    },
                    md5_record(md5_of(input)),
                    Ok(()),
                ),
                _ => (WriterModel { state: InternalState::Done, ..checked }, before, Ok(())),
            }
        }
    }
}

/// Writes a partition table into the buffers that it is handed one by one.
pub struct PartitionWriterState {
    offset: u32,
    end: u32,
    ctx: md5::Context,
    md5: Option<Md5Data>,
    write_md5: bool,
    state: InternalState,
}

impl View for PartitionWriterState {
    type V = WriterModel;

    closed spec fn view(&self) -> WriterModel {
        WriterModel {
            offset: self.offset,
            end: self.end,
            write_md5: self.write_md5,
            md5: match self.md5 {
                Some(digest) => Md5Model::Closed(digest@),
                None => Md5Model::Open(md5_input(self.ctx)),
            },
            state: self.state,
        }
    }
}

impl PartitionWriterState {
    /// A writer for the table of `length` bytes at `offset`. With
    /// `write_md5` it computes the checksum of the entries that it writes.
    pub fn new(offset: u32, length: usize, write_md5: bool) -> (writer: Self)
        requires
            region_fits(offset, length),
        ensures
            writer@ == WriterModel::new(offset, length, write_md5),
            writer@.wf(),
    {
        PartitionWriterState {
            offset,
            end: offset + length as u32,
            ctx: md5_new(),
            md5: None,
            write_md5,
            state: InternalState::Init,
        }
    }

    /// Address of the record that was written last, or of the first record
    /// before any was written.
    pub fn offset(&self) -> (offset: u32)
        ensures
            offset == self@.offset,
    {
        self.offset
    }

    /// Whether the writer has reached the end.
    pub fn is_done(&self) -> (done: bool)
        ensures
            done == (self@.state is Done),
    {
        match self.state {
            InternalState::Done => true,
            _ => false,
        }
    }

    /// The digest of the entries that were written, once the checksum was
    /// finalized.
    pub fn actual_md5(&self) -> (actual: Option<&Md5Data>)
        ensures
            actual is Some <==> self@.md5.digest() is Some,
            actual is Some ==> actual->0@ == self@.md5.digest()->0,
    {
        self.md5.as_ref()
    }

    fn check(&mut self) -> (r: Result<(), PartitionError>)
        requires
            old(self)@.wf(),
        ensures
            final(self)@ == old(self)@.check().0,
            r == old(self)@.check().1,
            final(self)@.wf(),
            final(self).ctx == old(self).ctx,
            final(self).md5 == old(self).md5,
    {
        if self.offset >= self.end {
            self.state = InternalState::Done;
        }
        match self.state {
            InternalState::Init => {
                self.state = InternalState::Proc;
                Ok(())
            },
            InternalState::Proc => {
                self.offset = self.offset + RECORD_SIZE as u32;
                Ok(())
            },
            InternalState::Done => Err(PartitionError::TooManyData),
        }
    }

    /// Writes the record of an entry into `buffer` and moves on. A writer
    /// that is done, or whose cursor is at the end of the table, refuses
    /// with `TooManyData` and leaves the buffer as it was.
    pub fn write(&mut self, buffer: &mut PartitionBuffer, partition: &PartitionEntry) -> (r: Result<
        (),
        PartitionError,
    >)
        requires
            old(self)@.wf(),
        ensures
            final(self)@ == old(self)@.write(old(buffer)@, partition@).0,
            final(buffer)@ == old(self)@.write(old(buffer)@, partition@).1,
            r == old(self)@.write(old(buffer)@, partition@).2,
            final(self)@.wf(),
    {
        match self.check() {
            Ok(()) => {},
            Err(error) => {
                return Err(error);
            },
        }
        match partition.to_bytes(buffer) {
            Ok(()) => {},
            Err(error) => {
                return Err(error);
            },
        }
        if self.write_md5 && self.md5.is_none() {
            md5_consume(&mut self.ctx, buffer);
        }
        Ok(())
    }

    /// Ends the table. A writer that computes the checksum writes the MD5
    /// record into `buffer`; any other leaves the buffer as it was. A writer
    /// that is done, or whose cursor is at the end of the table, refuses with
    /// `TooManyData`.
    pub fn write_md5(&mut self, buffer: &mut PartitionBuffer) -> (r: Result<(), PartitionError>)
        requires
            old(self)@.wf(),
        ensures
            final(self)@ == old(self)@.write_md5(old(buffer)@).0,
            final(buffer)@ == old(self)@.write_md5(old(buffer)@).1,
            r == old(self)@.write_md5(old(buffer)@).2,
            final(self)@.wf(),
            final(self)@.state is Done,
    {
        match self.check() {
            Ok(()) => {},
            Err(error) => {
                return Err(error);
            },
        }
        self.state = InternalState::Done;
        if self.write_md5 && self.md5.is_none() {
            let md5 = PartitionMd5::from(md5_finish(&self.ctx));
            match md5.to_bytes(buffer) {
                Ok(()) => {},
                Err(error) => {
                    return Err(error);
                },
            }
            self.md5 = Some(md5.data);
        }
        Ok(())
    }

    /// Ends the writing without another record.
    pub fn finish(&mut self)
        ensures
            final(self)@ == (WriterModel { state: InternalState::Done, ..old(self)@ }),
    {
        self.state = InternalState::Done;
    }
}

} // verus!
