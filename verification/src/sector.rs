//! A whole table in memory: the image of the flash sector that holds it.
//!
//! A device that erases by sectors cannot take a table record by record. The
//! table is put together in memory and written as one sector.

use crate::digest::md5_of;
use crate::entry::{md5_record, EntryModel, PartitionBuffer, PartitionEntry, RECORD_SIZE};
use crate::error::PartitionError;
use crate::table::{
    region_fits, InternalState, Md5Model, PartitionTable, PartitionWriterState, WriterModel,
};
use vstd::prelude::*;

verus! {

/// Size of the sector that holds a table.
pub const SECTOR_SIZE: usize = 4096;

/// The most records that a sector holds.
pub const SECTOR_RECORDS: usize = 128;

/// What each entry of a sequence says.
pub open spec fn models(partitions: Seq<PartitionEntry>) -> Seq<EntryModel> {
    partitions.map_values(|entry: PartitionEntry| entry@)
}

/// The records of entries that all have one, one after another.
pub open spec fn records_of(entries: Seq<EntryModel>) -> Seq<u8>
    decreases entries.len(),
{
    if entries.len() == 0 {
        Seq::empty()
    } else {
        records_of(entries.drop_last()) + entries.last().encode()->Ok_0
    }
}

/// The records of `n` entries take `32 * n` bytes.
pub proof fn lemma_records_len(entries: Seq<EntryModel>)
    requires
        forall|i: int| 0 <= i < entries.len() ==> (#[trigger] entries[i]).encode() is Ok,
    ensures
        records_of(entries).len() == 32 * entries.len(),
    decreases entries.len(),
{
    if entries.len() > 0 {
        let front = entries.drop_last();
        assert forall|i: int| 0 <= i < front.len() implies (#[trigger] front[i]).encode() is Ok by {
            assert(front[i] == entries[i]);
        }
        lemma_records_len(front);
        assert(entries.last() == entries[entries.len() - 1]);
    }
}

impl PartitionTable {
    /// Whether the table, filled up to a whole number of records, ends
    /// within the 32-bit address space.
    pub open spec fn wf(self) -> bool {
        region_fits(self.addr, self.size)
    }

    /// Whether the writer of the table takes a record at position `index`:
    /// it goes on for as long as the record before the last one began inside
    /// the table.
    pub open spec fn has_room(self, index: int) -> bool {
        if index == 0 {
            self.size > 0
        } else {
            32 * (index - 1) < self.size
        }
    }

    /// Why no record can stand at position `index` of the sector, if none
    /// can: the sector has room for `SECTOR_RECORDS` records, and the writer
    /// has to take the record.
    pub open spec fn refuses(self, index: int) -> Option<PartitionError> {
        if index >= SECTOR_RECORDS {
            Some(PartitionError::NotEnoughData)
        } else if !self.has_room(index) {
            Some(PartitionError::TooManyData)
        } else {
            None
        }
    }

    /// Why the record at position `index` cannot be written, if it cannot:
    /// there is no room for it, or it is the record of an entry that has
    /// none. The position behind the entries is that of the MD5 record.
    pub open spec fn record_error(self, entries: Seq<EntryModel>, index: int) -> Option<
        PartitionError,
    > {
        match self.refuses(index) {
            Some(error) => Some(error),
            None => if 0 <= index < entries.len() {
                match entries[index].encode() {
                    Ok(_) => None,
                    Err(error) => Some(error),
                }
            } else {
                None
            },
        }
    }

    /// The writer of the table after it has written the first `done` of
    /// `entries`, each with success.
    pub open spec fn writer_after(self, entries: Seq<EntryModel>, done: int, write_md5: bool)
        -> WriterModel {
        if done == 0 {
            WriterModel::new(self.addr, self.size, write_md5)
        } else {
            WriterModel {
                offset: (self.addr + 32 * (done - 1)) as u32,
                end: (self.addr + self.size) as u32,
                write_md5,
                md5: if write_md5 {
                    Md5Model::Open(records_of(entries.take(done)))
                } else {
                    Md5Model::Open(Seq::empty())
                },
                state: InternalState::Proc,
            }
        }
    }

    /// One write of the writer that has written the first `done` entries:
    /// it is refused where the writer has no room, it fails where the next
    /// entry has no record, and otherwise it leaves that record in the
    /// buffer and the writer that has written one entry more.
    pub proof fn lemma_write_step(
        self,
        entries: Seq<EntryModel>,
        done: int,
        write_md5: bool,
        before: Seq<u8>,
    )
        requires
            self.wf(),
            0 <= done < entries.len(),
            done > 0 ==> self.has_room(done - 1),
        ensures
            self.writer_after(entries, done, write_md5).wf(),
            ({
                let step = self.writer_after(entries, done, write_md5).write(before, entries[done]);
                if !self.has_room(done) {
                    step.2 == Err::<(), PartitionError>(PartitionError::TooManyData)
                } else {
                    match entries[done].encode() {
                        Ok(record) => step.2 is Ok && step.1 == record && step.0
                            == self.writer_after(entries, done + 1, write_md5),
                        Err(error) => step.2 == Err::<(), PartitionError>(error),
                    }
                }
            }),
    {
        let next = entries.take(done + 1);
        assert(next.drop_last() =~= entries.take(done));
        assert(next.last() == entries[done]);
        if done == 0 {
            assert(entries.take(0) =~= Seq::<EntryModel>::empty());
            assert(records_of(entries.take(0)) =~= Seq::<u8>::empty());
        }
        if self.has_room(done) && entries[done].encode() is Ok {
            let record = entries[done].encode()->Ok_0;
            assert(records_of(next) == records_of(entries.take(done)) + record);
            assert(Seq::<u8>::empty() + record =~= record);
        }
    }

    /// The last write of the writer that has written all entries: it is
    /// refused where the writer has no room, and otherwise it leaves the MD5
    /// record of the records in the buffer and the writer done.
    pub proof fn lemma_write_md5_step(self, entries: Seq<EntryModel>, before: Seq<u8>)
        requires
            self.wf(),
            entries.len() > 0 ==> self.has_room(entries.len() - 1),
        ensures
            self.writer_after(entries, entries.len() as int, true).wf(),
            ({
                let done = entries.len() as int;
                let step = self.writer_after(entries, done, true).write_md5(before);
                if !self.has_room(done) {
                    step.2 == Err::<(), PartitionError>(PartitionError::TooManyData)
                } else {
                    &&& step.2 is Ok
                    &&& step.1 == md5_record(md5_of(records_of(entries)))
                    &&& step.0.state is Done
                    &&& step.0.md5 == Md5Model::Closed(md5_of(records_of(entries)))
                }
            }),
    {
        let done = entries.len() as int;
        assert(entries.take(done) =~= entries);
        if done == 0 {
            assert(records_of(entries) =~= Seq::<u8>::empty());
        }
    }

    /// One write into a sector: it fails as `record_error` says.
    proof fn lemma_sector_step(
        self,
        entries: Seq<EntryModel>,
        done: int,
        write_md5: bool,
        before: Seq<u8>,
    )
        requires
            self.wf(),
            0 <= done < entries.len(),
            done < SECTOR_RECORDS,
            done > 0 ==> self.record_error(entries, done - 1) is None,
        ensures
            self.writer_after(entries, done, write_md5).wf(),
            ({
                let step = self.writer_after(entries, done, write_md5).write(before, entries[done]);
                match self.record_error(entries, done) {
                    Some(error) => step.2 == Err::<(), PartitionError>(error),
                    None => step.2 is Ok && step.1 == entries[done].encode()->Ok_0 && step.0
                        == self.writer_after(entries, done + 1, write_md5),
                }
            }),
    {
        self.lemma_write_step(entries, done, write_md5, before);
    }

    /// The last write into a sector: it fails as `record_error` says.
    proof fn lemma_sector_md5_step(self, entries: Seq<EntryModel>, before: Seq<u8>)
        requires
            self.wf(),
            entries.len() < SECTOR_RECORDS,
            entries.len() > 0 ==> self.record_error(entries, entries.len() - 1) is None,
        ensures
            ({
                let done = entries.len() as int;
                let step = self.writer_after(entries, done, true).write_md5(before);
                match self.record_error(entries, done) {
                    Some(error) => step.2 == Err::<(), PartitionError>(error),
                    None => step.2 is Ok && step.1 == md5_record(md5_of(records_of(entries))),
                }
            }),
    {
        self.lemma_write_md5_step(entries, before);
    }

    /// The image of the sector that holds the table with the given
    /// partitions: their records, the MD5 record of those if `write_md5` is
    /// set, and zeros up to the end of the sector. The number that comes with
    /// the image says how many bytes the records take.
    ///
    /// The first record that cannot be written decides the error.
    pub fn sector_image(&self, partitions: &[PartitionEntry], write_md5: bool) -> (r: Result<
        ([u8; 4096], usize),
        PartitionError,
    >)
        requires
            self.wf(),
        ensures
            match r {
                Ok((image, written)) => {
                    let entries = models(partitions@);
                    let records = records_of(entries);
                    let count = entries.len() + if write_md5 {
                        1nat
                    } else {
                        0nat
                    };
                    &&& forall|i: int| 0 <= i < count ==> self.record_error(entries, i) is None
                    &&& written == 32 * count
                    &&& image@ == records + (if write_md5 {
                        md5_record(md5_of(records))
                    } else {
                        Seq::empty()
                    }) + zeros((SECTOR_SIZE - written) as nat)
                },
                Err(error) => {
                    let entries = models(partitions@);
                    let count = entries.len() + if write_md5 {
                        1nat
                    } else {
                        0nat
                    };
                    exists|i: int|
                        0 <= i < count && #[trigger] self.record_error(entries, i) == Some(error)
                            && forall|j: int|
                            0 <= j < i ==> self.record_error(entries, j) is None
                },
            },
    {
        let ghost entries = models(partitions@);
        let mut image = [0u8; 4096];
        let mut state = PartitionWriterState::new(self.addr, self.size, write_md5);
        let mut done: usize = 0;
        proof {
            assert(entries.take(0) =~= Seq::<EntryModel>::empty());
            assert(image@ =~= Seq::<u8>::empty() + zeros(SECTOR_SIZE as nat));
        }
        while done < partitions.len()
            invariant
                self.wf(),
                entries == models(partitions@),
                done <= partitions.len(),
                done <= SECTOR_RECORDS,
                forall|j: int| 0 <= j < done ==> self.record_error(entries, j) is None,
                state@ == self.writer_after(entries, done as int, write_md5),
                image@ == records_of(entries.take(done as int)) + zeros(
                    (SECTOR_SIZE - 32 * done) as nat,
                ),
                records_of(entries.take(done as int)).len() == 32 * done,
            decreases partitions.len() - done,
        {
            if done >= SECTOR_RECORDS {
                assert(self.record_error(entries, done as int) == Some(
                    PartitionError::NotEnoughData,
                ));
                return Err(PartitionError::NotEnoughData);
            }
            proof {
                if done > 0 {
                    assert(self.record_error(entries, done - 1) is None);
                }
                self.lemma_sector_step(entries, done as int, write_md5, zeros(32));
            }
            let mut record: PartitionBuffer = [0u8; 32];
            assert(record@ =~= zeros(32));
            match state.write(&mut record, &partitions[done]) {
                Ok(()) => {},
                Err(error) => {
                    return Err(error);
                },
            }
            let ghost before = image@;
            put_record(&mut image, done * RECORD_SIZE, &record);
            proof {
                let next = entries.take(done + 1);
                assert(next.drop_last() =~= entries.take(done as int));
                lemma_image_step(before, records_of(entries.take(done as int)), record@, image@);
            }
            done = done + 1;
        }
        assert(entries.take(done as int) =~= entries);
        let mut written = done * RECORD_SIZE;
        if write_md5 {
            if done >= SECTOR_RECORDS {
                assert(self.record_error(entries, done as int) == Some(
                    PartitionError::NotEnoughData,
                ));
                return Err(PartitionError::NotEnoughData);
            }
            proof {
                if done > 0 {
                    assert(self.record_error(entries, done - 1) is None);
                }
                self.lemma_sector_md5_step(entries, zeros(32));
            }
            let mut record: PartitionBuffer = [0u8; 32];
            assert(record@ =~= zeros(32));
            match state.write_md5(&mut record) {
                Ok(()) => {},
                Err(error) => {
                    return Err(error);
                },
            }
            let ghost before = image@;
            put_record(&mut image, written, &record);
            proof {
                lemma_image_step(before, records_of(entries), record@, image@);
            }
            written = written + RECORD_SIZE;
        } else {
            assert(records_of(entries) + Seq::<u8>::empty() =~= records_of(entries));
        }
        Ok((image, written))
    }
}

/// A run of `n` zero bytes.
pub open spec fn zeros(n: nat) -> Seq<u8> {
    Seq::new(n, |i: int| 0u8)
}

/// Putting a record behind the records of an image, where zeros were, gives
/// the image with one record more.
proof fn lemma_image_step(before: Seq<u8>, records: Seq<u8>, record: Seq<u8>, after: Seq<u8>)
    requires
        records.len() + 32 <= SECTOR_SIZE,
        record.len() == 32,
        before == records + zeros((SECTOR_SIZE - records.len()) as nat),
        after == before.subrange(0, records.len() as int) + record + before.subrange(
            records.len() as int + 32,
            SECTOR_SIZE as int,
        ),
    ensures
        after == records + record + zeros((SECTOR_SIZE - records.len() - 32) as nat),
        (records + record).len() == records.len() + 32,
{
    assert(after =~= records + record + zeros((SECTOR_SIZE - records.len() - 32) as nat));
}

/// Copies a record into a sector image, from `at` on. The bytes outside the
/// record stay as they were.
fn put_record(image: &mut [u8; 4096], at: usize, record: &PartitionBuffer)
    requires
        at + 32 <= 4096,
    ensures
        final(image)@ == old(image)@.subrange(0, at as int) + record@ + old(image)@.subrange(
            at + 32,
            4096,
        ),
{
    let mut i: usize = 0;
    while i < RECORD_SIZE
        invariant
            i <= RECORD_SIZE,
            at + 32 <= 4096,
            forall|j: int| 0 <= j < at ==> image[j] == old(image)[j],
            forall|j: int| 0 <= j < i ==> image[at + j] == record[j],
            forall|j: int| at + i <= j < 4096 ==> image[j] == old(image)[j],
        decreases RECORD_SIZE - i,
    {
        image[at + i] = record[i];
        i = i + 1;
    }
    assert(image@ =~= old(image)@.subrange(0, at as int) + record@ + old(image)@.subrange(
        at + 32,
        4096,
    ));
}

} // verus!
