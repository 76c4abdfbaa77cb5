//! What holds of the codec, of the reader and of the writer, for every
//! input. Each statement is proved from the definitions that the functions
//! of the library are specified with.

use crate::digest::md5_of;
use crate::entry::{
    md5_of_record, md5_record, EntryModel, ENTRY_MAGIC_0, ENTRY_MAGIC_1, ERASED, MD5_MAGIC,
};
use crate::error::PartitionError;
use crate::name::{
    lemma_trim_padded, lemma_trim_padded_any, lemma_trim_valid_utf8, no_nul, padded, trim,
    MAX_NAME_LEN,
};
use crate::sector::{lemma_records_len, records_of, zeros};
use crate::table::{InternalState, Md5Model, PartitionTable, ReaderModel, WriterModel};
use crate::types::{AppPartitionType, DataPartitionType, PartitionType};
use crate::wire::{le_bytes, le_value, lemma_le_value_of_bytes};
use vstd::prelude::*;
use vstd::utf8::valid_utf8;

verus! {

/// A data subtype comes back from its byte.
pub proof fn lemma_data_subtype_round_trip(subtype: DataPartitionType)
    ensures
        DataPartitionType::decode(subtype.code()) == Ok::<DataPartitionType, PartitionError>(
            subtype,
        ),
{
}

/// An OTA slot has a byte, and comes back from it, if and only if its number
/// is at most 15. Any other number is refused as `InvalidOtaNumber`.
pub proof fn lemma_ota_round_trip(number: u8)
    ensures
        number <= 15 <==> AppPartitionType::Ota(number).encode() is Ok,
        number <= 15 ==> AppPartitionType::decode(AppPartitionType::Ota(number).encode()->Ok_0)
            == Ok::<AppPartitionType, PartitionError>(AppPartitionType::Ota(number)),
        number > 15 ==> AppPartitionType::Ota(number).encode() == Err::<u8, PartitionError>(
            PartitionError::InvalidOtaNumber(number),
        ),
{
}

/// A type that has bytes comes back from them.
pub proof fn lemma_type_round_trip(ty: PartitionType)
    requires
        ty.encode() is Ok,
    ensures
        PartitionType::decode(ty.encode()->Ok_0.0, ty.encode()->Ok_0.1) == Ok::<
            PartitionType,
            PartitionError,
        >(ty),
{
}

/// A type byte that is neither 0x00, 0x01 or 0xff nor in 0x40..=0xfe is
/// refused as `InvalidType`, whatever the subtype byte is.
pub proof fn lemma_unknown_type(raw_type: u8, raw_subtype: u8)
    requires
        !(raw_type == 0x00 || raw_type == 0x01 || raw_type == 0xff || 0x40 <= raw_type <= 0xfe),
    ensures
        PartitionType::decode(raw_type, raw_subtype) == Err::<PartitionType, PartitionError>(
            PartitionError::InvalidType(raw_type),
        ),
{
}

/// The offset of an entry that has a record is a multiple of 0x10000 for an
/// application and of 0x1000 for anything else. Any other offset is refused
/// as `InvalidAlignment`.
pub proof fn lemma_alignment(entry: EntryModel)
    ensures
        entry.encode() is Ok ==> entry.offset % (if entry.type_ is App {
            0x10000u32
        } else {
            0x1000u32
        }) == 0,
        entry.offset % (if entry.type_ is App {
            0x10000u32
        } else {
            0x1000u32
        }) != 0 ==> entry.encode() == Err::<Seq<u8>, PartitionError>(
            PartitionError::InvalidAlignment,
        ),
{
}

/// A name of more than 16 bytes is refused as `InvalidString`, where the
/// offset and the type are in order.
pub proof fn lemma_name_too_long(entry: EntryModel)
    requires
        entry.type_.aligned(entry.offset),
        entry.type_.encode() is Ok,
        entry.name.len() > MAX_NAME_LEN,
    ensures
        entry.encode() == Err::<Seq<u8>, PartitionError>(PartitionError::InvalidString),
{
}

/// A name of at most 16 bytes without NUL comes back from its field.
pub proof fn lemma_name_round_trip(name: Seq<u8>)
    requires
        name.len() <= MAX_NAME_LEN,
        no_nul(name),
    ensures
        trim(padded(name)) == name,
{
    lemma_trim_padded(name);
}

/// The fields of the record of an entry.
pub proof fn lemma_record_fields(entry: EntryModel)
    requires
        entry.encode() is Ok,
    ensures
        ({
            let record = entry.encode()->Ok_0;
            let raw = entry.type_.encode()->Ok_0;
            &&& record.len() == 32
            &&& record[0] == ENTRY_MAGIC_0
            &&& record[1] == ENTRY_MAGIC_1
            &&& record[2] == raw.0
            &&& record[3] == raw.1
            &&& record.subrange(4, 8) == le_bytes(entry.offset)
            &&& record.subrange(8, 12) == le_bytes(entry.size_field())
            &&& record.subrange(12, 28) == padded(entry.name)
            &&& record.subrange(28, 32) == le_bytes(entry.flags())
        }),
{
    let record = entry.encode()->Ok_0;
    assert(record.subrange(4, 8) =~= le_bytes(entry.offset));
    assert(record.subrange(8, 12) =~= le_bytes(entry.size_field()));
    assert(record.subrange(12, 28) =~= padded(entry.name));
    assert(record.subrange(28, 32) =~= le_bytes(entry.flags()));
}

/// The record of an entry holds an entry: the same one, but for the name,
/// which ends at its first NUL, and for the size, of which the record holds
/// the low 32 bits.
pub proof fn lemma_decode_encoded(entry: EntryModel)
    requires
        entry.wf(),
        entry.encode() is Ok,
    ensures
        EntryModel::decode(entry.encode()->Ok_0) == Ok::<EntryModel, PartitionError>(
            EntryModel {
                name: trim(entry.name),
                size: entry.size_field() as usize,
                ..entry
            },
        ),
{
    let record = entry.encode()->Ok_0;
    lemma_record_fields(entry);
    lemma_type_round_trip(entry.type_);
    lemma_trim_padded_any(entry.name);
    lemma_trim_valid_utf8(entry.name);
    lemma_le_value_of_bytes(entry.offset);
    lemma_le_value_of_bytes(entry.size_field());
    lemma_le_value_of_bytes(entry.flags());
    assert(1u32 & 1 == 1 && 0u32 & 1 == 0) by (bit_vector);
}

/// An entry comes back from its record, where its name holds no NUL and its
/// size fits into 32 bits.
pub proof fn lemma_entry_round_trip(entry: EntryModel)
    requires
        entry.wf(),
        entry.encode() is Ok,
        no_nul(entry.name),
        entry.size <= u32::MAX,
    ensures
        EntryModel::decode(entry.encode()->Ok_0) == Ok::<EntryModel, PartitionError>(entry),
{
    lemma_decode_encoded(entry);
    lemma_trim_padded(entry.name);
    lemma_trim_padded_any(entry.name);
    assert(trim(entry.name) == entry.name);
    assert(entry.size_field() as usize == entry.size);
}

/// A digest of 16 bytes comes back from its MD5 record.
pub proof fn lemma_md5_round_trip(digest: Seq<u8>)
    requires
        digest.len() == 16,
    ensures
        md5_record(digest).len() == 32,
        md5_of_record(md5_record(digest)) == Ok::<Seq<u8>, PartitionError>(digest),
{
    assert(md5_record(digest).subrange(16, 32) =~= digest);
}

/// A reader that is done stays done and answers `NotEnoughData`. A reader
/// is done after every answer but an entry, and only then.
pub proof fn lemma_reader_done_is_final(reader: ReaderModel, record: Seq<u8>)
    ensures
        reader.done ==> reader.read(record).0.done && reader.read(record).1 == Err::<
            EntryModel,
            PartitionError,
        >(PartitionError::NotEnoughData),
        reader.read(record).1 is Err <==> reader.read(record).0.done,
{
}

/// Erased flash ends the reading: the reader answers `NotEnoughData` to the
/// record and to whatever it is handed later.
pub proof fn lemma_erased_ends_reading(reader: ReaderModel, record: Seq<u8>, later: Seq<u8>)
    requires
        record[0] == ERASED,
        record[1] == ERASED,
    ensures
        reader.read(record).1 == Err::<EntryModel, PartitionError>(PartitionError::NotEnoughData),
        reader.read(record).0.done,
        reader.read(record).0.read(later).1 == Err::<EntryModel, PartitionError>(
            PartitionError::NotEnoughData,
        ),
{
}

/// A record with an unknown magic ends the reading of a reader that is
/// inside its table: it answers `InvalidMagic` to the record and fails on
/// whatever it is handed later.
pub proof fn lemma_unknown_magic_ends_reading(
    reader: ReaderModel,
    record: Seq<u8>,
    later: Seq<u8>,
)
    requires
        !reader.done,
        reader.offset < reader.end,
        !(record[0] == ENTRY_MAGIC_0 && record[1] == ENTRY_MAGIC_1),
        !(record[0] == MD5_MAGIC && record[1] == MD5_MAGIC),
        !(record[0] == ERASED && record[1] == ERASED),
    ensures
        reader.read(record).1 == Err::<EntryModel, PartitionError>(PartitionError::InvalidMagic),
        reader.read(record).0.done,
        reader.read(record).0.read(later).1 is Err,
{
}

/// A writer that is done stays done and refuses every write with
/// `TooManyData`, leaving the buffer as it was.
pub proof fn lemma_writer_done_is_final(writer: WriterModel, before: Seq<u8>, entry: EntryModel)
    requires
        writer.state is Done,
    ensures
        writer.write(before, entry) == (
            writer,
            before,
            Err::<(), PartitionError>(PartitionError::TooManyData),
        ),
        writer.write_md5(before) == (
            writer,
            before,
            Err::<(), PartitionError>(PartitionError::TooManyData),
        ),
{
}

/// The record at position `index` of an image.
pub open spec fn record_at(image: Seq<u8>, index: int) -> Seq<u8> {
    image.subrange(32 * index, 32 * index + 32)
}

/// The writer after it was asked to write each of `entries` in turn, and
/// what it has left in the buffers, one after another.
pub open spec fn written_image(writer: WriterModel, entries: Seq<EntryModel>) -> (
    WriterModel,
    Seq<u8>,
)
    decreases entries.len(),
{
    if entries.len() == 0 {
        (writer, Seq::empty())
    } else {
        let front = written_image(writer, entries.drop_last());
        let step = front.0.write(zeros(32), entries.last());
        (step.0, front.1 + step.1)
    }
}

/// The reader after it was handed the first `count` records of an image in
/// turn.
pub open spec fn read_records(reader: ReaderModel, image: Seq<u8>, count: nat) -> ReaderModel
    decreases count,
{
    if count == 0 {
        reader
    } else {
        read_records(reader, image, (count - 1) as nat).read(record_at(image, count - 1)).0
    }
}

/// The reader of a table after it has read the first `done` of `entries`
/// from their records, computing the checksum.
pub open spec fn reader_after(table: PartitionTable, entries: Seq<EntryModel>, done: int)
    -> ReaderModel {
    ReaderModel {
        offset: (table.addr + 32 * done) as u32,
        end: (table.addr + table.size) as u32,
        calc_md5: true,
        md5: Md5Model::Open(records_of(entries.take(done))),
        stored_md5: None,
        done: false,
    }
}

/// Whether each of `entries` has a name that an entry can hold, and a
/// record.
pub open spec fn all_encodable(entries: Seq<EntryModel>) -> bool {
    forall|i: int|
        0 <= i < entries.len() ==> (#[trigger] entries[i]).wf() && entries[i].encode() is Ok
}

/// The records of entries stand in their image one after another.
pub proof fn lemma_record_at(entries: Seq<EntryModel>, tail: Seq<u8>, index: int)
    requires
        all_encodable(entries),
        0 <= index < entries.len(),
    ensures
        record_at(records_of(entries) + tail, index) == entries[index].encode()->Ok_0,
        records_of(entries.take(index)) + entries[index].encode()->Ok_0 == records_of(
            entries.take(index + 1),
        ),
    decreases entries.len(),
{
    let front = entries.drop_last();
    let last = entries.last().encode()->Ok_0;
    assert forall|i: int| 0 <= i < front.len() implies (#[trigger] front[i]).encode() is Ok by {
        assert(front[i] == entries[i]);
    }
    lemma_records_len(front);
    lemma_record_fields(entries.last());
    let next = entries.take(index + 1);
    assert(next.drop_last() =~= entries.take(index));
    assert(next.last() == entries[index]);
    if index == entries.len() - 1 {
        assert(record_at(records_of(entries) + tail, index) =~= last);
    } else {
        assert forall|i: int| 0 <= i < front.len() implies (#[trigger] front[i]).wf()
            && front[i].encode() is Ok by {
            assert(front[i] == entries[i]);
        }
        lemma_record_at(front, last + tail, index);
        assert(records_of(entries) + tail =~= records_of(front) + (last + tail));
        assert(front[index] == entries[index]);
    }
}

/// A writer with room for them writes the records of entries that all have
/// one.
pub proof fn lemma_written_image(table: PartitionTable, entries: Seq<EntryModel>, done: int)
    requires
        table.wf(),
        all_encodable(entries),
        0 <= done <= entries.len(),
        done > 0 ==> table.has_room(done - 1),
    ensures
        written_image(WriterModel::new(table.addr, table.size, true), entries.take(done)) == (
            table.writer_after(entries, done, true),
            records_of(entries.take(done)),
        ),
    decreases done,
{
    let start = WriterModel::new(table.addr, table.size, true);
    if done == 0 {
        assert(entries.take(0) =~= Seq::<EntryModel>::empty());
        assert(records_of(entries.take(0)) =~= Seq::<u8>::empty());
    } else {
        lemma_written_image(table, entries, done - 1);
        table.lemma_write_step(entries, done - 1, true, zeros(32));
        let now = entries.take(done);
        assert(now.drop_last() =~= entries.take(done - 1));
        assert(now.last() == entries[done - 1]);
    }
}

/// A reader with room for them reads entries back from their records.
pub proof fn lemma_read_records(
    table: PartitionTable,
    entries: Seq<EntryModel>,
    tail: Seq<u8>,
    done: int,
)
    requires
        table.wf(),
        all_encodable(entries),
        0 <= done <= entries.len(),
        32 * done <= table.size,
    ensures
        read_records(
            ReaderModel::new(table.addr, table.size, true),
            records_of(entries) + tail,
            done as nat,
        ) == reader_after(table, entries, done),
    decreases done,
{
    if done == 0 {
        assert(entries.take(0) =~= Seq::<EntryModel>::empty());
        assert(records_of(entries.take(0)) =~= Seq::<u8>::empty());
    } else {
        lemma_read_records(table, entries, tail, done - 1);
        lemma_record_at(entries, tail, done - 1);
        let entry = entries[done - 1];
        lemma_record_fields(entry);
        lemma_decode_encoded(entry);
    }
}

/// A table that was written with its checksum checks when it is read back:
/// a writer that computes the checksum writes entries and then the MD5
/// record, a reader that computes the checksum reads the same bytes, and the
/// digest that it reads is the digest that it computes. The entries have to
/// leave room in the table for the MD5 record.
pub proof fn lemma_written_table_checks(
    table: PartitionTable,
    entries: Seq<EntryModel>,
    before: Seq<u8>,
)
    requires
        table.wf(),
        all_encodable(entries),
        32 * entries.len() < table.size,
    ensures
        ({
            let written = written_image(
                WriterModel::new(table.addr, table.size, true),
                entries,
            );
            let last = written.0.write_md5(before);
            let reader = read_records(
                ReaderModel::new(table.addr, table.size, true),
                written.1 + last.1,
                entries.len() + 1,
            );
            &&& last.2 is Ok
            &&& last.0.state is Done
            &&& reader.done
            &&& reader.check_md5() == Some(true)
        }),
{
    let count = entries.len() as int;
    assert(entries.take(count) =~= entries);
    lemma_written_image(table, entries, count);
    table.lemma_write_md5_step(entries, before);
    let digest = md5_of(records_of(entries));
    let record = md5_record(digest);
    lemma_md5_round_trip(digest);
    lemma_read_records(table, entries, record, count);
    assert forall|i: int| 0 <= i < entries.len() implies (#[trigger] entries[i]).encode() is Ok by {
    }
    lemma_records_len(entries);
    assert(record_at(records_of(entries) + record, count) =~= record);
}

} // verus!
