use esp_partition_table::{
    AppPartitionType, DataPartitionType, PartitionBuffer, PartitionEntry, PartitionError,
    PartitionReaderState, PartitionTable, PartitionType, PartitionWriterState,
};

/// The records of a table with five partitions and its MD5 record.
const PARTITIONS: [u8; 192] = [
    0xaa, 0x50, 0x01, 0x02, 0x00, 0x90, 0x00, 0x00, 0x00, 0x60, 0x00, 0x00, 0x6e, 0x76, 0x73, 0x00,
    0x00, 0x00, 0x00, 0x00, 0x00, 0x00, 0x00, 0x00, 0x00, 0x00, 0x00, 0x00, 0x00, 0x00, 0x00, 0x00,
    0xaa, 0x50, 0x01, 0x01, 0x00, 0xf0, 0x00, 0x00, 0x00, 0x10, 0x00, 0x00, 0x70, 0x68, 0x79, 0x5f,
    0x69, 0x6e, 0x69, 0x74, 0x00, 0x00, 0x00, 0x00, 0x00, 0x00, 0x00, 0x00, 0x00, 0x00, 0x00, 0x00,
    0xaa, 0x50, 0x00, 0x00, 0x00, 0x00, 0x01, 0x00, 0x00, 0x00, 0x30, 0x00, 0x66, 0x61, 0x63, 0x74,
    0x6f, 0x72, 0x79, 0x00, 0x00, 0x00, 0x00, 0x00, 0x00, 0x00, 0x00, 0x00, 0x00, 0x00, 0x00, 0x00,
    0xaa, 0x50, 0x01, 0x03, 0x00, 0x00, 0x31, 0x00, 0x00, 0x00, 0x01, 0x00, 0x63, 0x6f, 0x72, 0x65,
    0x64, 0x75, 0x6d, 0x70, 0x00, 0x00, 0x00, 0x00, 0x00, 0x00, 0x00, 0x00, 0x00, 0x00, 0x00, 0x00,
    0xaa, 0x50, 0x01, 0x02, 0x00, 0x00, 0x32, 0x00, 0x00, 0x00, 0x01, 0x00, 0x6e, 0x76, 0x73, 0x5f,
    0x65, 0x78, 0x74, 0x00, 0x00, 0x00, 0x00, 0x00, 0x00, 0x00, 0x00, 0x00, 0x00, 0x00, 0x00, 0x00,
    0xeb, 0xeb, 0xff, 0xff, 0xff, 0xff, 0xff, 0xff, 0xff, 0xff, 0xff, 0xff, 0xff, 0xff, 0xff, 0xff,
    0x52, 0xe6, 0x05, 0x97, 0x4c, 0x58, 0xd7, 0xbc, 0xde, 0x5e, 0x10, 0x27, 0x43, 0x3c, 0x78, 0x64,
];

/// The records of a table with two OTA slots and its MD5 record.
const PARTITIONS_OTA: [u8; 288] = [
    0xaa, 0x50, 0x01, 0x02, 0x00, 0x90, 0x00, 0x00, 0x00, 0x40, 0x00, 0x00, 0x6e, 0x76, 0x73, 0x00,
    0x00, 0x00, 0x00, 0x00, 0x00, 0x00, 0x00, 0x00, 0x00, 0x00, 0x00, 0x00, 0x00, 0x00, 0x00, 0x00,
    0xaa, 0x50, 0x01, 0x00, 0x00, 0xd0, 0x00, 0x00, 0x00, 0x20, 0x00, 0x00, 0x6f, 0x74, 0x61, 0x64,
    0x61, 0x74, 0x61, 0x00, 0x00, 0x00, 0x00, 0x00, 0x00, 0x00, 0x00, 0x00, 0x00, 0x00, 0x00, 0x00,
    0xaa, 0x50, 0x01, 0x01, 0x00, 0xf0, 0x00, 0x00, 0x00, 0x10, 0x00, 0x00, 0x70, 0x68, 0x79, 0x5f,
    0x69, 0x6e, 0x69, 0x74, 0x00, 0x00, 0x00, 0x00, 0x00, 0x00, 0x00, 0x00, 0x00, 0x00, 0x00, 0x00,
    0xaa, 0x50, 0x00, 0x00, 0x00, 0x00, 0x01, 0x00, 0x00, 0x00, 0x10, 0x00, 0x66, 0x61, 0x63, 0x74,
    0x6f, 0x72, 0x79, 0x00, 0x00, 0x00, 0x00, 0x00, 0x00, 0x00, 0x00, 0x00, 0x00, 0x00, 0x00, 0x00,
    0xaa, 0x50, 0x00, 0x10, 0x00, 0x00, 0x11, 0x00, 0x00, 0x00, 0x10, 0x00, 0x6f, 0x74, 0x61, 0x5f,
    0x30, 0x00, 0x00, 0x00, 0x00, 0x00, 0x00, 0x00, 0x00, 0x00, 0x00, 0x00, 0x00, 0x00, 0x00, 0x00,
    0xaa, 0x50, 0x00, 0x11, 0x00, 0x00, 0x21, 0x00, 0x00, 0x00, 0x10, 0x00, 0x6f, 0x74, 0x61, 0x5f,
    0x31, 0x00, 0x00, 0x00, 0x00, 0x00, 0x00, 0x00, 0x00, 0x00, 0x00, 0x00, 0x00, 0x00, 0x00, 0x00,
    0xaa, 0x50, 0x01, 0x03, 0x00, 0x00, 0x31, 0x00, 0x00, 0x00, 0x01, 0x00, 0x63, 0x6f, 0x72, 0x65,
    0x64, 0x75, 0x6d, 0x70, 0x00, 0x00, 0x00, 0x00, 0x00, 0x00, 0x00, 0x00, 0x00, 0x00, 0x00, 0x00,
    0xaa, 0x50, 0x01, 0x02, 0x00, 0x00, 0x32, 0x00, 0x00, 0x00, 0x01, 0x00, 0x6e, 0x76, 0x73, 0x5f,
    0x65, 0x78, 0x74, 0x00, 0x00, 0x00, 0x00, 0x00, 0x00, 0x00, 0x00, 0x00, 0x00, 0x00, 0x00, 0x00,
    0xeb, 0xeb, 0xff, 0xff, 0xff, 0xff, 0xff, 0xff, 0xff, 0xff, 0xff, 0xff, 0xff, 0xff, 0xff, 0xff,
    0x5d, 0xcb, 0xcb, 0xf3, 0xc8, 0x06, 0xe8, 0x82, 0x1b, 0x47, 0xf8, 0xcf, 0xb6, 0xff, 0x37, 0x69,
];

/// A table of 0xC00 bytes that begins with the given records and is erased
/// behind them.
fn image(records: &[u8]) -> Vec<u8> {
    let mut table = vec![0xffu8; 0xC00];
    table[..records.len()].copy_from_slice(records);
    table
}

fn record(data: &[u8], index: usize) -> PartitionBuffer {
    let mut buffer = [0u8; 32];
    buffer.copy_from_slice(&data[index * 32..index * 32 + 32]);
    buffer
}

#[test]
fn read_partitions() {
    let table = image(&PARTITIONS);
    let data = &table[..];
    let mut reader = PartitionReaderState::new(0, data.len(), true);

    let part = reader.read(&record(data, 0)).unwrap();
    assert_eq!(part.type_, PartitionType::Data(DataPartitionType::Nvs));
    assert_eq!(part.offset, 36 << 10);
    assert_eq!(part.size, 24 << 10);
    assert_eq!(part.name(), "nvs");
    assert!(!part.encrypted);

    let part = reader.read(&record(data, 1)).unwrap();
    assert_eq!(part.type_, PartitionType::Data(DataPartitionType::Phy));
    assert_eq!(part.offset, 60 << 10);
    assert_eq!(part.size, 4 << 10);
    assert_eq!(part.name(), "phy_init");
    assert!(!part.encrypted);

    let part = reader.read(&record(data, 2)).unwrap();
    assert_eq!(part.type_, PartitionType::App(AppPartitionType::Factory));
    assert_eq!(part.offset, 64 << 10);
    assert_eq!(part.size, 3 << 20);
    assert_eq!(part.name(), "factory");
    assert!(!part.encrypted);

    let part = reader.read(&record(data, 3)).unwrap();
    assert_eq!(part.type_, PartitionType::Data(DataPartitionType::CoreDump));
    assert_eq!(part.offset, (64 << 10) + (3 << 20));
    assert_eq!(part.size, 64 << 10);
    assert_eq!(part.name(), "coredump");
    assert!(!part.encrypted);

    let part = reader.read(&record(data, 4)).unwrap();
    assert_eq!(part.type_, PartitionType::Data(DataPartitionType::Nvs));
    assert_eq!(part.offset, (128 << 10) + (3 << 20));
    assert_eq!(part.size, 64 << 10);
    assert_eq!(part.name(), "nvs_ext");
    assert!(!part.encrypted);

    assert!(matches!(
        reader.read(&record(data, 5)).unwrap_err(),
        PartitionError::NotEnoughData
    ));
    if let Some(md5) = reader.check_md5() {
        assert!(md5);
    }

    assert!(matches!(
        reader.read(&record(data, 6)).unwrap_err(),
        PartitionError::NotEnoughData
    ));
}

#[test]
fn read_partitions_ota() {
    let table = image(&PARTITIONS_OTA);
    let data = &table[..];
    let mut reader = PartitionReaderState::new(0, data.len(), true);

    let part = reader.read(&record(data, 0)).unwrap();
    assert_eq!(part.type_, PartitionType::Data(DataPartitionType::Nvs));
    assert_eq!(part.offset, 36 << 10);
    assert_eq!(part.size, 16 << 10);
    assert_eq!(part.name(), "nvs");
    assert!(!part.encrypted);

    let part = reader.read(&record(data, 1)).unwrap();
    assert_eq!(part.type_, PartitionType::Data(DataPartitionType::Ota));
    assert_eq!(part.offset, 52 << 10);
    assert_eq!(part.size, 8 << 10);
    assert_eq!(part.name(), "otadata");
    assert!(!part.encrypted);

    let part = reader.read(&record(data, 2)).unwrap();
    assert_eq!(part.type_, PartitionType::Data(DataPartitionType::Phy));
    assert_eq!(part.offset, 60 << 10);
    assert_eq!(part.size, 4 << 10);
    assert_eq!(part.name(), "phy_init");
    assert!(!part.encrypted);

    let part = reader.read(&record(data, 3)).unwrap();
    assert_eq!(part.type_, PartitionType::App(AppPartitionType::Factory));
    assert_eq!(part.offset, 64 << 10);
    assert_eq!(part.size, 1 << 20);
    assert_eq!(part.name(), "factory");
    assert!(!part.encrypted);

    let part = reader.read(&record(data, 4)).unwrap();
    assert_eq!(part.type_, PartitionType::App(AppPartitionType::Ota(0)));
    assert_eq!(part.offset, (64 << 10) + (1 << 20));
    assert_eq!(part.size, 1 << 20);
    assert_eq!(part.name(), "ota_0");
    assert!(!part.encrypted);

    let part = reader.read(&record(data, 5)).unwrap();
    assert_eq!(part.type_, PartitionType::App(AppPartitionType::Ota(1)));
    assert_eq!(part.offset, (64 << 10) + (2 << 20));
    assert_eq!(part.size, 1 << 20);
    assert_eq!(part.name(), "ota_1");
    assert!(!part.encrypted);

    let part = reader.read(&record(data, 6)).unwrap();
    assert_eq!(part.type_, PartitionType::Data(DataPartitionType::CoreDump));
    assert_eq!(part.offset, (64 << 10) + (3 << 20));
    assert_eq!(part.size, 64 << 10);
    assert_eq!(part.name(), "coredump");
    assert!(!part.encrypted);

    let part = reader.read(&record(data, 7)).unwrap();
    assert_eq!(part.type_, PartitionType::Data(DataPartitionType::Nvs));
    assert_eq!(part.offset, (128 << 10) + (3 << 20));
    assert_eq!(part.size, 64 << 10);
    assert_eq!(part.name(), "nvs_ext");
    assert!(!part.encrypted);

    assert!(matches!(
        reader.read(&record(data, 8)).unwrap_err(),
        PartitionError::NotEnoughData
    ));
    if let Some(md5) = reader.check_md5() {
        assert!(md5);
    }

    assert!(matches!(
        reader.read(&record(data, 9)).unwrap_err(),
        PartitionError::NotEnoughData
    ));
}

/// Reads a table record by record and writes what it reads into a second
/// table. Returns the second table and the number of bytes that were read.
fn copy_table(src_table: &[u8]) -> (Vec<u8>, usize) {
    let mut dst_table = vec![0u8; PartitionTable::MAX_SIZE];
    let mut reader = PartitionReaderState::new(0, src_table.len(), true);
    let mut writer = PartitionWriterState::new(0, dst_table.len(), true);
    let mut index = 0;

    loop {
        let src_part = record(src_table, index);
        let part = match reader.read(&src_part) {
            Ok(part) => Some(part),
            Err(PartitionError::NotEnoughData) => None,
            Err(error) => panic!("{error:?}"),
        };
        let mut dst_part = [0u8; 32];
        let last = part.is_none();
        if let Some(part) = part {
            writer.write(&mut dst_part, &part).unwrap();
        } else {
            writer.write_md5(&mut dst_part).unwrap();
        }
        dst_table[index * 32..index * 32 + 32].copy_from_slice(&dst_part);
        index += 1;
        if last {
            break;
        }
    }

    (dst_table, index * 32)
}

#[test]
fn write_partitions() {
    let src_table = image(&PARTITIONS);
    let (dst_table, len) = copy_table(&src_table);
    assert_eq!(len, 192);
    assert_eq!(&dst_table[..len], &src_table[..len]);
}

#[test]
fn write_partitions_ota() {
    let src_table = image(&PARTITIONS_OTA);
    let (dst_table, len) = copy_table(&src_table);
    assert_eq!(len, 288);
    assert_eq!(&dst_table[..len], &src_table[..len]);
}
