use esp_partition_table::name::{name_from, name_into, name_trim};
use esp_partition_table::{
    AppPartitionType, DataPartitionType, PartitionEntry, PartitionError, PartitionMd5,
    PartitionType,
};

const NVS_RECORD: [u8; 32] = [
    0xaa, 0x50, 0x01, 0x02, 0x00, 0x90, 0x00, 0x00, 0x00, 0x60, 0x00, 0x00, 0x6e, 0x76, 0x73, 0x00,
    0x00, 0x00, 0x00, 0x00, 0x00, 0x00, 0x00, 0x00, 0x00, 0x00, 0x00, 0x00, 0x00, 0x00, 0x00, 0x00,
];

fn nvs() -> PartitionEntry {
    PartitionEntry::new(PartitionType::Data(DataPartitionType::Nvs), 36864, 24576, "nvs", false)
        .unwrap()
}

#[test]
fn single_entry_round_trip() {
    let entry = nvs();
    let mut buffer = [0x55u8; 32];
    entry.to_bytes(&mut buffer).unwrap();
    assert_eq!(buffer, NVS_RECORD);
    let back = PartitionEntry::from_bytes(&buffer).unwrap();
    assert_eq!(back, entry);
    assert_eq!(back.name(), "nvs");
}

#[test]
fn encrypted_flag_is_bit_zero() {
    let mut entry = nvs();
    entry.encrypted = true;
    let mut buffer = [0u8; 32];
    entry.to_bytes(&mut buffer).unwrap();
    assert_eq!(&buffer[28..], &[1, 0, 0, 0]);
    buffer[28] = 0xff;
    buffer[31] = 0x80;
    assert!(PartitionEntry::from_bytes(&buffer).unwrap().encrypted);
    buffer[28] = 0xfe;
    assert!(!PartitionEntry::from_bytes(&buffer).unwrap().encrypted);
}

#[test]
fn every_type_byte_is_classified() {
    for raw in 0..=255u8 {
        let decoded = PartitionType::from_bytes(&[raw, 0]);
        match raw {
            0x00 => assert_eq!(decoded, Ok(PartitionType::App(AppPartitionType::Factory))),
            0x01 => assert_eq!(decoded, Ok(PartitionType::Data(DataPartitionType::Ota))),
            0x40..=0xfe => assert_eq!(decoded, Ok(PartitionType::User(raw, 0))),
            0xff => assert_eq!(decoded, Ok(PartitionType::Any)),
            _ => assert_eq!(decoded, Err(PartitionError::InvalidType(raw))),
        }
    }
}

#[test]
fn type_bytes_round_trip() {
    for raw_type in [0x00u8, 0x01, 0x40, 0x7f, 0xfe] {
        for raw_subtype in 0..=255u8 {
            if let Ok(ty) = PartitionType::from_bytes(&[raw_type, raw_subtype]) {
                let mut bytes = [0u8; 2];
                ty.to_bytes(&mut bytes).unwrap();
                assert_eq!(bytes, [raw_type, raw_subtype]);
            }
        }
    }
    let mut bytes = [7u8; 2];
    PartitionType::Any.to_bytes(&mut bytes).unwrap();
    assert_eq!(bytes, [0xff, 0x00]);
    assert_eq!(PartitionType::from_bytes(&[0xff, 0x33]), Ok(PartitionType::Any));
}

#[test]
fn app_subtypes() {
    assert_eq!(AppPartitionType::try_from(0x00), Ok(AppPartitionType::Factory));
    assert_eq!(AppPartitionType::try_from(0x10), Ok(AppPartitionType::Ota(0)));
    assert_eq!(AppPartitionType::try_from(0x1f), Ok(AppPartitionType::Ota(15)));
    assert_eq!(AppPartitionType::try_from(0x20), Ok(AppPartitionType::Test));
    assert_eq!(AppPartitionType::try_from(0x21), Err(PartitionError::InvalidSubType(0x21)));
    assert_eq!(AppPartitionType::try_from(0x0f), Err(PartitionError::InvalidSubType(0x0f)));
    assert_eq!(PartitionType::from_bytes(&[0, 1]), Err(PartitionError::InvalidSubType(1)));
}

#[test]
fn data_subtypes() {
    let all = [
        (0x00u8, DataPartitionType::Ota),
        (0x01, DataPartitionType::Phy),
        (0x02, DataPartitionType::Nvs),
        (0x03, DataPartitionType::CoreDump),
        (0x04, DataPartitionType::NvsKeys),
        (0x05, DataPartitionType::EfuseEm),
        (0x06, DataPartitionType::Undefined),
        (0x80, DataPartitionType::EspHttpd),
        (0x81, DataPartitionType::Fat),
        (0x82, DataPartitionType::SpiFfs),
        (0x83, DataPartitionType::LittleFS),
    ];
    for raw in 0..=255u8 {
        match all.iter().find(|(code, _)| *code == raw) {
            Some((_, ty)) => {
                assert_eq!(DataPartitionType::try_from(raw), Ok(*ty));
                assert_eq!(u8::from(*ty), raw);
            }
            None => assert_eq!(
                DataPartitionType::try_from(raw),
                Err(PartitionError::InvalidSubType(raw))
            ),
        }
    }
}

#[test]
fn ota_slots() {
    for number in 0..=15u8 {
        let ty = PartitionType::App(AppPartitionType::Ota(number));
        let mut bytes = [0u8; 2];
        ty.to_bytes(&mut bytes).unwrap();
        assert_eq!(bytes, [0x00, 0x10 + number]);
        assert_eq!(PartitionType::from_bytes(&bytes), Ok(ty));
    }
    let mut bytes = [9u8; 2];
    assert_eq!(
        PartitionType::App(AppPartitionType::Ota(16)).to_bytes(&mut bytes),
        Err(PartitionError::InvalidOtaNumber(16))
    );
    assert_eq!(bytes, [9, 9]);
    assert_eq!(u8::try_from(AppPartitionType::Ota(255)), Err(PartitionError::InvalidOtaNumber(255)));
}

#[test]
fn user_type_out_of_range() {
    let mut bytes = [0u8; 2];
    assert_eq!(
        PartitionType::User(0x3f, 1).to_bytes(&mut bytes),
        Err(PartitionError::InvalidUserType(0x3f))
    );
    assert_eq!(
        PartitionType::User(0xff, 1).to_bytes(&mut bytes),
        Err(PartitionError::InvalidUserType(0xff))
    );
    assert_eq!(PartitionType::User(0x40, 9).to_bytes(&mut bytes), Ok(()));
    assert_eq!(bytes, [0x40, 9]);
}

#[test]
fn alignment() {
    let app = PartitionType::App(AppPartitionType::Factory);
    let data = PartitionType::Data(DataPartitionType::Nvs);
    assert_eq!(app.align(), 0x10000);
    assert_eq!(data.align(), 0x1000);
    assert_eq!(PartitionType::Any.align(), 0x1000);
    assert_eq!(PartitionType::User(0x40, 0).align(), 0x1000);
    assert_eq!(app.check_offset(0x20000), Ok(()));
    assert_eq!(app.check_offset(0x1000), Err(PartitionError::InvalidAlignment));
    assert_eq!(data.check_offset(0x1000), Ok(()));
    assert_eq!(data.check_offset(0x1001), Err(PartitionError::InvalidAlignment));
    assert_eq!(data.check_offset(0), Ok(()));
}

#[test]
fn misaligned_entry_writes_nothing() {
    let entry =
        PartitionEntry::new(PartitionType::App(AppPartitionType::Test), 0x1000, 1, "t", false)
            .unwrap();
    let mut buffer = [0x77u8; 32];
    assert_eq!(entry.to_bytes(&mut buffer), Err(PartitionError::InvalidAlignment));
    assert_eq!(buffer, [0x77u8; 32]);
}

#[test]
fn entry_without_type_bytes_leaves_the_magic() {
    let entry =
        PartitionEntry::new(PartitionType::App(AppPartitionType::Ota(16)), 0x10000, 1, "t", false)
            .unwrap();
    let mut buffer = [0x77u8; 32];
    assert_eq!(entry.to_bytes(&mut buffer), Err(PartitionError::InvalidOtaNumber(16)));
    assert_eq!(&buffer[..2], &[0xaa, 0x50]);
    assert_eq!(&buffer[2..], &[0x77u8; 30]);
}

#[test]
fn set_offset_checks_alignment() {
    let mut entry = nvs();
    assert_eq!(entry.set_offset(0x2000), Ok(()));
    assert_eq!(entry.offset, 0x2000);
    assert_eq!(entry.set_offset(0x2001), Err(PartitionError::InvalidAlignment));
    assert_eq!(entry.offset, 0x2000);
}

#[test]
fn names_up_to_sixteen_bytes() {
    let long = "0123456789abcdefg";
    for len in 0..=16 {
        let name = &long[..len];
        let entry = PartitionEntry::new(PartitionType::Any, 0, 0, name, false).unwrap();
        assert_eq!(entry.name(), name);
        let mut buffer = [0xffu8; 32];
        entry.to_bytes(&mut buffer).unwrap();
        assert_eq!(&buffer[12..12 + len], name.as_bytes());
        assert!(buffer[12 + len..28].iter().all(|b| *b == 0));
        assert_eq!(PartitionEntry::from_bytes(&buffer).unwrap().name(), name);
    }
    assert_eq!(
        PartitionEntry::new(PartitionType::Any, 0, 0, long, false),
        Err(PartitionError::InvalidString)
    );
    let mut entry = nvs();
    assert_eq!(entry.set_name(long), Err(PartitionError::InvalidString));
    assert_eq!(entry.name(), "nvs");
    assert_eq!(entry.set_name("grüße"), Ok(()));
    assert_eq!(entry.name(), "grüße");
    let mut buffer = [0u8; 32];
    entry.to_bytes(&mut buffer).unwrap();
    assert_eq!(PartitionEntry::from_bytes(&buffer).unwrap().name(), "grüße");
}

#[test]
fn name_ends_at_first_nul() {
    let entry = PartitionEntry::new(PartitionType::Any, 0, 0, "ab\0cd", false).unwrap();
    let mut buffer = [0u8; 32];
    entry.to_bytes(&mut buffer).unwrap();
    assert_eq!(PartitionEntry::from_bytes(&buffer).unwrap().name(), "ab");
}

#[test]
fn name_fields() {
    let mut field = [0xeeu8; 16];
    assert_eq!(name_into(&mut field, "phy_init"), Ok(()));
    assert_eq!(&field, b"phy_init\0\0\0\0\0\0\0\0");
    assert_eq!(name_trim(&field), b"phy_init");
    assert_eq!(name_from(&field), Ok("phy_init"));
    assert_eq!(name_into(&mut field, "0123456789abcdefg"), Err(PartitionError::InvalidString));
    assert_eq!(&field, b"phy_init\0\0\0\0\0\0\0\0");
    let full = *b"0123456789abcdef";
    assert_eq!(name_trim(&full), &full[..]);
    assert_eq!(name_trim(&[0u8; 16]), b"");
    let mut bad = [0u8; 16];
    bad[0] = 0xc3;
    assert_eq!(name_from(&bad), Err(PartitionError::InvalidString));
}

#[test]
fn record_with_a_bad_name() {
    let mut buffer = NVS_RECORD;
    buffer[12] = 0xff;
    assert_eq!(PartitionEntry::from_bytes(&buffer), Err(PartitionError::InvalidString));
}

#[test]
fn record_with_a_bad_magic_or_type() {
    let mut buffer = NVS_RECORD;
    buffer[1] = 0x51;
    assert_eq!(PartitionEntry::from_bytes(&buffer), Err(PartitionError::InvalidMagic));
    let mut buffer = NVS_RECORD;
    buffer[2] = 0x02;
    assert_eq!(PartitionEntry::from_bytes(&buffer), Err(PartitionError::InvalidType(2)));
    let mut buffer = NVS_RECORD;
    buffer[3] = 0x07;
    assert_eq!(PartitionEntry::from_bytes(&buffer), Err(PartitionError::InvalidSubType(7)));
}

#[test]
fn entry_from_slices() {
    assert_eq!(PartitionEntry::try_from(&NVS_RECORD[..]), Ok(nvs()));
    assert_eq!(PartitionEntry::try_from(&NVS_RECORD[..31]), Err(PartitionError::NotEnoughData));
    assert_eq!(PartitionType::try_from(&NVS_RECORD[2..4]), Ok(nvs().type_));
    assert_eq!(PartitionType::try_from(&NVS_RECORD[2..5]), Err(PartitionError::NotEnoughData));
}

#[test]
fn clone_and_default() {
    let entry = nvs();
    assert_eq!(entry.clone(), entry);
    let empty = PartitionEntry::default();
    assert_eq!(empty.type_, PartitionType::Any);
    assert_eq!(empty.offset, 0);
    assert_eq!(empty.size, 0);
    assert_eq!(empty.name(), "");
    assert!(!empty.encrypted);
    assert_eq!(PartitionType::default(), PartitionType::Any);
    assert_eq!(AppPartitionType::default(), AppPartitionType::Factory);
    assert_eq!(DataPartitionType::default(), DataPartitionType::Ota);
    assert_eq!(PartitionMd5::default().data, [0u8; 16]);
}

#[test]
fn md5_record_round_trip() {
    let mut data = [0u8; 16];
    for (i, byte) in data.iter_mut().enumerate() {
        *byte = i as u8 * 3;
    }
    let md5 = PartitionMd5::from(data);
    let mut buffer = [0u8; 32];
    md5.to_bytes(&mut buffer).unwrap();
    assert_eq!(&buffer[..2], &[0xeb, 0xeb]);
    assert_eq!(&buffer[2..16], &[0xffu8; 14]);
    assert_eq!(&buffer[16..], &data);
    assert_eq!(PartitionMd5::from_bytes(&buffer), Ok(md5.clone()));
    assert_eq!(PartitionMd5::try_from(&buffer[..]), Ok(md5));
    assert_eq!(PartitionMd5::try_from(&buffer[1..]), Err(PartitionError::NotEnoughData));
    for at in 0..16 {
        let mut bad = buffer;
        bad[at] = 0;
        assert_eq!(PartitionMd5::from_bytes(&bad), Err(PartitionError::InvalidMagic));
    }
}

#[test]
fn error_messages() {
    assert_eq!(PartitionError::InvalidMagic.message(), "Invalid magic");
    assert_eq!(PartitionError::InvalidType(5).message(), "Invalid type: 5");
    assert_eq!(PartitionError::InvalidSubType(42).message(), "Invalid sub type: 42");
    assert_eq!(PartitionError::InvalidUserType(255).message(), "Invalid user type: 255");
    assert_eq!(PartitionError::InvalidOtaNumber(100).message(), "Invalid OTA: #100");
    assert_eq!(PartitionError::InvalidOtaNumber(0).message(), "Invalid OTA: #0");
    assert_eq!(PartitionError::InvalidString.message(), "Invalid string");
    assert_eq!(PartitionError::InvalidAlignment.message(), "Invalid alignment");
    assert_eq!(PartitionError::InvalidMd5.message(), "Invalid MD5");
    assert_eq!(PartitionError::NotEnoughData.message(), "Not enough data");
    assert_eq!(PartitionError::TooManyData.message(), "Too many data");
    for byte in 0..=255u8 {
        assert_eq!(PartitionError::InvalidType(byte).message(), format!("Invalid type: {byte}"));
    }
}
