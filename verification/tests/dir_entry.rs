use embedded_sdmmc::{
    Attributes, BlockIdx, ClusterId, DirEntry, FatType, ShortFileName, Timestamp,
};

fn sample_entry() -> DirEntry {
    let ctime = Timestamp {
        year_since_1970: 53,
        zero_indexed_month: 4,
        zero_indexed_day: 14,
        hours: 13,
        minutes: 45,
        seconds: 30,
    };
    let mut e = DirEntry::new(
        ShortFileName { contents: *b"README  TXT" },
        Attributes(0x20),
        ClusterId(0x0012_3456),
        ctime,
        BlockIdx(100),
        64,
    );
    e.mtime = Timestamp {
        year_since_1970: 54,
        zero_indexed_month: 0,
        zero_indexed_day: 0,
        hours: 0,
        minutes: 0,
        seconds: 0,
    };
    e.size = 123456;
    e
}

#[test]
fn new_entry_has_equal_times_and_zero_size() {
    let ctime = Timestamp {
        year_since_1970: 40,
        zero_indexed_month: 1,
        zero_indexed_day: 2,
        hours: 3,
        minutes: 4,
        seconds: 5,
    };
    let e = DirEntry::new(
        ShortFileName { contents: *b"FOO     BAR" },
        Attributes(0x10),
        ClusterId(7),
        ctime,
        BlockIdx(9),
        32,
    );
    assert_eq!(e.ctime, ctime);
    assert_eq!(e.mtime, ctime);
    assert_eq!(e.size, 0);
    assert_eq!(e.cluster, ClusterId(7));
    assert_eq!(e.attributes, Attributes(0x10));
    assert_eq!(e.entry_block, BlockIdx(9));
    assert_eq!(e.entry_offset, 32);
    assert_eq!(e.name.contents, *b"FOO     BAR");
}

#[test]
fn serialize_fat32_entry() {
    let e = sample_entry();
    let data = e.serialize(FatType::Fat32);
    let expected: [u8; 32] = [
        b'R', b'E', b'A', b'D', b'M', b'E', b' ', b' ', b'T', b'X', b'T', // name
        0x20, // attributes
        0x00, 0x00, // reserved, creation tenths
        0xAF, 0x6D, 0xAF, 0x56, // creation time and date
        0x00, 0x00, // last access date
        0x12, 0x00, // cluster high half
        0x00, 0x00, 0x21, 0x58, // modification time and date
        0x56, 0x34, // cluster low half
        0x40, 0xE2, 0x01, 0x00, // size
    ];
    assert_eq!(data, expected);
}

#[test]
fn serialize_fat16_entry_zeroes_cluster_high_half() {
    let e = sample_entry();
    let data = e.serialize(FatType::Fat16);
    assert_eq!(&data[20..22], &[0x00, 0x00]);
    assert_eq!(&data[26..28], &[0x56, 0x34]);
    let fat32 = e.serialize(FatType::Fat32);
    assert_eq!(&data[..20], &fat32[..20]);
    assert_eq!(&data[22..], &fat32[22..]);
}

#[test]
fn serialized_fields_decode_back() {
    let e = sample_entry();
    let b = e.serialize(FatType::Fat32);
    let lo = u16::from_le_bytes([b[26], b[27]]) as u32;
    let hi = u16::from_le_bytes([b[20], b[21]]) as u32;
    assert_eq!(lo | (hi << 16), e.cluster.0);
    assert_eq!(u32::from_le_bytes([b[28], b[29], b[30], b[31]]), e.size);
    assert_eq!(&b[14..18], &e.ctime.serialize_to_fat());
    assert_eq!(&b[22..26], &e.mtime.serialize_to_fat());
}

#[test]
fn serialize_max_cluster_and_size() {
    let mut e = sample_entry();
    e.cluster = ClusterId(0xFFFF_FFFF);
    e.size = 0xFFFF_FFFF;
    let b = e.serialize(FatType::Fat32);
    assert_eq!(&b[20..22], &[0xFF, 0xFF]);
    assert_eq!(&b[26..28], &[0xFF, 0xFF]);
    assert_eq!(&b[28..32], &[0xFF, 0xFF, 0xFF, 0xFF]);
}
