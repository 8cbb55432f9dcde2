use embedded_sdmmc::Timestamp;

#[test]
fn serialize_to_fat_packs_time_and_date() {
    let t = Timestamp {
        year_since_1970: 53,
        zero_indexed_month: 4,
        zero_indexed_day: 14,
        hours: 13,
        minutes: 45,
        seconds: 30,
    };
    assert_eq!(t.serialize_to_fat(), [0xAF, 0x6D, 0xAF, 0x56]);
}

#[test]
fn serialize_to_fat_before_1980_has_zero_year() {
    let t = Timestamp {
        year_since_1970: 5,
        zero_indexed_month: 0,
        zero_indexed_day: 0,
        hours: 0,
        minutes: 0,
        seconds: 1,
    };
    // seconds are stored halved, so 1 second becomes 0
    assert_eq!(t.serialize_to_fat(), [0x00, 0x00, 0x21, 0x00]);
}

#[test]
fn from_fat_zero_is_1980_january_first() {
    let t = Timestamp::from_fat(0, 0);
    assert_eq!(
        t,
        Timestamp {
            year_since_1970: 10,
            zero_indexed_month: 0,
            zero_indexed_day: 0,
            hours: 0,
            minutes: 0,
            seconds: 0,
        }
    );
}

#[test]
fn from_fat_decodes_fields() {
    let t = Timestamp::from_fat(0x56AF, 0x6DAF);
    assert_eq!(t.year_since_1970, 53);
    assert_eq!(t.zero_indexed_month, 4);
    assert_eq!(t.zero_indexed_day, 14);
    assert_eq!(t.hours, 13);
    assert_eq!(t.minutes, 45);
    assert_eq!(t.seconds, 30);
}

#[test]
fn fat_round_trip() {
    for &(date, time) in &[(0x56AFu16, 0x6DAFu16), (0x0021, 0x0000), (0xFFFF, 0xFFFF), (0x1234, 0xBEEF)] {
        let t = Timestamp::from_fat(date, time);
        let b = t.serialize_to_fat();
        assert_eq!(u16::from_le_bytes([b[0], b[1]]), time);
        assert_eq!(u16::from_le_bytes([b[2], b[3]]), date);
    }
}
