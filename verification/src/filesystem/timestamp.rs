use vstd::prelude::*;

verus! {

/// Something that can tell the wall-clock time, used to stamp new entries.
pub trait TimeSource {
    /// Returns the current time.
    fn get_timestamp(&self) -> Timestamp;
}

/// A calendar date and wall-clock time, as FAT stores them.
#[derive(Debug, Clone, Copy, PartialEq, Eq, Structural)]
pub struct Timestamp {
    /// Years since 1970
    pub year_since_1970: u8,
    /// Month of the year, where 0 is January
    pub zero_indexed_month: u8,
    /// Day of the month, where 0 is the first day
    pub zero_indexed_day: u8,
    /// Hour of the day, 0 to 23
    pub hours: u8,
    /// Minute of the hour, 0 to 59
    pub minutes: u8,
    /// Second of the minute, 0 to 59
    pub seconds: u8,
}

/// The two bytes of `v`, least significant first.
pub open spec fn le_u16(v: u16) -> Seq<u8> {
    seq![(v % 256) as u8, (v / 256) as u8]
}

/// The four bytes of `v`, least significant first.
pub open spec fn le_u32(v: u32) -> Seq<u8> {
    seq![(v % 256) as u8, ((v / 256) % 256) as u8, ((v / 65536) % 256) as u8, (v / 16777216) as u8]
}

/// The value of two bytes read least significant first.
pub open spec fn le_u16_value(b: Seq<u8>) -> int {
    b[0] + 256 * b[1]
}

/// The value of four bytes read least significant first.
pub open spec fn le_u32_value(b: Seq<u8>) -> int {
    b[0] + 256 * b[1] + 65536 * b[2] + 16777216 * b[3]
}

impl Timestamp {
    /// Whether `serialize_to_fat` can encode this timestamp: the one-based
    /// month and day must still fit in a byte.
    pub open spec fn fat_encodable(self) -> bool {
        &&& self.zero_indexed_month < 255
        &&& self.zero_indexed_day < 255
    }

    /// The FAT time word: hours in bits 11..16, minutes in bits 5..11 and
    /// seconds divided by two in bits 0..5.
    pub open spec fn fat_time(self) -> u16 {
        ((self.hours % 32) * 2048 + (self.minutes % 64) * 32 + (self.seconds / 2) % 32) as u16
    }

    /// The FAT date word: years since 1980 in bits 9..16 (years before 1980
    /// give 0), the one-based month in bits 5..9 and the one-based day in
    /// bits 0..5.
    pub open spec fn fat_date(self) -> u16 {
        let year: int = if self.year_since_1970 < 10 {
            0
        } else {
            ((self.year_since_1970 - 10) % 128) * 512
        };
        (year + ((self.zero_indexed_month + 1) % 16) * 32 + (self.zero_indexed_day + 1) % 32) as u16
    }

    /// The four on-disk bytes of this timestamp: the time word, then the
    /// date word, each least significant byte first.
    pub open spec fn fat_bytes(self) -> Seq<u8> {
        le_u16(self.fat_time()) + le_u16(self.fat_date())
    }

    /// The timestamp that the FAT date word `date` and time word `time`
    /// stand for. A zero month or day is read as the first.
    pub open spec fn spec_from_fat(date: u16, time: u16) -> Timestamp {
        let month: u16 = (date / 32) % 16;
        let day: u16 = date % 32;
        Timestamp {
            year_since_1970: (date / 512 + 10) as u8,
            zero_indexed_month: (if month == 0 { 0 } else { month - 1 }) as u8,
            zero_indexed_day: (if day == 0 { 0 } else { day - 1 }) as u8,
            hours: ((time / 2048) % 32) as u8,
            minutes: ((time / 32) % 64) as u8,
            seconds: ((time % 32) * 2) as u8,
        }
    }

    /// Create a `Timestamp` from the 16-bit FAT date and time fields.
    pub fn from_fat(date: u16, time: u16) -> (t: Timestamp)
        ensures
            t == Timestamp::spec_from_fat(date, time),
    {
        let years: u16 = date >> 9u16;
        assert(years == date / 512) by (bit_vector)
            requires
                years == date >> 9u16,
        ;
        let year: u16 = 1980 + years;
        let month: u8 = ((date >> 5u16) & 0x000F) as u8;
        let day: u8 = (date & 0x001F) as u8;
        let hours: u8 = ((time >> 11u16) & 0x001F) as u8;
        let minutes: u8 = ((time >> 5u16) & 0x003F) as u8;
        let seconds: u8 = ((time << 1u16) & 0x003F) as u8;
        assert(year == 1980 + date / 512 && month == (date / 32) % 16 && day == date % 32)
            by (bit_vector)
            requires
                year == 1980 + date / 512,
                month == ((date >> 5u16) & 0x000F) as u8,
                day == (date & 0x001F) as u8,
        ;
        assert(hours == (time / 2048) % 32 && minutes == (time / 32) % 64 && seconds == (time
            % 32) * 2) by (bit_vector)
            requires
                hours == ((time >> 11u16) & 0x001F) as u8,
                minutes == ((time >> 5u16) & 0x003F) as u8,
                seconds == ((time << 1u16) & 0x003F) as u8,
        ;
        Timestamp {
            year_since_1970: (year - 1970) as u8,
            zero_indexed_month: if month == 0 {
                0
            } else {
                month - 1
            },
            zero_indexed_day: if day == 0 {
                0
            } else {
                day - 1
            },
            hours,
            minutes,
            seconds,
        }
    }

    /// Serialize a `Timestamp` to FAT format: the time word, then the date
    /// word, each little-endian.
    pub fn serialize_to_fat(self) -> (data: [u8; 4])
        requires
            self.fat_encodable(),
        ensures
            data@ == self.fat_bytes(),
    {
        let h: u16 = self.hours as u16;
        let m: u16 = self.minutes as u16;
        let s: u16 = (self.seconds / 2) as u16;
        let hours: u16 = (h << 11u16) & 0xF800;
        let minutes: u16 = (m << 5u16) & 0x07E0;
        let seconds: u16 = s & 0x001F;
        let time: u16 = hours | minutes | seconds;
        assert(time == (h % 32) * 2048 + (m % 64) * 32 + s % 32) by (bit_vector)
            requires
                h < 256,
                m < 256,
                s < 128,
                time == ((h << 11u16) & 0xF800) | ((m << 5u16) & 0x07E0) | (s & 0x001F),
        ;
        let year: u16 = if self.year_since_1970 < 10 {
            0
        } else {
            let y: u16 = (self.year_since_1970 - 10) as u16;
            let shifted: u16 = (y << 9u16) & 0xFE00;
            assert(shifted == (y % 128) * 512) by (bit_vector)
                requires
                    y < 256,
                    shifted == (y << 9u16) & 0xFE00,
            ;
            shifted
        };
        assert(year % 512 == 0);
        assert(year & 0x01FF == 0) by (bit_vector)
            requires
                year % 512 == 0,
        ;
        let mo: u16 = (self.zero_indexed_month + 1) as u16;
        let d: u16 = (self.zero_indexed_day + 1) as u16;
        let month: u16 = (mo << 5u16) & 0x01E0;
        let day: u16 = d & 0x001F;
        let date: u16 = year | month | day;
        assert(date == year + (mo % 16) * 32 + d % 32) by (bit_vector)
            requires
                year & 0x01FF == 0,
                mo < 256,
                d < 256,
                date == year | ((mo << 5u16) & 0x01E0) | (d & 0x001F),
        ;
        let t: [u8; 2] = u16_to_le(time);
        let dt: [u8; 2] = u16_to_le(date);
        let data: [u8; 4] = [t[0], t[1], dt[0], dt[1]];
        assert(data@ =~= self.fat_bytes());
        data
    }
}

/// Reading a FAT date and time and writing them back gives the same two
/// words, provided the date names a month and a day (neither field is zero).
pub proof fn lemma_fat_round_trip(date: u16, time: u16)
    requires
        (date / 32) % 16 != 0,
        date % 32 != 0,
    ensures
        Timestamp::spec_from_fat(date, time).fat_encodable(),
        Timestamp::spec_from_fat(date, time).fat_time() == time,
        Timestamp::spec_from_fat(date, time).fat_date() == date,
        Timestamp::spec_from_fat(date, time).fat_bytes() == le_u16(time) + le_u16(date),
{
    let t = Timestamp::spec_from_fat(date, time);
    assert(time == ((time / 2048) % 32) * 2048 + ((time / 32) % 64) * 32 + time % 32)
        by (bit_vector);
    assert(date == (date / 512) * 512 + ((date / 32) % 16) * 32 + date % 32) by (bit_vector);
    assert(date / 512 < 128) by (bit_vector);
    assert(t.fat_time() == time);
    assert(t.fat_date() == date);
}

/// The four FAT bytes of a timestamp hold its fields unchanged: the time
/// word (bytes 0 and 1, least significant first) has the hours in bits
/// 11..16, the minutes in bits 5..11 and the seconds halved in bits 0..5;
/// the date word (bytes 2 and 3) has the years since 1980 in bits 9..16
/// (zero before 1980), the one-based month in bits 5..9 and the one-based
/// day in bits 0..5 — each for field values that fit their bits.
pub proof fn lemma_fat_bytes_fields(t: Timestamp)
    ensures
        ({
            let b = t.fat_bytes();
            let time: int = b[0] + 256 * b[1];
            let date: int = b[2] + 256 * b[3];
            &&& b.len() == 4
            &&& t.hours < 32 ==> time / 2048 == t.hours
            &&& t.minutes < 64 ==> (time / 32) % 64 == t.minutes
            &&& t.seconds < 64 ==> time % 32 == t.seconds / 2
            &&& 10 <= t.year_since_1970 < 138 ==> date / 512 == t.year_since_1970 - 10
            &&& t.year_since_1970 < 10 ==> date / 512 == 0
            &&& t.zero_indexed_month < 15 ==> (date / 32) % 16 == t.zero_indexed_month + 1
            &&& t.zero_indexed_day < 31 ==> date % 32 == t.zero_indexed_day + 1
        }),
{
    let b = t.fat_bytes();
    let ft = t.fat_time();
    let fd = t.fat_date();
    lemma_le_u16_value(ft);
    lemma_le_u16_value(fd);
    assert(b[0] == le_u16(ft)[0] && b[1] == le_u16(ft)[1]);
    assert(b[2] == le_u16(fd)[0] && b[3] == le_u16(fd)[1]);
    lemma_time_word_fields(t);
    lemma_date_word_fields(t);
}

/// The value of the two little-endian bytes of `v` is `v`.
proof fn lemma_le_u16_value(v: u16)
    ensures
        le_u16(v).len() == 2,
        le_u16(v)[0] + 256 * le_u16(v)[1] == v,
{
    assert(v == (v % 256) + 256 * (v / 256)) by (bit_vector);
}

/// The fields of a timestamp's time word.
proof fn lemma_time_word_fields(t: Timestamp)
    ensures
        t.hours < 32 ==> t.fat_time() / 2048 == t.hours,
        t.minutes < 64 ==> (t.fat_time() / 32) % 64 == t.minutes,
        t.seconds < 64 ==> t.fat_time() % 32 == t.seconds / 2,
{
    let h: u16 = (t.hours % 32) as u16;
    let m: u16 = (t.minutes % 64) as u16;
    let sec: u16 = ((t.seconds / 2) % 32) as u16;
    let w: u16 = t.fat_time();
    assert(w == h * 2048 + m * 32 + sec);
    assert(w / 2048 == h && (w / 32) % 64 == m && w % 32 == sec) by (bit_vector)
        requires
            h < 32,
            m < 64,
            sec < 32,
            w == h * 2048 + m * 32 + sec,
    ;
}

/// The fields of a timestamp's date word.
proof fn lemma_date_word_fields(t: Timestamp)
    ensures
        10 <= t.year_since_1970 < 138 ==> t.fat_date() / 512 == t.year_since_1970 - 10,
        t.year_since_1970 < 10 ==> t.fat_date() / 512 == 0,
        t.zero_indexed_month < 15 ==> (t.fat_date() / 32) % 16 == t.zero_indexed_month + 1,
        t.zero_indexed_day < 31 ==> t.fat_date() % 32 == t.zero_indexed_day + 1,
{
    let y: u16 = (if t.year_since_1970 < 10 {
        0
    } else {
        ((t.year_since_1970 - 10) % 128)
    }) as u16;
    let mo: u16 = ((t.zero_indexed_month + 1) % 16) as u16;
    let d: u16 = ((t.zero_indexed_day + 1) % 32) as u16;
    let w: u16 = t.fat_date();
    assert(w == y * 512 + mo * 32 + d);
    assert(w / 512 == y && (w / 32) % 16 == mo && w % 32 == d) by (bit_vector)
        requires
            y < 128,
            mo < 16,
            d < 32,
            w == y * 512 + mo * 32 + d,
    ;
}

/// Decoding FAT words reads each field straight from its bits: hours from
/// bits 11..16 of the time word, minutes from bits 5..11, seconds from bits
/// 0..5 doubled; years since 1970 from bits 9..16 of the date word plus ten;
/// the month and day from bits 5..9 and 0..5, made zero-based (a zero field
/// is read as the first).
pub proof fn lemma_from_fat_fields(date: u16, time: u16)
    ensures
        ({
            let t = Timestamp::spec_from_fat(date, time);
            let month: u16 = (date >> 5u16) & 0x0F;
            let day: u16 = date & 0x1F;
            &&& t.hours as u16 == (time >> 11u16) & 0x1F
            &&& t.minutes as u16 == (time >> 5u16) & 0x3F
            &&& t.seconds as u16 == (time & 0x1F) * 2
            &&& t.year_since_1970 as u16 == (date >> 9u16) + 10
            &&& t.zero_indexed_month as u16 == if month == 0 { 0 } else { (month - 1) as u16 }
            &&& t.zero_indexed_day as u16 == if day == 0 { 0 } else { (day - 1) as u16 }
        }),
{
    assert((time >> 11u16) & 0x1F == (time / 2048) % 32 && (time >> 5u16) & 0x3F == (time / 32)
        % 64 && (time & 0x1F) * 2 == (time % 32) * 2) by (bit_vector);
    assert((date >> 9u16) == date / 512 && (date >> 5u16) & 0x0F == (date / 32) % 16 && date
        & 0x1F == date % 32) by (bit_vector);
}

/// The little-endian bytes of a `u16`.
pub fn u16_to_le(v: u16) -> (b: [u8; 2])
    ensures
        b@ == le_u16(v),
{
    let lo: u8 = (v & 0xFF) as u8;
    let hi: u8 = (v >> 8u16) as u8;
    assert(lo == v % 256 && hi == v / 256) by (bit_vector)
        requires
            lo == (v & 0xFF) as u8,
            hi == (v >> 8u16) as u8,
    ;
    let b: [u8; 2] = [lo, hi];
    assert(b@ =~= le_u16(v));
    b
}

/// The little-endian bytes of a `u32`.
pub fn u32_to_le(v: u32) -> (b: [u8; 4])
    ensures
        b@ == le_u32(v),
{
    let b0: u8 = (v & 0xFF) as u8;
    let b1: u8 = ((v >> 8u32) & 0xFF) as u8;
    let b2: u8 = ((v >> 16u32) & 0xFF) as u8;
    let b3: u8 = (v >> 24u32) as u8;
    assert(b0 == v % 256 && b1 == (v / 256) % 256 && b2 == (v / 65536) % 256 && b3 == v / 16777216)
        by (bit_vector)
        requires
            b0 == (v & 0xFF) as u8,
            b1 == ((v >> 8u32) & 0xFF) as u8,
            b2 == ((v >> 16u32) & 0xFF) as u8,
            b3 == (v >> 24u32) as u8,
    ;
    let b: [u8; 4] = [b0, b1, b2, b3];
    assert(b@ =~= le_u32(v));
    b
}

} // verus!
