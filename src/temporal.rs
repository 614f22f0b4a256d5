//! Dates, times of day and timestamps, and their binary wire form: a count
//! of days or microseconds from a fixed epoch, as a big-endian integer.

use vstd::prelude::*;
use crate::calendar::{
    day_number, days_from_ymd, floor_mod, is_valid_ymd, lemma_day_number_injective, ymd_from_days,
    MAX_DAY_NUMBER, MIN_DAY_NUMBER,
};
use crate::wire::{
    be_signed_bytes, be_signed_value, decode_i32, decode_i64, encode_i32, encode_i64, DecodeError,
};

verus! {

pub const MICROS_PER_SECOND: i64 = 1_000_000;

pub const MICROS_PER_DAY: i64 = 86_400_000_000;

pub open spec fn fits_i32(v: int) -> bool {
    i32::MIN <= v <= i32::MAX
}

pub open spec fn fits_i64(v: int) -> bool {
    i64::MIN <= v <= i64::MAX
}

/// Why a value has no wire form.
#[derive(Clone, Copy, Debug, PartialEq, Eq, Structural)]
pub enum EncodeError {
    /// The date lies more than `i32::MAX` days away from 2000-01-01.
    DateOutOfRange(NaiveDate),
    /// The timestamp lies more than `i64::MAX` microseconds away from
    /// 2000-01-01 00:00:00.
    TimestampOutOfRange(NaiveDateTime),
}

/// A day of the proleptic Gregorian calendar, held as its distance in days
/// from 2000-01-01. Years run over the whole `i32` range.
#[derive(Clone, Copy, Debug, PartialEq, Eq, Structural, PartialOrd, Ord, Hash)]
pub struct NaiveDate {
    pub days: i64,
}

impl NaiveDate {
    pub open spec fn wf(self) -> bool {
        MIN_DAY_NUMBER <= self.days <= MAX_DAY_NUMBER
    }

    /// The wire form: the day count as a big-endian `i32`, if it fits.
    pub open spec fn wire(self) -> Option<Seq<u8>> {
        if fits_i32(self.days as int) {
            Some(be_signed_bytes(self.days as int, 4))
        } else {
            None
        }
    }

    /// The date that four wire bytes stand for.
    pub open spec fn decoded(raw: Seq<u8>) -> NaiveDate {
        NaiveDate { days: be_signed_value(raw) as i64 }
    }

    /// The date with the given year, month (1 to 12) and day of month
    /// (from 1), if it exists.
    pub fn from_ymd(year: i32, month: u32, day: u32) -> (r: Option<NaiveDate>)
        ensures
            r.is_some() <==> is_valid_ymd(year as int, month as int, day as int),
            r.is_some() ==> r.unwrap().wf() && r.unwrap().days == day_number(
                year as int,
                month as int,
                day as int,
            ),
    {
        match days_from_ymd(year, month, day) {
            Some(days) => Some(NaiveDate { days }),
            None => None,
        }
    }

    /// The date `days` days after 2000-01-01, if its year fits in `i32`.
    pub fn from_day_number(days: i64) -> (r: Option<NaiveDate>)
        ensures
            r.is_some() <==> MIN_DAY_NUMBER <= days <= MAX_DAY_NUMBER,
            r.is_some() ==> r.unwrap().days == days,
    {
        if MIN_DAY_NUMBER <= days && days <= MAX_DAY_NUMBER {
            Some(NaiveDate { days })
        } else {
            None
        }
    }

    /// Year, month and day of month of the date: the one valid calendar
    /// date with this day number.
    pub open spec fn spec_ymd(self) -> (int, int, int) {
        choose|t: (int, int, int)|
            is_valid_ymd(t.0, t.1, t.2) && day_number(t.0, t.1, t.2) == self.days
    }

    /// Year, month and day of month.
    pub fn ymd(&self) -> (r: (i32, u32, u32))
        requires
            self.wf(),
        ensures
            is_valid_ymd(r.0 as int, r.1 as int, r.2 as int),
            day_number(r.0 as int, r.1 as int, r.2 as int) == self.days,
            (r.0 as int, r.1 as int, r.2 as int) == self.spec_ymd(),
    {
        let r = ymd_from_days(self.days);
        proof {
            let t = (r.0 as int, r.1 as int, r.2 as int);
            assert(is_valid_ymd(t.0, t.1, t.2) && day_number(t.0, t.1, t.2) == self.days);
            let c = self.spec_ymd();
            lemma_day_number_injective(t.0, t.1, t.2, c.0, c.1, c.2);
        }
        r
    }

    pub fn year(&self) -> (r: i32)
        requires
            self.wf(),
        ensures
            r == self.spec_ymd().0,
    {
        self.ymd().0
    }

    pub fn month(&self) -> (r: u32)
        requires
            self.wf(),
        ensures
            r == self.spec_ymd().1,
    {
        self.ymd().1
    }

    pub fn day(&self) -> (r: u32)
        requires
            self.wf(),
        ensures
            r == self.spec_ymd().2,
    {
        self.ymd().2
    }

    /// Bytes that `encode` appends.
    pub fn size_hint(&self) -> (r: usize)
        ensures
            r == 4,
    {
        4
    }

    /// Appends the wire form; fails, leaving `buf` as it was, on a date whose
    /// day count does not fit in `i32`.
    pub fn encode(&self, buf: &mut Vec<u8>) -> (r: Result<(), EncodeError>)
        ensures
            match self.wire() {
                Some(bytes) => r.is_ok() && final(buf)@ == old(buf)@ + bytes,
                None => r == Err::<(), EncodeError>(EncodeError::DateOutOfRange(*self))
                    && final(buf)@ == old(buf)@,
            },
    {
        if self.days < i32::MIN as i64 || self.days > i32::MAX as i64 {
            return Err(EncodeError::DateOutOfRange(*self));
        }
        encode_i32(self.days as i32, buf);
        Ok(())
    }

    /// Reads the date from exactly four wire bytes. Every day count is a
    /// valid date.
    pub fn decode(raw: &[u8]) -> (r: Result<NaiveDate, DecodeError>)
        ensures
            raw@.len() == 4 ==> r == Ok::<NaiveDate, DecodeError>(NaiveDate::decoded(raw@))
                && NaiveDate::decoded(raw@).wf(),
            raw@.len() != 4 ==> r == Err::<NaiveDate, DecodeError>(
                DecodeError::InvalidLength { expected: 4, actual: raw@.len() as usize },
            ),
    {
        match decode_i32(raw) {
            Ok(days) => Ok(NaiveDate { days: days as i64 }),
            Err(e) => Err(e),
        }
    }
}

/// A time of day without a zone, held as microseconds since midnight.
#[derive(Clone, Copy, Debug, PartialEq, Eq, Structural, PartialOrd, Ord, Hash)]
pub struct NaiveTime {
    pub micros: u64,
}

impl NaiveTime {
    pub open spec fn wf(self) -> bool {
        self.micros < MICROS_PER_DAY
    }

    /// The wire form: microseconds since midnight as a big-endian `i64`.
    pub open spec fn wire(self) -> Seq<u8> {
        be_signed_bytes(self.micros as int, 8)
    }

    /// The time that eight wire bytes stand for. A count outside one day
    /// wraps around midnight, so that every count gives a time of day.
    pub open spec fn decoded(raw: Seq<u8>) -> NaiveTime {
        NaiveTime { micros: (be_signed_value(raw) % (MICROS_PER_DAY as int)) as u64 }
    }

    pub fn midnight() -> (r: NaiveTime)
        ensures
            r.wf(),
            r.micros == 0,
    {
        NaiveTime { micros: 0 }
    }

    /// The time `hour:minute:second.micro`, if each part is in range.
    pub fn from_hms_micro(hour: u32, minute: u32, second: u32, micro: u32) -> (r: Option<
        NaiveTime,
    >)
        ensures
            r.is_some() <==> (hour < 24 && minute < 60 && second < 60 && micro < 1_000_000),
            r.is_some() ==> r.unwrap().wf() && r.unwrap().micros == ((hour * 60 + minute) * 60
                + second) * 1_000_000 + micro,
    {
        if hour >= 24 || minute >= 60 || second >= 60 || micro >= 1_000_000 {
            return None;
        }
        let seconds = (hour as u64 * 60 + minute as u64) * 60 + second as u64;
        Some(NaiveTime { micros: seconds * 1_000_000 + micro as u64 })
    }

    /// The time `hour:minute:second`, if each part is in range.
    pub fn from_hms(hour: u32, minute: u32, second: u32) -> (r: Option<NaiveTime>)
        ensures
            r.is_some() <==> (hour < 24 && minute < 60 && second < 60),
            r.is_some() ==> r.unwrap().wf() && r.unwrap().micros == ((hour * 60 + minute) * 60
                + second) * 1_000_000,
    {
        NaiveTime::from_hms_micro(hour, minute, second, 0)
    }

    pub fn hour(&self) -> (r: u32)
        requires
            self.wf(),
        ensures
            r == self.micros / 3_600_000_000,
            r < 24,
    {
        (self.micros / 3_600_000_000) as u32
    }

    pub fn minute(&self) -> (r: u32)
        ensures
            r == (self.micros / 60_000_000) % 60,
    {
        ((self.micros / 60_000_000) % 60) as u32
    }

    pub fn second(&self) -> (r: u32)
        ensures
            r == (self.micros / 1_000_000) % 60,
    {
        ((self.micros / 1_000_000) % 60) as u32
    }

    pub fn microsecond(&self) -> (r: u32)
        ensures
            r == self.micros % 1_000_000,
    {
        (self.micros % 1_000_000) as u32
    }

    /// Bytes that `encode` appends.
    pub fn size_hint(&self) -> (r: usize)
        ensures
            r == 8,
    {
        8
    }

    /// Appends the wire form. Every time of day has one.
    pub fn encode(&self, buf: &mut Vec<u8>)
        requires
            self.wf(),
        ensures
            final(buf)@ == old(buf)@ + self.wire(),
    {
        encode_i64(self.micros as i64, buf);
    }

    /// Reads the time from exactly eight wire bytes.
    pub fn decode(raw: &[u8]) -> (r: Result<NaiveTime, DecodeError>)
        ensures
            raw@.len() == 8 ==> r == Ok::<NaiveTime, DecodeError>(NaiveTime::decoded(raw@))
                && NaiveTime::decoded(raw@).wf(),
            raw@.len() != 8 ==> r == Err::<NaiveTime, DecodeError>(
                DecodeError::InvalidLength { expected: 8, actual: raw@.len() as usize },
            ),
    {
        match decode_i64(raw) {
            Ok(micros) => Ok(NaiveTime { micros: floor_mod(micros, MICROS_PER_DAY) as u64 }),
            Err(e) => Err(e),
        }
    }
}

/// Whether a count of microseconds from 2000-01-01 00:00:00 falls on a day
/// that a `NaiveDate` can hold.
pub open spec fn micros_in_range(m: int) -> bool {
    MIN_DAY_NUMBER * MICROS_PER_DAY <= m < (MAX_DAY_NUMBER + 1) * MICROS_PER_DAY
}

/// The timestamp `m` microseconds after 2000-01-01 00:00:00.
pub open spec fn datetime_of_micros(m: int) -> NaiveDateTime {
    NaiveDateTime {
        date: NaiveDate { days: (m / (MICROS_PER_DAY as int)) as i64 },
        time: NaiveTime { micros: (m % (MICROS_PER_DAY as int)) as u64 },
    }
}

/// Splits a count of microseconds into a day and a time of day.
fn split_micros(m: i128) -> (r: NaiveDateTime)
    requires
        micros_in_range(m as int),
    ensures
        r == datetime_of_micros(m as int),
        r.wf(),
{
    let per_day = MICROS_PER_DAY as i128;
    let days = match m.checked_div_euclid(per_day) {
        Some(q) => q,
        None => {
            assert(false);
            0
        },
    };
    assert(0 <= (m as int) % (per_day as int) < per_day);
    let micros = match m.checked_rem_euclid(per_day) {
        Some(q) => q,
        None => {
            assert(false);
            0
        },
    };
    NaiveDateTime { date: NaiveDate { days: days as i64 }, time: NaiveTime { micros: micros as u64 } }
}

/// A date and a time of day without a zone.
#[derive(Clone, Copy, Debug, PartialEq, Eq, Structural, PartialOrd, Ord, Hash)]
pub struct NaiveDateTime {
    pub date: NaiveDate,
    pub time: NaiveTime,
}

impl NaiveDateTime {
    pub open spec fn wf(self) -> bool {
        self.date.wf() && self.time.wf()
    }

    /// Microseconds from 2000-01-01 00:00:00 to this timestamp.
    pub open spec fn micros_since_epoch(self) -> int {
        self.date.days * MICROS_PER_DAY + self.time.micros
    }

    /// The wire form: `micros_since_epoch` as a big-endian `i64`, if it fits.
    pub open spec fn wire(self) -> Option<Seq<u8>> {
        if fits_i64(self.micros_since_epoch()) {
            Some(be_signed_bytes(self.micros_since_epoch(), 8))
        } else {
            None
        }
    }

    /// The timestamp that eight wire bytes stand for.
    pub open spec fn decoded(raw: Seq<u8>) -> NaiveDateTime {
        datetime_of_micros(be_signed_value(raw))
    }

    pub fn new(date: NaiveDate, time: NaiveTime) -> (r: NaiveDateTime)
        ensures
            r.date == date,
            r.time == time,
    {
        NaiveDateTime { date, time }
    }

    fn total_micros(&self) -> (r: i128)
        ensures
            r == self.micros_since_epoch(),
            -0x20_0000_0000_0000_0000_0000_0000 < r < 0x20_0000_0000_0000_0000_0000_0000,
    {
        let days = self.date.days as i128;
        assert(-0x10_0000_0000_0000_0000_0000_0000 < days * 86_400_000_000 < 0x10_0000_0000_0000_0000_0000_0000)
            by (nonlinear_arith)
            requires
                i64::MIN <= days <= i64::MAX,
        ;
        days * (MICROS_PER_DAY as i128) + self.time.micros as i128
    }

    /// The timestamp `delta` microseconds later (earlier, if negative), if
    /// its date is in range.
    pub fn checked_add_micros(&self, delta: i64) -> (r: Option<NaiveDateTime>)
        requires
            self.wf(),
        ensures
            r.is_some() <==> micros_in_range(self.micros_since_epoch() + delta),
            r.is_some() ==> r.unwrap() == datetime_of_micros(self.micros_since_epoch() + delta)
                && r.unwrap().wf(),
    {
        let total = self.total_micros() + delta as i128;
        let low = MIN_DAY_NUMBER as i128 * (MICROS_PER_DAY as i128);
        let high = (MAX_DAY_NUMBER as i128 + 1) * (MICROS_PER_DAY as i128);
        if total < low || total >= high {
            None
        } else {
            Some(split_micros(total))
        }
    }

    /// Bytes that `encode` appends.
    pub fn size_hint(&self) -> (r: usize)
        ensures
            r == 8,
    {
        8
    }

    /// Appends the wire form; fails, leaving `buf` as it was, on a timestamp
    /// whose microsecond count does not fit in `i64`.
    pub fn encode(&self, buf: &mut Vec<u8>) -> (r: Result<(), EncodeError>)
        ensures
            match self.wire() {
                Some(bytes) => r.is_ok() && final(buf)@ == old(buf)@ + bytes,
                None => r == Err::<(), EncodeError>(EncodeError::TimestampOutOfRange(*self))
                    && final(buf)@ == old(buf)@,
            },
    {
        let total = self.total_micros();
        if total < i64::MIN as i128 || total > i64::MAX as i128 {
            return Err(EncodeError::TimestampOutOfRange(*self));
        }
        encode_i64(total as i64, buf);
        Ok(())
    }

    /// Reads the timestamp from exactly eight wire bytes. Every `i64` count
    /// of microseconds falls within the dates that `NaiveDate` holds.
    pub fn decode(raw: &[u8]) -> (r: Result<NaiveDateTime, DecodeError>)
        ensures
            raw@.len() == 8 ==> r == Ok::<NaiveDateTime, DecodeError>(
                NaiveDateTime::decoded(raw@),
            ) && NaiveDateTime::decoded(raw@).wf(),
            raw@.len() != 8 ==> r == Err::<NaiveDateTime, DecodeError>(
                DecodeError::InvalidLength { expected: 8, actual: raw@.len() as usize },
            ),
    {
        match decode_i64(raw) {
            Ok(micros) => Ok(split_micros(micros as i128)),
            Err(e) => Err(e),
        }
    }
}

/// A fixed distance from UTC, less than one day either way.
#[derive(Clone, Copy, Debug, PartialEq, Eq, Structural, Hash)]
pub struct FixedOffset {
    pub seconds_east: i32,
}

impl FixedOffset {
    pub open spec fn wf(self) -> bool {
        -86_400 < self.seconds_east < 86_400
    }

    pub fn utc() -> (r: FixedOffset)
        ensures
            r.wf(),
            r.seconds_east == 0,
    {
        FixedOffset { seconds_east: 0 }
    }

    /// The offset `seconds` east of UTC, if it is less than a day.
    pub fn east(seconds: i32) -> (r: Option<FixedOffset>)
        ensures
            r.is_some() <==> -86_400 < seconds < 86_400,
            r.is_some() ==> r.unwrap().seconds_east == seconds,
    {
        if -86_400 < seconds && seconds < 86_400 {
            Some(FixedOffset { seconds_east: seconds })
        } else {
            None
        }
    }
}

/// An instant, held as its UTC timestamp, together with the offset at which
/// it is shown.
#[derive(Clone, Copy, Debug, PartialEq, Eq, Structural, Hash)]
pub struct DateTime {
    pub utc: NaiveDateTime,
    pub offset: FixedOffset,
}

impl DateTime {
    pub open spec fn wf(self) -> bool {
        self.utc.wf() && self.offset.wf()
    }

    /// The wire form, which holds the instant only: that of the UTC
    /// timestamp.
    pub open spec fn wire(self) -> Option<Seq<u8>> {
        self.utc.wire()
    }

    /// The instant that eight wire bytes stand for, shown at `offset`.
    pub open spec fn decoded(raw: Seq<u8>, offset: FixedOffset) -> DateTime {
        DateTime { utc: NaiveDateTime::decoded(raw), offset }
    }

    /// The instant whose UTC timestamp is `utc`, shown at `offset`.
    pub fn from_utc(utc: NaiveDateTime, offset: FixedOffset) -> (r: DateTime)
        ensures
            r.utc == utc,
            r.offset == offset,
    {
        DateTime { utc, offset }
    }

    /// The instant whose wall-clock time at `offset` is `local`, if its UTC
    /// date is in range.
    pub fn from_local(local: NaiveDateTime, offset: FixedOffset) -> (r: Option<DateTime>)
        requires
            local.wf(),
            offset.wf(),
        ensures
            r.is_some() <==> micros_in_range(
                local.micros_since_epoch() - offset.seconds_east * MICROS_PER_SECOND,
            ),
            r.is_some() ==> r.unwrap().offset == offset && r.unwrap().utc == datetime_of_micros(
                local.micros_since_epoch() - offset.seconds_east * MICROS_PER_SECOND,
            ),
    {
        let shift = -(offset.seconds_east as i64) * MICROS_PER_SECOND;
        match local.checked_add_micros(shift) {
            Some(utc) => Some(DateTime { utc, offset }),
            None => None,
        }
    }

    pub fn naive_utc(&self) -> (r: NaiveDateTime)
        ensures
            r == self.utc,
    {
        self.utc
    }

    pub fn offset(&self) -> (r: FixedOffset)
        ensures
            r == self.offset,
    {
        self.offset
    }

    /// The wall-clock time at this value's offset, if its date is in range.
    pub fn naive_local(&self) -> (r: Option<NaiveDateTime>)
        requires
            self.wf(),
        ensures
            r.is_some() <==> micros_in_range(
                self.utc.micros_since_epoch() + self.offset.seconds_east * MICROS_PER_SECOND,
            ),
            r.is_some() ==> r.unwrap() == datetime_of_micros(
                self.utc.micros_since_epoch() + self.offset.seconds_east * MICROS_PER_SECOND,
            ),
    {
        self.utc.checked_add_micros(self.offset.seconds_east as i64 * MICROS_PER_SECOND)
    }

    /// The same instant, shown at another offset.
    pub fn with_offset(&self, offset: FixedOffset) -> (r: DateTime)
        ensures
            r.utc == self.utc,
            r.offset == offset,
    {
        DateTime { utc: self.utc, offset }
    }

    /// The instant `delta` microseconds later, if its date is in range.
    pub fn checked_add_micros(&self, delta: i64) -> (r: Option<DateTime>)
        requires
            self.wf(),
        ensures
            r.is_some() <==> micros_in_range(self.utc.micros_since_epoch() + delta),
            r.is_some() ==> r.unwrap().offset == self.offset && r.unwrap().utc
                == datetime_of_micros(self.utc.micros_since_epoch() + delta),
    {
        match self.utc.checked_add_micros(delta) {
            Some(utc) => Some(DateTime { utc, offset: self.offset }),
            None => None,
        }
    }

    /// Bytes that `encode` appends.
    pub fn size_hint(&self) -> (r: usize)
        ensures
            r == 8,
    {
        8
    }

    /// Appends the wire form of the instant; the offset is not written.
    pub fn encode(&self, buf: &mut Vec<u8>) -> (r: Result<(), EncodeError>)
        ensures
            match self.wire() {
                Some(bytes) => r.is_ok() && final(buf)@ == old(buf)@ + bytes,
                None => r == Err::<(), EncodeError>(EncodeError::TimestampOutOfRange(self.utc))
                    && final(buf)@ == old(buf)@,
            },
    {
        self.utc.encode(buf)
    }

    /// Reads the instant from exactly eight wire bytes, shown in UTC.
    pub fn decode(raw: &[u8]) -> (r: Result<DateTime, DecodeError>)
        ensures
            raw@.len() == 8 ==> r == Ok::<DateTime, DecodeError>(
                DateTime::decoded(raw@, FixedOffset { seconds_east: 0 }),
            ) && DateTime::decoded(raw@, FixedOffset { seconds_east: 0 }).wf(),
            raw@.len() != 8 ==> r == Err::<DateTime, DecodeError>(
                DecodeError::InvalidLength { expected: 8, actual: raw@.len() as usize },
            ),
    {
        DateTime::decode_with_offset(raw, FixedOffset::utc())
    }

    /// Reads the instant from exactly eight wire bytes, shown at `offset`.
    pub fn decode_with_offset(raw: &[u8], offset: FixedOffset) -> (r: Result<
        DateTime,
        DecodeError,
    >)
        ensures
            raw@.len() == 8 ==> r == Ok::<DateTime, DecodeError>(DateTime::decoded(raw@, offset))
                && DateTime::decoded(raw@, offset).utc.wf(),
            raw@.len() != 8 ==> r == Err::<DateTime, DecodeError>(
                DecodeError::InvalidLength { expected: 8, actual: raw@.len() as usize },
            ),
    {
        match NaiveDateTime::decode(raw) {
            Ok(utc) => Ok(DateTime { utc, offset }),
            Err(e) => Err(e),
        }
    }
}

/// 2000-01-01 00:00:00 UTC, the instant from which timestamps are counted.
pub fn postgres_epoch() -> (r: DateTime)
    ensures
        r.wf(),
        r.utc.date.days == 0,
        r.utc.time.micros == 0,
        r.offset.seconds_east == 0,
{
    DateTime {
        utc: NaiveDateTime { date: NaiveDate { days: 0 }, time: NaiveTime::midnight() },
        offset: FixedOffset::utc(),
    }
}

} // verus!
