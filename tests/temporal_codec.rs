use pg_temporal::codec::{decode, encode, TemporalValue, WireKind};
use pg_temporal::temporal::{
    postgres_epoch, DateTime, EncodeError, FixedOffset, NaiveDate, NaiveDateTime, NaiveTime,
};
use pg_temporal::wire::{decode_i32, decode_i64, encode_i32, encode_i64, DecodeError};

fn ymd(y: i32, m: u32, d: u32) -> NaiveDate {
    NaiveDate::from_ymd(y, m, d).unwrap()
}

fn ymd_hms(y: i32, mo: u32, d: u32, h: u32, mi: u32, s: u32) -> NaiveDateTime {
    NaiveDateTime::new(ymd(y, mo, d), NaiveTime::from_hms(h, mi, s).unwrap())
}

#[test]
fn test_encode_datetime() {
    let mut buf = Vec::new();

    let date = postgres_epoch();
    date.encode(&mut buf).unwrap();
    assert_eq!(buf, [0; 8]);
    buf.clear();

    // one hour past epoch
    let date2 = postgres_epoch().checked_add_micros(3_600_000_000).unwrap();
    date2.encode(&mut buf).unwrap();
    assert_eq!(buf, 3_600_000_000i64.to_be_bytes());
    buf.clear();

    // some random date
    let date3 = ymd_hms(2019, 12, 11, 11, 1, 5);
    let expected: i64 = 7284 * 86_400_000_000 + (11 * 3600 + 65) * 1_000_000;
    date3.encode(&mut buf).unwrap();
    assert_eq!(buf, expected.to_be_bytes());
    buf.clear();
}

#[test]
fn test_decode_datetime() {
    let buf = [0u8; 8];
    let date = NaiveDateTime::decode(&buf).unwrap();
    assert_eq!(date.to_string(), "2000-01-01 00:00:00");

    let buf = 3_600_000_000i64.to_be_bytes();
    let date = NaiveDateTime::decode(&buf).unwrap();
    assert_eq!(date.to_string(), "2000-01-01 01:00:00");

    let buf = 629_377_265_000_000i64.to_be_bytes();
    let date = NaiveDateTime::decode(&buf).unwrap();
    assert_eq!(date.to_string(), "2019-12-11 11:01:05");
}

#[test]
fn test_encode_date() {
    let mut buf = Vec::new();

    let date = ymd(2000, 1, 1);
    date.encode(&mut buf).unwrap();
    assert_eq!(buf, [0; 4]);
    buf.clear();

    let date2 = ymd(2001, 1, 1);
    date2.encode(&mut buf).unwrap();
    // 2000 was a leap year
    assert_eq!(buf, 366i32.to_be_bytes());
    buf.clear();

    let date3 = ymd(2019, 12, 11);
    date3.encode(&mut buf).unwrap();
    assert_eq!(buf, 7284i32.to_be_bytes());
    buf.clear();
}

#[test]
fn test_decode_date() {
    let buf = [0; 4];
    let date = NaiveDate::decode(&buf).unwrap();
    assert_eq!(date.to_string(), "2000-01-01");

    let buf = 366i32.to_be_bytes();
    let date = NaiveDate::decode(&buf).unwrap();
    assert_eq!(date.to_string(), "2001-01-01");

    let buf = 7284i32.to_be_bytes();
    let date = NaiveDate::decode(&buf).unwrap();
    assert_eq!(date.to_string(), "2019-12-11");
}

#[test]
fn integers_are_big_endian_twos_complement() {
    let mut buf = Vec::new();
    encode_i32(-2, &mut buf);
    assert_eq!(buf, [0xff, 0xff, 0xff, 0xfe]);
    encode_i64(0x0102_0304_0506_0708, &mut buf);
    assert_eq!(buf[4..], [1, 2, 3, 4, 5, 6, 7, 8]);
    assert_eq!(decode_i32(&[0x80, 0, 0, 0]), Ok(i32::MIN));
    assert_eq!(decode_i64(&i64::MAX.to_be_bytes()), Ok(i64::MAX));
    assert_eq!(decode_i64(&(-5i64).to_be_bytes()), Ok(-5));
}

#[test]
fn wrong_widths_are_rejected() {
    assert_eq!(
        NaiveDate::decode(&[0, 0, 0]),
        Err(DecodeError::InvalidLength { expected: 4, actual: 3 })
    );
    assert_eq!(
        NaiveTime::decode(&[0; 4]),
        Err(DecodeError::InvalidLength { expected: 8, actual: 4 })
    );
    assert_eq!(
        NaiveDateTime::decode(&[0; 9]),
        Err(DecodeError::InvalidLength { expected: 8, actual: 9 })
    );
    assert_eq!(
        DateTime::decode(&[]),
        Err(DecodeError::InvalidLength { expected: 8, actual: 0 })
    );
    assert_eq!(
        decode(WireKind::Date, &[0; 8]),
        Err(DecodeError::InvalidLength { expected: 4, actual: 8 })
    );
}

#[test]
fn epoch_encodes_to_zero_bytes() {
    let mut buf = Vec::new();
    NaiveTime::midnight().encode(&mut buf);
    assert_eq!(buf, [0; 8]);
    buf.clear();
    ymd_hms(2000, 1, 1, 0, 0, 0).encode(&mut buf).unwrap();
    assert_eq!(buf, [0; 8]);
}

#[test]
fn dates_before_epoch_are_negative() {
    let mut buf = Vec::new();
    ymd(1999, 12, 31).encode(&mut buf).unwrap();
    assert_eq!(buf, (-1i32).to_be_bytes());
    buf.clear();
    ymd(1900, 3, 1).encode(&mut buf).unwrap();
    assert_eq!(buf, (-36465i32).to_be_bytes());
    assert_eq!(NaiveDate::decode(&(-36465i32).to_be_bytes()).unwrap().to_string(), "1900-03-01");
}

#[test]
fn time_of_day_scales_to_microseconds() {
    let mut buf = Vec::new();
    let t = NaiveTime::from_hms_micro(23, 59, 59, 999_999).unwrap();
    t.encode(&mut buf);
    assert_eq!(buf, 86_399_999_999i64.to_be_bytes());
    assert_eq!(NaiveTime::decode(&buf), Ok(t));
    assert_eq!(t.to_string(), "23:59:59.999999");
    assert_eq!(NaiveTime::from_hms_micro(1, 2, 3, 500_000).unwrap().to_string(), "01:02:03.500");
    assert_eq!(NaiveTime::from_hms(24, 0, 0), None);
}

#[test]
fn time_beyond_one_day_wraps_around_midnight() {
    let t = NaiveTime::decode(&(86_400_000_000i64 + 5).to_be_bytes()).unwrap();
    assert_eq!(t.micros, 5);
    let t = NaiveTime::decode(&(-1i64).to_be_bytes()).unwrap();
    assert_eq!(t.micros, 86_399_999_999);
}

#[test]
fn values_survive_a_round_trip() {
    let values = [
        TemporalValue::Date(ymd(-4713, 11, 24)),
        TemporalValue::Date(ymd(2024, 2, 29)),
        TemporalValue::Time(NaiveTime::from_hms_micro(12, 34, 56, 789).unwrap()),
        TemporalValue::Timestamp(ymd_hms(1970, 1, 1, 0, 0, 1)),
        TemporalValue::Timestamp(ymd_hms(294_276, 12, 31, 23, 59, 59)),
        TemporalValue::TimestampTz(DateTime::from_utc(
            ymd_hms(2019, 12, 11, 11, 1, 5),
            FixedOffset::utc(),
        )),
    ];
    for v in values.iter() {
        let mut buf = Vec::new();
        encode(v, &mut buf).unwrap();
        assert_eq!(buf.len(), v.size_hint());
        assert_eq!(decode(v.kind(), &buf), Ok(*v));
    }
}

#[test]
fn decoded_timestamp_matches_calendar() {
    let buf = 629_377_265_000_000i64.to_be_bytes();
    let ts = NaiveDateTime::decode(&buf).unwrap();
    assert_eq!(ts, ymd_hms(2019, 12, 11, 11, 1, 5));
    assert_eq!(ts.date.ymd(), (2019, 12, 11));
    assert_eq!((ts.time.hour(), ts.time.minute(), ts.time.second()), (11, 1, 5));
}

#[test]
fn zone_is_erased_on_the_wire() {
    let instant = ymd_hms(2019, 12, 11, 11, 1, 5);
    let utc = DateTime::from_utc(instant, FixedOffset::utc());
    let east = FixedOffset::east(5 * 3600 + 30 * 60).unwrap();
    let local = DateTime::from_local(utc.with_offset(east).naive_local().unwrap(), east).unwrap();
    assert_eq!(local.naive_local().unwrap(), ymd_hms(2019, 12, 11, 16, 31, 5));
    let (mut a, mut b) = (Vec::new(), Vec::new());
    utc.encode(&mut a).unwrap();
    local.encode(&mut b).unwrap();
    assert_eq!(a, b);
    let back = DateTime::decode_with_offset(&b, east).unwrap();
    assert_eq!(back, local);
    assert_eq!(DateTime::decode(&b).unwrap(), utc);
}

#[test]
fn date_outside_i32_days_fails_to_encode() {
    let far = ymd(6_000_000, 1, 1);
    let mut buf = vec![7u8];
    assert_eq!(far.encode(&mut buf), Err(EncodeError::DateOutOfRange(far)));
    assert_eq!(buf, [7]);
    let near = NaiveDate::from_day_number(i32::MAX as i64).unwrap();
    assert!(near.encode(&mut buf).is_ok());
    let past = NaiveDate::from_day_number(i32::MIN as i64 - 1).unwrap();
    assert!(matches!(past.encode(&mut Vec::new()), Err(EncodeError::DateOutOfRange(_))));
    assert_eq!(NaiveDate::decode(&i32::MIN.to_be_bytes()).unwrap().days, i32::MIN as i64);
}

#[test]
fn timestamp_outside_i64_micros_fails_to_encode() {
    let far = ymd_hms(300_000, 1, 1, 0, 0, 0);
    let mut buf = Vec::new();
    assert_eq!(far.encode(&mut buf), Err(EncodeError::TimestampOutOfRange(far)));
    assert!(buf.is_empty());
    let last = NaiveDateTime::decode(&i64::MAX.to_be_bytes()).unwrap();
    last.encode(&mut buf).unwrap();
    assert_eq!(buf, i64::MAX.to_be_bytes());
    assert_eq!(last.to_string(), "+294277-01-09 04:00:54.775807");
}

#[test]
fn invalid_calendar_dates_are_refused() {
    assert_eq!(NaiveDate::from_ymd(2023, 2, 29), None);
    assert_eq!(NaiveDate::from_ymd(1900, 2, 29), None);
    assert!(NaiveDate::from_ymd(2000, 2, 29).is_some());
    assert_eq!(NaiveDate::from_ymd(2024, 13, 1), None);
    assert_eq!(NaiveDate::from_ymd(2024, 4, 31), None);
    assert_eq!(ymd(-1, 12, 31).to_string(), "-0001-12-31");
    assert_eq!(ymd(i32::MAX, 12, 31).ymd(), (i32::MAX, 12, 31));
    assert_eq!(ymd(i32::MIN, 1, 1).ymd(), (i32::MIN, 1, 1));
}
