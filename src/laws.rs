//! What holds across encoding and decoding.

use vstd::prelude::*;
use vstd::arithmetic::div_mod::lemma_fundamental_div_mod_converse;
use crate::temporal::{
    datetime_of_micros, micros_in_range, DateTime, FixedOffset, NaiveDate, NaiveDateTime, NaiveTime,
    MICROS_PER_DAY, MICROS_PER_SECOND,
};
use crate::wire::{be_signed_value, lemma_be_signed_bytes_of_value, lemma_be_signed_round_trip, lemma_pow256_values};

verus! {

/// Every date with a wire form decodes from it to itself.
pub proof fn lemma_date_round_trip(d: NaiveDate)
    requires
        d.wire().is_some(),
    ensures
        d.wire().unwrap().len() == 4,
        NaiveDate::decoded(d.wire().unwrap()) == d,
{
    lemma_pow256_values();
    lemma_be_signed_round_trip(d.days as int, 4);
}

/// Every four bytes are the wire form of a date: the one they decode to.
pub proof fn lemma_date_bytes_round_trip(raw: Seq<u8>)
    requires
        raw.len() == 4,
    ensures
        NaiveDate::decoded(raw).wire() == Some(raw),
{
    lemma_pow256_values();
    lemma_be_signed_bytes_of_value(raw);
}

/// Every eight bytes are the wire form of a timestamp: the one they decode
/// to.
pub proof fn lemma_datetime_bytes_round_trip(raw: Seq<u8>)
    requires
        raw.len() == 8,
    ensures
        NaiveDateTime::decoded(raw).wire() == Some(raw),
{
    lemma_pow256_values();
    lemma_be_signed_bytes_of_value(raw);
    let m = be_signed_value(raw);
    lemma_split_micros(m);
}

/// Every time of day decodes from its wire form to itself.
pub proof fn lemma_time_round_trip(t: NaiveTime)
    requires
        t.wf(),
    ensures
        t.wire().len() == 8,
        NaiveTime::decoded(t.wire()) == t,
{
    lemma_pow256_values();
    lemma_be_signed_round_trip(t.micros as int, 8);
    lemma_fundamental_div_mod_converse(t.micros as int, MICROS_PER_DAY as int, 0, t.micros as int);
}

/// Every timestamp with a wire form decodes from it to itself.
pub proof fn lemma_datetime_round_trip(ts: NaiveDateTime)
    requires
        ts.wf(),
        ts.wire().is_some(),
    ensures
        ts.wire().unwrap().len() == 8,
        NaiveDateTime::decoded(ts.wire().unwrap()) == ts,
{
    lemma_pow256_values();
    lemma_be_signed_round_trip(ts.micros_since_epoch(), 8);
    lemma_fundamental_div_mod_converse(
        ts.micros_since_epoch(),
        MICROS_PER_DAY as int,
        ts.date.days as int,
        ts.time.micros as int,
    );
}

/// Every zoned timestamp with a wire form decodes from it, at its own
/// offset, to itself.
pub proof fn lemma_zoned_round_trip(z: DateTime)
    requires
        z.wf(),
        z.wire().is_some(),
    ensures
        z.wire().unwrap().len() == 8,
        DateTime::decoded(z.wire().unwrap(), z.offset) == z,
{
    lemma_datetime_round_trip(z.utc);
}

/// The wire form of a zoned timestamp depends on its instant alone: the
/// same instant shown at any two offsets encodes to the same bytes.
pub proof fn lemma_zone_erasure(a: DateTime, b: DateTime)
    requires
        a.utc == b.utc,
    ensures
        a.wire() == b.wire(),
{
}

/// Splitting a count of microseconds into a day and a time of day loses
/// nothing.
pub proof fn lemma_split_micros(m: int)
    requires
        micros_in_range(m),
    ensures
        datetime_of_micros(m).wf(),
        datetime_of_micros(m).micros_since_epoch() == m,
{
    let per_day = MICROS_PER_DAY as int;
    vstd::arithmetic::div_mod::lemma_fundamental_div_mod(m, per_day);
    vstd::arithmetic::div_mod::lemma_mod_bound(m, per_day);
    assert(m / per_day < 784351565820) by (nonlinear_arith)
        requires
            m < 784351565820 * per_day,
            m == per_day * (m / per_day) + m % per_day,
            0 <= m % per_day,
            per_day > 0,
    ;
    assert(m / per_day >= -784353026790) by (nonlinear_arith)
        requires
            m >= -784353026790 * per_day,
            m == per_day * (m / per_day) + m % per_day,
            m % per_day < per_day,
            per_day > 0,
    ;
}

/// An instant shown at any offset and read back at that offset is the same
/// instant, and so has the same wire form as when shown in UTC.
pub proof fn lemma_local_time_erasure(z: DateTime, offset: FixedOffset)
    requires
        z.wf(),
        offset.wf(),
        micros_in_range(z.utc.micros_since_epoch() + offset.seconds_east * MICROS_PER_SECOND),
    ensures
        ({
            let shift = offset.seconds_east * MICROS_PER_SECOND;
            let local = datetime_of_micros(z.utc.micros_since_epoch() + shift);
            let utc = datetime_of_micros(local.micros_since_epoch() - shift);
            &&& micros_in_range(local.micros_since_epoch() - shift)
            &&& utc == z.utc
            &&& (DateTime { utc, offset }).wire() == (DateTime {
                utc: z.utc,
                offset: FixedOffset { seconds_east: 0 },
            }).wire()
        }),
{
    let shift = offset.seconds_east * MICROS_PER_SECOND;
    lemma_split_micros(z.utc.micros_since_epoch() + shift);
    lemma_fundamental_div_mod_converse(
        z.utc.micros_since_epoch(),
        MICROS_PER_DAY as int,
        z.utc.date.days as int,
        z.utc.time.micros as int,
    );
}

} // verus!
