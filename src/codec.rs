//! One entry point for the four temporal column types, chosen by a tag.

use vstd::prelude::*;
use crate::temporal::{DateTime, EncodeError, FixedOffset, NaiveDate, NaiveDateTime, NaiveTime};
use crate::wire::DecodeError;

verus! {

/// The temporal column types that have a binary wire form.
#[derive(Clone, Copy, Debug, PartialEq, Eq, Structural)]
pub enum WireKind {
    Date,
    Time,
    Timestamp,
    TimestampTz,
}

/// A value of one of the temporal column types.
#[derive(Clone, Copy, Debug, PartialEq, Eq, Structural)]
pub enum TemporalValue {
    Date(NaiveDate),
    Time(NaiveTime),
    Timestamp(NaiveDateTime),
    TimestampTz(DateTime),
}

/// Width in bytes of the wire form of `kind`.
pub open spec fn wire_len(kind: WireKind) -> nat {
    match kind {
        WireKind::Date => 4,
        _ => 8,
    }
}

/// The value of type `kind` that wire bytes of the right width stand for;
/// zoned timestamps come out in UTC.
pub open spec fn decoded_value(kind: WireKind, raw: Seq<u8>) -> TemporalValue {
    match kind {
        WireKind::Date => TemporalValue::Date(NaiveDate::decoded(raw)),
        WireKind::Time => TemporalValue::Time(NaiveTime::decoded(raw)),
        WireKind::Timestamp => TemporalValue::Timestamp(NaiveDateTime::decoded(raw)),
        WireKind::TimestampTz => TemporalValue::TimestampTz(
            DateTime::decoded(raw, FixedOffset { seconds_east: 0 }),
        ),
    }
}

impl TemporalValue {
    pub open spec fn wf(self) -> bool {
        match self {
            TemporalValue::Time(t) => t.wf(),
            _ => true,
        }
    }

    pub open spec fn spec_kind(self) -> WireKind {
        match self {
            TemporalValue::Date(_) => WireKind::Date,
            TemporalValue::Time(_) => WireKind::Time,
            TemporalValue::Timestamp(_) => WireKind::Timestamp,
            TemporalValue::TimestampTz(_) => WireKind::TimestampTz,
        }
    }

    /// The wire form, if the value has one.
    pub open spec fn wire(self) -> Option<Seq<u8>> {
        match self {
            TemporalValue::Date(d) => d.wire(),
            TemporalValue::Time(t) => Some(t.wire()),
            TemporalValue::Timestamp(ts) => ts.wire(),
            TemporalValue::TimestampTz(z) => z.wire(),
        }
    }

    pub fn kind(&self) -> (r: WireKind)
        ensures
            r == self.spec_kind(),
    {
        match self {
            TemporalValue::Date(_) => WireKind::Date,
            TemporalValue::Time(_) => WireKind::Time,
            TemporalValue::Timestamp(_) => WireKind::Timestamp,
            TemporalValue::TimestampTz(_) => WireKind::TimestampTz,
        }
    }

    /// Bytes that `encode` appends.
    pub fn size_hint(&self) -> (r: usize)
        ensures
            r == wire_len(self.spec_kind()),
    {
        match self {
            TemporalValue::Date(d) => d.size_hint(),
            TemporalValue::Time(t) => t.size_hint(),
            TemporalValue::Timestamp(ts) => ts.size_hint(),
            TemporalValue::TimestampTz(z) => z.size_hint(),
        }
    }
}

/// Reads a value of type `kind` from wire bytes of exactly its width.
pub fn decode(kind: WireKind, raw: &[u8]) -> (r: Result<TemporalValue, DecodeError>)
    ensures
        raw@.len() == wire_len(kind) ==> r == Ok::<TemporalValue, DecodeError>(
            decoded_value(kind, raw@),
        ),
        raw@.len() != wire_len(kind) ==> r == Err::<TemporalValue, DecodeError>(
            DecodeError::InvalidLength {
                expected: wire_len(kind) as usize,
                actual: raw@.len() as usize,
            },
        ),
{
    match kind {
        WireKind::Date => match NaiveDate::decode(raw) {
            Ok(d) => Ok(TemporalValue::Date(d)),
            Err(e) => Err(e),
        },
        WireKind::Time => match NaiveTime::decode(raw) {
            Ok(t) => Ok(TemporalValue::Time(t)),
            Err(e) => Err(e),
        },
        WireKind::Timestamp => match NaiveDateTime::decode(raw) {
            Ok(ts) => Ok(TemporalValue::Timestamp(ts)),
            Err(e) => Err(e),
        },
        WireKind::TimestampTz => match DateTime::decode(raw) {
            Ok(z) => Ok(TemporalValue::TimestampTz(z)),
            Err(e) => Err(e),
        },
    }
}

/// Appends the wire form of `value`; fails, leaving `buf` as it was, on a
/// value that has none.
pub fn encode(value: &TemporalValue, buf: &mut Vec<u8>) -> (r: Result<(), EncodeError>)
    requires
        value.wf(),
    ensures
        match value.wire() {
            Some(bytes) => r.is_ok() && final(buf)@ == old(buf)@ + bytes,
            None => final(buf)@ == old(buf)@ && match *value {
                TemporalValue::Date(d) => r == Err::<(), EncodeError>(EncodeError::DateOutOfRange(d)),
                TemporalValue::Timestamp(ts) => r == Err::<(), EncodeError>(
                    EncodeError::TimestampOutOfRange(ts),
                ),
                TemporalValue::TimestampTz(z) => r == Err::<(), EncodeError>(
                    EncodeError::TimestampOutOfRange(z.utc),
                ),
                TemporalValue::Time(_) => false,
            },
        },
{
    match value {
        TemporalValue::Date(d) => d.encode(buf),
        TemporalValue::Time(t) => {
            t.encode(buf);
            Ok(())
        },
        TemporalValue::Timestamp(ts) => ts.encode(buf),
        TemporalValue::TimestampTz(z) => z.encode(buf),
    }
}

} // verus!
