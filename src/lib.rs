//! Binary wire codec for PostgreSQL's `date`, `time`, `timestamp` and
//! `timestamptz` column types.

pub mod wire;
pub mod calendar;
pub mod temporal;
pub mod codec;
pub mod text;
pub mod laws;
