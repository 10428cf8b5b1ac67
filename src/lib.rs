//! Converts a wall-clock timestamp written `YYYY/MM/DD HH:MM:SS` from one
//! IANA time zone to another.

pub mod calendar;
pub mod convert;
pub mod error;
pub mod timestamp;
pub mod zone;
