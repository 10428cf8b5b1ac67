//! The ways a conversion can fail.
use vstd::prelude::*;

verus! {

#[derive(Clone, Copy, Debug, PartialEq, Eq, Structural)]
pub enum ConvertError {
    /// The timestamp does not follow `YYYY/MM/DD HH:MM:SS` or names no real date-time.
    Parse,
    /// A time zone identifier names no zone of the rules database.
    UnknownTimezone,
    /// The local time falls in a gap of the source zone, or occurs twice in it.
    AmbiguousOrNonexistentLocalTime,
}

} // verus!
