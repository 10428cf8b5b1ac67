//! Time zones of the IANA rules database, as chrono-tz provides them.
use vstd::prelude::*;
use chrono::{Datelike, Offset, TimeZone, Timelike};
use crate::calendar::{FIRST_SECOND, LAST_SECOND};
use crate::timestamp::NaiveTimestamp;

verus! {

#[verifier::external_type_specification]
#[verifier::external_body]
pub struct ExTz(chrono_tz::Tz);

/// Whether the rules database has a zone of this identifier.
pub uninterp spec fn is_known_zone(name: Seq<char>) -> bool;

/// The offset from UTC, in seconds, that the zone of this identifier has at the
/// given instant (seconds since 1970-01-01 00:00:00 UTC).
pub uninterp spec fn utc_offset(zone: Seq<char>, instant: int) -> int;

/// `o` is an offset that the zone has at the instant whose local time in the
/// zone is `local` (both counted in seconds as if UTC).
pub open spec fn is_offset_at(zone: Seq<char>, local: int, o: int) -> bool {
    -86400 < o < 86400 && utc_offset(zone, local - o) == o
}

/// A time zone of the rules database, with the identifier it was found under.
pub struct Zone {
    tz: chrono_tz::Tz,
    name: String,
}

impl View for Zone {
    type V = Seq<char>;

    closed spec fn view(&self) -> Seq<char> {
        self.name@
    }
}

/// How a local time reads in a zone.
pub enum LocalOffsets {
    /// The local time occurs once, at this offset.
    Single(i32),
    /// The local time occurs twice, once at each offset.
    Ambiguous(i32, i32),
    /// The local time is skipped by the zone.
    Gap,
}

/// Relies on `chrono_tz::Tz`'s `FromStr`: finds the zone of an identifier in
/// the compiled rules database.
#[verifier::external_body]
fn find_zone(name: &str) -> (r: Option<Zone>)
    ensures
        r is Some <==> is_known_zone(name@),
        r matches Some(z) ==> z@ == name@,
{
    match name.parse::<chrono_tz::Tz>() {
        Ok(tz) => Some(Zone { tz, name: name.to_string() }),
        Err(_) => None,
    }
}

impl Zone {
    /// Looks a zone up by its identifier, such as `Europe/London`.
    pub fn lookup(name: &str) -> (r: Option<Zone>)
        ensures
            r is Some <==> is_known_zone(name@),
            r matches Some(z) ==> z@ == name@,
    {
        find_zone(name)
    }
}

/// Relies on `TimeZone::offset_from_utc_datetime` of `chrono_tz::Tz` and on
/// chrono's `FixedOffset`, whose offset lies strictly within a day.
#[verifier::external_body]
pub(crate) fn offset_at_instant(zone: &Zone, instant: i64) -> (r: i32)
    requires
        FIRST_SECOND <= instant <= LAST_SECOND,
    ensures
        r as int == utc_offset(zone@, instant as int),
        -86400 < r < 86400,
{
    let utc = chrono::DateTime::from_timestamp(instant, 0).unwrap().naive_utc();
    zone.tz.offset_from_utc_datetime(&utc).fix().local_minus_utc()
}

/// Relies on `TimeZone::offset_from_local_datetime` of `chrono_tz::Tz`: a
/// single result is the unique offset at which the local time occurs, an
/// ambiguous one gives two offsets at which it occurs, and none means that it
/// does not occur.
#[verifier::external_body]
pub(crate) fn offsets_at_local(zone: &Zone, local: &NaiveTimestamp) -> (r: LocalOffsets)
    requires
        local.is_valid(),
        0 <= local.year <= 9999,
    ensures
        r matches LocalOffsets::Single(o) ==> is_offset_at(zone@, local.seconds(), o as int) && (
        forall|o2: int| #[trigger] is_offset_at(zone@, local.seconds(), o2) ==> o2 == o),
        r matches LocalOffsets::Ambiguous(a, b) ==> is_offset_at(zone@, local.seconds(), a as int)
            && is_offset_at(zone@, local.seconds(), b as int) && a != b,
        r is Gap ==> forall|o: int| !#[trigger] is_offset_at(zone@, local.seconds(), o),
{
    let naive = chrono::NaiveDate::from_ymd_opt(local.year, local.month, local.day).unwrap()
        .and_hms_opt(local.hour, local.minute, local.second).unwrap();
    match zone.tz.offset_from_local_datetime(&naive) {
        chrono::LocalResult::Single(o) => LocalOffsets::Single(o.fix().local_minus_utc()),
        chrono::LocalResult::Ambiguous(a, b) => LocalOffsets::Ambiguous(
            a.fix().local_minus_utc(),
            b.fix().local_minus_utc(),
        ),
        chrono::LocalResult::None => LocalOffsets::Gap,
    }
}

/// Relies on chrono's `NaiveDateTime::and_utc` and `DateTime::timestamp`:
/// the seconds from 1970-01-01 00:00:00 to a date-time read as UTC.
#[verifier::external_body]
pub(crate) fn seconds_of(t: &NaiveTimestamp) -> (r: i64)
    requires
        t.is_valid(),
        0 <= t.year <= 9999,
    ensures
        r as int == t.seconds(),
{
    chrono::NaiveDate::from_ymd_opt(t.year, t.month, t.day).unwrap()
        .and_hms_opt(t.hour, t.minute, t.second).unwrap().and_utc().timestamp()
}

/// Relies on chrono's `DateTime::from_timestamp`: the UTC date-time that lies
/// the given seconds after 1970-01-01 00:00:00.
#[verifier::external_body]
pub(crate) fn timestamp_at(seconds: i64) -> (r: NaiveTimestamp)
    requires
        FIRST_SECOND <= seconds <= LAST_SECOND,
    ensures
        r.is_valid(),
        r.seconds() == seconds as int,
{
    let dt = chrono::DateTime::from_timestamp(seconds, 0).unwrap().naive_utc();
    NaiveTimestamp {
        year: dt.year(),
        month: dt.month(),
        day: dt.day(),
        hour: dt.hour(),
        minute: dt.minute(),
        second: dt.second(),
    }
}

} // verus!
