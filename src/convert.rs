//! Converting a wall-clock timestamp from one time zone to another.
use vstd::prelude::*;
use crate::calendar::{lemma_four_digit_year_range, lemma_seconds_injective, lemma_year_bounds};
use crate::error::ConvertError;
use crate::timestamp::{
    format_spec, format_timestamp, lemma_format_parse, lemma_parse_format, lemma_parsed_year,
    parse_spec, parse_timestamp, NaiveTimestamp,
};
use crate::zone::{
    is_known_zone, is_offset_at, offset_at_instant, offsets_at_local, seconds_of, timestamp_at,
    utc_offset, LocalOffsets, Zone,
};

verus! {

/// The local time `local` occurs exactly once in the zone.
pub open spec fn has_unique_offset(zone: Seq<char>, local: int) -> bool {
    exists|o: int|
        is_offset_at(zone, local, o) && forall|o2: int| #[trigger]
            is_offset_at(zone, local, o2) ==> o2 == o
}

/// `v` is the wall-clock time in zone `to` of the instant at which the clocks
/// of zone `from` read `local`, the source zone being at offset `o` then.
pub open spec fn converts_at_offset(
    from: Seq<char>,
    to: Seq<char>,
    local: int,
    o: int,
    v: NaiveTimestamp,
) -> bool {
    let instant = local - o;
    &&& is_offset_at(from, local, o)
    &&& -86400 < utc_offset(to, instant) < 86400
    &&& v.seconds() == instant + utc_offset(to, instant)
}

/// `v` is the wall-clock time in zone `to` of the instant at which the clocks
/// of zone `from` read the timestamp text `date`.
pub open spec fn converted_value(
    date: Seq<char>,
    from: Seq<char>,
    to: Seq<char>,
    v: NaiveTimestamp,
) -> bool {
    &&& parse_spec(date) is Some
    &&& v.is_valid()
    &&& exists|o: int| converts_at_offset(from, to, parse_spec(date)->Some_0.seconds(), o, v)
}

/// `out` is the text of a conversion of `date` from zone `from` to zone `to`.
pub open spec fn converts_to(date: Seq<char>, from: Seq<char>, to: Seq<char>, out: Seq<char>) -> bool {
    exists|v: NaiveTimestamp| converted_value(date, from, to, v) && out == format_spec(v)
}

/// Both zones are known, the text is a timestamp, and that local time occurs
/// exactly once in the source zone.
pub open spec fn conversion_succeeds(date: Seq<char>, from: Seq<char>, to: Seq<char>) -> bool {
    &&& is_known_zone(from)
    &&& is_known_zone(to)
    &&& parse_spec(date) is Some
    &&& has_unique_offset(from, parse_spec(date)->Some_0.seconds())
}

/// Reads `date` (`YYYY/MM/DD HH:MM:SS`) as a wall-clock time of the zone
/// `from_tz` and gives the wall-clock time of the same instant in `to_tz`, in
/// the same form.
pub fn convert(date: &str, from_tz: &str, to_tz: &str) -> (r: Result<String, ConvertError>)
    ensures
        !is_known_zone(from_tz@) || !is_known_zone(to_tz@) ==> r == Err::<String, ConvertError>(
            ConvertError::UnknownTimezone,
        ),
        is_known_zone(from_tz@) && is_known_zone(to_tz@) && parse_spec(date@) is None ==> r == Err::<
            String,
            ConvertError,
        >(ConvertError::Parse),
        is_known_zone(from_tz@) && is_known_zone(to_tz@) && parse_spec(date@) is Some
            && !has_unique_offset(from_tz@, parse_spec(date@)->Some_0.seconds()) ==> r == Err::<
            String,
            ConvertError,
        >(ConvertError::AmbiguousOrNonexistentLocalTime),
        r is Ok <==> conversion_succeeds(date@, from_tz@, to_tz@),
        r matches Ok(out) ==> converts_to(date@, from_tz@, to_tz@, out@),
{
    let from = match Zone::lookup(from_tz) {
        Some(z) => z,
        None => {
            return Err(ConvertError::UnknownTimezone);
        },
    };
    let to = match Zone::lookup(to_tz) {
        Some(z) => z,
        None => {
            return Err(ConvertError::UnknownTimezone);
        },
    };
    let t = match parse_timestamp(date) {
        Ok(t) => t,
        Err(e) => {
            return Err(e);
        },
    };
    proof {
        lemma_four_digit_year_range(
            t.year as int,
            t.month as int,
            t.day as int,
            t.hour as int,
            t.minute as int,
            t.second as int,
        );
    }
    let local = seconds_of(&t);
    let o = match offsets_at_local(&from, &t) {
        LocalOffsets::Single(o) => o,
        LocalOffsets::Ambiguous(a, b) => {
            assert(!has_unique_offset(from_tz@, t.seconds())) by {
                if has_unique_offset(from_tz@, t.seconds()) {
                    let w = choose|w: int|
                        is_offset_at(from_tz@, t.seconds(), w) && forall|o2: int| #[trigger]
                            is_offset_at(from_tz@, t.seconds(), o2) ==> o2 == w;
                    assert(a as int == w && b as int == w);
                }
            }
            return Err(ConvertError::AmbiguousOrNonexistentLocalTime);
        },
        LocalOffsets::Gap => {
            assert(!has_unique_offset(from_tz@, t.seconds()));
            return Err(ConvertError::AmbiguousOrNonexistentLocalTime);
        },
    };
    let instant = local - o as i64;
    let shift = offset_at_instant(&to, instant);
    let v = timestamp_at(instant + shift as i64);
    proof {
        lemma_year_bounds(
            v.year as int,
            v.month as int,
            v.day as int,
            v.hour as int,
            v.minute as int,
            v.second as int,
        );
        assert(t == parse_spec(date@)->Some_0);
        assert(converts_at_offset(from_tz@, to_tz@, parse_spec(date@)->Some_0.seconds(), o as int, v));
        assert(converted_value(date@, from_tz@, to_tz@, v));
    }
    Ok(format_timestamp(&v))
}


/// Two valid timestamps with the same second count are equal.
pub proof fn lemma_same_seconds(v1: NaiveTimestamp, v2: NaiveTimestamp)
    requires
        v1.is_valid(),
        v2.is_valid(),
        v1.seconds() == v2.seconds(),
    ensures
        v1 == v2,
{
    lemma_seconds_injective(
        v1.year as int,
        v1.month as int,
        v1.day as int,
        v1.hour as int,
        v1.minute as int,
        v1.second as int,
        v2.year as int,
        v2.month as int,
        v2.day as int,
        v2.hour as int,
        v2.minute as int,
        v2.second as int,
    );
}

/// Where the local time occurs once in the source zone, a conversion has one result.
pub proof fn lemma_conversion_is_functional(
    date: Seq<char>,
    from: Seq<char>,
    to: Seq<char>,
    v1: NaiveTimestamp,
    v2: NaiveTimestamp,
)
    requires
        converted_value(date, from, to, v1),
        converted_value(date, from, to, v2),
        has_unique_offset(from, parse_spec(date)->Some_0.seconds()),
    ensures
        v1 == v2,
{
    let local = parse_spec(date)->Some_0.seconds();
    let o1 = choose|o: int| converts_at_offset(from, to, local, o, v1);
    let o2 = choose|o: int| converts_at_offset(from, to, local, o, v2);
    let w = choose|w: int|
        is_offset_at(from, local, w) && forall|o3: int| #[trigger]
            is_offset_at(from, local, o3) ==> o3 == w;
    assert(o1 == w && o2 == w);
    lemma_same_seconds(v1, v2);
}

/// The text form of a timestamp is 19 characters long exactly when its year
/// has four digits.
proof fn lemma_format_length(v: NaiveTimestamp)
    ensures
        format_spec(v).len() == 19 <==> 0 <= v.year <= 9999,
{
}

/// Converting a timestamp from a zone to the same zone gives it back.
pub proof fn lemma_same_zone_is_identity(date: Seq<char>, zone: Seq<char>)
    requires
        conversion_succeeds(date, zone, zone),
    ensures
        converts_to(date, zone, zone, date),
        forall|out: Seq<char>| converts_to(date, zone, zone, out) ==> out == date,
{
    let t = parse_spec(date)->Some_0;
    lemma_parsed_year(date);
    lemma_format_parse(date);
    let w = choose|w: int|
        is_offset_at(zone, t.seconds(), w) && forall|o3: int| #[trigger]
            is_offset_at(zone, t.seconds(), o3) ==> o3 == w;
    assert(converts_at_offset(zone, zone, parse_spec(date)->Some_0.seconds(), w, t));
    assert(converted_value(date, zone, zone, t));
    assert forall|out: Seq<char>| converts_to(date, zone, zone, out) implies out == date by {
        let v = choose|v: NaiveTimestamp| converted_value(date, zone, zone, v) && out == format_spec(v);
        lemma_conversion_is_functional(date, zone, zone, v, t);
    }
}

/// The instant reached from `local` in zone `a` reads back as `local` from zone `b`.
proof fn lemma_offset_reverses(a: Seq<char>, b: Seq<char>, local: int, oa: int, v: NaiveTimestamp)
    requires
        converts_at_offset(a, b, local, oa, v),
    ensures
        forall|t: NaiveTimestamp|
            t.is_valid() && t.seconds() == local ==> #[trigger] converts_at_offset(
                b,
                a,
                v.seconds(),
                utc_offset(b, local - oa),
                t,
            ),
{
}

/// Converting from `a` to `b` and the result back from `b` to `a` gives the
/// original text, where the local time occurs once in each zone and the
/// intermediate year has four digits.
pub proof fn lemma_round_trip(date: Seq<char>, a: Seq<char>, b: Seq<char>, out: Seq<char>)
    requires
        conversion_succeeds(date, a, b),
        converts_to(date, a, b, out),
        conversion_succeeds(out, b, a),
    ensures
        converts_to(out, b, a, date),
        forall|back: Seq<char>| converts_to(out, b, a, back) ==> back == date,
{
    let t = parse_spec(date)->Some_0;
    lemma_parsed_year(date);
    lemma_format_parse(date);
    let v = choose|v: NaiveTimestamp| converted_value(date, a, b, v) && out == format_spec(v);
    let oa = choose|o: int| converts_at_offset(a, b, t.seconds(), o, v);
    lemma_format_length(v);
    lemma_parse_format(v);
    assert(parse_spec(out) == Some(v));
    let ob = utc_offset(b, t.seconds() - oa);
    lemma_offset_reverses(a, b, t.seconds(), oa, v);
    assert(converts_at_offset(b, a, v.seconds(), ob, t));
    assert(converted_value(out, b, a, t));
    assert forall|back: Seq<char>| converts_to(out, b, a, back) implies back == date by {
        let v2 = choose|v2: NaiveTimestamp| converted_value(out, b, a, v2) && back == format_spec(v2);
        lemma_conversion_is_functional(out, b, a, v2, t);
    }
}

/// Between two zones that each keep one offset at all times, a conversion
/// shifts every timestamp by the same number of seconds, whatever its date.
pub proof fn lemma_fixed_zones_shift_by_constant(
    date: Seq<char>,
    a: Seq<char>,
    b: Seq<char>,
    ca: int,
    cb: int,
    v: NaiveTimestamp,
)
    requires
        forall|i: int| #[trigger] utc_offset(a, i) == ca,
        forall|i: int| #[trigger] utc_offset(b, i) == cb,
        converted_value(date, a, b, v),
    ensures
        v.seconds() == parse_spec(date)->Some_0.seconds() + cb - ca,
{
    let local = parse_spec(date)->Some_0.seconds();
    let o = choose|o: int| converts_at_offset(a, b, local, o, v);
    assert(utc_offset(a, local - o) == ca);
    assert(utc_offset(b, local - o) == cb);
}

} // verus!
