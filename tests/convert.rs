use tzconv::convert::convert;
use tzconv::error::ConvertError;
use tzconv::timestamp::{format_timestamp, is_valid_timestamp, parse_timestamp, NaiveTimestamp};
use tzconv::zone::Zone;

#[test]
fn tokyo_to_london_ok() {
    let expected = "2019/12/07 10:31:28";
    let actual = convert("2019/12/07 19:31:28", "Asia/Tokyo", "Europe/London").unwrap();
    assert_eq!(expected, actual);
}

#[test]
fn london_to_tokyo_ok() {
    let expected = "2019/12/07 19:31:28";
    let actual = convert("2019/12/07 10:31:28", "Europe/London", "Asia/Tokyo").unwrap();
    assert_eq!(expected, actual);
}

#[test]
fn tokyo_to_chicago_ok() {
    // out of summer time in Chicago
    let expected = "2019/12/07 04:31:28";
    let actual = convert("2019/12/07 19:31:28", "Asia/Tokyo", "America/Chicago").unwrap();
    assert_eq!(expected, actual);
}

#[test]
fn chicago_to_tokyo_ok() {
    // out of summer time in Chicago
    let expected = "2019/12/07 19:31:28";
    let actual = convert("2019/12/07 04:31:28", "America/Chicago", "Asia/Tokyo").unwrap();
    assert_eq!(expected, actual);
}

#[test]
#[should_panic]
fn tokyo_to_invalid_ng() {
    convert("2019/12/07 19:31:28", "Asia/Tokyo", "Hoge/Fuga").unwrap();
}

#[test]
fn unknown_destination_zone_is_reported() {
    let r = convert("2019/12/07 19:31:28", "Asia/Tokyo", "Hoge/Fuga");
    assert_eq!(r, Err(ConvertError::UnknownTimezone));
}

#[test]
fn unknown_source_zone_is_reported() {
    let r = convert("2019/12/07 19:31:28", "Hoge/Fuga", "Asia/Tokyo");
    assert_eq!(r, Err(ConvertError::UnknownTimezone));
}

#[test]
fn unknown_zone_comes_before_a_bad_timestamp() {
    let r = convert("garbage", "Asia/Tokyo", "Nowhere/Else");
    assert_eq!(r, Err(ConvertError::UnknownTimezone));
}

#[test]
fn wrong_punctuation_is_a_parse_error() {
    let r = convert("2019-12-07 19:31:28", "Asia/Tokyo", "Europe/London");
    assert_eq!(r, Err(ConvertError::Parse));
    let r = convert("2019/12/07T19:31:28", "Asia/Tokyo", "Europe/London");
    assert_eq!(r, Err(ConvertError::Parse));
}

#[test]
fn out_of_range_fields_are_parse_errors() {
    for bad in [
        "2019/13/07 19:31:28",
        "2019/00/07 19:31:28",
        "2019/04/31 19:31:28",
        "2019/02/29 19:31:28",
        "1900/02/29 00:00:00",
        "2019/12/07 24:00:00",
        "2019/12/07 19:60:00",
        "2019/12/07 19:31:60",
    ] {
        assert_eq!(convert(bad, "Asia/Tokyo", "Europe/London"), Err(ConvertError::Parse), "{}", bad);
    }
}

#[test]
fn short_or_unpadded_text_is_a_parse_error() {
    for bad in ["", "2019/1/7 19:31:28", "2019/12/07 19:31:2", "2019/12/07 19:31:28 ", "a019/12/07 19:31:28"] {
        assert_eq!(parse_timestamp(bad), Err(ConvertError::Parse), "{}", bad);
    }
}

#[test]
fn leap_days_are_accepted() {
    let t = parse_timestamp("2020/02/29 12:00:00").unwrap();
    assert_eq!(t, NaiveTimestamp { year: 2020, month: 2, day: 29, hour: 12, minute: 0, second: 0 });
    assert!(parse_timestamp("2000/02/29 00:00:00").is_ok());
}

#[test]
fn parse_reads_each_field() {
    let t = parse_timestamp("0001/09/30 23:59:05").unwrap();
    assert_eq!(t, NaiveTimestamp { year: 1, month: 9, day: 30, hour: 23, minute: 59, second: 5 });
}

#[test]
fn format_pads_every_field() {
    let t = NaiveTimestamp { year: 7, month: 1, day: 2, hour: 3, minute: 4, second: 5 };
    assert_eq!(format_timestamp(&t), "0007/01/02 03:04:05");
}

#[test]
fn format_marks_years_outside_four_digits() {
    let t = NaiveTimestamp { year: -1, month: 12, day: 31, hour: 23, minute: 0, second: 0 };
    assert_eq!(format_timestamp(&t), "-0001/12/31 23:00:00");
    let t = NaiveTimestamp { year: 10000, month: 1, day: 1, hour: 0, minute: 0, second: 0 };
    assert_eq!(format_timestamp(&t), "+10000/01/01 00:00:00");
}

#[test]
fn format_inverts_parse() {
    for text in ["2019/12/07 19:31:28", "0000/01/01 00:00:00", "9999/12/31 23:59:59"] {
        assert_eq!(format_timestamp(&parse_timestamp(text).unwrap()), text);
    }
}

#[test]
fn validity_follows_the_calendar() {
    let mut t = NaiveTimestamp { year: 2024, month: 2, day: 29, hour: 0, minute: 0, second: 0 };
    assert!(is_valid_timestamp(&t));
    t.year = 2100;
    assert!(!is_valid_timestamp(&t));
    t.month = 12;
    t.day = 31;
    assert!(is_valid_timestamp(&t));
}

#[test]
fn same_zone_conversion_is_identity() {
    for zone in ["Asia/Tokyo", "America/Chicago", "Europe/London", "UTC"] {
        let text = "2019/07/01 08:15:00";
        assert_eq!(convert(text, zone, zone).unwrap(), text);
    }
}

#[test]
fn round_trip_returns_the_original() {
    let text = "2019/06/15 23:45:10";
    let there = convert(text, "Europe/London", "America/Chicago").unwrap();
    assert_eq!(there, "2019/06/15 17:45:10");
    assert_eq!(convert(&there, "America/Chicago", "Europe/London").unwrap(), text);
}

#[test]
fn fixed_zones_shift_by_the_same_amount_all_year() {
    assert_eq!(convert("2019/01/15 12:00:00", "Asia/Tokyo", "UTC").unwrap(), "2019/01/15 03:00:00");
    assert_eq!(convert("2019/07/15 12:00:00", "Asia/Tokyo", "UTC").unwrap(), "2019/07/15 03:00:00");
    assert_eq!(convert("2019/01/01 05:00:00", "Etc/GMT-5", "UTC").unwrap(), "2019/01/01 00:00:00");
}

#[test]
fn dst_zone_shifts_differently_across_a_transition() {
    assert_eq!(convert("2019/01/15 12:00:00", "America/Chicago", "UTC").unwrap(), "2019/01/15 18:00:00");
    assert_eq!(convert("2019/07/15 12:00:00", "America/Chicago", "UTC").unwrap(), "2019/07/15 17:00:00");
}

#[test]
fn conversion_crosses_a_day_boundary() {
    assert_eq!(convert("2019/01/01 01:00:00", "Asia/Tokyo", "America/Chicago").unwrap(), "2018/12/31 10:00:00");
    assert_eq!(convert("2020/02/28 20:00:00", "America/Chicago", "Asia/Tokyo").unwrap(), "2020/02/29 11:00:00");
}

#[test]
fn skipped_local_time_is_rejected() {
    let r = convert("2019/03/10 02:30:00", "America/Chicago", "UTC");
    assert_eq!(r, Err(ConvertError::AmbiguousOrNonexistentLocalTime));
}

#[test]
fn repeated_local_time_is_rejected() {
    let r = convert("2019/11/03 01:30:00", "America/Chicago", "UTC");
    assert_eq!(r, Err(ConvertError::AmbiguousOrNonexistentLocalTime));
}

#[test]
fn destination_may_be_a_dst_gap_time() {
    assert_eq!(convert("2019/03/10 08:30:00", "UTC", "America/Chicago").unwrap(), "2019/03/10 03:30:00");
}

#[test]
fn zone_lookup_knows_database_names_only() {
    assert!(Zone::lookup("Europe/London").is_some());
    assert!(Zone::lookup("Hoge/Fuga").is_none());
    assert!(Zone::lookup("").is_none());
}
