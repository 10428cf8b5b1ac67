//! Naive timestamps and their one text form, `YYYY/MM/DD HH:MM:SS`.
use vstd::prelude::*;
use crate::calendar::{is_valid_date, is_valid_time, seconds_since_epoch};
use crate::error::ConvertError;

verus! {

/// A calendar date-time with no time zone attached.
#[derive(Clone, Copy, Debug, PartialEq, Eq, Structural)]
pub struct NaiveTimestamp {
    pub year: i32,
    pub month: u32,
    pub day: u32,
    pub hour: u32,
    pub minute: u32,
    pub second: u32,
}

impl NaiveTimestamp {
    /// The fields name a real day and a time of day without a leap second.
    pub open spec fn is_valid(&self) -> bool {
        is_valid_date(self.year as int, self.month as int, self.day as int) && is_valid_time(
            self.hour as int,
            self.minute as int,
            self.second as int,
        )
    }

    /// Seconds from 1970-01-01 00:00:00 to this date-time read as UTC.
    pub open spec fn seconds(&self) -> int {
        seconds_since_epoch(
            self.year as int,
            self.month as int,
            self.day as int,
            self.hour as int,
            self.minute as int,
            self.second as int,
        )
    }
}

pub open spec fn digit_value(c: char) -> Option<int> {
    if c == '0' {
        Some(0)
    } else if c == '1' {
        Some(1)
    } else if c == '2' {
        Some(2)
    } else if c == '3' {
        Some(3)
    } else if c == '4' {
        Some(4)
    } else if c == '5' {
        Some(5)
    } else if c == '6' {
        Some(6)
    } else if c == '7' {
        Some(7)
    } else if c == '8' {
        Some(8)
    } else if c == '9' {
        Some(9)
    } else {
        None
    }
}

pub open spec fn digit_char(d: int) -> char {
    if d == 0 {
        '0'
    } else if d == 1 {
        '1'
    } else if d == 2 {
        '2'
    } else if d == 3 {
        '3'
    } else if d == 4 {
        '4'
    } else if d == 5 {
        '5'
    } else if d == 6 {
        '6'
    } else if d == 7 {
        '7'
    } else if d == 8 {
        '8'
    } else {
        '9'
    }
}

pub open spec fn is_digit(c: char) -> bool {
    digit_value(c) is Some
}

pub open spec fn dv(c: char) -> int {
    digit_value(c)->Some_0
}

/// The number written by the two digits of `s` at `i`.
pub open spec fn number2(s: Seq<char>, i: int) -> int {
    dv(s[i]) * 10 + dv(s[i + 1])
}

/// The number written by the four digits of `s` at `i`.
pub open spec fn number4(s: Seq<char>, i: int) -> int {
    dv(s[i]) * 1000 + dv(s[i + 1]) * 100 + dv(s[i + 2]) * 10 + dv(s[i + 3])
}

pub open spec fn two_digits(n: int) -> Seq<char> {
    seq![digit_char(n / 10), digit_char(n % 10)]
}

pub open spec fn four_digits(n: int) -> Seq<char> {
    seq![digit_char(n / 1000), digit_char(n / 100 % 10), digit_char(n / 10 % 10), digit_char(n % 10)]
}

/// `s` has the shape `DDDD/DD/DD DD:DD:DD`, each `D` a decimal digit.
pub open spec fn has_timestamp_shape(s: Seq<char>) -> bool {
    &&& s.len() == 19
    &&& s[4] == '/' && s[7] == '/' && s[10] == ' ' && s[13] == ':' && s[16] == ':'
    &&& forall|i: int|
        0 <= i < 19 && i != 4 && i != 7 && i != 10 && i != 13 && i != 16 ==> #[trigger] is_digit(s[i])
}

/// The fields that the digit groups of a timestamp-shaped text write.
pub open spec fn fields_of(s: Seq<char>) -> NaiveTimestamp {
    NaiveTimestamp {
        year: number4(s, 0) as i32,
        month: number2(s, 5) as u32,
        day: number2(s, 8) as u32,
        hour: number2(s, 11) as u32,
        minute: number2(s, 14) as u32,
        second: number2(s, 17) as u32,
    }
}

/// What the text `s` reads as: a timestamp when it has the fixed shape and its
/// fields name a real date-time.
pub open spec fn parse_spec(s: Seq<char>) -> Option<NaiveTimestamp> {
    if has_timestamp_shape(s) && fields_of(s).is_valid() {
        Some(fields_of(s))
    } else {
        None
    }
}

/// The year as written: four digits, with a sign where it leaves 0..=9999.
pub open spec fn year_text(y: int) -> Seq<char> {
    if y < 0 {
        seq!['-'] + four_digits(-y)
    } else if y > 9999 {
        seq!['+', '1'] + four_digits(y - 10000)
    } else {
        four_digits(y)
    }
}

/// The text of a timestamp, every field zero-padded to its fixed width.
pub open spec fn format_spec(t: NaiveTimestamp) -> Seq<char> {
    year_text(t.year as int) + seq!['/'] + two_digits(t.month as int) + seq!['/'] + two_digits(
        t.day as int,
    ) + seq![' '] + two_digits(t.hour as int) + seq![':'] + two_digits(t.minute as int) + seq![':']
        + two_digits(t.second as int)
}

/// The years that the text form can write.
pub open spec fn is_formattable_year(y: int) -> bool {
    -9999 <= y <= 19999
}


fn digit_of(c: char) -> (r: Option<u32>)
    ensures
        r matches Some(d) ==> digit_value(c) == Some(d as int),
        r is None ==> digit_value(c) is None,
{
    match c {
        '0' => Some(0),
        '1' => Some(1),
        '2' => Some(2),
        '3' => Some(3),
        '4' => Some(4),
        '5' => Some(5),
        '6' => Some(6),
        '7' => Some(7),
        '8' => Some(8),
        '9' => Some(9),
        _ => None,
    }
}

/// Reads the two digits of `text` at `start` as a decimal number.
fn read2(text: &str, start: usize) -> (r: Option<u32>)
    requires
        start <= 17,
        start + 2 <= text@.len(),
    ensures
        r is Some <==> is_digit(text@[start as int]) && is_digit(text@[start + 1]),
        r matches Some(n) ==> n == number2(text@, start as int),
{
    match (digit_of(text.get_char(start)), digit_of(text.get_char(start + 1))) {
        (Some(a), Some(b)) => Some(a * 10 + b),
        _ => None,
    }
}

/// Reads the four digits of `text` at `start` as a decimal number.
fn read4(text: &str, start: usize) -> (r: Option<u32>)
    requires
        start <= 15,
        start + 4 <= text@.len(),
    ensures
        r is Some <==> is_digit(text@[start as int]) && is_digit(text@[start + 1]) && is_digit(
            text@[start + 2],
        ) && is_digit(text@[start + 3]),
        r matches Some(n) ==> n == number4(text@, start as int),
{
    match (read2(text, start), read2(text, start + 2)) {
        (Some(a), Some(b)) => Some(a * 100 + b),
        _ => None,
    }
}

/// Reads a timestamp from its fixed text form `YYYY/MM/DD HH:MM:SS`.
pub fn parse_timestamp(text: &str) -> (r: Result<NaiveTimestamp, ConvertError>)
    ensures
        r matches Ok(t) ==> parse_spec(text@) == Some(t) && 0 <= t.year <= 9999,
        r is Err ==> parse_spec(text@) is None && r == Err::<NaiveTimestamp, ConvertError>(
            ConvertError::Parse,
        ),
{
    let len = text.unicode_len();
    if len != 19 {
        return Err(ConvertError::Parse);
    }
    if text.get_char(4) != '/' || text.get_char(7) != '/' || text.get_char(10) != ' '
        || text.get_char(13) != ':' || text.get_char(16) != ':' {
        return Err(ConvertError::Parse);
    }
    let year = read4(text, 0);
    let month = read2(text, 5);
    let day = read2(text, 8);
    let hour = read2(text, 11);
    let minute = read2(text, 14);
    let second = read2(text, 17);
    match (year, month, day, hour, minute, second) {
        (Some(year), Some(month), Some(day), Some(hour), Some(minute), Some(second)) => {
            assert(has_timestamp_shape(text@)) by {
                assert forall|i: int|
                    0 <= i < 19 && i != 4 && i != 7 && i != 10 && i != 13 && i != 16 implies #[trigger] is_digit(
                    text@[i],
                ) by {
                    if i < 4 {
                    } else if i < 7 {
                    } else if i < 10 {
                    } else if i < 13 {
                    } else if i < 16 {
                    } else {
                    }
                }
            }
            let t = NaiveTimestamp { year: year as i32, month, day, hour, minute, second };
            assert(t == fields_of(text@));
            if is_valid_timestamp(&t) {
                proof {
                    lemma_parsed_year(text@);
                }
                Ok(t)
            } else {
                Err(ConvertError::Parse)
            }
        },
        _ => {
            proof {
                if has_timestamp_shape(text@) {
                    assert(is_digit(text@[0]) && is_digit(text@[1]) && is_digit(text@[2]) && is_digit(text@[3]));
                    assert(is_digit(text@[5]) && is_digit(text@[6]) && is_digit(text@[8]) && is_digit(text@[9]));
                    assert(is_digit(text@[11]) && is_digit(text@[12]) && is_digit(text@[14]) && is_digit(text@[15]));
                    assert(is_digit(text@[17]) && is_digit(text@[18]));
                }
            }
            Err(ConvertError::Parse)
        },
    }
}

fn days_in_month_of(year: i32, month: u32) -> (r: u32)
    requires
        1 <= month <= 12,
    ensures
        r as int == crate::calendar::days_in_month(year as int, month as int),
{
    if month == 2 {
        if year % 4 == 0 && (year % 100 != 0 || year % 400 == 0) {
            29
        } else {
            28
        }
    } else if month == 4 || month == 6 || month == 9 || month == 11 {
        30
    } else {
        31
    }
}

/// Whether the fields name a real date-time.
pub fn is_valid_timestamp(t: &NaiveTimestamp) -> (r: bool)
    ensures
        r == t.is_valid(),
{
    if t.month < 1 || t.month > 12 || t.day < 1 {
        return false;
    }
    t.day <= days_in_month_of(t.year, t.month) && t.hour < 24 && t.minute < 60 && t.second < 60
}


fn digit_text(d: u32) -> (r: &'static str)
    requires
        d < 10,
    ensures
        r@ == seq![digit_char(d as int)],
{
    if d == 0 {
        proof {
            reveal_strlit("0");
        }
        "0"
    } else if d == 1 {
        proof {
            reveal_strlit("1");
        }
        "1"
    } else if d == 2 {
        proof {
            reveal_strlit("2");
        }
        "2"
    } else if d == 3 {
        proof {
            reveal_strlit("3");
        }
        "3"
    } else if d == 4 {
        proof {
            reveal_strlit("4");
        }
        "4"
    } else if d == 5 {
        proof {
            reveal_strlit("5");
        }
        "5"
    } else if d == 6 {
        proof {
            reveal_strlit("6");
        }
        "6"
    } else if d == 7 {
        proof {
            reveal_strlit("7");
        }
        "7"
    } else if d == 8 {
        proof {
            reveal_strlit("8");
        }
        "8"
    } else {
        proof {
            reveal_strlit("9");
        }
        "9"
    }
}

fn push_two_digits(out: &mut String, n: u32)
    requires
        n < 100,
    ensures
        final(out)@ == old(out)@ + two_digits(n as int),
{
    out.append(digit_text(n / 10));
    out.append(digit_text(n % 10));
    assert(final(out)@ =~= old(out)@ + two_digits(n as int));
}

fn push_four_digits(out: &mut String, n: u32)
    requires
        n < 10000,
    ensures
        final(out)@ == old(out)@ + four_digits(n as int),
{
    out.append(digit_text(n / 1000));
    out.append(digit_text(n / 100 % 10));
    out.append(digit_text(n / 10 % 10));
    out.append(digit_text(n % 10));
    assert(final(out)@ =~= old(out)@ + four_digits(n as int));
}

fn push_text(out: &mut String, piece: &str)
    ensures
        final(out)@ == old(out)@ + piece@,
{
    out.append(piece);
}

/// Writes a timestamp in its fixed text form, every field zero-padded.
pub fn format_timestamp(t: &NaiveTimestamp) -> (r: String)
    requires
        t.is_valid(),
        is_formattable_year(t.year as int),
    ensures
        r@ == format_spec(*t),
{
    let mut out = String::new();
    if t.year < 0 {
        proof {
            reveal_strlit("-");
        }
        push_text(&mut out, "-");
        push_four_digits(&mut out, (-t.year) as u32);
    } else if t.year > 9999 {
        proof {
            reveal_strlit("+1");
        }
        push_text(&mut out, "+1");
        push_four_digits(&mut out, (t.year - 10000) as u32);
    } else {
        push_four_digits(&mut out, t.year as u32);
    }
    assert(out@ =~= year_text(t.year as int));
    proof {
        reveal_strlit("/");
        reveal_strlit(" ");
        reveal_strlit(":");
    }
    push_text(&mut out, "/");
    push_two_digits(&mut out, t.month);
    push_text(&mut out, "/");
    push_two_digits(&mut out, t.day);
    push_text(&mut out, " ");
    push_two_digits(&mut out, t.hour);
    push_text(&mut out, ":");
    push_two_digits(&mut out, t.minute);
    push_text(&mut out, ":");
    push_two_digits(&mut out, t.second);
    assert(out@ =~= format_spec(*t));
    out
}

proof fn lemma_digit_round_trip(c: char)
    requires
        is_digit(c),
    ensures
        digit_char(dv(c)) == c,
        0 <= dv(c) <= 9,
{
}

proof fn lemma_char_of_digit(d: int)
    requires
        0 <= d <= 9,
    ensures
        digit_value(digit_char(d)) == Some(d),
{
}

proof fn lemma_two_digits_of_text(s: Seq<char>, i: int)
    requires
        0 <= i,
        i + 2 <= s.len(),
        is_digit(s[i]),
        is_digit(s[i + 1]),
    ensures
        two_digits(number2(s, i)) == s.subrange(i, i + 2),
        0 <= number2(s, i) < 100,
{
    lemma_digit_round_trip(s[i]);
    lemma_digit_round_trip(s[i + 1]);
    let n = number2(s, i);
    assert(n / 10 == dv(s[i]) && n % 10 == dv(s[i + 1]));
    assert(two_digits(n) =~= s.subrange(i, i + 2));
}

proof fn lemma_four_digits_of_text(s: Seq<char>, i: int)
    requires
        0 <= i,
        i + 4 <= s.len(),
        is_digit(s[i]),
        is_digit(s[i + 1]),
        is_digit(s[i + 2]),
        is_digit(s[i + 3]),
    ensures
        four_digits(number4(s, i)) == s.subrange(i, i + 4),
        0 <= number4(s, i) < 10000,
{
    lemma_digit_round_trip(s[i]);
    lemma_digit_round_trip(s[i + 1]);
    lemma_digit_round_trip(s[i + 2]);
    lemma_digit_round_trip(s[i + 3]);
    let n = number4(s, i);
    assert(n / 1000 == dv(s[i]));
    assert(n / 100 % 10 == dv(s[i + 1]));
    assert(n / 10 % 10 == dv(s[i + 2]));
    assert(n % 10 == dv(s[i + 3]));
    assert(four_digits(n) =~= s.subrange(i, i + 4));
}

proof fn lemma_text_of_two_digits(n: int)
    requires
        0 <= n < 100,
    ensures
        is_digit(two_digits(n)[0]) && is_digit(two_digits(n)[1]),
        number2(two_digits(n), 0) == n,
{
    lemma_char_of_digit(n / 10);
    lemma_char_of_digit(n % 10);
}

proof fn lemma_text_of_four_digits(n: int)
    requires
        0 <= n < 10000,
    ensures
        is_digit(four_digits(n)[0]) && is_digit(four_digits(n)[1]) && is_digit(four_digits(n)[2])
            && is_digit(four_digits(n)[3]),
        number4(four_digits(n), 0) == n,
{
    let h = n / 100;
    let l = n % 100;
    assert(n == h * 100 + l && 0 <= h < 100 && 0 <= l < 100);
    assert(h / 10 == n / 1000);
    assert(h % 10 == n / 100 % 10);
    assert(l / 10 == n / 10 % 10);
    assert(l % 10 == n % 10);
    lemma_char_of_digit(h / 10);
    lemma_char_of_digit(h % 10);
    lemma_char_of_digit(l / 10);
    lemma_char_of_digit(l % 10);
    assert(number4(four_digits(n), 0) == (h / 10) * 1000 + (h % 10) * 100 + (l / 10) * 10 + l % 10);
}

/// A timestamp read from text has a four-digit year.
pub proof fn lemma_parsed_year(s: Seq<char>)
    requires
        parse_spec(s) is Some,
    ensures
        0 <= parse_spec(s)->Some_0.year <= 9999,
        parse_spec(s)->Some_0.is_valid(),
{
    assert(is_digit(s[0]) && is_digit(s[1]) && is_digit(s[2]) && is_digit(s[3]));
    lemma_four_digits_of_text(s, 0);
}

/// Writing back what was read gives the text that was read.
pub proof fn lemma_format_parse(s: Seq<char>)
    requires
        parse_spec(s) is Some,
    ensures
        format_spec(parse_spec(s)->Some_0) == s,
{
    let t = parse_spec(s)->Some_0;
    assert(is_digit(s[0]) && is_digit(s[1]) && is_digit(s[2]) && is_digit(s[3]));
    assert(is_digit(s[5]) && is_digit(s[6]) && is_digit(s[8]) && is_digit(s[9]));
    assert(is_digit(s[11]) && is_digit(s[12]) && is_digit(s[14]) && is_digit(s[15]));
    assert(is_digit(s[17]) && is_digit(s[18]));
    lemma_four_digits_of_text(s, 0);
    lemma_two_digits_of_text(s, 5);
    lemma_two_digits_of_text(s, 8);
    lemma_two_digits_of_text(s, 11);
    lemma_two_digits_of_text(s, 14);
    lemma_two_digits_of_text(s, 17);
    assert(year_text(t.year as int) == s.subrange(0, 4));
    assert(format_spec(t) =~= s);
}

/// A valid timestamp with a four-digit year reads back from its text.
pub proof fn lemma_parse_format(t: NaiveTimestamp)
    requires
        t.is_valid(),
        0 <= t.year <= 9999,
    ensures
        parse_spec(format_spec(t)) == Some(t),
{
    let s = format_spec(t);
    lemma_text_of_four_digits(t.year as int);
    lemma_text_of_two_digits(t.month as int);
    lemma_text_of_two_digits(t.day as int);
    lemma_text_of_two_digits(t.hour as int);
    lemma_text_of_two_digits(t.minute as int);
    lemma_text_of_two_digits(t.second as int);
    assert(s.subrange(0, 4) =~= four_digits(t.year as int));
    assert(s.subrange(5, 7) =~= two_digits(t.month as int));
    assert(s.subrange(8, 10) =~= two_digits(t.day as int));
    assert(s.subrange(11, 13) =~= two_digits(t.hour as int));
    assert(s.subrange(14, 16) =~= two_digits(t.minute as int));
    assert(s.subrange(17, 19) =~= two_digits(t.second as int));
    assert(number4(s, 0) == number4(s.subrange(0, 4), 0));
    assert(number2(s, 5) == number2(s.subrange(5, 7), 0));
    assert(number2(s, 8) == number2(s.subrange(8, 10), 0));
    assert(number2(s, 11) == number2(s.subrange(11, 13), 0));
    assert(number2(s, 14) == number2(s.subrange(14, 16), 0));
    assert(number2(s, 17) == number2(s.subrange(17, 19), 0));
    assert(has_timestamp_shape(s));
    assert(fields_of(s) == t);
}

} // verus!
