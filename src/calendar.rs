//! The proleptic Gregorian calendar as plain arithmetic: the day number and the
//! second count of a calendar date-time, counted from 1970-01-01 00:00:00.
use vstd::prelude::*;

verus! {

/// Days from 0000-01-01 to 1970-01-01.
pub const EPOCH_DAY_OFFSET: i64 = 719528;

pub const SECONDS_PER_DAY: i64 = 86400;

pub open spec fn is_leap_year(y: int) -> bool {
    y % 4 == 0 && (y % 100 != 0 || y % 400 == 0)
}

pub open spec fn days_in_year(y: int) -> int {
    if is_leap_year(y) {
        366
    } else {
        365
    }
}

pub open spec fn days_in_month(y: int, m: int) -> int {
    if m == 2 {
        if is_leap_year(y) {
            29
        } else {
            28
        }
    } else if m == 4 || m == 6 || m == 9 || m == 11 {
        30
    } else {
        31
    }
}

/// Days of year `y` that come before the first of month `m`.
pub open spec fn days_before_month(y: int, m: int) -> int {
    let l: int = if is_leap_year(y) {
        1
    } else {
        0
    };
    if m <= 1 {
        0
    } else if m == 2 {
        31
    } else if m == 3 {
        59 + l
    } else if m == 4 {
        90 + l
    } else if m == 5 {
        120 + l
    } else if m == 6 {
        151 + l
    } else if m == 7 {
        181 + l
    } else if m == 8 {
        212 + l
    } else if m == 9 {
        243 + l
    } else if m == 10 {
        273 + l
    } else if m == 11 {
        304 + l
    } else {
        334 + l
    }
}

/// Days from 0000-01-01 to the first of January of year `y` (negative before year 0).
pub open spec fn days_before_year(y: int) -> int {
    365 * y + (y + 3) / 4 - (y + 99) / 100 + (y + 399) / 400
}

pub open spec fn is_valid_date(y: int, m: int, d: int) -> bool {
    1 <= m <= 12 && 1 <= d <= days_in_month(y, m)
}

pub open spec fn is_valid_time(h: int, mi: int, s: int) -> bool {
    0 <= h < 24 && 0 <= mi < 60 && 0 <= s < 60
}

/// Days from 1970-01-01 to the given date.
pub open spec fn day_number(y: int, m: int, d: int) -> int {
    days_before_year(y) + days_before_month(y, m) + d - 1 - EPOCH_DAY_OFFSET
}

pub open spec fn second_of_day(h: int, mi: int, s: int) -> int {
    h * 3600 + mi * 60 + s
}

/// Seconds from 1970-01-01 00:00:00 to the given date-time, leap seconds not counted.
pub open spec fn seconds_since_epoch(y: int, m: int, d: int, h: int, mi: int, s: int) -> int {
    day_number(y, m, d) * SECONDS_PER_DAY + second_of_day(h, mi, s)
}

proof fn lemma_quotient_step(a: int, k: int)
    requires
        k == 4 || k == 100 || k == 400,
    ensures
        (a + k) / k == (a + k - 1) / k + (if a % k == 0 {
            1int
        } else {
            0int
        }),
{
    let q = a / k;
    let r = a % k;
    vstd::arithmetic::div_mod::lemma_fundamental_div_mod(a, k);
    vstd::arithmetic::div_mod::lemma_div_plus_one(a, k);
    assert((k + a) / k == (a + k) / k);
    if r == 0 {
        assert(a + k - 1 == k * q + (k - 1));
        vstd::arithmetic::div_mod::lemma_div_multiples_vanish_fancy(q, k - 1, k);
    } else {
        assert(a + k - 1 == k * (q + 1) + (r - 1)) by (nonlinear_arith)
            requires
                a == k * q + r,
        ;
        vstd::arithmetic::div_mod::lemma_div_multiples_vanish_fancy(q + 1, r - 1, k);
    }
}

/// Consecutive years start `days_in_year` days apart.
pub proof fn lemma_next_year(y: int)
    ensures
        days_before_year(y + 1) == days_before_year(y) + days_in_year(y),
{
    lemma_quotient_step(y, 4);
    lemma_quotient_step(y, 100);
    lemma_quotient_step(y, 400);
}

/// A year starts no earlier than every day of any year before it.
pub proof fn lemma_years_apart(y1: int, y2: int)
    requires
        y1 < y2,
    ensures
        days_before_year(y1) + days_in_year(y1) <= days_before_year(y2),
    decreases y2 - y1,
{
    lemma_next_year(y1);
    if y2 > y1 + 1 {
        lemma_years_apart(y1 + 1, y2);
    }
}

/// A month starts no earlier than every day of any month before it, and the
/// months of a year fit in it.
pub proof fn lemma_months_apart(y: int, m1: int, m2: int)
    requires
        1 <= m1 <= 12,
        m1 < m2 <= 13,
    ensures
        days_before_month(y, m1) + days_in_month(y, m1) <= if m2 == 13 {
            days_in_year(y)
        } else {
            days_before_month(y, m2)
        },
{
}

/// The first second of the year -1.
pub const FIRST_SECOND: i64 = -62198755200;

/// The last second of the year 10000.
pub const LAST_SECOND: i64 = 253433923199;

/// Two valid date-times with the same second count are the same date-time.
pub proof fn lemma_seconds_injective(
    y1: int,
    m1: int,
    d1: int,
    h1: int,
    mi1: int,
    s1: int,
    y2: int,
    m2: int,
    d2: int,
    h2: int,
    mi2: int,
    s2: int,
)
    requires
        is_valid_date(y1, m1, d1),
        is_valid_time(h1, mi1, s1),
        is_valid_date(y2, m2, d2),
        is_valid_time(h2, mi2, s2),
        seconds_since_epoch(y1, m1, d1, h1, mi1, s1) == seconds_since_epoch(y2, m2, d2, h2, mi2, s2),
    ensures
        y1 == y2 && m1 == m2 && d1 == d2 && h1 == h2 && mi1 == mi2 && s1 == s2,
{
    let n1 = day_number(y1, m1, d1);
    let n2 = day_number(y2, m2, d2);
    let t1 = second_of_day(h1, mi1, s1);
    let t2 = second_of_day(h2, mi2, s2);
    assert(n1 == n2 && t1 == t2);
    assert(h1 == h2 && mi1 == mi2 && s1 == s2);
    lemma_months_apart(y1, m1, 13);
    lemma_months_apart(y2, m2, 13);
    if y1 < y2 {
        lemma_years_apart(y1, y2);
    } else if y2 < y1 {
        lemma_years_apart(y2, y1);
    }
    assert(y1 == y2);
    if m1 < m2 {
        lemma_months_apart(y1, m1, m2);
    } else if m2 < m1 {
        lemma_months_apart(y1, m2, m1);
    }
}

/// A valid date-time whose second count lies between the first second of the
/// year -1 and the last of the year 10000 has its year between those two.
pub proof fn lemma_year_bounds(y: int, m: int, d: int, h: int, mi: int, s: int)
    requires
        is_valid_date(y, m, d),
        is_valid_time(h, mi, s),
        FIRST_SECOND <= seconds_since_epoch(y, m, d, h, mi, s) <= LAST_SECOND,
    ensures
        -1 <= y <= 10000,
{
    lemma_months_apart(y, m, 13);
    if y < -1 {
        lemma_years_apart(y, -1);
    }
    if y > 10000 {
        lemma_years_apart(10000, y);
        lemma_next_year(10000);
    }
}

/// A valid date-time of the years 0 to 9999 lies more than a day inside the
/// span from the year -1 to the year 10000.
pub proof fn lemma_four_digit_year_range(y: int, m: int, d: int, h: int, mi: int, s: int)
    requires
        is_valid_date(y, m, d),
        is_valid_time(h, mi, s),
        0 <= y <= 9999,
    ensures
        FIRST_SECOND + SECONDS_PER_DAY <= seconds_since_epoch(y, m, d, h, mi, s),
        seconds_since_epoch(y, m, d, h, mi, s) <= LAST_SECOND - SECONDS_PER_DAY,
{
    lemma_months_apart(y, m, 13);
    if y > -1 {
        lemma_years_apart(-1, y);
    }
    if y < 10000 {
        lemma_years_apart(y, 10000);
    }
}

} // verus!
