//! Calendar dates, counted in days.
use crate::numerals::{decimal, padded_text, zero_padded};
use vstd::prelude::*;

verus! {

/// A leap year of the Gregorian calendar.
pub open spec fn is_leap(y: int) -> bool {
    y % 4 == 0 && (y % 100 != 0 || y % 400 == 0)
}

/// The days of a month.
pub open spec fn month_days(y: int, m: int) -> int {
    if m == 2 {
        if is_leap(y) {
            29
        } else {
            28
        }
    } else if m == 4 || m == 6 || m == 9 || m == 11 {
        30
    } else {
        31
    }
}

/// A date of the calendar.
pub open spec fn is_date(y: int, m: int, d: int) -> bool {
    1 <= m <= 12 && 1 <= d <= month_days(y, m)
}

/// The leap years from the year 1 up to and with `y`.
pub open spec fn leaps(y: int) -> int {
    y / 4 - y / 100 + y / 400
}

/// The days of the months before `m`.
pub open spec fn days_before_month(y: int, m: int) -> int {
    (if m <= 1 {
        0int
    } else if m == 2 {
        31
    } else if m == 3 {
        59
    } else if m == 4 {
        90
    } else if m == 5 {
        120
    } else if m == 6 {
        151
    } else if m == 7 {
        181
    } else if m == 8 {
        212
    } else if m == 9 {
        243
    } else if m == 10 {
        273
    } else if m == 11 {
        304
    } else {
        334
    }) + (if m > 2 && is_leap(y) {
        1int
    } else {
        0
    })
}

/// The days from the first of January 1970 to a date.
pub open spec fn day_number(y: int, m: int, d: int) -> int {
    365 * (y - 1970) + leaps(y - 1) - leaps(1969) + days_before_month(y, m) + d - 1
}

/// Counting leaps up to a year counts that year where it is one.
#[verifier::rlimit(60)]
proof fn lemma_leaps(y: int)
    ensures
        leaps(y) - leaps(y - 1) == (if is_leap(y) {
            1int
        } else {
            0
        }),
{
    assert(y / 4 - (y - 1) / 4 == (if y % 4 == 0 { 1int } else { 0 }));
    assert(y / 100 - (y - 1) / 100 == (if y % 100 == 0 { 1int } else { 0 }));
    assert(y / 400 - (y - 1) / 400 == (if y % 400 == 0 { 1int } else { 0 }));
    assert(y % 100 == 0 ==> y % 4 == 0);
    assert(y % 400 == 0 ==> y % 100 == 0);
}

/// The months of a year follow one another: each begins where the one before ends, and the
/// last ends with the year.
pub proof fn law_months_fill_the_year(y: int, m: int)
    requires
        1 <= m <= 12,
    ensures
        m < 12 ==> day_number(y, m + 1, 1) == day_number(y, m, 1) + month_days(y, m),
        m == 12 ==> day_number(y + 1, 1, 1) == day_number(y, m, 1) + month_days(y, m),
{
    lemma_leaps(y);
}

/// The day of an era of four centuries that begins in March, taken apart: century, group of
/// four years, year in it, and day in that year.
spec fn is_split(doe: int, h: int, k: int, j: int, doy: int) -> bool {
    &&& 0 <= h <= 3
    &&& 0 <= k <= 24
    &&& 0 <= j <= 3
    &&& 0 <= doy <= 365
    &&& doe == 36524 * h + 1461 * k + 365 * j + doy
    &&& doy == 365 ==> j == 3 && (k < 24 || h == 3)
}

proof fn lemma_split(doe: int) -> (r: (int, int, int, int))
    requires
        0 <= doe <= 146096,
    ensures
        is_split(doe, r.0, r.1, r.2, r.3),
{
    let h = if doe == 146096 {
        3
    } else {
        doe / 36524
    };
    let rest = doe - 36524 * h;
    assert(0 <= rest <= 36524 && (rest == 36524 ==> h == 3));
    let k = rest / 1461;
    let s = rest - 1461 * k;
    assert(0 <= s <= 1460);
    let j = if s == 1460 {
        3
    } else {
        s / 365
    };
    (h, k, j, s - 365 * j)
}

proof fn lemma_year_of_era(doe: int, h: int, k: int, j: int, doy: int)
    requires
        is_split(doe, h, k, j, doy),
    ensures
        (doe - doe / 1460 + doe / 36524 - doe / 146096) / 365 == 100 * h + 4 * k + j,
        ({
            let yoe = 100 * h + 4 * k + j;
            doe - (365 * yoe + yoe / 4 - yoe / 100) == doy
        }),
{
    let yoe = 100 * h + 4 * k + j;
    assert(yoe / 4 == 25 * h + k);
    assert(yoe / 100 == h);
    let a = doe / 1460;
    let b = doe / 36524;
    let c = doe / 146096;
    assert(doe <= 146096);
    if doe == 146096 {
        assert(b == 4 && c == 1);
    } else {
        assert(c == 0);
        assert(36524 * h <= doe < 36524 * (h + 1));
        assert(b == h);
    }
    let carry = if j == 3 && 24 * h + k + doy >= 365 {
        1int
    } else {
        0
    };
    let q = 25 * h + k;
    assert(doe == 1460 * q + 365 * j + (24 * h + k) + doy);
    assert(1460 * (q + carry) <= doe < 1460 * (q + carry + 1));
    assert(a == q + carry);
    assert(doe - a + b - c == 365 * yoe + doy - carry);
}

proof fn lemma_month(doy: int)
    requires
        0 <= doy <= 365,
    ensures
        ({
            let mp = (5 * doy + 2) / 153;
            let first = (153 * mp + 2) / 5;
            &&& 0 <= mp <= 11
            &&& first <= doy
            &&& mp == 0 ==> first == 0 && doy < 31
            &&& mp == 1 ==> first == 31 && doy < 61
            &&& mp == 2 ==> first == 61 && doy < 92
            &&& mp == 3 ==> first == 92 && doy < 122
            &&& mp == 4 ==> first == 122 && doy < 153
            &&& mp == 5 ==> first == 153 && doy < 184
            &&& mp == 6 ==> first == 184 && doy < 214
            &&& mp == 7 ==> first == 214 && doy < 245
            &&& mp == 8 ==> first == 245 && doy < 275
            &&& mp == 9 ==> first == 275 && doy < 306
            &&& mp == 10 ==> first == 306 && doy < 337
            &&& mp == 11 ==> first == 337 && doy < 366
        }),
{
}

proof fn lemma_march(era: int, yoe: int)
    requires
        0 <= yoe <= 399,
    ensures
        day_number(400 * era + yoe, 3, 1) == 146097 * era + 365 * yoe + yoe / 4 - yoe / 100
            - 719468,
{
    let y = 400 * era + yoe;
    assert(y / 4 == 100 * era + yoe / 4);
    assert(y / 100 == 4 * era + yoe / 100);
    assert(y / 400 == era);
    lemma_leaps(y);
}

proof fn lemma_leap_day(era: int, h: int, k: int, j: int)
    requires
        0 <= h <= 3,
        0 <= k <= 24,
        j == 3,
        k < 24 || h == 3,
    ensures
        is_leap(400 * era + 100 * h + 4 * k + j + 1),
{
    let y = 400 * era + 100 * h + 4 * k + 4;
    assert(y % 4 == 0);
    if k < 24 {
        assert(y == 100 * (4 * era + h) + 4 * (k + 1));
        assert(y % 100 == 4 * (k + 1));
    } else {
        assert(y == 400 * (era + 1));
        assert(y % 400 == 0);
    }
}

/// The month and day of a day in a year that begins in March.
proof fn lemma_day_of_year(y: int, doy: int)
    requires
        0 <= doy <= 365,
        doy == 365 ==> is_leap(y + 1),
    ensures
        ({
            let mp = (5 * doy + 2) / 153;
            let d = doy - (153 * mp + 2) / 5 + 1;
            let m = if mp < 10 {
                mp + 3
            } else {
                mp - 9
            };
            let year = if m <= 2 {
                y + 1
            } else {
                y
            };
            &&& 0 <= mp <= 11
            &&& is_date(year, m, d)
            &&& day_number(year, m, d) == day_number(y, 3, 1) + doy
        }),
{
    lemma_month(doy);
    lemma_leaps(y);
    let mp = (5 * doy + 2) / 153;
    assert(day_number(y + 1, 1, 1) == day_number(y, 3, 1) + 306);
    assert(day_number(y + 1, 2, 1) == day_number(y, 3, 1) + 337);
}

proof fn lemma_era_day(shifted: int, era: int)
    requires
        era == shifted / 146097,
    ensures
        0 <= shifted - era * 146097 <= 146096,
{
}

/// The date that is so many days after the first of January 1970: year, month and day.
pub fn civil_from_days(z: i64) -> (r: (i64, u32, u32))
    requires
        z + 719468 <= i64::MAX,
    ensures
        is_date(r.0 as int, r.1 as int, r.2 as int),
        day_number(r.0 as int, r.1 as int, r.2 as int) == z,
{
    let shifted: i64 = z + 719468;
    let era: i64 = if shifted >= 0 {
        shifted / 146097
    } else {
        -((-(shifted + 1)) / 146097) - 1
    };
    assert(era == shifted as int / 146097);
    proof {
        lemma_era_day(shifted as int, era as int);
    }
    let doe: i64 = shifted - era * 146097;
    let ghost (h, k, j, day) = lemma_split(doe as int);
    proof {
        lemma_year_of_era(doe as int, h, k, j, day);
    }
    let yoe: i64 = (doe - doe / 1460 + doe / 36524 - doe / 146096) / 365;
    let y: i64 = yoe + era * 400;
    let doy: i64 = doe - (365 * yoe + yoe / 4 - yoe / 100);
    proof {
        lemma_march(era as int, yoe as int);
        if doy == 365 {
            lemma_leap_day(era as int, h, k, j);
        }
        lemma_day_of_year(y as int, doy as int);
        lemma_month(doy as int);
    }
    let mp: i64 = (5 * doy + 2) / 153;
    let d: u32 = (doy - (153 * mp + 2) / 5 + 1) as u32;
    let m: u32 = (if mp < 10 {
        mp + 3
    } else {
        mp - 9
    }) as u32;
    (if m <= 2 {
        y + 1
    } else {
        y
    }, m, d)
}

/// A date as `YYYYMMDD`, with more digits where the year has more.
pub open spec fn date_text(y: int, m: int, d: int) -> Seq<char> {
    zero_padded(decimal(y as nat), 4) + zero_padded(decimal(m as nat), 2) + zero_padded(
        decimal(d as nat),
        2,
    )
}

/// The date of a time in seconds since the first of January 1970.
pub open spec fn is_date_of(y: int, m: int, d: int, secs: u64) -> bool {
    is_date(y, m, d) && day_number(y, m, d) == secs as int / 86400
}

/// The date of a time, as `YYYYMMDD`.
pub fn ymd(secs: u64) -> (r: String)
    ensures
        exists|y: int, m: int, d: int| #[trigger]
            is_date_of(y, m, d, secs) && y >= 1970 && r@ == date_text(y, m, d),
{
    let days: i64 = (secs / 86400) as i64;
    let (y, m, d) = civil_from_days(days);
    proof {
        assert(is_date_of(y as int, m as int, d as int, secs));
        lemma_year_not_before(y as int, m as int, d as int);
    }
    let mut text = padded_text(y as u64, 10, 4);
    text.append(padded_text(m as u64, 10, 2).as_str());
    text.append(padded_text(d as u64, 10, 2).as_str());
    text
}

proof fn lemma_year_not_before(y: int, m: int, d: int)
    requires
        is_date(y, m, d),
        day_number(y, m, d) >= 0,
    ensures
        y >= 1970,
{
    if y < 1970 {
        law_months_fill_the_year(y, 12);
        assert(days_before_month(y, m) + d <= 366);
        assert(leaps(1969) == 477);
        if y < 1969 {
            assert(leaps(y - 1) <= 477);
        }
    }
}

proof fn lemma_leaps_grow(a: int, b: int)
    requires
        a <= b,
    ensures
        leaps(a) <= leaps(b),
    decreases b - a,
{
    if a < b {
        lemma_leaps_grow(a, b - 1);
        lemma_leaps(b);
    }
}

proof fn lemma_within_year(y: int, m: int, d: int)
    requires
        is_date(y, m, d),
    ensures
        day_number(y, 1, 1) <= day_number(y, m, d) < day_number(y + 1, 1, 1),
{
    lemma_leaps(y);
}

/// Every day has one date: two dates with the same count of days are the same date.
pub proof fn law_one_date_per_day(y: int, m: int, d: int, y2: int, m2: int, d2: int)
    requires
        is_date(y, m, d),
        is_date(y2, m2, d2),
        day_number(y, m, d) == day_number(y2, m2, d2),
    ensures
        y == y2 && m == m2 && d == d2,
{
    lemma_within_year(y, m, d);
    lemma_within_year(y2, m2, d2);
    if y < y2 {
        lemma_leaps_grow(y, y2 - 1);
    } else if y2 < y {
        lemma_leaps_grow(y2, y - 1);
    }
}

/// A date lasts the 86400 seconds of its day, and the next one begins then; the count starts
/// with the first of January 1970.
pub proof fn law_dates_last_a_day(y: int, m: int, d: int, a: u64, b: u64)
    ensures
        is_date_of(1970, 1, 1, a) <==> a < 86400,
        is_date_of(y, m, d, a) && a as int / 86400 == b as int / 86400 ==> is_date_of(y, m, d, b),
        is_date_of(y, m, d, a) && is_date_of(y, m, d, b) ==> a as int / 86400 == b as int / 86400,
        is_date_of(y, m, d, a) && is_date(y, m, d + 1) && b == a + 86400 ==> is_date_of(
            y,
            m,
            d + 1,
            b,
        ),
{
}

} // verus!
