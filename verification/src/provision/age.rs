//! How old an installed yt-dlp is.
use vstd::prelude::*;

use crate::text;

verus! {

/// After this many days an installed yt-dlp is worth updating: sites change their pages all the
/// time and extractors follow within days.
pub const YTDLP_STALE_DAYS: i64 = 14;

/// Whether a year of the Gregorian calendar has a 29th of February.
pub open spec fn is_leap(year: int) -> bool {
    year % 4 == 0 && (year % 100 != 0 || year % 400 == 0)
}

/// The days of the months before `month` in that year.
pub open spec fn days_before_month(year: int, month: int) -> int {
    let common = if month == 1 {
        0
    } else if month == 2 {
        31
    } else if month == 3 {
        59
    } else if month == 4 {
        90
    } else if month == 5 {
        120
    } else if month == 6 {
        151
    } else if month == 7 {
        181
    } else if month == 8 {
        212
    } else if month == 9 {
        243
    } else if month == 10 {
        273
    } else if month == 11 {
        304
    } else {
        334int
    };
    if month > 2 && is_leap(year) {
        common + 1
    } else {
        common
    }
}

/// The days from the first of January of year 0 to that of `year`.
pub open spec fn days_before_year(year: int) -> int {
    365 * year + (year + 3) / 4 - (year + 99) / 100 + (year + 399) / 400
}

/// Days from 1970-01-01 to a date of the Gregorian calendar.
pub open spec fn day_number(year: int, month: int, day: int) -> int {
    days_before_year(year) + days_before_month(year, month) + day - 1 - days_before_year(1970)
}

/// Whole multiples of the divisor come out of a quotient and leave the remainder alone.
proof fn lemma_multiples_come_out(x: int, j: int, d: nat)
    requires
        d > 0,
    ensures
        (x + j * d) / d as int == x / d as int + j,
        (x + j * d) % d as int == x % d as int,
{
    vstd::arithmetic::div_mod::lemma_hoist_over_denominator(x, j, d);
    vstd::arithmetic::div_mod::lemma_mod_multiples_vanish(j, x, d as int);
    assert(x + j * d == d as int * j + x) by (nonlinear_arith);
}

/// The calendar repeats every 400 years, which are 146097 days.
proof fn lemma_four_centuries(era: int, year: int)
    ensures
        days_before_year(400 * era + year) == 146_097 * era + days_before_year(year),
        is_leap(400 * era + year) == is_leap(year),
{
    lemma_multiples_come_out(year + 3, 100 * era, 4);
    lemma_multiples_come_out(year + 99, 4 * era, 100);
    lemma_multiples_come_out(year + 399, era, 400);
    lemma_multiples_come_out(year, 100 * era, 4);
    lemma_multiples_come_out(year, 4 * era, 100);
    lemma_multiples_come_out(year, era, 400);
}

/// Counting from the first of March, a year's leap day is its last day.
proof fn lemma_year_from_march(yoe: int)
    requires
        0 <= yoe < 400,
    ensures
        days_before_year(yoe) + (if is_leap(yoe) {
            1int
        } else {
            0
        }) == 365 * yoe + yoe / 4 - yoe / 100 + 1,
        days_before_year(yoe + 1) == 365 * (yoe + 1) + yoe / 4 - yoe / 100 + 1,
{
}

/// The days before a month, counted from the first of March.
proof fn lemma_month_from_march(month: int)
    requires
        1 <= month <= 12,
    ensures
        (153 * ((month + 9) % 12) + 2) / 5 == (if month == 1 {
            306
        } else if month == 2 {
            337
        } else if month == 3 {
            0
        } else if month == 4 {
            31
        } else if month == 5 {
            61
        } else if month == 6 {
            92
        } else if month == 7 {
            122
        } else if month == 8 {
            153
        } else if month == 9 {
            184
        } else if month == 10 {
            214
        } else if month == 11 {
            245
        } else {
            275int
        }),
{
    let mp = (month + 9) % 12;
    if month == 1 {
        assert(mp == 10);
    } else if month == 2 {
        assert(mp == 11);
    } else {
        assert(mp == month - 3);
    }
}

/// The year and the months counted from the first of March give the calendar's day numbers.
proof fn lemma_from_march(era: int, yoe: int, month: int)
    requires
        0 <= yoe < 400,
        1 <= month <= 12,
    ensures
        ({
            let year = 400 * era + yoe + (if month <= 2 {
                1int
            } else {
                0
            });
            days_before_year(year) + days_before_month(year, month) == era * 146_097 + yoe * 365
                + yoe / 4 - yoe / 100 + (153 * ((month + 9) % 12) + 2) / 5 + 60
        }),
{
    lemma_month_from_march(month);
    lemma_year_from_march(yoe);
    if month <= 2 {
        lemma_four_centuries(era, yoe + 1);
        assert(400 * era + (yoe + 1) == 400 * era + yoe + 1);
    } else {
        lemma_four_centuries(era, yoe);
    }
}

/// Days since 1970-01-01 for a calendar date (Howard Hinnant's `days_from_civil`), so no date
/// crate is needed for one subtraction.
pub fn days_from_civil(year: i64, month: i64, day: i64) -> (r: i64)
    requires
        -25_252_734_927_764_000 <= year <= 25_252_734_927_766_000,
        1 <= month <= 12,
        1 <= day <= 31,
    ensures
        r == day_number(year as int, month as int, day as int),
{
    let y: i64 = if month <= 2 {
        year - 1
    } else {
        year
    };
    let era: i64 = if y >= 0 {
        y / 400
    } else {
        -((399 - y) / 400)
    };
    let yoe: i64 = y - era * 400;
    let mp: i64 = (month + 9) % 12;
    proof {
        assert(0 <= mp < 12);
        assert(0 <= yoe < 400);
    }
    let doy: i64 = (153 * mp + 2) / 5 + day - 1;
    let doe: i64 = yoe * 365 + yoe / 4 - yoe / 100 + doy;
    proof {
        lemma_from_march(era as int, yoe as int, month as int);
    }
    era * 146_097 + doe - 719_468
}

/// The days of a month.
pub open spec fn month_length(year: int, month: int) -> int {
    if month == 2 {
        if is_leap(year) {
            29
        } else {
            28
        }
    } else if month == 4 || month == 6 || month == 9 || month == 11 {
        30
    } else {
        31int
    }
}

/// The days of a month.
fn days_in_month(year: i64, month: i64) -> (r: i64)
    requires
        0 <= year,
    ensures
        r == month_length(year as int, month as int),
{
    if month == 2 {
        if year % 4 == 0 && (year % 100 != 0 || year % 400 == 0) {
            29
        } else {
            28
        }
    } else if month == 4 || month == 6 || month == 9 || month == 11 {
        30
    } else {
        31
    }
}

/// A year has 365 days, and one more when it is a leap year.
proof fn lemma_year_length(year: int)
    ensures
        days_before_year(year + 1) == days_before_year(year) + 365 + (if is_leap(year) {
            1int
        } else {
            0
        }),
{
    lemma_one_more(year, 4);
    lemma_one_more(year, 100);
    lemma_one_more(year, 400);
    lemma_multiple_of_a_multiple(year);
}

proof fn lemma_one_more(year: int, d: int)
    requires
        d == 4 || d == 100 || d == 400,
    ensures
        (year + d) / d == (year + d - 1) / d + (if year % d == 0 {
            1int
        } else {
            0
        }),
{
}

proof fn lemma_multiple_of_a_multiple(year: int)
    ensures
        year % 100 == 0 ==> year % 4 == 0,
        year % 400 == 0 ==> year % 100 == 0,
{
}

/// Day numbers count the days of the calendar one by one: the day after a date has the next
/// number, over the end of a month and of a year too.
pub proof fn law_the_next_day_has_the_next_number(year: int, month: int, day: int)
    requires
        1 <= month <= 12,
        1 <= day <= month_length(year, month),
    ensures
        day_number(1970, 1, 1) == 0,
        day < month_length(year, month) ==> day_number(year, month, day + 1) == day_number(
            year,
            month,
            day,
        ) + 1,
        day == month_length(year, month) && month < 12 ==> day_number(year, month + 1, 1)
            == day_number(year, month, day) + 1,
        day == month_length(year, month) && month == 12 ==> day_number(year + 1, 1, 1)
            == day_number(year, month, day) + 1,
{
    lemma_year_length(year);
}

/// The day a yt-dlp version was built, which is what the version says: `2026.09.16`, or a
/// nightly's `2026.09.16.232951`. Nothing for anything else rather than a guess.
pub open spec fn build_day(version: Seq<char>) -> Option<int> {
    let parts = text::fields(version, '.');
    if parts.len() < 3 {
        None
    } else {
        match (text::number(parts[0]), text::number(parts[1]), text::number(parts[2])) {
            (Some(year), Some(month), Some(day)) => if 2000 <= year <= 9999 && 1 <= month <= 12
                && 1 <= day <= month_length(year, month) {
                Some(day_number(year, month, day))
            } else {
                None
            },
            _ => None,
        }
    }
}

/// How old a build is on the day `today`; a clock behind the build is not a negative age.
pub open spec fn age(built: int, today: int) -> int {
    if today >= built {
        today - built
    } else {
        0
    }
}

/// How old a yt-dlp build is, from its version, which is its build date (`2026.09.16` or a
/// nightly's `2026.09.16.232951`). `None` for anything else rather than a guess.
pub fn ytdlp_age_days(version: &str, today: i64) -> (r: Option<i64>)
    requires
        build_day(version@) matches Some(built) ==> today - built >= i64::MIN,
    ensures
        match build_day(version@) {
            Some(built) => r == Some(age(built, today as int) as i64) && r->0 == age(
                built,
                today as int,
            ),
            None => r is None,
        },
{
    let parts: Vec<String> = text::split_fields(version, '.');
    if parts.len() < 3 {
        return None;
    }
    proof {
        assert(text::texts(parts@)[0] == parts@[0]@);
        assert(text::texts(parts@)[1] == parts@[1]@);
        assert(text::texts(parts@)[2] == parts@[2]@);
    }
    let year: i64 = match text::parse_number(parts[0].as_str()) {
        Some(n) => n,
        None => return None,
    };
    let month: i64 = match text::parse_number(parts[1].as_str()) {
        Some(n) => n,
        None => return None,
    };
    let day: i64 = match text::parse_number(parts[2].as_str()) {
        Some(n) => n,
        None => return None,
    };
    if year < 2000 || year > 9999 || month < 1 || month > 12 || day < 1 || day > days_in_month(
        year,
        month,
    ) {
        return None;
    }
    let days: i64 = today - days_from_civil(year, month, day);
    if days < 0 {
        Some(0)
    } else {
        Some(days)
    }
}

/// The later of two builds is never the older one, on any day.
pub proof fn law_a_newer_build_is_never_older(built: int, later: int, today: int)
    requires
        built <= later,
    ensures
        0 <= age(later, today) <= age(built, today),
{
}

/// Days since 1970-01-01 today, in UTC, from the seconds the clock shows since then; a clock set
/// before 1970 counts as that day.
pub fn today(seconds: Option<u64>) -> (r: i64)
    ensures
        r == (match seconds {
            Some(s) => s as int / 86_400,
            None => 0,
        }),
{
    let s: u64 = match seconds {
        Some(s) => s,
        None => 0,
    };
    (s / 86_400) as i64
}

} // verus!
