//! Dates and times of day in UTC.

use vstd::prelude::*;

use crate::numbers;

verus! {

/// A day of the Gregorian calendar.
#[derive(Debug, Clone, Copy, PartialEq, Eq, Structural)]
pub struct Date {
    pub year: u64,
    pub month: u64,
    pub day: u64,
}

pub const SECONDS_PER_DAY: u64 = 86400;

/// Whether a year has a leap day.
pub open spec fn is_leap(year: int) -> bool {
    year % 4 == 0 && (year % 100 != 0 || year % 400 == 0)
}

/// The length of a year in days.
pub open spec fn year_length(year: int) -> int {
    if is_leap(year) {
        366
    } else {
        365
    }
}

/// The length of a month in days.
pub open spec fn month_length(year: int, month: int) -> int {
    if month == 2 {
        if is_leap(year) {
            29
        } else {
            28
        }
    } else if month == 4 || month == 6 || month == 9 || month == 11 {
        30
    } else {
        31
    }
}

/// Whether there is such a day.
pub open spec fn is_date(date: Date) -> bool {
    &&& 1 <= date.month <= 12
    &&& 1 <= date.day <= month_length(date.year as int, date.month as int)
}

/// The days from the start of 1970 to the start of a year.
pub open spec fn days_before_year(year: int) -> int
    decreases
            if year < 1970 {
                1970 - year
            } else {
                year - 1970
            },
{
    if year == 1970 {
        0
    } else if year < 1970 {
        days_before_year(year + 1) - year_length(year)
    } else {
        days_before_year(year - 1) + year_length(year - 1)
    }
}

/// The days from the start of a year to the start of a month.
pub open spec fn days_before_month(year: int, month: int) -> int
    decreases month,
{
    if month <= 1 {
        0
    } else {
        days_before_month(year, month - 1) + month_length(year, month - 1)
    }
}

/// The days from the first of January 1970 to a day.
pub open spec fn day_number(date: Date) -> int {
    days_before_year(date.year as int) + days_before_month(date.year as int, date.month as int)
        + date.day - 1
}

/// The day that follows a day.
pub open spec fn next_day(date: Date) -> Date {
    if date.day < month_length(date.year as int, date.month as int) {
        Date { day: (date.day + 1) as u64, ..date }
    } else if date.month < 12 {
        Date { month: (date.month + 1) as u64, day: 1, ..date }
    } else {
        Date { year: (date.year + 1) as u64, month: 1, day: 1 }
    }
}

/// The day so many days after the first of January 1970.
pub open spec fn date_at(days: int) -> Date {
    choose|date: Date| #[trigger] is_date(date) && day_number(date) == days
}

/// The leap days up to the end of a year that is not negative.
spec fn leap_days(year: int) -> int {
    year / 4 - year / 100 + year / 400
}

proof fn leap_days_step(year: int)
    requires
        year > 0,
    ensures
        leap_days(year) - leap_days(year - 1) == year_length(year) - 365,
{
    assert(year / 4 - (year - 1) / 4 == if year % 4 == 0 { 1int } else { 0 });
    assert(year / 100 - (year - 1) / 100 == if year % 100 == 0 { 1int } else { 0 });
    assert(year / 400 - (year - 1) / 400 == if year % 400 == 0 { 1int } else { 0 });
    if year % 400 == 0 {
        assert(year % 100 == 0);
    }
    if year % 100 == 0 {
        assert(year % 4 == 0);
    }
}

proof fn days_before_year_is_closed(year: int)
    requires
        year >= 1,
    ensures
        days_before_year(year) == 365 * year + leap_days(year - 1) - 719527,
    decreases
            if year < 1970 {
                1970 - year
            } else {
                year - 1970
            },
{
    if year < 1970 {
        days_before_year_is_closed(year + 1);
        leap_days_step(year);
    } else if year > 1970 {
        days_before_year_is_closed(year - 1);
        leap_days_step(year - 1);
    }
}

proof fn month_starts(year: int)
    ensures
        days_before_month(year, 1) == 0,
        days_before_month(year, 2) == 31,
        days_before_month(year, 3) == 31 + month_length(year, 2),
        days_before_month(year, 4) == 62 + month_length(year, 2),
        days_before_month(year, 5) == 92 + month_length(year, 2),
        days_before_month(year, 6) == 123 + month_length(year, 2),
        days_before_month(year, 7) == 153 + month_length(year, 2),
        days_before_month(year, 8) == 184 + month_length(year, 2),
        days_before_month(year, 9) == 215 + month_length(year, 2),
        days_before_month(year, 10) == 245 + month_length(year, 2),
        days_before_month(year, 11) == 276 + month_length(year, 2),
        days_before_month(year, 12) == 306 + month_length(year, 2),
        days_before_month(year, 13) == year_length(year),
{
    reveal_with_fuel(days_before_month, 14);
}

proof fn day_in_year(date: Date)
    requires
        is_date(date),
    ensures
        0 <= days_before_month(date.year as int, date.month as int) + date.day - 1
            < year_length(date.year as int),
{
    month_starts(date.year as int);
}

proof fn years_follow(first: int, second: int)
    requires
        first < second,
    ensures
        days_before_year(first) + year_length(first) <= days_before_year(second),
    decreases second - first,
{
    if first < 1970 {
        assert(days_before_year(first) == days_before_year(first + 1) - year_length(first));
    } else {
        assert(days_before_year(first + 1) == days_before_year(first) + year_length(first));
    }
    if first + 1 < second {
        years_follow(first + 1, second);
    }
}

/// Two days with the same number are the same day.
pub proof fn day_numbers_tell_dates_apart(a: Date, b: Date)
    requires
        is_date(a),
        is_date(b),
        day_number(a) == day_number(b),
    ensures
        a == b,
{
    day_in_year(a);
    day_in_year(b);
    if a.year < b.year {
        years_follow(a.year as int, b.year as int);
    } else if b.year < a.year {
        years_follow(b.year as int, a.year as int);
    }
    month_starts(a.year as int);
}

/// The number of the following day is one more.
pub proof fn next_day_has_the_next_number(date: Date)
    requires
        is_date(date),
        date.year < u64::MAX,
    ensures
        is_date(next_day(date)),
        day_number(next_day(date)) == day_number(date) + 1,
{
    month_starts(date.year as int);
    let year = date.year as int;
    if year < 1970 {
        assert(days_before_year(year) == days_before_year(year + 1) - year_length(year));
    } else {
        assert(days_before_year(year + 1) == days_before_year(year) + year_length(year));
    }
}

/// A day is the day at its number.
pub proof fn date_at_day_number(date: Date)
    requires
        is_date(date),
    ensures
        date_at(day_number(date)) == date,
{
    let other = date_at(day_number(date));
    day_numbers_tell_dates_apart(date, other);
}

/// The first of January 1970 is the day at zero, and the following day follows it.
pub proof fn days_follow_one_another(date: Date)
    requires
        is_date(date),
        date.year < u64::MAX,
    ensures
        date_at(0) == (Date { year: 1970, month: 1, day: 1 }),
        date_at(day_number(date) + 1) == next_day(date),
{
    let first = Date { year: 1970, month: 1, day: 1 };
    month_starts(1970);
    assert(is_date(first));
    date_at_day_number(first);
    next_day_has_the_next_number(date);
    date_at_day_number(next_day(date));
}

/// The day so many days after the first of January 1970.
///
/// Years are counted from March, so that the leap day ends them: four centuries hold 146097
/// days, of which each of the first three centuries holds 36524, and four years hold 1461.
pub fn date_of_day(days: u64) -> (date: Date)
    requires
        days <= u64::MAX / SECONDS_PER_DAY,
    ensures
        date == date_at(days as int),
        is_date(date),
        day_number(date) == days,
{
    let z: u64 = days + 719468;
    let era: u64 = z / 146097;
    let in_era: u64 = z % 146097;
    let century: u64 = if in_era / 36524 < 3 {
        in_era / 36524
    } else {
        3
    };
    let in_century: u64 = in_era - century * 36524;
    let quad: u64 = in_century / 1461;
    let in_quad: u64 = in_century % 1461;
    let single: u64 = if in_quad / 365 < 3 {
        in_quad / 365
    } else {
        3
    };
    let in_year: u64 = in_quad - single * 365;
    let year_of_era: u64 = century * 100 + quad * 4 + single;
    let march_year: u64 = era * 400 + year_of_era;
    let months: u64 = (5 * in_year + 2) / 153;
    let day: u64 = in_year - (153 * months + 2) / 5 + 1;
    let month: u64 = if months < 10 {
        months + 3
    } else {
        months - 9
    };
    let year: u64 = if month <= 2 {
        march_year + 1
    } else {
        march_year
    };
    let date = Date { year, month, day };
    proof {
        assert(quad <= 24);
        assert(year_of_era / 4 == century * 25 + quad);
        assert(year_of_era / 100 == century);
        assert(year_of_era <= 399);
        assert(march_year / 4 == era * 100 + year_of_era / 4);
        assert(march_year / 100 == era * 4 + year_of_era / 100);
        assert(march_year / 400 == era);
        assert(z == 365 * march_year + leap_days(march_year as int) + in_year);
        assert(in_year <= 365);
        let next = march_year + 1;
        if in_year == 365 {
            assert(single == 3 && in_quad == 1460);
            assert(next % 4 == 0);
            if quad == 24 {
                assert(in_century == 36524);
                assert(century == 3);
                assert(year_of_era == 399);
                assert(next % 400 == 0);
            } else {
                assert(next % 100 != 0);
            }
            assert(is_leap(next));
        }
        days_before_year_is_closed(next);
        days_before_year_is_closed(march_year as int);
        leap_days_step(march_year as int);
        month_starts(march_year as int);
        month_starts(next);
        month_and_day(in_year as int);
        assert(is_date(date));
        assert(day_number(date) == days);
        date_at_day_number(date);
    }
    date
}

/// The month and the day in it for a day of a year that starts in March.
proof fn month_and_day(in_year: int)
    requires
        0 <= in_year <= 365,
    ensures
        ({
            let months = (5 * in_year + 2) / 153;
            let start = (153 * months + 2) / 5;
            &&& 0 <= months <= 11
            &&& start <= in_year
            &&& months == 0 ==> start == 0 && in_year < 31
            &&& months == 1 ==> start == 31 && in_year < 61
            &&& months == 2 ==> start == 61 && in_year < 92
            &&& months == 3 ==> start == 92 && in_year < 122
            &&& months == 4 ==> start == 122 && in_year < 153
            &&& months == 5 ==> start == 153 && in_year < 184
            &&& months == 6 ==> start == 184 && in_year < 214
            &&& months == 7 ==> start == 214 && in_year < 245
            &&& months == 8 ==> start == 245 && in_year < 275
            &&& months == 9 ==> start == 275 && in_year < 306
            &&& months == 10 ==> start == 306 && in_year < 337
            &&& months == 11 ==> start == 337
        }),
{
}

/// A moment as text.
pub open spec fn moment(date: Date, second: nat) -> Seq<char> {
    numbers::zero_filled(numbers::decimal(date.year as nat), 4) + "-"@ + numbers::zero_filled(
        numbers::decimal(date.month as nat),
        2,
    ) + "-"@ + numbers::zero_filled(numbers::decimal(date.day as nat), 2) + "T"@
        + numbers::zero_filled(numbers::decimal(second / 3600), 2) + ":"@ + numbers::zero_filled(
        numbers::decimal((second / 60) % 60),
        2,
    ) + ":"@ + numbers::zero_filled(numbers::decimal(second % 60), 2) + "Z"@
}

/// The moment so many seconds after the start of 1970, as text.
pub open spec fn utc_text(epoch_secs: nat) -> Seq<char> {
    moment(date_at((epoch_secs / 86400) as int), epoch_secs % 86400)
}

/// Renders the moment so many seconds after the start of 1970.
pub fn format_utc_iso8601(epoch_secs: u64) -> (output: String)
    ensures
        output@ == utc_text(epoch_secs as nat),
{
    let date = date_of_day(epoch_secs / SECONDS_PER_DAY);
    let second: u64 = epoch_secs % SECONDS_PER_DAY;
    let mut text = String::new();
    let out = &mut text;
    numbers::push_fixed(out, date.year, 4);
    out.append("-");
    numbers::push_fixed(out, date.month, 2);
    out.append("-");
    numbers::push_fixed(out, date.day, 2);
    out.append("T");
    numbers::push_fixed(out, second / 3600, 2);
    out.append(":");
    numbers::push_fixed(out, (second / 60) % 60, 2);
    out.append(":");
    numbers::push_fixed(out, second % 60, 2);
    out.append("Z");
    assert(text@ =~= utc_text(epoch_secs as nat));
    text
}

/// A moment is written with four digits for the year and two each for the month, the day, the
/// hour, the minute and the second.
pub proof fn moments_are_written_in_order(date: Date, hour: nat, minute: nat, second: nat)
    requires
        is_date(date),
        1970 <= date.year < 10000,
        hour < 24,
        minute < 60,
        second < 60,
        day_number(date) >= 0,
    ensures
        utc_text((day_number(date) * 86400 + hour * 3600 + minute * 60 + second) as nat)
            == numbers::last_digits(date.year as nat, 4) + "-"@ + numbers::last_digits(
            date.month as nat,
            2,
        ) + "-"@ + numbers::last_digits(date.day as nat, 2) + "T"@ + numbers::last_digits(hour, 2)
            + ":"@ + numbers::last_digits(minute, 2) + ":"@ + numbers::last_digits(second, 2)
            + "Z"@,
{
    let in_day: nat = (hour * 3600 + minute * 60 + second) as nat;
    let whole: nat = (day_number(date) * 86400 + in_day) as nat;
    assert(whole / 86400 == day_number(date) && whole % 86400 == in_day);
    assert(in_day / 3600 == hour);
    assert((in_day / 60) % 60 == minute);
    assert(in_day % 60 == second);
    date_at_day_number(date);
    reveal_with_fuel(numbers::ten_to, 5);
    assert(numbers::ten_to(2) == 100 && numbers::ten_to(4) == 10000);
    month_starts(date.year as int);
    numbers::zero_filled_is_last_digits(date.year as nat, 4);
    numbers::zero_filled_is_last_digits(date.month as nat, 2);
    numbers::zero_filled_is_last_digits(date.day as nat, 2);
    numbers::zero_filled_is_last_digits(hour, 2);
    numbers::zero_filled_is_last_digits(minute, 2);
    numbers::zero_filled_is_last_digits(second, 2);
}

} // verus!
