//! The proleptic Gregorian calendar: dates and day numbers, each determining the other.

use vstd::prelude::*;

verus! {

/// A date of the proleptic Gregorian calendar.
pub struct Date {
    /// The year, zero and below included.
    pub year: int,
    /// The month, one to twelve.
    pub month: int,
    /// The day of the month, from one.
    pub day: int,
}

/// Whether a year has a twenty-ninth of February.
pub open spec fn is_leap(year: int) -> bool {
    year % 4 == 0 && (year % 100 != 0 || year % 400 == 0)
}

/// How many days a month has; none where there is no such month.
pub open spec fn month_length(year: int, month: int) -> int {
    if month == 2 {
        if is_leap(year) {
            29
        } else {
            28
        }
    } else if month == 4 || month == 6 || month == 9 || month == 11 {
        30
    } else if 1 <= month <= 12 {
        31
    } else {
        0
    }
}

/// Whether the calendar has this date.
pub open spec fn is_date(d: Date) -> bool {
    1 <= d.month <= 12 && 1 <= d.day <= month_length(d.year, d.month)
}

/// How many days lie between the first of January of year one and that of `year`.
pub open spec fn days_before_year(year: int) -> int {
    365 * (year - 1) + (year - 1) / 4 - (year - 1) / 100 + (year - 1) / 400
}

/// How many days of `year` precede the first of `month`.
pub open spec fn days_before_month(year: int, month: int) -> int
    decreases month,
{
    if month <= 1 {
        0
    } else {
        days_before_month(year, month - 1) + month_length(year, month - 1)
    }
}

/// The day number of a date, counted from the first of January 1970.
pub open spec fn day_number(d: Date) -> int {
    days_before_year(d.year) + days_before_month(d.year, d.month) + d.day - 1 - days_before_year(
        1970,
    )
}

/// The date with a given day number.
pub open spec fn date_of(number: int) -> Date {
    choose|d: Date| is_date(d) && day_number(d) == number
}

/// The lengths of the preceding months, added up.
proof fn lemma_days_before_month(year: int, month: int)
    requires
        1 <= month <= 12,
    ensures
        days_before_month(year, month) == (if month == 1 {
            0
        } else if month == 2 {
            31
        } else {
            (153 * (month - 3) + 2) / 5 + 59 + (if is_leap(year) {
                1int
            } else {
                0
            })
        }),
{
    reveal_with_fuel(days_before_month, 13);
}

/// A year is as long as its months.
proof fn lemma_year_step(year: int)
    ensures
        days_before_year(year + 1) == days_before_year(year) + 365 + (if is_leap(year) {
            1int
        } else {
            0
        }),
{
    assert(year / 4 == (year - 1) / 4 + (if year % 4 == 0 {
        1int
    } else {
        0
    }));
    assert(year / 100 == (year - 1) / 100 + (if year % 100 == 0 {
        1int
    } else {
        0
    }));
    assert(year / 400 == (year - 1) / 400 + (if year % 400 == 0 {
        1int
    } else {
        0
    }));
    assert(year % 400 == 0 ==> year % 100 == 0);
    assert(year % 100 == 0 ==> year % 4 == 0);
}

/// Day numbers grow with dates: a later year comes wholly after an earlier one.
proof fn lemma_years_ordered(a: int, b: int)
    requires
        a < b,
    ensures
        days_before_year(a + 1) <= days_before_year(b),
    decreases b - a,
{
    if a + 1 < b {
        lemma_years_ordered(a, b - 1);
        lemma_year_step(b - 1);
    }
}

/// The dates of one year number `0 .. 365` or `0 .. 366` days past its first.
proof fn lemma_within_year(d: Date)
    requires
        is_date(d),
    ensures
        0 <= days_before_month(d.year, d.month) + d.day - 1 < 365 + (if is_leap(d.year) {
            1int
        } else {
            0
        }),
{
    lemma_days_before_month(d.year, d.month);
}

/// Two dates with the same day number are the same date.
pub proof fn lemma_day_number_injective(a: Date, b: Date)
    requires
        is_date(a),
        is_date(b),
        day_number(a) == day_number(b),
    ensures
        a == b,
{
    lemma_within_year(a);
    lemma_within_year(b);
    lemma_year_step(a.year);
    lemma_year_step(b.year);
    if a.year < b.year {
        lemma_years_ordered(a.year, b.year);
    }
    if b.year < a.year {
        lemma_years_ordered(b.year, a.year);
    }
    lemma_days_before_month(a.year, a.month);
    lemma_days_before_month(b.year, b.month);
    if a.month < b.month {
        assert(days_before_month(a.year, a.month) + month_length(a.year, a.month)
            <= days_before_month(a.year, b.month));
    }
    if b.month < a.month {
        assert(days_before_month(a.year, b.month) + month_length(a.year, b.month)
            <= days_before_month(a.year, a.month));
    }
}

/// The day number of a date, from the four-hundred-year cycle it lies in: the cycle `era`, the
/// year `year_of_era` of it counted from March, the month counted from March, and the day.
proof fn lemma_cycle(era: int, year_of_era: int, month_prime: int, day: int)
    requires
        0 <= year_of_era < 400,
        0 <= month_prime < 12,
    ensures
        ({
            let month = if month_prime < 10 {
                month_prime + 3
            } else {
                month_prime - 9
            };
            let year = era * 400 + year_of_era + (if month <= 2 {
                1int
            } else {
                0
            });
            day_number(Date { year, month, day }) == era * 146_097 + year_of_era * 365 + year_of_era
                / 4 - year_of_era / 100 + (153 * month_prime + 2) / 5 + day - 1 - 719_468
        }),
{
    let month = if month_prime < 10 {
        month_prime + 3
    } else {
        month_prime - 9
    };
    let y = era * 400 + year_of_era;
    let year = y + (if month <= 2 {
        1int
    } else {
        0
    });
    lemma_days_before_month(year, month);
    lemma_year_step(y);
    assert(days_before_year(y + 1) == era * 146_097 + year_of_era * 365 + year_of_era / 4
        - year_of_era / 100);
}

/// The year of a four-hundred-year cycle that a day of the cycle falls in, and its day of that
/// year: only a year that a leap day ends has a three hundred and sixty-sixth.
proof fn lemma_year_of_era(day_of_era: int)
    requires
        0 <= day_of_era < 146_097,
    ensures
        ({
            let y = (day_of_era - day_of_era / 1_460 + day_of_era / 36_524 - day_of_era / 146_096)
                / 365;
            let start = 365 * y + y / 4 - y / 100;
            &&& 0 <= y < 400
            &&& start <= day_of_era <= start + 365
            &&& day_of_era == start + 365 ==> is_leap(y + 1)
        }),
{
    let century = day_of_era / 36_524;
    let y = (day_of_era - day_of_era / 1_460 + day_of_era / 36_524 - day_of_era / 146_096) / 365;
    assert(0 <= century <= 4);
}

/// The month, counted from March, that a day of a year counted from March falls in.
proof fn lemma_month_of_year(day_of_year: int)
    requires
        0 <= day_of_year <= 365,
    ensures
        ({
            let m = (5 * day_of_year + 2) / 153;
            let day = day_of_year - (153 * m + 2) / 5 + 1;
            &&& 0 <= m < 12
            &&& 1 <= day <= 31
            &&& m == 1 || m == 3 || m == 6 || m == 8 ==> day <= 30
            &&& m == 11 ==> day <= 29
            &&& m == 11 && day == 29 ==> day_of_year == 365
        }),
{
    let m = (5 * day_of_year + 2) / 153;
    assert(0 <= m < 12);
    assert(m == 0 || m == 1 || m == 2 || m == 3 || m == 4 || m == 5 || m == 6 || m == 7 || m == 8
        || m == 9 || m == 10 || m == 11);
}

/// Whether a year counted within its cycle is leap does not depend on the cycle.
proof fn lemma_leap_in_cycle(era: int, year: int)
    ensures
        is_leap(era * 400 + year) == is_leap(year),
{
    assert((era * 400 + year) % 4 == year % 4);
    assert((era * 400 + year) % 100 == year % 100);
    assert((era * 400 + year) % 400 == year % 400);
}

/// The date with day number `number`, computed from the four-hundred-year cycle it lies in.
pub open spec fn civil(number: int) -> Date {
    let shifted = number + 719_468;
    let era = shifted / 146_097;
    let day_of_era = shifted % 146_097;
    let year_of_era = (day_of_era - day_of_era / 1_460 + day_of_era / 36_524 - day_of_era / 146_096)
        / 365;
    let day_of_year = day_of_era - (365 * year_of_era + year_of_era / 4 - year_of_era / 100);
    let month_prime = (5 * day_of_year + 2) / 153;
    let day = day_of_year - (153 * month_prime + 2) / 5 + 1;
    let month = if month_prime < 10 {
        month_prime + 3
    } else {
        month_prime - 9
    };
    let year = era * 400 + year_of_era + (if month <= 2 {
        1int
    } else {
        0
    });
    Date { year, month, day }
}

/// Every day number has a date, exactly one.
pub proof fn lemma_date_of(number: int)
    ensures
        is_date(date_of(number)),
        day_number(date_of(number)) == number,
        date_of(number) == civil(number),
{
    let shifted = number + 719_468;
    let era = shifted / 146_097;
    let day_of_era = shifted % 146_097;
    lemma_year_of_era(day_of_era);
    let year_of_era = (day_of_era - day_of_era / 1_460 + day_of_era / 36_524 - day_of_era / 146_096)
        / 365;
    let day_of_year = day_of_era - (365 * year_of_era + year_of_era / 4 - year_of_era / 100);
    lemma_month_of_year(day_of_year);
    let month_prime = (5 * day_of_year + 2) / 153;
    let day = day_of_year - (153 * month_prime + 2) / 5 + 1;
    lemma_cycle(era, year_of_era, month_prime, day);
    lemma_leap_in_cycle(era, year_of_era + 1);
    let date = civil(number);
    assert(is_date(date));
    assert(day_number(date) == number);
    let chosen = date_of(number);
    assert(is_date(chosen) && day_number(chosen) == number);
    lemma_day_number_injective(date, chosen);
}

/// A date before another, year first, then month, then day.
pub open spec fn earlier(a: Date, b: Date) -> bool {
    a.year < b.year || (a.year == b.year && (a.month < b.month || (a.month == b.month && a.day
        < b.day)))
}

/// Day numbers are ordered as dates are.
pub proof fn lemma_day_number_ordered(a: Date, b: Date)
    requires
        is_date(a),
        is_date(b),
        earlier(a, b),
    ensures
        day_number(a) < day_number(b),
{
    lemma_within_year(a);
    lemma_within_year(b);
    lemma_year_step(a.year);
    if a.year < b.year {
        lemma_years_ordered(a.year, b.year);
    } else {
        lemma_days_before_month(a.year, a.month);
        lemma_days_before_month(b.year, b.month);
        if a.month < b.month {
            assert(days_before_month(a.year, a.month) + month_length(a.year, a.month)
                <= days_before_month(a.year, b.month));
        }
    }
}

/// How many days a month has; none where there is no such month, or outside the years from zero
/// that fit thirty-two bits.
pub fn days_in_month(year: i64, month: i64) -> (r: i64)
    ensures
        r == (if 0 <= year <= 0xffff_ffff {
            month_length(year as int, month as int)
        } else {
            0
        }),
{
    if year < 0 || year > 0xffff_ffff {
        return 0;
    }
    if month == 2 {
        if year % 4 == 0 && (year % 100 != 0 || year % 400 == 0) {
            29
        } else {
            28
        }
    } else if month == 4 || month == 6 || month == 9 || month == 11 {
        30
    } else if 1 <= month && month <= 12 {
        31
    } else {
        0
    }
}

/// The day number of a date, counted from the first of January 1970.
pub fn days_from_civil(year: i64, month: i64, day: i64) -> (r: i64)
    requires
        is_date((Date { year: year as int, month: month as int, day: day as int })),
        -1_000_000_000_000 <= year <= 1_000_000_000_000,
    ensures
        r == day_number((Date { year: year as int, month: month as int, day: day as int })),
{
    let y: i64 = if month <= 2 {
        year - 1
    } else {
        year
    };
    let era: i64 = y.checked_div_euclid(400).unwrap();
    let year_of_era: i64 = y - era * 400;
    let month_prime: i64 = if month > 2 {
        month - 3
    } else {
        month + 9
    };
    proof {
        lemma_cycle(era as int, year_of_era as int, month_prime as int, day as int);
    }
    let day_of_year: i64 = (153 * month_prime + 2) / 5 + day - 1;
    let day_of_era: i64 = year_of_era * 365 + year_of_era / 4 - year_of_era / 100 + day_of_year;
    era * 146_097 + day_of_era - 719_468
}

/// The date with a given day number, as year, month and day.
pub fn civil_from_days(days: i64) -> (r: (i64, i64, i64))
    requires
        -1_000_000_000_000 <= days <= 1_000_000_000_000,
    ensures
        is_date((Date { year: r.0 as int, month: r.1 as int, day: r.2 as int })),
        day_number((Date { year: r.0 as int, month: r.1 as int, day: r.2 as int })) == days,
        (Date { year: r.0 as int, month: r.1 as int, day: r.2 as int }) == date_of(days as int),
        -3_000_000_000 <= r.0 <= 3_000_000_000,
{
    proof {
        lemma_date_of(days as int);
        lemma_year_of_era((days + 719_468) % 146_097);
    }
    let shifted: i64 = days + 719_468;
    let era: i64 = shifted.checked_div_euclid(146_097).unwrap();
    let day_of_era: i64 = shifted - era * 146_097;
    let year_of_era: i64 = (day_of_era - day_of_era / 1_460 + day_of_era / 36_524 - day_of_era
        / 146_096) / 365;
    let year: i64 = year_of_era + era * 400;
    let day_of_year: i64 = day_of_era - (365 * year_of_era + year_of_era / 4 - year_of_era / 100);
    let month_prime: i64 = (5 * day_of_year + 2) / 153;
    let day: i64 = day_of_year - (153 * month_prime + 2) / 5 + 1;
    let month: i64 = if month_prime < 10 {
        month_prime + 3
    } else {
        month_prime - 9
    };
    let civil_year: i64 = if month <= 2 {
        year + 1
    } else {
        year
    };
    (civil_year, month, day)
}

/// The days follow one another: the first of the epoch is day zero, and the day after a date has
/// the next number, over the end of a month and of a year.
pub proof fn lemma_days_follow_one_another(d: Date)
    requires
        is_date(d),
    ensures
        day_number(Date { year: 1970, month: 1, day: 1 }) == 0,
        d.day < month_length(d.year, d.month) ==> day_number(Date { day: d.day + 1, ..d })
            == day_number(d) + 1,
        d.day == month_length(d.year, d.month) && d.month < 12 ==> day_number(
            Date { year: d.year, month: d.month + 1, day: 1 },
        ) == day_number(d) + 1,
        d.month == 12 && d.day == 31 ==> day_number(Date { year: d.year + 1, month: 1, day: 1 })
            == day_number(d) + 1,
{
    lemma_days_before_month(d.year, 12);
    lemma_year_step(d.year);
}

/// February has a day more in every year that four divides, but for those that a hundred divides
/// and four hundred does not; and every other month has the days it always has.
pub proof fn lemma_how_long_months_are(year: int)
    ensures
        month_length(year, 2) == if year % 400 == 0 || (year % 4 == 0 && year % 100 != 0) {
            29
        } else {
            28int
        },
        month_length(year, 1) == 31 && month_length(year, 3) == 31 && month_length(year, 5) == 31
            && month_length(year, 7) == 31 && month_length(year, 8) == 31 && month_length(year, 10)
            == 31 && month_length(year, 12) == 31,
        month_length(year, 4) == 30 && month_length(year, 6) == 30 && month_length(year, 9) == 30
            && month_length(year, 11) == 30,
{
}

} // verus!
