//! The civil calendar: the dates of the Gregorian calendar, reckoned in both directions
//! without end, and how dates and times are written.
use vstd::prelude::*;

use crate::number::{decimal_nat, digit_char, is_digit};

verus! {

/// The seconds of a day.
pub const DAY: i64 = 86_400;

/// A day of a month of a year.
pub struct Date {
    pub year: int,
    pub month: int,
    pub day: int,
}

/// Whether a year has a 29th of February.
pub open spec fn is_leap(year: int) -> bool {
    year % 4 == 0 && (year % 100 != 0 || year % 400 == 0)
}

/// The days from the first of January of 1970 to the first of January of `year`: 365 for
/// each year, and one for each leap year.
pub open spec fn days_before_year(year: int) -> int {
    let before = year - 1;
    365 * before + before / 4 - before / 100 + before / 400 - 719_162
}

/// The days of `year` before its month `month`; all of its days for a 13th one.
pub open spec fn days_before_month(year: int, month: int) -> int {
    let leap: int = if is_leap(year) {
        1
    } else {
        0
    };
    if month <= 1 {
        0
    } else if month == 2 {
        31
    } else if month == 3 {
        59 + leap
    } else if month == 4 {
        90 + leap
    } else if month == 5 {
        120 + leap
    } else if month == 6 {
        151 + leap
    } else if month == 7 {
        181 + leap
    } else if month == 8 {
        212 + leap
    } else if month == 9 {
        243 + leap
    } else if month == 10 {
        273 + leap
    } else if month == 11 {
        304 + leap
    } else if month == 12 {
        334 + leap
    } else {
        365 + leap
    }
}

/// Whether there is such a date.
pub open spec fn is_date(d: Date) -> bool {
    &&& 1 <= d.month <= 12
    &&& 1 <= d.day <= days_before_month(d.year, d.month + 1) - days_before_month(d.year, d.month)
}

/// The number of a date: 0 for the first of January of 1970, and one more for each day.
pub open spec fn day_number(d: Date) -> int {
    days_before_year(d.year) + days_before_month(d.year, d.month) + d.day - 1
}

/// The month of the day of `year` that has `before` days of the year before it.
pub open spec fn month_of(year: int, before: int) -> int {
    if before < days_before_month(year, 2) {
        1
    } else if before < days_before_month(year, 3) {
        2
    } else if before < days_before_month(year, 4) {
        3
    } else if before < days_before_month(year, 5) {
        4
    } else if before < days_before_month(year, 6) {
        5
    } else if before < days_before_month(year, 7) {
        6
    } else if before < days_before_month(year, 8) {
        7
    } else if before < days_before_month(year, 9) {
        8
    } else if before < days_before_month(year, 10) {
        9
    } else if before < days_before_month(year, 11) {
        10
    } else if before < days_before_month(year, 12) {
        11
    } else {
        12
    }
}

/// The year of the day `number`: 400 years have 146,097 days, a century of them 36,524 and
/// the last one more, four years 1,461 and a year 365 and the last one more.
pub open spec fn year_of(number: int) -> int {
    let days = number + 719_162;
    let in_400 = days % 146_097;
    let centuries = if in_400 / 36_524 < 3 {
        in_400 / 36_524
    } else {
        3
    };
    let in_century = in_400 - 36_524 * centuries;
    let in_4 = in_century % 1_461;
    let years = if in_4 / 365 < 3 {
        in_4 / 365
    } else {
        3
    };
    1 + 400 * (days / 146_097) + 100 * centuries + 4 * (in_century / 1_461) + years
}

/// The date of the day `number`.
#[verifier::opaque]
pub open spec fn date_of(number: int) -> Date {
    let year = year_of(number);
    let before = number - days_before_year(year);
    let month = month_of(year, before);
    Date { year, month, day: before - days_before_month(year, month) + 1 }
}

/// The day that `seconds` since the start of 1970 fall on, where the clock is `offset`
/// seconds ahead of UTC.
pub open spec fn local_day(seconds: int, offset: int) -> int {
    (seconds + offset) / (DAY as int)
}

// ---------------------------------------------------------------------------
// Writing.
// ---------------------------------------------------------------------------

/// A number below 100 in two digits.
pub open spec fn two(n: int) -> Seq<char> {
    seq![digit_char(n / 10), digit_char(n % 10)]
}

/// A year, in four digits or more; with a sign where it is not one of four digits.
pub open spec fn year_text(year: int) -> Seq<char> {
    let size = if year < 0 {
        -year
    } else {
        year
    };
    let digits = if size < 10_000 {
        two(size / 100) + two(size % 100)
    } else {
        decimal_nat(size as nat)
    };
    if year < 0 {
        seq!['-'] + digits
    } else if year >= 10_000 {
        seq!['+'] + digits
    } else {
        digits
    }
}

/// The date and time, like `18.08.26 10:22:32`, of `seconds` since the start of 1970 on a
/// clock that is `offset` seconds ahead of UTC.
pub open spec fn stamp_at(seconds: int, offset: int) -> Seq<char> {
    let date = date_of(local_day(seconds, offset));
    let time = (seconds + offset) % (DAY as int);
    two(date.day) + seq!['.'] + two(date.month) + seq!['.'] + two(date.year % 100) + seq![' ']
        + two(time / 3600) + seq![':'] + two(time / 60 % 60) + seq![':'] + two(time % 60)
}

/// A day, like `2026-08-18`.
pub open spec fn day_text(number: int) -> Seq<char> {
    let date = date_of(number);
    year_text(date.year) + seq!['-'] + two(date.month) + seq!['-'] + two(date.day)
}

/// The day, like `2026-08-18`, of `seconds` since the start of 1970 on a clock that is
/// `offset` seconds ahead of UTC.
pub open spec fn day_at(seconds: int, offset: int) -> Seq<char> {
    day_text(local_day(seconds, offset))
}

// ---------------------------------------------------------------------------
// Laws.
// ---------------------------------------------------------------------------

proof fn lemma_one_more_multiple(year: int)
    ensures
        year / 4 - (year - 1) / 4 == if year % 4 == 0 {
            1int
        } else {
            0
        },
        year / 100 - (year - 1) / 100 == if year % 100 == 0 {
            1int
        } else {
            0
        },
        year / 400 - (year - 1) / 400 == if year % 400 == 0 {
            1int
        } else {
            0
        },
{
}

proof fn lemma_multiples(year: int)
    ensures
        year % 100 == 0 ==> year % 4 == 0,
        year % 400 == 0 ==> year % 100 == 0,
{
}

proof fn lemma_year_has_its_days(year: int)
    ensures
        days_before_year(year + 1) == days_before_year(year) + days_before_month(year, 13),
{
    lemma_one_more_multiple(year);
    lemma_multiples(year);
    assert(days_before_year(year + 1) == 365 * year + year / 4 - year / 100 + year / 400 - 719_162);
}

proof fn lemma_years_in_order(a: int, b: int)
    requires
        a <= b,
    ensures
        days_before_year(a) <= days_before_year(b),
    decreases b - a,
{
    if a < b {
        lemma_years_in_order(a, b - 1);
        lemma_year_has_its_days(b - 1);
    }
}

proof fn lemma_year_in_cycles(cycles: int, centuries: int, fours: int, years: int)
    requires
        0 <= centuries < 4,
        0 <= fours < 25,
        0 <= years < 4,
    ensures
        days_before_year(1 + 400 * cycles + 100 * centuries + 4 * fours + years) == 146_097 * cycles
            + 36_524 * centuries + 1_461 * fours + 365 * years - 719_162,
        years == 3 && (fours < 24 || centuries == 3) ==> is_leap(
            1 + 400 * cycles + 100 * centuries + 4 * fours + years,
        ),
{
    let before = 400 * cycles + 100 * centuries + 4 * fours + years;
    assert(before / 4 == 100 * cycles + 25 * centuries + fours);
    assert(before / 100 == 4 * cycles + centuries);
    assert(before / 400 == cycles);
    if years == 3 {
        assert((before + 1) % 4 == 0);
        if fours < 24 {
            assert((before + 1) % 100 == 4 * fours + 4);
        } else if centuries == 3 {
            assert((before + 1) % 400 == 0);
        }
    }
}

proof fn lemma_year_of(number: int)
    ensures
        days_before_year(year_of(number)) <= number < days_before_year(year_of(number) + 1),
{
    let days = number + 719_162;
    let cycles = days / 146_097;
    let in_400 = days % 146_097;
    let centuries = if in_400 / 36_524 < 3 {
        in_400 / 36_524
    } else {
        3
    };
    let in_century = in_400 - 36_524 * centuries;
    assert(0 <= in_century < 36_525);
    assert(centuries < 3 ==> in_century < 36_524);
    let fours = in_century / 1_461;
    let in_4 = in_century % 1_461;
    assert(fours < 25);
    let years = if in_4 / 365 < 3 {
        in_4 / 365
    } else {
        3
    };
    let year = year_of(number);
    assert(year == 1 + 400 * cycles + 100 * centuries + 4 * fours + years);
    lemma_year_in_cycles(cycles, centuries, fours, years);
    assert(number - days_before_year(year) == in_4 - 365 * years);
    assert(0 <= in_4 - 365 * years < days_before_month(year, 13));
    lemma_year_has_its_days(year);
}

/// Every day has a date, and the number of that date is the day's.
pub proof fn law_every_day_has_its_date(number: int)
    ensures
        is_date(date_of(number)),
        day_number(date_of(number)) == number,
{
    reveal(date_of);
    lemma_year_of(number);
    lemma_year_has_its_days(year_of(number));
}

/// A date is the date of its number, so that no two dates share one.
pub proof fn law_every_date_has_its_day(d: Date)
    requires
        is_date(d),
    ensures
        date_of(day_number(d)) == d,
{
    let number = day_number(d);
    let year = year_of(number);
    reveal(date_of);
    lemma_year_of(number);
    lemma_year_has_its_days(d.year);
    assert(days_before_year(d.year) <= number < days_before_year(d.year + 1));
    if year < d.year {
        lemma_years_in_order(year + 1, d.year);
    } else if year > d.year {
        lemma_years_in_order(d.year + 1, year);
    }
}

/// Whether two digits stand at `i`.
pub open spec fn two_digits(s: Seq<char>, i: int) -> bool {
    is_digit(s[i]) && is_digit(s[i + 1])
}

/// Whether `s` is written like `18.08.26 10:22:32`.
pub open spec fn is_stamp(s: Seq<char>) -> bool {
    &&& s.len() == 17
    &&& two_digits(s, 0) && s[2] == '.'
    &&& two_digits(s, 3) && s[5] == '.'
    &&& two_digits(s, 6) && s[8] == ' '
    &&& two_digits(s, 9) && s[11] == ':'
    &&& two_digits(s, 12) && s[14] == ':'
    &&& two_digits(s, 15)
}

/// Every date and time is written alike.
pub proof fn law_stamps_are_written_alike(seconds: int, offset: int)
    ensures
        is_stamp(stamp_at(seconds, offset)),
{
    law_every_day_has_its_date(local_day(seconds, offset));
}

/// The months have 31 days, but April, June, September and November 30, and February 28, or
/// 29 in every fourth year, of the full centuries only in every fourth.
pub proof fn law_months_have_their_days(d: Date)
    ensures
        is_date(d) <==> 1 <= d.month <= 12 && 1 <= d.day <= if d.month == 4 || d.month == 6
            || d.month == 9 || d.month == 11 {
            30int
        } else if d.month != 2 {
            31
        } else if d.year % 4 != 0 || (d.year % 100 == 0 && d.year % 400 != 0) {
            28
        } else {
            29
        },
{
}

/// Days are counted from the first of January of 1970: the next day of a month, the first
/// day of the next month and the first day of the next year each count one more.
pub proof fn law_days_follow_each_other(year: int, month: int, day: int)
    ensures
        day_number((Date { year: 1970, month: 1, day: 1 })) == 0,
        day_number((Date { year, month, day: day + 1 })) == day_number((Date { year, month, day }))
            + 1,
        is_date((Date { year, month, day })) && !is_date((Date { year, month, day: day + 1 }))
            && month < 12 ==> day_number((Date { year, month: month + 1, day: 1 })) == day_number(
            (Date { year, month, day }),
        ) + 1,
        day_number((Date { year: year + 1, month: 1, day: 1 })) == day_number(
            (Date { year, month: 12, day: 31 }),
        ) + 1,
{
    lemma_year_has_its_days(year);
}

/// The number that the two digits at `i` write.
pub open spec fn number_at(s: Seq<char>, i: int) -> int {
    10 * (s[i] as int - '0' as int) + (s[i + 1] as int - '0' as int)
}

proof fn lemma_two(n: int)
    requires
        0 <= n < 100,
    ensures
        two(n).len() == 2,
        number_at(two(n), 0) == n,
{
}

/// A date and time can be read back: the day, the month and the last digits of the year are
/// those of the day that the second falls on, and the hour, the minute and the second count
/// up to it from the start of that day.
pub proof fn law_stamps_are_read_back(seconds: int, offset: int, d: Date)
    requires
        is_date(d),
        day_number(d) == (seconds + offset) / 86_400,
    ensures
        ({
            let s = stamp_at(seconds, offset);
            &&& number_at(s, 0) == d.day
            &&& number_at(s, 3) == d.month
            &&& number_at(s, 6) == d.year % 100
            &&& number_at(s, 12) < 60
            &&& number_at(s, 15) < 60
            &&& 86_400 * day_number(d) + 3600 * number_at(s, 9) + 60 * number_at(s, 12) + number_at(
                s,
                15,
            ) == seconds + offset
        }),
{
    law_every_date_has_its_day(d);
    let time = (seconds + offset) % (DAY as int);
    let s = stamp_at(seconds, offset);
    lemma_two(d.day);
    lemma_two(d.month);
    lemma_two(d.year % 100);
    lemma_two(time / 3600);
    lemma_two(time / 60 % 60);
    lemma_two(time % 60);
    assert(s[0] == two(d.day)[0] && s[1] == two(d.day)[1]);
    assert(s[3] == two(d.month)[0] && s[4] == two(d.month)[1]);
    assert(s[6] == two(d.year % 100)[0] && s[7] == two(d.year % 100)[1]);
    assert(s[9] == two(time / 3600)[0] && s[10] == two(time / 3600)[1]);
    assert(s[12] == two(time / 60 % 60)[0] && s[13] == two(time / 60 % 60)[1]);
    assert(s[15] == two(time % 60)[0] && s[16] == two(time % 60)[1]);
    assert(time == 3600 * (time / 3600) + 60 * (time / 60 % 60) + time % 60);
}

/// A day of a year of four digits can be read back: the year, the month and the day, in
/// this order, with dashes between them.
pub proof fn law_days_are_read_back(d: Date)
    requires
        is_date(d),
        0 <= d.year < 10_000,
    ensures
        ({
            let s = day_text(day_number(d));
            &&& s.len() == 10
            &&& 100 * number_at(s, 0) + number_at(s, 2) == d.year
            &&& s[4] == '-'
            &&& number_at(s, 5) == d.month
            &&& s[7] == '-'
            &&& number_at(s, 8) == d.day
        }),
{
    law_every_date_has_its_day(d);
    let s = day_text(day_number(d));
    lemma_two(d.year / 100);
    lemma_two(d.year % 100);
    lemma_two(d.month);
    lemma_two(d.day);
    assert(s[0] == two(d.year / 100)[0] && s[1] == two(d.year / 100)[1]);
    assert(s[2] == two(d.year % 100)[0] && s[3] == two(d.year % 100)[1]);
    assert(s[5] == two(d.month)[0] && s[6] == two(d.month)[1]);
    assert(s[8] == two(d.day)[0] && s[9] == two(d.day)[1]);
}

} // verus!
