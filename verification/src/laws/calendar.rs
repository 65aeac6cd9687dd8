//! The Gregorian calendar: every day has one date.

use crate::time;
use crate::time::Date;
use vstd::prelude::*;

verus! {

spec fn year_length(year: int) -> int {
    if time::is_leap_year(year) {
        366
    } else {
        365
    }
}

#[verifier::spinoff_prover]
proof fn lemma_next_year(year: int)
    ensures
        time::days_before_year(year + 1) == time::days_before_year(year) + year_length(year),
{
    assert(year / 4 - (year - 1) / 4 == (if year % 4 == 0 { 1int } else { 0int }));
    assert(year / 100 - (year - 1) / 100 == (if year % 100 == 0 { 1int } else { 0int }));
    assert(year / 400 - (year - 1) / 400 == (if year % 400 == 0 { 1int } else { 0int }));
    assert(year % 100 == 0 ==> year % 4 == 0);
    assert(year % 400 == 0 ==> year % 100 == 0);
}

proof fn lemma_later_year(a: int, b: int)
    requires
        a < b,
    ensures
        time::days_before_year(a) + year_length(a) <= time::days_before_year(b),
    decreases b - a,
{
    lemma_next_year(b - 1);
    if a < b - 1 {
        lemma_later_year(a, b - 1);
    }
}

proof fn lemma_months(year: int)
    ensures
        time::days_before_month(year, 1) == 0,
        time::days_before_month(year, 13) == year_length(year),
{
    reveal_with_fuel(time::days_before_month, 13);
}

proof fn lemma_later_month(year: int, a: int, b: int)
    requires
        1 <= a < b <= 13,
    ensures
        time::days_before_month(year, a) + time::month_length(year, a) <= time::days_before_month(
            year,
            b,
        ),
    decreases b - a,
{
    if a < b - 1 {
        lemma_later_month(year, a, b - 1);
    }
}

proof fn lemma_day_in_year(number: int, date: Date)
    requires
        time::is_date_of(number, date),
    ensures
        time::days_before_year(date.year) <= number < time::days_before_year(date.year)
            + year_length(date.year),
{
    lemma_months(date.year);
    lemma_later_month(date.year, date.month, 13);
    if date.month > 1 {
        lemma_later_month(date.year, 1, date.month);
    }
}

proof fn lemma_dates_agree(number: int, a: Date, b: Date)
    requires
        time::is_date_of(number, a),
        time::is_date_of(number, b),
    ensures
        a == b,
{
    lemma_day_in_year(number, a);
    lemma_day_in_year(number, b);
    if a.year < b.year {
        lemma_later_year(a.year, b.year);
    }
    if b.year < a.year {
        lemma_later_year(b.year, a.year);
    }
    if a.month < b.month {
        lemma_later_month(a.year, a.month, b.month);
    }
    if b.month < a.month {
        lemma_later_month(a.year, b.month, a.month);
    }
}

proof fn lemma_next_day(number: int, date: Date) -> (next: Date)
    requires
        time::is_date_of(number, date),
    ensures
        time::is_date_of(number + 1, next),
{
    lemma_next_year(date.year);
    lemma_months(date.year);
    lemma_months(date.year + 1);
    if date.day < time::month_length(date.year, date.month) {
        Date { day: date.day + 1, ..date }
    } else if date.month < 12 {
        Date { year: date.year, month: date.month + 1, day: 1 }
    } else {
        Date { year: date.year + 1, month: 1, day: 1 }
    }
}

proof fn lemma_day_before(number: int, date: Date) -> (before: Date)
    requires
        time::is_date_of(number, date),
    ensures
        time::is_date_of(number - 1, before),
{
    lemma_next_year(date.year - 1);
    lemma_months(date.year);
    lemma_months(date.year - 1);
    if date.day > 1 {
        Date { day: date.day - 1, ..date }
    } else if date.month > 1 {
        Date {
            year: date.year,
            month: date.month - 1,
            day: time::month_length(date.year, date.month - 1),
        }
    } else {
        Date { year: date.year - 1, month: 12, day: 31 }
    }
}

proof fn lemma_some_date(number: int) -> (date: Date)
    ensures
        time::is_date_of(number, date),
    decreases if number < 0 { -number } else { number },
{
    if number == 0 {
        lemma_months(1970);
        Date { year: 1970, month: 1, day: 1 }
    } else if number > 0 {
        let before = lemma_some_date(number - 1);
        lemma_next_day(number - 1, before)
    } else {
        let after = lemma_some_date(number + 1);
        lemma_day_before(number + 1, after)
    }
}

/// The days of a month.
pub open spec fn days_in_month(year: int, month: int) -> int {
    let leap = year % 400 == 0 || year % 4 == 0 && year % 100 != 0;
    seq![31int, if leap { 29 } else { 28 }, 31, 30, 31, 30, 31, 31, 30, 31, 30, 31][month - 1]
}

proof fn lemma_month_length(year: int, month: int)
    requires
        1 <= month <= 12,
    ensures
        days_in_month(year, month) == time::month_length(year, month),
        1 <= days_in_month(year, month),
{
    assert(year % 400 == 0 ==> year % 4 == 0);
}

/// The day that follows a date.
pub open spec fn day_after(date: Date) -> Date {
    if date.day < days_in_month(date.year, date.month) {
        Date { day: date.day + 1, ..date }
    } else if date.month < 12 {
        Date { month: date.month + 1, day: 1, ..date }
    } else {
        Date { year: date.year + 1, month: 1, day: 1 }
    }
}

/// The days are counted from the first of January 1970, and the day after a day has the date
/// after its date.
#[verifier::spinoff_prover]
pub proof fn law_days_follow_the_calendar(number: int, date: Date)
    requires
        time::is_date_of(number, date),
    ensures
        time::is_date_of(number + 1, day_after(date)),
        time::is_date_of(0, Date { year: 1970, month: 1, day: 1 }),
{
    let year = date.year;
    let month = date.month;
    lemma_month_length(year, month);
    lemma_next_year(year);
    lemma_months(year);
    lemma_months(year + 1);
    lemma_months(1970);
    assert(time::days_before_month(year, month + 1) == time::days_before_month(year, month)
        + time::month_length(year, month));
    assert(time::days_before_year(1970) == 0);
}

/// Every day has exactly one date: the one that is used for it, and no other.
pub proof fn law_day_has_one_date(number: int)
    ensures
        time::is_date_of(number, time::date_of(number)),
        forall|date: Date|
            #[trigger] time::is_date_of(number, date) ==> date == time::date_of(number),
{
    let date = lemma_some_date(number);
    assert(time::is_date_of(number, time::date_of(number)));
    assert forall|date: Date| #[trigger] time::is_date_of(number, date) implies date
        == time::date_of(number) by {
        lemma_dates_agree(number, date, time::date_of(number));
    }
}

} // verus!
