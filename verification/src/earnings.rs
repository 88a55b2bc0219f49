//! Driver earnings reports: the day a report is asked for, the time window it
//! covers, and the weekly bar chart built from the earnings rows.
//!
//! Days are numbered as chrono numbers them from the common era: 0001-01-01
//! (a Monday in the proleptic Gregorian calendar) is day 1. Amounts are whole
//! cents.
use chrono::{Datelike, NaiveDate};
use vstd::prelude::*;

use crate::text::string_of;

verus! {

/// Number of the first date chrono can represent (January 1, 262143 BCE).
pub const MIN_DAY: i32 = -95_746_129;

/// Number of the last date chrono can represent (December 31, 262142 CE).
pub const MAX_DAY: i32 = 95_745_399;

/// Why an earnings report could not be made.
#[derive(Clone, Debug, PartialEq, Eq)]
pub enum EarningsError {
    /// The date is not a `YYYY-MM-DD` calendar date; the message is the
    /// parser's reason.
    InvalidDateFormat(String),
    /// The window would end past the last representable date.
    InvalidDate,
}

/// One earning of a driver: the (UTC) day it was recorded and its amount.
#[derive(Clone, Copy, Debug, PartialEq, Eq, Structural)]
pub struct EarningRow {
    pub day: i32,
    pub amount: i64,
}

/// One bar of the weekly chart: the day's total and its weekday letter.
pub struct BarChartEntry {
    pub value: i128,
    pub label: String,
}

/// A driver's earnings over one Monday-to-Sunday week.
pub struct WeeklyEarningsReport {
    pub total_rides: i64,
    pub total_earnings: i128,
    pub chart_data: Vec<BarChartEntry>,
}

/// The day a `YYYY-MM-DD` text names, as chrono parses it, or `None`.
pub uninterp spec fn ymd_day_number(text: Seq<char>) -> Option<i32>;

/// Days since the Monday that starts the week of day `d` (0 for Monday,
/// 6 for Sunday).
pub open spec fn days_from_monday(d: int) -> int {
    (d - 1) % 7
}

/// The Monday that starts the week of day `d`.
pub open spec fn monday_of(d: int) -> int {
    d - days_from_monday(d)
}

/// The letter shown under the bar of the `i`-th day of the week.
pub open spec fn weekday_letter(i: int) -> Seq<char> {
    if i == 0 {
        seq!['M']
    } else if i == 1 || i == 3 {
        seq!['T']
    } else if i == 2 {
        seq!['W']
    } else if i == 4 {
        seq!['F']
    } else {
        seq!['S']
    }
}

/// Sum of the amounts of the rows recorded on day `day`.
pub open spec fn amount_on(rows: Seq<EarningRow>, day: int) -> int
    decreases rows.len(),
{
    if rows.len() == 0 {
        0
    } else {
        amount_on(rows.drop_last(), day) + if rows.last().day == day {
            rows.last().amount as int
        } else {
            0
        }
    }
}

/// Sum of the amounts of all rows.
pub open spec fn total_amount(rows: Seq<EarningRow>) -> int
    decreases rows.len(),
{
    if rows.len() == 0 {
        0
    } else {
        total_amount(rows.drop_last()) + rows.last().amount as int
    }
}

/// Calls `chrono::NaiveDate::parse_from_str` with the format `%Y-%m-%d` and
/// numbers the date it yields with `Datelike::num_days_from_ce`, or renders
/// chrono's parse error. Claimed: whether it parses and the day depend on the
/// text alone, and a date it yields lies between the first and the last date
/// chrono represents. Not claimed: which texts parse, or the error's wording.
#[verifier::external_body]
fn parse_ymd(text: &str) -> (r: Result<i32, String>)
    ensures
        r is Ok <==> ymd_day_number(text@) is Some,
        r matches Ok(d) ==> ymd_day_number(text@) == Some(d) && MIN_DAY <= d <= MAX_DAY,
{
    match NaiveDate::parse_from_str(text, "%Y-%m-%d") {
        Ok(date) => Ok(date.num_days_from_ce()),
        Err(e) => Err(e.to_string()),
    }
}

/// The day a report is asked for, from its `YYYY-MM-DD` text; when it is not
/// such a date, the error carries the parser's reason.
pub fn parse_report_date(date: &str) -> (r: Result<i32, EarningsError>)
    ensures
        r matches Ok(d) ==> ymd_day_number(date@) == Some(d),
        r is Err <==> ymd_day_number(date@) is None,
        r matches Err(e) ==> e is InvalidDateFormat,
        r matches Ok(d) ==> MIN_DAY <= d <= MAX_DAY,
{
    match parse_ymd(date) {
        Ok(d) => Ok(d),
        Err(cause) => Err(EarningsError::InvalidDateFormat(cause)),
    }
}

/// The window of a daily report: from the start of `day` up to, not
/// including, the start of the next day; an error on the last representable
/// day, which has no next day.
pub fn daily_window(day: i32) -> (r: Result<(i32, i32), EarningsError>)
    requires
        MIN_DAY <= day <= MAX_DAY,
    ensures
        day < MAX_DAY ==> r == Ok::<(i32, i32), EarningsError>((day, (day + 1) as i32)),
        day == MAX_DAY ==> r == Err::<(i32, i32), EarningsError>(EarningsError::InvalidDate),
{
    if day < MAX_DAY {
        Ok((day, day + 1))
    } else {
        Err(EarningsError::InvalidDate)
    }
}

/// Days since the Monday of the week of `day`.
pub fn weekday_index(day: i32) -> (k: i32)
    requires
        MIN_DAY <= day <= MAX_DAY,
    ensures
        k == days_from_monday(day as int),
        0 <= k < 7,
{
    // A multiple of seven that keeps the dividend positive.
    let shifted: i64 = day as i64 - 1 + 95_746_133;
    let k: i64 = shifted % 7;
    assert(95_746_133int == 7 * 13_678_019int);
    assert((day as int - 1 + 7 * 13_678_019) % 7 == (day as int - 1) % 7) by {
        vstd::arithmetic::div_mod::lemma_mod_multiples_vanish(13_678_019, day as int - 1, 7);
    }
    k as i32
}

/// The window of a weekly report: the Monday of the week of `day`, and the
/// Monday after it (the window ends before it). Dates whose week reaches
/// outside the representable range are left out, as chrono's date arithmetic
/// panics on them.
pub fn week_window(day: i32) -> (r: Result<(i32, i32), EarningsError>)
    requires
        MIN_DAY <= day <= MAX_DAY,
        MIN_DAY <= monday_of(day as int),
        monday_of(day as int) + 6 <= MAX_DAY,
    ensures
        monday_of(day as int) + 6 < MAX_DAY ==> r == Ok::<(i32, i32), EarningsError>(
            (monday_of(day as int) as i32, (monday_of(day as int) + 7) as i32),
        ),
        monday_of(day as int) + 6 == MAX_DAY ==> r == Err::<(i32, i32), EarningsError>(
            EarningsError::InvalidDate,
        ),
{
    let start = day - weekday_index(day);
    let end = start + 6;
    if end < MAX_DAY {
        Ok((start, end + 1))
    } else {
        Err(EarningsError::InvalidDate)
    }
}

/// The weekday letter of the `i`-th day of the week, as a string.
fn weekday_label(i: usize) -> (s: String)
    requires
        i < 7,
    ensures
        s@ == weekday_letter(i as int),
{
    let letter: char = if i == 0 {
        'M'
    } else if i == 1 || i == 3 {
        'T'
    } else if i == 2 {
        'W'
    } else if i == 4 {
        'F'
    } else {
        'S'
    };
    let v: Vec<char> = vec![letter];
    let s = string_of(v.as_slice());
    assert(v@ =~= seq![letter]);
    s
}

/// Sum of the amounts of the rows recorded on `day`.
fn sum_on_day(rows: &[EarningRow], day: i64) -> (s: i128)
    requires
        rows@.len() <= i64::MAX,
    ensures
        s == amount_on(rows@, day as int),
{
    let mut s: i128 = 0;
    let mut i: usize = 0;
    while i < rows.len()
        invariant
            i <= rows@.len() <= i64::MAX,
            s == amount_on(rows@.subrange(0, i as int), day as int),
            -0x8000_0000_0000_0000 * i <= s <= 0x7fff_ffff_ffff_ffff * i,
        decreases rows@.len() - i,
    {
        let row = rows[i];
        assert(rows@.subrange(0, i + 1).drop_last() =~= rows@.subrange(0, i as int));
        if row.day as i64 == day {
            s = s + row.amount as i128;
        }
        i = i + 1;
    }
    assert(rows@.subrange(0, rows@.len() as int) =~= rows@);
    s
}

/// Sum of the amounts of all rows.
fn sum_all(rows: &[EarningRow]) -> (s: i128)
    requires
        rows@.len() <= i64::MAX,
    ensures
        s == total_amount(rows@),
{
    let mut s: i128 = 0;
    let mut i: usize = 0;
    while i < rows.len()
        invariant
            i <= rows@.len() <= i64::MAX,
            s == total_amount(rows@.subrange(0, i as int)),
            -0x8000_0000_0000_0000 * i <= s <= 0x7fff_ffff_ffff_ffff * i,
        decreases rows@.len() - i,
    {
        assert(rows@.subrange(0, i + 1).drop_last() =~= rows@.subrange(0, i as int));
        s = s + rows[i].amount as i128;
        i = i + 1;
    }
    assert(rows@.subrange(0, rows@.len() as int) =~= rows@);
    s
}

/// The weekly report of the week starting on `week_start`: the number of
/// rows, their total, and one bar per day from Monday to Sunday with that
/// day's total.
pub fn weekly_report(week_start: i32, rows: &[EarningRow]) -> (r: WeeklyEarningsReport)
    requires
        rows@.len() <= i64::MAX,
    ensures
        r.total_rides == rows@.len(),
        r.total_earnings == total_amount(rows@),
        r.chart_data@.len() == 7,
        forall|i: int|
            0 <= i < 7 ==> (#[trigger] r.chart_data@[i]).value == amount_on(
                rows@,
                week_start + i,
            ) && r.chart_data@[i].label@ == weekday_letter(i),
{
    let mut chart: Vec<BarChartEntry> = Vec::new();
    let mut i: usize = 0;
    while i < 7
        invariant
            i <= 7,
            rows@.len() <= i64::MAX,
            chart@.len() == i,
            forall|j: int|
                0 <= j < i ==> (#[trigger] chart@[j]).value == amount_on(rows@, week_start + j)
                    && chart@[j].label@ == weekday_letter(j),
        decreases 7 - i,
    {
        let value = sum_on_day(rows, week_start as i64 + i as i64);
        let label = weekday_label(i);
        chart.push(BarChartEntry { value, label });
        i = i + 1;
    }
    WeeklyEarningsReport {
        total_rides: rows.len() as i64,
        total_earnings: sum_all(rows),
        chart_data: chart,
    }
}

/// Sum of the seven daily totals of the week starting on `week_start`.
pub open spec fn week_bars_total(rows: Seq<EarningRow>, week_start: int) -> int {
    amount_on(rows, week_start) + amount_on(rows, week_start + 1) + amount_on(rows, week_start + 2)
        + amount_on(rows, week_start + 3) + amount_on(rows, week_start + 4) + amount_on(
        rows,
        week_start + 5,
    ) + amount_on(rows, week_start + 6)
}

/// When every earning falls in the week, the seven bars of the weekly chart
/// add up to the week's total earnings.
pub proof fn law_weekly_bars_add_up_to_total(week_start: int, rows: Seq<EarningRow>)
    requires
        forall|j: int| 0 <= j < rows.len() ==> week_start <= #[trigger] rows[j].day < week_start
            + 7,
    ensures
        week_bars_total(rows, week_start) == total_amount(rows),
    decreases rows.len(),
{
    if rows.len() > 0 {
        let init = rows.drop_last();
        assert forall|j: int| 0 <= j < init.len() implies week_start <= #[trigger] init[j].day
            < week_start + 7 by {
            assert(init[j] == rows[j]);
        }
        law_weekly_bars_add_up_to_total(week_start, init);
        assert(rows.last() == rows[rows.len() - 1]);
    }
}

} // verus!
