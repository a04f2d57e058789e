use chrono::Datelike;
use vstd::prelude::*;

verus! {

/// A calendar date (proleptic Gregorian).
#[derive(Debug, Clone, Copy, PartialEq, Eq, Structural)]
pub struct Date {
    pub year: i32,
    pub month: u32,
    pub day: u32,
}

pub open spec fn is_leap_year(y: int) -> bool {
    (y % 4 == 0 && y % 100 != 0) || y % 400 == 0
}

pub open spec fn days_in_month(y: int, m: int) -> int {
    if m == 2 {
        if is_leap_year(y) { 29 } else { 28 }
    } else if m == 4 || m == 6 || m == 9 || m == 11 {
        30
    } else {
        31
    }
}

impl Date {
    /// The date names a real day of the calendar.
    pub open spec fn wf(&self) -> bool {
        1 <= self.month <= 12 && 1 <= self.day <= days_in_month(self.year as int, self.month as int)
    }
}

/// A point in time without a time zone, to the nanosecond.
#[derive(Debug, Clone, Copy, PartialEq, Eq, Structural)]
pub struct DateTime {
    pub date: Date,
    pub hour: u32,
    pub minute: u32,
    pub second: u32,
    pub nanosecond: u32,
}

/// What `chrono::NaiveDate::parse_from_str(s, "%Y-%m-%d")` yields for `s`, as
/// (year, month, day), or `None` where it refuses `s`.
pub uninterp spec fn parsed_ymd(s: Seq<char>) -> Option<(int, int, int)>;

/// Relies on `chrono::NaiveDate::parse_from_str` with the format `%Y-%m-%d`:
/// the outcome depends on the text alone, and a `NaiveDate` is always a valid
/// calendar date (`Datelike::month` counts from 1, `Datelike::day` too).
#[verifier::external_body]
fn parse_ymd(s: &str) -> (r: Option<Date>)
    ensures
        r.is_some() == parsed_ymd(s@).is_some(),
        r.is_some() ==> {
            let (y, m, d) = parsed_ymd(s@).unwrap();
            &&& r.unwrap().year == y
            &&& r.unwrap().month == m
            &&& r.unwrap().day == d
            &&& r.unwrap().wf()
        },
{
    chrono::NaiveDate::parse_from_str(s, "%Y-%m-%d").ok().map(
        |d| Date { year: d.year(), month: d.month(), day: d.day() },
    )
}

/// The date of a trip search, read from text of the form `YYYY-MM-DD`.
pub open spec fn search_date_of(s: Seq<char>) -> Option<Date> {
    match parsed_ymd(s) {
        Some((y, m, d)) => Some(Date { year: y as i32, month: m as u32, day: d as u32 }),
        None => None,
    }
}

/// Reads the date of a trip search; `None` where the text is no calendar date.
pub fn parse_search_date(s: &str) -> (r: Option<Date>)
    ensures
        r == search_date_of(s@),
        r.is_some() ==> r.unwrap().wf(),
{
    parse_ymd(s)
}

} // verus!
