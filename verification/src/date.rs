//! Calendar days and inclusive ranges of them.
//!
//! A [`Date`] is a day of the proleptic Gregorian calendar, held as its day
//! number: January 1 of year 1 is day 1. Reading a date from text and writing
//! it back are done by `chrono`; everything else is integer arithmetic.

use vstd::prelude::*;

verus! {

/// Day number of January 1 of year -262143, the earliest day `chrono` represents.
pub const MIN_DAY: i32 = -95_746_129;

/// Day number of December 31 of year 262142, the latest day `chrono` represents.
pub const MAX_DAY: i32 = 95_745_399;

/// Pattern of a day: year, month and day of the month.
pub const DAY_PATTERN: &'static str = "%Y-%m-%d";

/// The day number that `chrono` reads out of `s` under the pattern `%Y-%m-%d`,
/// or `None` where it rejects `s`.
pub uninterp spec fn parsed_day(s: Seq<char>) -> Option<int>;

/// The text that `chrono` writes for day number `day` under the pattern `%Y-%m-%d`.
pub uninterp spec fn iso_text(day: int) -> Seq<char>;

/// Calls `chrono::NaiveDate::parse_from_str` with [`DAY_PATTERN`] and
/// hands back the day number of the date it read (`Datelike::num_days_from_ce`).
///
/// Trusted: the result is a function of the text alone, and a date that
/// `chrono` accepts lies between its `NaiveDate::MIN` and `NaiveDate::MAX`.
#[verifier::external_body]
fn parse_day(s: &str) -> (r: Option<i32>)
    ensures
        r is Some <==> parsed_day(s@) is Some,
        r matches Some(n) ==> parsed_day(s@) == Some(n as int) && MIN_DAY <= n <= MAX_DAY,
{
    match chrono::NaiveDate::parse_from_str(s, DAY_PATTERN) {
        Ok(date) => Some(chrono::Datelike::num_days_from_ce(&date)),
        Err(_) => None,
    }
}

/// Calls `chrono::NaiveDate::from_num_days_from_ce_opt` and formats the date
/// with [`DAY_PATTERN`].
///
/// Trusted: the text is a function of the day number alone. Day numbers
/// outside `MIN_DAY..=MAX_DAY`, for which `chrono` has no date, are excluded.
#[verifier::external_body]
pub(crate) fn day_text(n: i32) -> (r: String)
    requires
        MIN_DAY <= n <= MAX_DAY,
    ensures
        r@ == iso_text(n as int),
{
    chrono::NaiveDate::from_num_days_from_ce_opt(n).unwrap().format(DAY_PATTERN).to_string()
}

/// Why a search could not be started.
#[derive(Clone, Copy, Debug, PartialEq, Eq, Structural)]
pub enum ConfigError {
    /// The identifier is empty once trimmed.
    EmptyIdentifier,
    /// The first day of the range is not a date.
    InvalidStartDate,
    /// The last day of the range is not a date.
    InvalidEndDate,
    /// The first day of the range lies after the last.
    InvertedRange,
    /// No worker was asked for.
    InvalidWorkerCount,
}

/// A calendar day.
#[derive(Clone, Copy, Debug, PartialEq, Eq, Structural)]
pub struct Date {
    days: i32,
}

impl Date {
    #[verifier::type_invariant]
    spec fn in_calendar(self) -> bool {
        MIN_DAY <= self.days <= MAX_DAY
    }

    /// The day number: January 1 of year 1 is day 1.
    pub closed spec fn day(self) -> int {
        self.days as int
    }

    /// The date with the given day number, if the calendar has one.
    pub fn from_days(n: i32) -> (r: Option<Date>)
        ensures
            r is Some <==> MIN_DAY <= n <= MAX_DAY,
            r matches Some(d) ==> d.day() == n,
    {
        if MIN_DAY <= n && n <= MAX_DAY {
            Some(Date { days: n })
        } else {
            None
        }
    }

    /// Reads a date written as `YYYY-MM-DD`. A date that is read is a day
    /// of the calendar.
    pub fn parse(s: &str) -> (r: Option<Date>)
        ensures
            r is Some <==> parsed_day(s@) is Some,
            r matches Some(d) ==> parsed_day(s@) == Some(d.day()) && MIN_DAY <= d.day()
                <= MAX_DAY,
    {
        match parse_day(s) {
            Some(n) => Some(Date { days: n }),
            None => None,
        }
    }

    /// The day number.
    pub fn days(&self) -> (n: i32)
        ensures
            n == self.day(),
            MIN_DAY <= n <= MAX_DAY,
    {
        proof {
            use_type_invariant(self);
        }
        self.days
    }

    /// The date written as `YYYY-MM-DD`.
    pub fn text(&self) -> (r: String)
        ensures
            r@ == iso_text(self.day()),
    {
        proof {
            use_type_invariant(self);
        }
        day_text(self.days)
    }
}

/// An inclusive span of days, never empty.
#[derive(Clone, Copy, Debug, PartialEq, Eq, Structural)]
pub struct DateRange {
    start: Date,
    end: Date,
}

impl DateRange {
    #[verifier::type_invariant]
    spec fn ordered(self) -> bool {
        &&& MIN_DAY <= self.start.days <= MAX_DAY
        &&& MIN_DAY <= self.end.days <= MAX_DAY
        &&& self.start.days <= self.end.days
    }

    /// Day number of the first day.
    pub closed spec fn first(self) -> int {
        self.start.days as int
    }

    /// Day number of the last day.
    pub closed spec fn last(self) -> int {
        self.end.days as int
    }

    /// Number of days in the range.
    pub open spec fn len(self) -> int {
        self.last() - self.first() + 1
    }

    /// Whether day number `d` lies in the range.
    pub open spec fn holds(self, d: int) -> bool {
        self.first() <= d <= self.last()
    }

    /// The range from `start` to `end`, both included; refused where `start`
    /// lies after `end`.
    pub fn new(start: Date, end: Date) -> (r: Result<DateRange, ConfigError>)
        ensures
            r is Ok <==> start.day() <= end.day(),
            r matches Ok(range) ==> range.first() == start.day() && range.last() == end.day(),
            r matches Err(e) ==> e == ConfigError::InvertedRange,
    {
        proof {
            use_type_invariant(start);
            use_type_invariant(end);
        }
        if start.days <= end.days {
            Ok(DateRange { start, end })
        } else {
            Err(ConfigError::InvertedRange)
        }
    }

    /// The first day.
    pub fn start(&self) -> (d: Date)
        ensures
            d.day() == self.first(),
    {
        self.start
    }

    /// The last day.
    pub fn end(&self) -> (d: Date)
        ensures
            d.day() == self.last(),
    {
        self.end
    }

    /// Number of days in the range.
    pub fn total_days(&self) -> (n: i64)
        ensures
            n == self.len(),
            MIN_DAY <= self.first() <= self.last() <= MAX_DAY,
    {
        proof {
            use_type_invariant(self);
        }
        let first: i64 = self.start.days as i64;
        let last: i64 = self.end.days as i64;
        last - first + 1
    }

    /// Whether `d` lies in the range.
    pub fn contains(&self, d: Date) -> (b: bool)
        ensures
            b == self.holds(d.day()),
    {
        self.start.days <= d.days && d.days <= self.end.days
    }

    /// The range between two day numbers of the calendar.
    pub(crate) fn span(first: i32, last: i32) -> (r: DateRange)
        requires
            MIN_DAY <= first <= last <= MAX_DAY,
        ensures
            r.first() == first,
            r.last() == last,
    {
        DateRange { start: Date { days: first }, end: Date { days: last } }
    }

    /// Day number of the first day.
    pub fn first_day(&self) -> (n: i32)
        ensures
            n == self.first(),
            MIN_DAY <= n <= self.last() <= MAX_DAY,
    {
        proof {
            use_type_invariant(self);
        }
        self.start.days
    }

    /// Day number of the last day.
    pub fn last_day(&self) -> (n: i32)
        ensures
            n == self.last(),
            MIN_DAY <= self.first() <= n <= MAX_DAY,
    {
        proof {
            use_type_invariant(self);
        }
        self.end.days
    }

    /// Two ranges with the same first and last day are one range.
    pub proof fn lemma_ends_decide(a: DateRange, b: DateRange)
        requires
            a.first() == b.first(),
            a.last() == b.last(),
        ensures
            a == b,
    {
    }
}

} // verus!
