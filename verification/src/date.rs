//! Minimal proleptic-Gregorian calendar: month parsing, validated date
//! construction, a linear day index, and the textual renderings that tag
//! templates draw on.

use vstd::prelude::*;

use crate::numfmt::{all_digits, digits_val, parse_usize, push_pad2, spec_pad2};

verus! {

/// A calendar month.
#[derive(Debug, Clone, Copy, PartialEq, Eq, Structural)]
pub enum Month {
    January,
    February,
    March,
    April,
    May,
    June,
    July,
    August,
    September,
    October,
    November,
    December,
}

/// Month as a number in 1..=12.
pub open spec fn month_num(m: Month) -> int {
    match m {
        Month::January => 1,
        Month::February => 2,
        Month::March => 3,
        Month::April => 4,
        Month::May => 5,
        Month::June => 6,
        Month::July => 7,
        Month::August => 8,
        Month::September => 9,
        Month::October => 10,
        Month::November => 11,
        Month::December => 12,
    }
}

/// The month numbered `n`, for `n` in 1..=12.
pub open spec fn month_of(n: int) -> Month {
    if n == 1 {
        Month::January
    } else if n == 2 {
        Month::February
    } else if n == 3 {
        Month::March
    } else if n == 4 {
        Month::April
    } else if n == 5 {
        Month::May
    } else if n == 6 {
        Month::June
    } else if n == 7 {
        Month::July
    } else if n == 8 {
        Month::August
    } else if n == 9 {
        Month::September
    } else if n == 10 {
        Month::October
    } else if n == 11 {
        Month::November
    } else {
        Month::December
    }
}

/// Image of [`Month::from`]: a numeric month marker read in base 10.
pub open spec fn spec_month_from(s: Seq<char>) -> Option<Month> {
    if s.len() > 0 && all_digits(s) && 1 <= digits_val(s) <= 12 {
        Some(month_of(digits_val(s) as int))
    } else {
        None
    }
}

impl Month {
    /// Month number in 1..=12.
    pub fn number(&self) -> (r: u8)
        ensures
            r == month_num(*self),
    {
        match self {
            Month::January => 1,
            Month::February => 2,
            Month::March => 3,
            Month::April => 4,
            Month::May => 5,
            Month::June => 6,
            Month::July => 7,
            Month::August => 8,
            Month::September => 9,
            Month::October => 10,
            Month::November => 11,
            Month::December => 12,
        }
    }

    /// The month numbered `n`, if `n` lies in 1..=12.
    pub fn from_number(n: usize) -> (r: Option<Month>)
        ensures
            r == if 1 <= n <= 12 {
                Some(month_of(n as int))
            } else {
                None::<Month>
            },
    {
        match n {
            1 => Some(Month::January),
            2 => Some(Month::February),
            3 => Some(Month::March),
            4 => Some(Month::April),
            5 => Some(Month::May),
            6 => Some(Month::June),
            7 => Some(Month::July),
            8 => Some(Month::August),
            9 => Some(Month::September),
            10 => Some(Month::October),
            11 => Some(Month::November),
            12 => Some(Month::December),
            _ => None,
        }
    }

    /// Read a numeric month marker ("01" through "12").
    pub fn from(s: &str) -> (r: Option<Month>)
        ensures
            r == spec_month_from(s@),
    {
        match parse_usize(s) {
            Some(v) => Month::from_number(v),
            None => None,
        }
    }

    /// English name of the month.
    pub fn name(&self) -> (r: String)
        ensures
            r@ == spec_month_name(*self),
    {
        match self {
            Month::January => String::from_str("January"),
            Month::February => String::from_str("February"),
            Month::March => String::from_str("March"),
            Month::April => String::from_str("April"),
            Month::May => String::from_str("May"),
            Month::June => String::from_str("June"),
            Month::July => String::from_str("July"),
            Month::August => String::from_str("August"),
            Month::September => String::from_str("September"),
            Month::October => String::from_str("October"),
            Month::November => String::from_str("November"),
            Month::December => String::from_str("December"),
        }
    }
}

/// English name of the month.
pub open spec fn spec_month_name(m: Month) -> Seq<char> {
    match m {
        Month::January => "January"@,
        Month::February => "February"@,
        Month::March => "March"@,
        Month::April => "April"@,
        Month::May => "May"@,
        Month::June => "June"@,
        Month::July => "July"@,
        Month::August => "August"@,
        Month::September => "September"@,
        Month::October => "October"@,
        Month::November => "November"@,
        Month::December => "December"@,
    }
}

/// Gregorian leap year.
pub open spec fn is_leap(y: int) -> bool {
    y % 4 == 0 && (y % 100 != 0 || y % 400 == 0)
}

/// Length of month `m` of year `y`, for `m` in 1..=12.
pub open spec fn days_in_month(y: int, m: int) -> int {
    if m == 2 {
        if is_leap(y) {
            29
        } else {
            28
        }
    } else if m == 4 || m == 6 || m == 9 || m == 11 {
        30
    } else {
        31
    }
}

/// A (year, month, day) triple the calendar accepts: years 1..=9999, days
/// within the month.
pub open spec fn date_wf(y: int, m: int, d: int) -> bool {
    1 <= y <= 9999 && 1 <= m <= 12 && 1 <= d <= days_in_month(y, m)
}

/// Why a (year, month, day) triple was refused.
#[derive(Debug, Clone, Copy, PartialEq, Eq, Structural)]
pub enum DateError {
    YearOutOfRange,
    DayOutOfRange,
}

impl DateError {
    /// Human-readable description of the refusal.
    pub fn text(&self) -> (r: String)
        ensures
            r@ == spec_date_error_text(*self),
    {
        match self {
            DateError::YearOutOfRange => String::from_str("year must lie between 1 and 9999"),
            DateError::DayOutOfRange => String::from_str("day does not exist in this month"),
        }
    }
}

/// Description of a date refusal.
pub open spec fn spec_date_error_text(e: DateError) -> Seq<char> {
    match e {
        DateError::YearOutOfRange => "year must lie between 1 and 9999"@,
        DateError::DayOutOfRange => "day does not exist in this month"@,
    }
}

/// A validated calendar date.
#[derive(Debug, Clone, Copy, PartialEq, Eq, Structural)]
pub struct Date {
    pub year: u16,
    pub month: Month,
    pub day: u8,
}

impl DeepView for Date {
    type V = Date;

    open spec fn deep_view(&self) -> Date {
        *self
    }
}

impl Date {
    /// The triple is one the calendar accepts.
    pub open spec fn wf(&self) -> bool {
        date_wf(self.year as int, month_num(self.month), self.day as int)
    }

    /// Build a date from a (year, month, day) triple, refusing triples the
    /// calendar does not accept.
    pub fn from(year: usize, month: Month, day: usize) -> (r: Result<Date, DateError>)
        ensures
            r is Ok <==> date_wf(year as int, month_num(month), day as int),
            r matches Ok(d) ==> d == (Date {
                year: year as u16,
                month: month,
                day: day as u8,
            }) && d.wf(),
            r matches Err(e) ==> e == (if !(1 <= year <= 9999) {
                DateError::YearOutOfRange
            } else {
                DateError::DayOutOfRange
            }),
    {
        if year < 1 || year > 9999 {
            return Err(DateError::YearOutOfRange);
        }
        let dim = days_in_month_exec(year as u32, month.number());
        if day < 1 || day > dim as usize {
            return Err(DateError::DayOutOfRange);
        }
        Ok(Date { year: year as u16, month: month, day: day as u8 })
    }

    /// Day of the month.
    pub fn day(&self) -> (r: u8)
        ensures
            r == self.day,
    {
        self.day
    }

    /// Month of the year.
    pub fn month(&self) -> (r: Month)
        ensures
            r == self.month,
    {
        self.month
    }

    /// Year.
    pub fn year(&self) -> (r: u16)
        ensures
            r == self.year,
    {
        self.year
    }

    /// Position of the date in the proleptic Gregorian calendar, counting
    /// day 1 as January 1st of year 1.
    pub fn index(&self) -> (r: u32)
        requires
            self.wf(),
        ensures
            r == spec_date_index(self.year as int, month_num(self.month), self.day as int),
    {
        let y = self.year as u32;
        let a = 365 * (y - 1);
        let b = (y - 1) / 4;
        let c = (y - 1) / 100;
        let d = (y - 1) / 400;
        let mn = self.month.number();
        let mut before: u32 = 0;
        let mut m: u8 = 1;
        while m < mn
            invariant
                1 <= m <= mn,
                mn == month_num(self.month),
                1 <= y <= 9999,
                before == days_before_month(y as int, m as int),
                before <= 31 * (m as int - 1),
        decreases mn - m,
        {
            before = before + days_in_month_exec(y, m) as u32;
            m = m + 1;
        }
        a + b - c + d + before + self.day as u32
    }

    /// Render the date as `YYYY-MM-DD`.
    pub fn text(&self) -> (r: String)
        requires
            self.wf(),
        ensures
            r@ == spec_date_text(*self),
    {
        let mut s = String::new();
        push_pad2(&mut s, self.year as u64 / 100);
        push_pad2(&mut s, self.year as u64 % 100);
        s.append("-");
        push_pad2(&mut s, month_num_exec(self.month) as u64);
        s.append("-");
        push_pad2(&mut s, self.day as u64);
        proof {
            assert(s@ =~= spec_date_text(*self));
        }
        s
    }

    /// Render the day of the week ("Monday" through "Sunday").
    pub fn weekday_name(&self) -> (r: String)
        requires
            self.wf(),
        ensures
            r@ == spec_weekday_name(*self),
    {
        let idx = self.index();
        let wd = idx % 7;
        match wd {
            1 => String::from_str("Monday"),
            2 => String::from_str("Tuesday"),
            3 => String::from_str("Wednesday"),
            4 => String::from_str("Thursday"),
            5 => String::from_str("Friday"),
            6 => String::from_str("Saturday"),
            _ => String::from_str("Sunday"),
        }
    }
}

fn month_num_exec(m: Month) -> (r: u8)
    ensures
        r == month_num(m),
{
    m.number()
}

/// Days of year `y` that precede month `m`.
pub open spec fn days_before_month(y: int, m: int) -> int
    decreases m,
{
    if m <= 1 {
        0
    } else {
        days_before_month(y, m - 1) + days_in_month(y, m - 1)
    }
}

/// Linear index of a date: days since December 31st of year 0.
pub open spec fn spec_date_index(y: int, m: int, d: int) -> int {
    365 * (y - 1) + (y - 1) / 4 - (y - 1) / 100 + (y - 1) / 400 + days_before_month(y, m) + d
}

/// `YYYY-MM-DD` rendering of a date.
pub open spec fn spec_date_text(date: Date) -> Seq<char> {
    spec_pad2((date.year as nat) / 100) + spec_pad2((date.year as nat) % 100) + "-"@ + spec_pad2(
        month_num(date.month) as nat,
    ) + "-"@ + spec_pad2(date.day as nat)
}

/// Day-of-week rendering: day 1 of year 1 is a Monday.
pub open spec fn spec_weekday_name(date: Date) -> Seq<char> {
    let wd = spec_date_index(date.year as int, month_num(date.month), date.day as int) % 7;
    if wd == 1 {
        "Monday"@
    } else if wd == 2 {
        "Tuesday"@
    } else if wd == 3 {
        "Wednesday"@
    } else if wd == 4 {
        "Thursday"@
    } else if wd == 5 {
        "Friday"@
    } else if wd == 6 {
        "Saturday"@
    } else {
        "Sunday"@
    }
}

fn days_in_month_exec(y: u32, m: u8) -> (r: u8)
    requires
        1 <= m <= 12,
    ensures
        r == days_in_month(y as int, m as int),
{
    if m == 2 {
        if (y % 4 == 0) && (y % 100 != 0 || y % 400 == 0) {
            29
        } else {
            28
        }
    } else if m == 4 || m == 6 || m == 9 || m == 11 {
        30
    } else {
        31
    }
}

/// A pair of dates bounding a stretch of time.
#[derive(Debug, Clone, Copy, PartialEq, Eq, Structural)]
pub struct Period(pub Date, pub Date);

impl Period {
    /// Render the period as `start to end`.
    pub fn text(&self) -> (r: String)
        requires
            self.0.wf(),
            self.1.wf(),
        ensures
            r@ == spec_date_text(self.0) + " to "@ + spec_date_text(self.1),
    {
        let mut s = self.0.text();
        s.append(" to ");
        let end = self.1.text();
        s.append(end.as_str());
        proof {
            assert(s@ =~= spec_date_text(self.0) + " to "@ + spec_date_text(self.1));
        }
        s
    }
}

/// Days of the year that precede month `m` never exceed a year's length.
proof fn lemma_days_before_month_bound(y: int, m: int)
    requires
        1 <= m <= 13,
    ensures
        0 <= days_before_month(y, m) <= 31 * (m - 1),
    decreases m,
{
    if m > 1 {
        lemma_days_before_month_bound(y, m - 1);
    }
}

} // verus!
