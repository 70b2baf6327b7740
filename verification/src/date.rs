use vstd::prelude::*;

use crate::render::digit_str;
use crate::render::spec_digit;

verus! {

/// A calendar date in the proleptic Gregorian calendar, restricted to the
/// years that the storage format's `YYYY-MM-DD` encoding covers.
#[derive(Debug, Clone, Copy, PartialEq, Eq, Structural)]
pub struct Date {
    pub year: u16,
    pub month: u8,
    pub day: u8,
}

pub open spec fn spec_is_leap_year(y: int) -> bool {
    y % 4 == 0 && (y % 100 != 0 || y % 400 == 0)
}

pub open spec fn spec_days_in_month(y: int, m: int) -> int {
    if m == 2 {
        if spec_is_leap_year(y) {
            29
        } else {
            28
        }
    } else if m == 4 || m == 6 || m == 9 || m == 11 {
        30
    } else {
        31
    }
}

pub fn days_in_month(year: u16, month: u8) -> (r: u8)
    requires
        1 <= month <= 12,
    ensures
        r == spec_days_in_month(year as int, month as int),
{
    if month == 2 {
        if year % 4 == 0 && (year % 100 != 0 || year % 400 == 0) {
            29
        } else {
            28
        }
    } else if month == 4 || month == 6 || month == 9 || month == 11 {
        30
    } else {
        31
    }
}

impl Date {
    /// A valid calendar date whose year fits the four-digit storage encoding.
    pub open spec fn wf(self) -> bool {
        &&& self.year <= 9999
        &&& 1 <= self.month <= 12
        &&& 1 <= self.day <= spec_days_in_month(self.year as int, self.month as int)
    }

    /// Lexicographic order on (year, month, day).
    pub open spec fn le(self, other: Date) -> bool {
        if self.year != other.year {
            self.year < other.year
        } else if self.month != other.month {
            self.month < other.month
        } else {
            self.day <= other.day
        }
    }

    pub fn from_ymd(year: u16, month: u8, day: u8) -> (r: Option<Date>)
        ensures
            r matches Some(d) ==> d == (Date { year, month, day }) && d.wf(),
            r is None ==> !(Date { year, month, day }).wf(),
    {
        if year <= 9999 && 1 <= month && month <= 12 && 1 <= day && day <= days_in_month(
            year,
            month,
        ) {
            Some(Date { year, month, day })
        } else {
            None
        }
    }

    pub fn is_wf(&self) -> (r: bool)
        ensures
            r == self.wf(),
    {
        self.year <= 9999 && 1 <= self.month && self.month <= 12 && 1 <= self.day && self.day
            <= days_in_month(self.year, self.month)
    }

    /// Renders as `YYYY-MM-DD`, the year zero-padded to four digits and the
    /// month and day to two.
    pub fn render(&self) -> (r: String)
        ensures
            r@ == spec_date_str(*self),
    {
        let mut out = String::new();
        out.append(digit_str((self.year / 1000 % 10) as u8));
        out.append(digit_str((self.year / 100 % 10) as u8));
        out.append(digit_str((self.year / 10 % 10) as u8));
        out.append(digit_str((self.year % 10) as u8));
        out.append("-");
        out.append(digit_str((self.month / 10 % 10) as u8));
        out.append(digit_str((self.month % 10) as u8));
        out.append("-");
        out.append(digit_str((self.day / 10 % 10) as u8));
        out.append(digit_str((self.day % 10) as u8));
        out
    }

    pub fn on_or_before(&self, other: &Date) -> (r: bool)
        ensures
            r == self.le(*other),
    {
        if self.year != other.year {
            self.year < other.year
        } else if self.month != other.month {
            self.month < other.month
        } else {
            self.day <= other.day
        }
    }
}

/// The `YYYY-MM-DD` form of a date: four year digits, two month digits and
/// two day digits, zero-padded, separated by hyphens.
pub open spec fn spec_date_str(d: Date) -> Seq<char> {
    spec_digit(d.year as int / 1000 % 10) + spec_digit(d.year as int / 100 % 10) + spec_digit(
        d.year as int / 10 % 10,
    ) + spec_digit(d.year as int % 10) + "-"@ + spec_digit(d.month as int / 10 % 10) + spec_digit(
        d.month as int % 10,
    ) + "-"@ + spec_digit(d.day as int / 10 % 10) + spec_digit(d.day as int % 10)
}

/// Relies on `chrono::Utc::now().date_naive()` and chrono's `Datelike`
/// accessors: `month()` returns a month number in 1..=12 and `day()` a day
/// number in 1..=31.
#[verifier::external_body]
fn today_ymd() -> (r: (i32, u32, u32))
    ensures
        1 <= r.1 <= 12,
        1 <= r.2 <= 31,
{
    let d = chrono::Utc::now().date_naive();
    (chrono::Datelike::year(&d), chrono::Datelike::month(&d), chrono::Datelike::day(&d))
}

/// The current calendar date (UTC), or `None` if the system clock reports a
/// year outside the range the storage encoding covers.
pub fn today() -> (r: Option<Date>)
    ensures
        r matches Some(d) ==> d.wf(),
{
    let (y, m, d) = today_ymd();
    if 0 <= y && y <= 9999 {
        Date::from_ymd(y as u16, m as u8, d as u8)
    } else {
        None
    }
}

} // verus!
