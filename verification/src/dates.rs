use vstd::prelude::*;

verus! {

/// A calendar date, held as plain year / month / day numbers.
///
/// The store keeps every date in this form; the on-disk document writes it
/// as a `YYYY-MM-DD` string. Only years 1 through 9999 are representable in
/// that form, so well-formedness restricts the year to that range.
#[derive(Clone, Copy, PartialEq, Eq, Structural, Debug)]
pub struct Date {
    pub year: i16,
    pub month: i8,
    pub day: i8,
}

impl Date {
    /// A date the document codec can represent: four-digit year, a real
    /// month, and a day within the month's length.
    pub open spec fn wf(self) -> bool {
        &&& 1 <= self.year <= 9999
        &&& 1 <= self.month <= 12
        &&& 1 <= self.day <= days_in_month_spec(self.year as int, self.month as int)
    }

    /// True when `self` is strictly before `other` in calendar order.
    pub open spec fn spec_before(self, other: Date) -> bool {
        if self.year != other.year {
            self.year < other.year
        } else if self.month != other.month {
            self.month < other.month
        } else {
            self.day < other.day
        }
    }

    /// Calendar comparison: strictly earlier than `other`.
    pub fn before(&self, other: &Date) -> (r: bool)
        ensures
            r == self.spec_before(*other),
    {
        if self.year != other.year {
            self.year < other.year
        } else if self.month != other.month {
            self.month < other.month
        } else {
            self.day < other.day
        }
    }
}

/// Leap year rule of the proleptic Gregorian calendar.
pub open spec fn is_leap_year_spec(year: int) -> bool {
    (year % 4 == 0 && year % 100 != 0) || year % 400 == 0
}

/// Number of days in the given month of the given year.
pub open spec fn days_in_month_spec(year: int, month: int) -> int {
    if month == 2 {
        if is_leap_year_spec(year) {
            29
        } else {
            28
        }
    } else if month == 4 || month == 6 || month == 9 || month == 11 {
        30
    } else {
        31
    }
}

/// Number of days in the given month of the given year.
pub fn days_in_month(year: i16, month: i8) -> (r: u8)
    requires
        1 <= month <= 12,
    ensures
        r as int == days_in_month_spec(year as int, month as int),
{
    if month == 2 {
        if (year % 4 == 0 && year % 100 != 0) || year % 400 == 0 {
            29
        } else {
            28
        }
    } else if month == 4 || month == 6 || month == 9 || month == 11 {
        30
    } else {
        31
    }
}

/// Checks that a year / month / day triple is a well-formed [`Date`].
pub fn date_is_wf(year: i16, month: i8, day: i8) -> (r: bool)
    ensures
        r == (Date { year, month, day }).wf(),
{
    1 <= year && year <= 9999 && 1 <= month && month <= 12 && 1 <= day && day as u8
        <= days_in_month(year, month)
}

} // verus!
