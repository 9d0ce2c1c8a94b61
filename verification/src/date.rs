//! Release dates as plain calendar values, validated through the `time` crate.
use vstd::prelude::*;

verus! {

/// A calendar date, standing for UTC midnight of that day.
#[derive(Clone, Copy, PartialEq, Eq, Structural, Debug)]
pub struct Date {
    pub year: u16,
    pub month: u8,
    pub day: u8,
}

/// The Gregorian leap-year rule.
pub open spec fn is_leap_year(year: u16) -> bool {
    year % 4 == 0 && (year % 100 != 0 || year % 400 == 0)
}

/// Days in a month of a given year.
pub open spec fn days_in_month(year: u16, month: u8) -> u8 {
    if month == 2 {
        if is_leap_year(year) {
            29
        } else {
            28
        }
    } else if month == 4 || month == 6 || month == 9 || month == 11 {
        30
    } else {
        31
    }
}

/// A valid calendar date within the range the `time` crate accepts for
/// four-digit years.
pub open spec fn valid_date(year: u16, month: u8, day: u8) -> bool {
    year <= 9999 && 1 <= month <= 12 && 1 <= day <= days_in_month(year, month)
}

/// Relies on `time::Month::try_from` and `time::Date::from_calendar_date`:
/// construction succeeds exactly for a month in 1..=12 and a day within the
/// month's length for that year, with the year in the supported range.
#[verifier::external_body]
pub(crate) fn calendar_date(year: u16, month: u8, day: u8) -> (r: Option<Date>)
    ensures
        r == (if valid_date(year, month, day) {
            Some(Date { year, month, day })
        } else {
            None::<Date>
        }),
{
    let m = match time::Month::try_from(month) {
        Ok(m) => m,
        Err(_) => return None,
    };
    match time::Date::from_calendar_date(year as i32, m, day) {
        Ok(_) => Some(Date { year, month, day }),
        Err(_) => None,
    }
}

} // verus!
