//! Discordian dates for the calendar dates of `chrono`.
//!
//! `NaiveDate` is the date that `chrono` keeps inside all its other dates and
//! times: each of them gives one, by `date_naive` or `date`.

use crate::calendar::{days_in_year, is_leap_year, leap_year};
use crate::poee::{to_discordian_string, DiscordianDate};
use chrono::Datelike;
use chrono::NaiveDate;
use vstd::prelude::*;

verus! {

/// `chrono::NaiveDate`, a date of the proleptic Gregorian calendar. Its
/// inside is hidden here: all that is known of a date comes from the two
/// functions below.
#[verifier::external_type_specification]
#[verifier::external_body]
pub struct ExNaiveDate(chrono::NaiveDate);

/// The year that `Datelike::year` returns for a date, in astronomical
/// numbering.
pub uninterp spec fn naive_date_year(date: NaiveDate) -> int;

/// The zero-based day of the year that `Datelike::ordinal0` returns for a
/// date.
pub uninterp spec fn naive_date_ordinal0(date: NaiveDate) -> int;

/// Calls `Datelike::year` on a `NaiveDate`. Believed, not proved: the result
/// is a function of the date. Nothing else is claimed of it.
#[verifier::external_body]
fn year_of(date: &NaiveDate) -> (year: i32)
    ensures
        year == naive_date_year(*date),
{
    date.year()
}

/// Calls `Datelike::ordinal0` on a `NaiveDate`. Believed, not proved: the
/// result is a function of the date, and the day exists in the date's year,
/// which `chrono` holds of every `NaiveDate`. So it is below 365, or below 366
/// where the year is a leap year of the proleptic Gregorian calendar.
#[verifier::external_body]
fn ordinal0_of(date: &NaiveDate) -> (ordinal0: u32)
    ensures
        ordinal0 == naive_date_ordinal0(*date),
        ordinal0 < days_in_year(leap_year(naive_date_year(*date))),
{
    date.ordinal0()
}

/// The Discordian date of a `NaiveDate`: that of its year and its day of the
/// year, with the leap year told by the year.
impl DiscordianDate for NaiveDate {
    open spec fn gregorian_year(&self) -> int {
        naive_date_year(*self)
    }

    open spec fn gregorian_ordinal0(&self) -> int {
        naive_date_ordinal0(*self)
    }

    fn to_poee(&self) -> (text: String) {
        let year = year_of(self);
        let day = ordinal0_of(self);
        to_discordian_string(year, day, is_leap_year(year))
    }
}

} // verus!
