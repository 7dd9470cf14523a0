//! Discordian dates.
//!
//! Converts a day of the Gregorian calendar into its Discordian form: five
//! seasons of 73 days, a five-day week, two holydays in each season, and
//! St. Tib's Day in leap years.
//!
//! [`to_discordian_string`] takes a year, a zero-based day of that year and a
//! leap-year flag. [`DiscordianDate`] gives the same text to a date of `chrono`:
//!
//! ```
//! use chrono::NaiveDate;
//! use ddate::DiscordianDate;
//!
//! let date = NaiveDate::from_ymd_opt(2017, 11, 4).unwrap();
//! assert_eq!("Pungenday, the 16th day of The Aftermath in the YOLD 3183", date.to_poee());
//! ```
//!
//! What each function returns is stated in its contract, over the functions of
//! [`calendar`], [`decimal`], [`ordinal`] and [`poee`] that describe the
//! calendar and its text, and proved by Verus.

pub mod calendar;
pub mod decimal;
pub mod gregorian;
pub mod ordinal;
pub mod poee;

pub use calendar::is_leap_year;
pub use ordinal::ordinalize;
pub use poee::{to_discordian_string, DiscordianDate};
