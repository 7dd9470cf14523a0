//! The Discordian date as text, and the trait that gives it to a date.

use crate::calendar::{
    apostle_name, celebration, day_of_season, day_offset, days_in_year, holyday_name,
    is_apostle_holyday, is_season_holyday, is_st_tibs_day, leap_year,
    lemma_weekday_and_day_fix_the_offset, season_index, season_name, weekday_index, weekday_name,
    APOSTLES, APOSTLE_HOLYDAY, CURSE_OF_GREYFACE, HOLYDAYS, SEASONS, SEASON_DAYS, SEASON_HOLYDAY,
    ST_TIBS_DAY, WEEKDAYS, WEEK_DAYS,
};
use crate::decimal::{decimal, decimal_digits, push_decimal};
use crate::ordinal::{ordinal, ordinalize};
use vstd::prelude::*;

verus! {

/// The Year of Our Lady of Discord that a Gregorian year is. Year 0 is
/// 1166 B.C.E.; nothing bounds the result above or below.
pub open spec fn discordian_year(year: int) -> int {
    year + CURSE_OF_GREYFACE
}

/// The line that follows the date on a holyday and names it; empty on any
/// other day.
pub open spec fn holyday_note(offset: int) -> Seq<char> {
    match celebration(offset) {
        Some(name) => "\nCelebrate "@ + name,
        None => Seq::empty(),
    }
}

/// The Discordian date of the zero-based day `ordinal0` of the Gregorian year
/// `year`, where `is_leap` tells whether that year is a leap year.
///
/// St. Tib's Day has a form of its own, with no weekday, season or holyday.
/// Every other day reads: weekday, ordinal day of the season, season, year,
/// and on a holyday a second line that names it.
pub open spec fn discordian_text(year: int, ordinal0: int, is_leap: bool) -> Seq<char> {
    if is_st_tibs_day(ordinal0, is_leap) {
        "St. Tib's Day, in the YOLD "@ + decimal(discordian_year(year))
    } else {
        let offset = day_offset(ordinal0, is_leap);
        weekday_name(weekday_index(offset)) + ", the "@ + ordinal(day_of_season(offset) as nat)
            + " day of "@ + season_name(season_index(offset)) + " in the YOLD "@ + decimal(
            discordian_year(year),
        ) + holyday_note(offset)
    }
}

/// The Discordian date of a day of the proleptic Gregorian calendar, given by
/// its year and its zero-based day of that year.
pub open spec fn poee_text(year: int, ordinal0: int) -> Seq<char> {
    discordian_text(year, ordinal0, leap_year(year))
}

/// Formats the zero-based day `ordinal0_day` of the Gregorian year `year` as a
/// Discordian date. `year` is in astronomical numbering and may be zero or
/// negative. `is_leap` says whether the year has a 29th of February; it is
/// taken as given and not held against `year`.
///
/// The day has to exist in the year: `ordinal0_day` is below 365, or below 366
/// where `is_leap`. A day past the end of the year belongs to no season, and
/// this function does not test for one: the caller answers for the range.
pub fn to_discordian_string(year: i32, ordinal0_day: u32, is_leap: bool) -> (text: String)
    requires
        ordinal0_day < days_in_year(is_leap),
    ensures
        text@ == discordian_text(year as int, ordinal0_day as int, is_leap),
{
    let discordian_year: i64 = year as i64 + CURSE_OF_GREYFACE as i64;

    if is_leap && ordinal0_day == ST_TIBS_DAY {
        let mut text = String::from_str("St. Tib's Day, in the YOLD ");
        push_decimal(&mut text, discordian_year);
        return text;
    }
    let day_offset = if is_leap && ordinal0_day > ST_TIBS_DAY {
        ordinal0_day - 1
    } else {
        ordinal0_day
    };

    let day_of_season = day_offset % SEASON_DAYS + 1;
    let season = (day_offset / SEASON_DAYS) as usize;
    let weekday = (day_offset % WEEK_DAYS) as usize;

    let mut text = String::from_str(WEEKDAYS[weekday]);
    text.append(", the ");
    let day = ordinalize(day_of_season as usize);
    text.append(day.as_str());
    text.append(" day of ");
    text.append(SEASONS[season]);
    text.append(" in the YOLD ");
    push_decimal(&mut text, discordian_year);
    if day_of_season == APOSTLE_HOLYDAY {
        text.append("\nCelebrate ");
        text.append(APOSTLES[season]);
    } else if day_of_season == SEASON_HOLYDAY {
        text.append("\nCelebrate ");
        text.append(HOLYDAYS[season]);
    }
    text
}

/// St. Tib's Day reads the same in every year but for the number of the year,
/// and names no weekday, season or holyday.
pub proof fn lemma_st_tibs_day_text(year: int)
    ensures
        discordian_text(year, 59, true) == "St. Tib's Day, in the YOLD "@ + decimal(year + 1166),
        leap_year(year) ==> poee_text(year, 59) == "St. Tib's Day, in the YOLD "@ + decimal(
            year + 1166,
        ),
{
}

/// A leap year differs from a common year by St. Tib's Day alone. A day
/// before it reads as the same day of a common year does, and a day after it
/// reads as the day before does in a common year: no season or week is broken
/// or lengthened by the extra day.
pub proof fn lemma_leap_year_shift(year: int, ordinal0: int)
    ensures
        ordinal0 < 59 ==> day_offset(ordinal0, true) == day_offset(ordinal0, false),
        ordinal0 > 59 ==> day_offset(ordinal0, true) == day_offset(ordinal0 - 1, false),
        ordinal0 < 59 ==> discordian_text(year, ordinal0, true) == discordian_text(
            year,
            ordinal0,
            false,
        ),
        ordinal0 > 59 ==> discordian_text(year, ordinal0, true) == discordian_text(
            year,
            ordinal0 - 1,
            false,
        ),
{
}

/// The line that names a holyday follows the date on the 5th day of a season,
/// with the season's apostolic holyday, and on the 50th, with its seasonal
/// holyday. On every other day nothing follows the date.
pub proof fn lemma_holyday_note(offset: int)
    ensures
        is_apostle_holyday(offset) ==> holyday_note(offset) == "\nCelebrate "@ + apostle_name(
            season_index(offset),
        ),
        is_season_holyday(offset) ==> holyday_note(offset) == "\nCelebrate "@ + holyday_name(
            season_index(offset),
        ),
        !(is_apostle_holyday(offset) && is_season_holyday(offset)),
        holyday_note(offset).len() == 0 <==> !is_apostle_holyday(offset) && !is_season_holyday(
            offset,
        ),
{
    reveal_strlit("\nCelebrate ");
}

/// Two names of weekdays differ at one of their first two characters, and
/// none has the second character of "St. Tib's Day".
proof fn lemma_weekday_names_differ(first: int, second: int) -> (at: int)
    requires
        0 <= first < 5,
        0 <= second < 5,
    ensures
        0 <= at < 2,
        weekday_name(first).len() >= 2,
        weekday_name(second).len() >= 2,
        weekday_name(first)[1] != 't',
        weekday_name(second)[1] != 't',
        first != second ==> weekday_name(first)[at] != weekday_name(second)[at],
{
    reveal_strlit("Sweetmorn");
    reveal_strlit("Boomtime");
    reveal_strlit("Pungenday");
    reveal_strlit("Prickle-Prickle");
    reveal_strlit("Setting Orange");
    if weekday_name(first)[0] != weekday_name(second)[0] {
        0
    } else {
        1
    }
}

/// Two ordinal numerals below 100 differ at one of their first two
/// characters.
proof fn lemma_ordinals_differ(first: nat, second: nat) -> (at: int)
    requires
        first < 100,
        second < 100,
        first != second,
    ensures
        0 <= at < 2,
        ordinal(first).len() >= 2,
        ordinal(second).len() >= 2,
        ordinal(first)[at] != ordinal(second)[at],
{
    reveal_with_fuel(decimal_digits, 2);
    reveal_strlit("st");
    reveal_strlit("nd");
    reveal_strlit("rd");
    reveal_strlit("th");
    if ordinal(first)[0] != ordinal(second)[0] {
        0
    } else {
        1
    }
}

/// No two days of a year read alike.
pub proof fn lemma_days_read_differently(year: int, first: int, second: int, is_leap: bool)
    requires
        0 <= first < days_in_year(is_leap),
        0 <= second < days_in_year(is_leap),
        first != second,
    ensures
        discordian_text(year, first, is_leap) != discordian_text(year, second, is_leap),
{
    let first_text = discordian_text(year, first, is_leap);
    let second_text = discordian_text(year, second, is_leap);
    let a = day_offset(first, is_leap);
    let b = day_offset(second, is_leap);
    let first_name = weekday_name(weekday_index(a));
    let second_name = weekday_name(weekday_index(b));
    let at = lemma_weekday_names_differ(weekday_index(a), weekday_index(b));
    reveal_strlit("St. Tib's Day, in the YOLD ");
    reveal_strlit(", the ");
    if is_st_tibs_day(first, is_leap) {
        assert(first_text[1] == 't');
        assert(second_text[1] == second_name[1]);
    } else if is_st_tibs_day(second, is_leap) {
        assert(second_text[1] == 't');
        assert(first_text[1] == first_name[1]);
    } else if weekday_index(a) != weekday_index(b) {
        assert(first_text[at] == first_name[at]);
        assert(second_text[at] == second_name[at]);
    } else {
        if day_of_season(a) == day_of_season(b) {
            lemma_weekday_and_day_fix_the_offset(a, b);
        }
        let first_day = ordinal(day_of_season(a) as nat);
        let second_day = ordinal(day_of_season(b) as nat);
        let at = lemma_ordinals_differ(day_of_season(a) as nat, day_of_season(b) as nat);
        assert(first_text[first_name.len() + 6 + at] == first_day[at]);
        assert(second_text[first_name.len() + 6 + at] == second_day[at]);
    }
}

/// A date that can be shown as a Discordian date.
pub trait DiscordianDate {
    /// The year of the date in the proleptic Gregorian calendar, in
    /// astronomical numbering.
    spec fn gregorian_year(&self) -> int;

    /// The zero-based day of the date within its Gregorian year.
    spec fn gregorian_ordinal0(&self) -> int;

    /// Returns a Discordian calendar date string.
    fn to_poee(&self) -> (text: String)
        ensures
            text@ == poee_text(self.gregorian_year(), self.gregorian_ordinal0()),
    ;
}

} // verus!
