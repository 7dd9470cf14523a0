//! The shape of the Discordian year: where a day of the Gregorian year falls
//! among the seasons and the days of the week, and which days are holydays.

use vstd::prelude::*;
use vstd::set_lib::{lemma_int_range, lemma_map_size, set_int_range};

verus! {

/// The apostolic holydays, one for each season.
pub const APOSTLES: [&'static str; 5] = ["Mungday", "Mojoday", "Syaday", "Zaraday", "Maladay"];

/// The seasonal holydays, one for each season.
pub const HOLYDAYS: [&'static str; 5] = ["Chaoflux", "Discoflux", "Confuflux", "Bureflux", "Afflux"];

/// The seasons of the Discordian year, in order.
pub const SEASONS: [&'static str; 5] = [
    "Chaos",
    "Discord",
    "Confusion",
    "Bureaucracy",
    "The Aftermath",
];

/// The days of the Discordian week, in order.
pub const WEEKDAYS: [&'static str; 5] = [
    "Sweetmorn",
    "Boomtime",
    "Pungenday",
    "Prickle-Prickle",
    "Setting Orange",
];

/// The day of the season on which its apostolic holyday falls.
pub const APOSTLE_HOLYDAY: u32 = 5;

/// The zero-based day of a leap year that is St. Tib's Day.
pub const ST_TIBS_DAY: u32 = 59;

/// The number of days in each season.
pub const SEASON_DAYS: u32 = 73;

/// The day of the season on which its seasonal holyday falls.
pub const SEASON_HOLYDAY: u32 = 50;

/// The number of days in each week.
pub const WEEK_DAYS: u32 = 5;

/// The Curse of Greyface occurred in 1166 B.C.E.
pub const CURSE_OF_GREYFACE: i32 = 1166;

/// Whether `year` is a leap year of the proleptic Gregorian calendar.
pub open spec fn leap_year(year: int) -> bool {
    (year % 4 == 0 && year % 100 != 0) || year % 400 == 0
}

/// The number of days in a Gregorian year.
pub open spec fn days_in_year(is_leap: bool) -> int {
    if is_leap {
        366
    } else {
        365
    }
}

/// Whether the zero-based day `ordinal0` of the year is St. Tib's Day.
pub open spec fn is_st_tibs_day(ordinal0: int, is_leap: bool) -> bool {
    is_leap && ordinal0 == ST_TIBS_DAY
}

/// The zero-based position of a day among the 365 days that belong to a
/// season. St. Tib's Day is no such day: the days after it move up by one.
pub open spec fn day_offset(ordinal0: int, is_leap: bool) -> int {
    if is_leap && ordinal0 > ST_TIBS_DAY {
        ordinal0 - 1
    } else {
        ordinal0
    }
}

/// The zero-based season that holds the day at `offset`.
pub open spec fn season_index(offset: int) -> int {
    offset / (SEASON_DAYS as int)
}

/// The one-based day within its season of the day at `offset`.
pub open spec fn day_of_season(offset: int) -> int {
    offset % (SEASON_DAYS as int) + 1
}

/// The zero-based day of the week of the day at `offset`.
pub open spec fn weekday_index(offset: int) -> int {
    offset % (WEEK_DAYS as int)
}

/// Whether the day at `offset` is the apostolic holyday of its season.
pub open spec fn is_apostle_holyday(offset: int) -> bool {
    day_of_season(offset) == APOSTLE_HOLYDAY
}

/// Whether the day at `offset` is the seasonal holyday of its season.
pub open spec fn is_season_holyday(offset: int) -> bool {
    day_of_season(offset) == SEASON_HOLYDAY
}

/// The name of season `index`.
pub open spec fn season_name(index: int) -> Seq<char> {
    SEASONS[index]@
}

/// The name of day `index` of the week.
pub open spec fn weekday_name(index: int) -> Seq<char> {
    WEEKDAYS[index]@
}

/// The name of the apostolic holyday of season `index`.
pub open spec fn apostle_name(index: int) -> Seq<char> {
    APOSTLES[index]@
}

/// The name of the seasonal holyday of season `index`.
pub open spec fn holyday_name(index: int) -> Seq<char> {
    HOLYDAYS[index]@
}

/// The holyday kept on the day at `offset`, if it is one.
pub open spec fn celebration(offset: int) -> Option<Seq<char>> {
    if is_apostle_holyday(offset) {
        Some(apostle_name(season_index(offset)))
    } else if is_season_holyday(offset) {
        Some(holyday_name(season_index(offset)))
    } else {
        None
    }
}

/// The days of a year, by their zero-based number, that belong to `season`.
/// St. Tib's Day belongs to none.
pub open spec fn season_days(season: int, is_leap: bool) -> Set<int> {
    Set::new(
        |ordinal0: int|
            0 <= ordinal0 < days_in_year(is_leap) && !is_st_tibs_day(ordinal0, is_leap)
                && season_index(day_offset(ordinal0, is_leap)) == season,
    )
}

/// The days of `season`, by offset, that are no holyday.
pub open spec fn plain_days(season: int) -> Set<int> {
    Set::new(
        |offset: int|
            0 <= offset < 365 && season_index(offset) == season && !is_apostle_holyday(offset)
                && !is_season_holyday(offset),
    )
}

/// Tells whether `year` is a leap year of the proleptic Gregorian calendar:
/// divisible by 4 and not by 100, unless also divisible by 400.
pub fn is_leap_year(year: i32) -> (leap: bool)
    ensures
        leap == leap_year(year as int),
{
    (year % 4 == 0 && year % 100 != 0) || year % 400 == 0
}

/// Every day of a year but St. Tib's Day has its place: one of the five
/// seasons, one of that season's 73 days, and one of the five days of the week.
pub proof fn lemma_day_has_one_place(ordinal0: int, is_leap: bool)
    requires
        0 <= ordinal0 < days_in_year(is_leap),
        !is_st_tibs_day(ordinal0, is_leap),
    ensures
        0 <= day_offset(ordinal0, is_leap) < 365,
        0 <= season_index(day_offset(ordinal0, is_leap)) < 5,
        1 <= day_of_season(day_offset(ordinal0, is_leap)) <= 73,
        0 <= weekday_index(day_offset(ordinal0, is_leap)) < 5,
        day_offset(ordinal0, is_leap) == 73 * season_index(day_offset(ordinal0, is_leap))
            + day_of_season(day_offset(ordinal0, is_leap)) - 1,
{
}

/// No two days of a year share a place: they differ in the season or in the
/// day of the season.
pub proof fn lemma_places_differ(first: int, second: int, is_leap: bool)
    requires
        0 <= first < days_in_year(is_leap),
        0 <= second < days_in_year(is_leap),
        !is_st_tibs_day(first, is_leap),
        !is_st_tibs_day(second, is_leap),
        first != second,
    ensures
        season_index(day_offset(first, is_leap)) != season_index(day_offset(second, is_leap))
            || day_of_season(day_offset(first, is_leap)) != day_of_season(
            day_offset(second, is_leap),
        ),
{
    lemma_day_has_one_place(first, is_leap);
    lemma_day_has_one_place(second, is_leap);
}

/// Every place is taken: each of the 73 days of each of the five seasons is
/// a day of the year, in a leap year as in a common year, and it is not
/// St. Tib's Day.
pub proof fn lemma_place_has_one_day(season: int, day: int, is_leap: bool) -> (ordinal0: int)
    requires
        0 <= season < 5,
        1 <= day <= 73,
    ensures
        0 <= ordinal0 < days_in_year(is_leap),
        !is_st_tibs_day(ordinal0, is_leap),
        season_index(day_offset(ordinal0, is_leap)) == season,
        day_of_season(day_offset(ordinal0, is_leap)) == day,
{
    let offset = 73 * season + day - 1;
    if is_leap && offset >= 59 {
        offset + 1
    } else {
        offset
    }
}

/// Each season holds exactly 73 days of the year, whether or not the year is
/// a leap year.
pub proof fn lemma_season_has_73_days(season: int, is_leap: bool)
    requires
        0 <= season < 5,
    ensures
        season_days(season, is_leap).finite(),
        season_days(season, is_leap).len() == 73,
{
    let offsets = set_int_range(73 * season, 73 * season + 73);
    lemma_int_range(73 * season, 73 * season + 73);
    if is_leap {
        let skip = |offset: int|
            if offset >= 59 {
                offset + 1
            } else {
                offset
            };
        assert forall|ordinal0: int| season_days(season, true).contains(ordinal0) implies offsets.map(
            skip,
        ).contains(ordinal0) by {
            let offset = day_offset(ordinal0, true);
            assert(offsets.contains(offset) && skip(offset) == ordinal0);
        }
        assert(offsets.map(skip) =~= season_days(season, true));
        lemma_map_size(offsets, season_days(season, true), skip);
    } else {
        assert(offsets =~= season_days(season, false));
    }
}

/// The days of the week follow one another in order and start over after the
/// fifth: the week has period 5, and the year begins on its first day.
pub proof fn lemma_weekdays_cycle(offset: int)
    requires
        0 <= offset,
    ensures
        weekday_index(0) == 0,
        0 <= weekday_index(offset) < 5,
        weekday_index(offset + 1) == (weekday_index(offset) + 1) % 5,
        weekday_index(offset + 5) == weekday_index(offset),
{
}

/// The weekday and the day of the season tell the days of a year apart: two
/// days that agree in both are one day.
pub proof fn lemma_weekday_and_day_fix_the_offset(first: int, second: int)
    requires
        0 <= first < 365,
        0 <= second < 365,
        weekday_index(first) == weekday_index(second),
        day_of_season(first) == day_of_season(second),
    ensures
        first == second,
{
    let seasons_apart = season_index(first) - season_index(second);
    assert(first - second == 73 * seasons_apart);
    assert((first - second) % 5 == 0);
    assert(-5 < seasons_apart < 5);
}

/// Of the 73 days of a season exactly one is its apostolic holyday, the 5th,
/// and exactly one its seasonal holyday, the 50th. The other 71 are neither.
pub proof fn lemma_season_has_two_holydays(season: int)
    requires
        0 <= season < 5,
    ensures
        forall|offset: int|
            0 <= offset < 365 && season_index(offset) == season ==> (#[trigger] is_apostle_holyday(
                offset,
            ) <==> offset == 73 * season + 4),
        forall|offset: int|
            0 <= offset < 365 && season_index(offset) == season ==> (#[trigger] is_season_holyday(
                offset,
            ) <==> offset == 73 * season + 49),
        celebration(73 * season + 4) == Some(apostle_name(season)),
        celebration(73 * season + 49) == Some(holyday_name(season)),
        plain_days(season).finite(),
        plain_days(season).len() == 71,
{
    let offsets = set_int_range(73 * season, 73 * season + 73);
    lemma_int_range(73 * season, 73 * season + 73);
    assert(offsets.remove(73 * season + 4).remove(73 * season + 49) =~= plain_days(season));
}

} // verus!
