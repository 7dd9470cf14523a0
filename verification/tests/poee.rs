//! `to_poee` on the calendar dates of `chrono`.

use chrono::{Datelike, NaiveDate, TimeZone, Utc};
use ddate::{is_leap_year, to_discordian_string, DiscordianDate};

#[test]
#[allow(deprecated)]
fn day_one_test() {
    assert_eq!(
        "Sweetmorn, the 1st day of Chaos in the YOLD 0",
        Utc.ymd(-1166, 1, 1).naive_utc().to_poee()
    );
}

#[test]
#[allow(deprecated)]
fn ante_tibs_test() {
    assert_eq!(
        "Prickle-Prickle, the 59th day of Chaos in the YOLD 3166",
        Utc.ymd(2000, 2, 28).naive_utc().to_poee()
    );
}

#[test]
#[allow(deprecated)]
fn tibs_test() {
    assert_eq!(
        "St. Tib's Day, in the YOLD 3166",
        Utc.ymd(2000, 2, 29).naive_utc().to_poee()
    );
}

#[test]
#[allow(deprecated)]
fn post_tibs_test() {
    assert_eq!(
        "Setting Orange, the 60th day of Chaos in the YOLD 3166",
        Utc.ymd(2000, 3, 1).naive_utc().to_poee()
    );
}

#[test]
#[allow(deprecated)]
fn ante_anti_tibs_test() {
    assert_eq!(
        "Prickle-Prickle, the 59th day of Chaos in the YOLD 2232",
        Utc.ymd(1066, 2, 28).naive_utc().to_poee()
    );
}

#[test]
#[allow(deprecated)]
fn post_anti_tibs_test() {
    assert_eq!(
        "Setting Orange, the 60th day of Chaos in the YOLD 2232",
        Utc.ymd(1066, 3, 1).naive_utc().to_poee()
    );
}

#[test]
#[allow(deprecated)]
fn holy_test() {
    assert_eq!(
        "Prickle-Prickle, the 50th day of Bureaucracy in the YOLD 3183\nCelebrate Bureflux",
        Utc.ymd(2017, 9, 26).naive_utc().to_poee()
    );
}

#[test]
#[allow(deprecated)]
fn apos_test() {
    assert_eq!(
        "Boomtime, the 5th day of The Aftermath in the YOLD 3183\nCelebrate Maladay",
        Utc.ymd(2017, 10, 24).naive_utc().to_poee()
    );
}

#[test]
fn naive_date_in_the_aftermath() {
    let date = NaiveDate::from_ymd_opt(2017, 11, 4).unwrap();
    assert_eq!(
        "Pungenday, the 16th day of The Aftermath in the YOLD 3183",
        date.to_poee()
    );
}

#[test]
fn last_day_of_a_leap_year() {
    let date = NaiveDate::from_ymd_opt(2024, 12, 31).unwrap();
    assert_eq!(365, date.ordinal0());
    assert_eq!(
        "Setting Orange, the 73rd day of The Aftermath in the YOLD 3190",
        date.to_poee()
    );
}

#[test]
fn last_day_of_a_common_year() {
    let date = NaiveDate::from_ymd_opt(2023, 12, 31).unwrap();
    assert_eq!(364, date.ordinal0());
    assert_eq!(
        "Setting Orange, the 73rd day of The Aftermath in the YOLD 3189",
        date.to_poee()
    );
}

#[test]
fn year_before_the_curse_of_greyface() {
    let date = NaiveDate::from_ymd_opt(-1172, 2, 29).unwrap();
    assert_eq!("St. Tib's Day, in the YOLD -6", date.to_poee());
}

#[test]
fn century_years_follow_the_gregorian_rule() {
    assert_eq!(
        "Setting Orange, the 60th day of Chaos in the YOLD 3066",
        NaiveDate::from_ymd_opt(1900, 3, 1).unwrap().to_poee()
    );
    assert_eq!(
        "St. Tib's Day, in the YOLD 2766",
        NaiveDate::from_ymd_opt(1600, 2, 29).unwrap().to_poee()
    );
}

#[test]
fn to_poee_reads_year_and_day_from_the_date() {
    for year in [-401, -400, -1, 0, 1, 1900, 2000, 2023, 2024] {
        let mut date = NaiveDate::from_ymd_opt(year, 1, 1).unwrap();
        let mut days = 0;
        while date.year() == year {
            let expected = to_discordian_string(year, date.ordinal0(), is_leap_year(year));
            assert_eq!(expected, date.to_poee());
            date = date.succ_opt().unwrap();
            days += 1;
        }
        assert_eq!(if is_leap_year(year) { 366 } else { 365 }, days);
    }
}

#[test]
fn the_ends_of_the_calendar() {
    assert_eq!(
        "Sweetmorn, the 1st day of Chaos in the YOLD -260977",
        NaiveDate::MIN.to_poee()
    );
    assert_eq!(
        "Setting Orange, the 73rd day of The Aftermath in the YOLD 263308",
        NaiveDate::MAX.to_poee()
    );
}
