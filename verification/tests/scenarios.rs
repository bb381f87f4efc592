//! Pointed scenarios: fixed dates with known weekdays, the explanation
//! strings of the featured method, the year table's entries, and the
//! bounds of the random question generator.

use chrono::{Datelike, NaiveDate};
use shakuntala_devi_trainer::{
    anchor_day, conway_doomsday, is_leap_year, month_table_entry, random_date,
    random_date_with_tips, shakuntala_devi, shakuntala_devi_nearest_leap_year, tomohiko_sakamoto,
    zeller, CalendarDate, Weekday, YearTable,
};

#[test]
fn all_algorithms_agree_on_a_saturday() {
    let dt = CalendarDate::from_ymd_opt(1928, 1, 7).unwrap();
    assert_eq!(tomohiko_sakamoto(dt), Weekday::Saturday);
    assert_eq!(zeller(dt), Weekday::Saturday);
    assert_eq!(conway_doomsday(dt), Weekday::Saturday);
    assert_eq!(shakuntala_devi(dt).0, Weekday::Saturday);
}

#[test]
fn leap_year_february_takes_the_backward_step() {
    let dt = CalendarDate::from_ymd_opt(1980, 2, 1).unwrap();
    let (answer, tips) = shakuntala_devi(dt);
    assert_eq!(answer, Weekday::Friday);
    assert_eq!(tips.0.len(), 2);
    assert_eq!(tips.0[0].as_str(), "(day 1 + month table entry 3) mod 7 = 4");
    assert_eq!(tips.0[1].as_str(), "leap year and direct year table entry 2");
    assert_eq!(
        tips.to_text().as_str(),
        "(day 1 + month table entry 3) mod 7 = 4\nleap year and direct year table entry 2\n"
    );
}

#[test]
fn plain_year_walks_back_to_its_leap_year() {
    let dt = CalendarDate::from_ymd_opt(1931, 6, 15).unwrap();
    let (answer, tips) = shakuntala_devi(dt);
    assert_eq!(answer, Weekday::Monday);
    assert_eq!(tips.0.len(), 3);
    assert_eq!(tips.0[0].as_str(), "(day 1 + month table entry 4) mod 7 = 5");
    assert_eq!(
        tips.0[1].as_str(),
        "no direct year table entry, nearest leap year 1928"
    );
    assert_eq!(
        tips.0[2].as_str(),
        "no direct year table entry, nearest leap year table entry 0"
    );
}

#[test]
fn answer_and_tips_are_reproducible() {
    let dt = CalendarDate::from_ymd_opt(1999, 12, 31).unwrap();
    let (first_answer, first_tips) = shakuntala_devi(dt);
    let (second_answer, second_tips) = shakuntala_devi(dt);
    assert_eq!(first_answer, second_answer);
    assert_eq!(first_tips.0.len(), second_tips.0.len());
    for i in 0..first_tips.0.len() {
        assert_eq!(first_tips.0[i], second_tips.0[i]);
    }
}

#[test]
fn random_date_stays_in_its_range() {
    for _ in 0..500 {
        let d = random_date(1932, 2032);
        assert!(1932 <= d.year && d.year <= 2032);
        if d.year == 2032 {
            assert!(d.month == 1 && d.day <= 6);
        }
        if d.year == 1932 {
            assert!(d.month > 1 || d.day > 7);
        }
        assert!(CalendarDate::from_ymd_opt(d.year, d.month, d.day).is_some());
    }
}

#[test]
fn random_question_carries_the_right_answer() {
    for _ in 0..50 {
        let (d, answer, tips) = random_date_with_tips(1932, 2032);
        let oracle = NaiveDate::from_ymd_opt(d.year as i32, d.month, d.day)
            .unwrap()
            .weekday();
        assert_eq!(answer.num_days_from_monday(), oracle.num_days_from_monday());
        assert!(!tips.0.is_empty());
    }
}

#[test]
fn year_table_entries_match_the_published_table() {
    let table = YearTable::new();
    assert_eq!(table.get(1584), Some(0));
    assert_eq!(table.get(1600), Some(6));
    assert_eq!(table.get(1700), Some(4));
    assert_eq!(table.get(1896), Some(3));
    assert_eq!(table.get(1900), Some(0));
    assert_eq!(table.get(1928), Some(0));
    assert_eq!(table.get(1980), Some(2));
    assert_eq!(table.get(2196), Some(5));
    assert_eq!(table.get(1583), None);
    assert_eq!(table.get(1930), None);
    assert_eq!(table.get(2200), None);
}

#[test]
fn nearest_leap_year_explains_itself() {
    let table = YearTable::new();
    let (direct, direct_tips) = shakuntala_devi_nearest_leap_year(&table, 1980, true);
    assert_eq!(direct, 2);
    assert_eq!(direct_tips.0.len(), 1);
    assert_eq!(
        direct_tips.0[0].as_str(),
        "leap year and direct year table entry 2"
    );

    let (century, century_tips) = shakuntala_devi_nearest_leap_year(&table, 1900, true);
    assert_eq!(century, 1896);
    assert_eq!(century_tips.0.len(), 3);
    assert_eq!(
        century_tips.0[0].as_str(),
        "not a leap year but direct year table entry 0"
    );
    assert_eq!(century_tips.0[1].as_str(), "nearest leap year 1896");
    assert_eq!(
        century_tips.0[2].as_str(),
        "nearest leap year table entry 3"
    );

    let (plain, plain_tips) = shakuntala_devi_nearest_leap_year(&table, 1931, true);
    assert_eq!(plain, 1928);
    assert_eq!(plain_tips.0.len(), 2);
    assert_eq!(
        plain_tips.0[0].as_str(),
        "no direct year table entry, nearest leap year 1928"
    );
    assert_eq!(
        plain_tips.0[1].as_str(),
        "no direct year table entry, nearest leap year table entry 0"
    );

    let (quiet, quiet_tips) = shakuntala_devi_nearest_leap_year(&table, 1931, false);
    assert_eq!(quiet, 1928);
    assert!(quiet_tips.0.is_empty());
}

#[test]
fn anchor_days_of_the_four_centuries() {
    assert_eq!(anchor_day(1800), 5);
    assert_eq!(anchor_day(1899), 5);
    assert_eq!(anchor_day(1950), 3);
    assert_eq!(anchor_day(2000), 2);
    assert_eq!(anchor_day(2199), 0);
}

#[test]
fn month_table_matches_the_published_row() {
    let expected = [0, 3, 3, 6, 1, 4, 6, 2, 5, 0, 3, 5];
    for m in 1..=12 {
        assert_eq!(month_table_entry(m), expected[(m - 1) as usize]);
    }
}

#[test]
fn weekday_conversions_round_the_week() {
    assert_eq!(Weekday::from_sunday0_index(0), Weekday::Sunday);
    assert_eq!(Weekday::from_sunday0_index(6), Weekday::Saturday);
    assert_eq!(Weekday::from_monday0_index(0), Weekday::Monday);
    assert_eq!(Weekday::Monday.pred(), Weekday::Sunday);
    assert_eq!(Weekday::Sunday.pred(), Weekday::Saturday);
    assert_eq!(Weekday::Thursday.name(), "Thu");
    assert_eq!(Weekday::Wednesday.num_days_from_monday(), 2);
}

#[test]
fn day_numbers_match_the_calendar_count() {
    let first = CalendarDate::from_ymd_opt(1, 1, 1).unwrap();
    assert_eq!(first.num_days_from_ce(), 1);
    for (y, m, d) in [(1583, 1, 1), (1928, 1, 7), (2000, 2, 29), (2204, 12, 31)] {
        let ours = CalendarDate::from_ymd_opt(y, m, d).unwrap().num_days_from_ce();
        let theirs = NaiveDate::from_ymd_opt(y as i32, m, d).unwrap().num_days_from_ce();
        assert_eq!(ours as i32, theirs);
    }
}

#[test]
fn leap_year_edges() {
    assert!(is_leap_year(2000));
    assert!(!is_leap_year(1900));
    assert!(!is_leap_year(2200));
    assert!(is_leap_year(2204));
    assert!(!is_leap_year(1931));
}
