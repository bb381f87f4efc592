//! The long-running cross-checks against the calendar library: every
//! algorithm is compared day by day with chrono's weekday over its range.

use chrono::{Datelike, NaiveDate};
use shakuntala_devi_trainer::{
    conway_doomsday, is_leap_year, shakuntala_devi, tomohiko_sakamoto, zeller, CalendarDate,
    Weekday, YearTable,
};

fn own_date(dt: NaiveDate) -> CalendarDate {
    CalendarDate::from_ymd_opt(dt.year() as u32, dt.month(), dt.day()).unwrap()
}

fn same_day(ours: Weekday, theirs: chrono::Weekday) -> bool {
    ours.num_days_from_monday() == theirs.num_days_from_monday()
}

#[test]
fn tomohiko_sakamoto_check() {
    let calendar = NaiveDate::from_ymd_opt(1583, 1, 1).unwrap().iter_days();
    for dt in calendar {
        assert!(
            same_day(tomohiko_sakamoto(own_date(dt)), dt.weekday()),
            "testing {}",
            dt
        );
        if dt.year() == 10000 {
            break;
        };
    }
}

#[test]
fn shakuntala_devi_unit_check() {
    let dt = NaiveDate::from_ymd_opt(1928, 1, 7).unwrap();
    println!("response {} {} ", dt.year(), dt.weekday());
    assert!(
        same_day(shakuntala_devi(own_date(dt)).0, dt.weekday()),
        "testing {}",
        dt
    );
}

#[test]
fn shakuntala_devi_check() {
    let calendar = NaiveDate::from_ymd_opt(1584, 1, 1).unwrap().iter_days();
    for dt in calendar {
        assert!(
            same_day(shakuntala_devi(own_date(dt)).0, dt.weekday()),
            "testing {}",
            dt
        );
        if dt.year() == 2204 {
            break;
        };
    }
}

#[test]
fn zeller_unit_check() {
    let dt = NaiveDate::from_ymd_opt(1928, 1, 7).unwrap();
    println!("response {} {} ", dt.year(), dt.weekday());
    assert!(same_day(zeller(own_date(dt)), dt.weekday()), "testing {}", dt);
}

#[test]
fn zeller_check() {
    let calendar = NaiveDate::from_ymd_opt(1584, 1, 1).unwrap().iter_days();
    for dt in calendar {
        assert!(same_day(zeller(own_date(dt)), dt.weekday()), "testing {}", dt);
        if dt.year() == 10000 {
            break;
        };
    }
}

#[test]
fn conway_check() {
    let calendar = NaiveDate::from_ymd_opt(1800, 1, 1).unwrap().iter_days();
    for dt in calendar {
        assert!(
            same_day(conway_doomsday(own_date(dt)), dt.weekday()),
            "testing {}",
            dt
        );
        if dt.year() == 2199 {
            break;
        };
    }
}

#[test]
fn leap_year_unit_check() {
    assert!(is_leap_year(1584));
}

#[test]
fn leap_year_check() {
    for year in 1853..10000 {
        assert!(is_leap_year(year) == NaiveDate::from_ymd_opt(year as i32, 2, 29).is_some());
    }
}

#[test]
fn leap_year_reverse_check() {
    let table = YearTable::new();
    for year in 1853..2204 {
        if is_leap_year(year) {
            assert!(table.get(year) != None)
        };
    }
}
