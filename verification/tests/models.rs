use portfolio::models::{Date, Filter};

#[test]
fn date_takes_the_days_of_the_calendar() {
    let d = Date::from_calendar_date(2024, 1, 2).unwrap();
    assert_eq!((d.year(), d.month(), d.day()), (2024, 1, 2));
    assert!(Date::from_calendar_date(2024, 12, 31).is_some());
    assert!(Date::from_calendar_date(-9999, 1, 1).is_some());
    assert!(Date::from_calendar_date(9999, 12, 31).is_some());
}

#[test]
fn date_refuses_what_is_no_day() {
    assert_eq!(Date::from_calendar_date(2024, 0, 1), None);
    assert_eq!(Date::from_calendar_date(2024, 13, 1), None);
    assert_eq!(Date::from_calendar_date(2024, 1, 0), None);
    assert_eq!(Date::from_calendar_date(2024, 1, 32), None);
    assert_eq!(Date::from_calendar_date(2024, 4, 31), None);
    assert_eq!(Date::from_calendar_date(10000, 1, 1), None);
    assert_eq!(Date::from_calendar_date(-10000, 1, 1), None);
}

#[test]
fn date_knows_leap_years() {
    assert!(Date::from_calendar_date(2024, 2, 29).is_some());
    assert!(Date::from_calendar_date(2000, 2, 29).is_some());
    assert_eq!(Date::from_calendar_date(2023, 2, 29), None);
    assert_eq!(Date::from_calendar_date(1900, 2, 29), None);
    assert_eq!(Date::from_calendar_date(2024, 2, 30), None);
    assert!(Date::from_calendar_date(-4, 2, 29).is_some());
}

#[test]
fn date_agrees_with_the_time_crate() {
    for year in [-9999, -400, -1, 0, 1, 1900, 2000, 2023, 2024, 9999] {
        for month in 0..=13u8 {
            for day in 0..=32u8 {
                let ours = Date::from_calendar_date(year, month, day).is_some();
                let theirs = time::Month::try_from(month)
                    .ok()
                    .and_then(|m| time::Date::from_calendar_date(year, m, day).ok())
                    .is_some();
                assert_eq!(ours, theirs, "{year}-{month}-{day}");
            }
        }
    }
}

#[test]
fn later_than_goes_by_year_then_month_then_day() {
    let a = Date::from_calendar_date(2024, 1, 2).unwrap();
    let b = Date::from_calendar_date(2024, 1, 1).unwrap();
    let c = Date::from_calendar_date(2023, 12, 31).unwrap();
    let d = Date::from_calendar_date(2024, 2, 1).unwrap();
    assert!(a.later_than(&b));
    assert!(!b.later_than(&a));
    assert!(!a.later_than(&a));
    assert!(b.later_than(&c));
    assert!(d.later_than(&a));
    assert!(!c.later_than(&d));
}

#[test]
fn filters_have_keys_of_their_own() {
    assert_eq!(Filter::All.key(), 0);
    assert_eq!(Filter::PinnedOnly.key(), 1);
    assert!(!Filter::All.pinned_only());
    assert!(Filter::PinnedOnly.pinned_only());
}
