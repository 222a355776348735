use chat_server::timestamp::{CivilTime, Month, Timestamp};

fn at(unix_seconds: i64) -> Timestamp {
    Timestamp::from_unix_nanos(unix_seconds as i128 * 1_000_000_000).expect("an instant with a date")
}

#[test]
fn epoch_reads_as_the_first_of_january_1970() {
    let epoch = Timestamp::from_unix_nanos(0).unwrap();
    assert_eq!(epoch.unix_nanos(), 0);
    assert_eq!(
        epoch.civil(),
        CivilTime { year: 1970, month: Month::January, day: 1, hour: 0, minute: 0, second: 0 }
    );
    assert_eq!(epoch.to_display_string(), "1970-January-1 at 0:0:0");
}

#[test]
fn new_year_2019_is_shown_unpadded() {
    let t = Timestamp::from_unix_nanos(1_546_300_800_000_000_000).unwrap();
    assert_eq!(t.to_display_string(), "2019-January-1 at 0:0:0");
}

#[test]
fn leap_day_is_shown_with_its_month_name() {
    let t = at(1_709_211_909);
    assert_eq!(
        t.civil(),
        CivilTime { year: 2024, month: Month::February, day: 29, hour: 13, minute: 5, second: 9 }
    );
    assert_eq!(t.to_display_string(), "2024-February-29 at 13:5:9");
}

#[test]
fn the_second_before_the_epoch_is_in_1969() {
    let t = at(-1);
    assert_eq!(t.to_display_string(), "1969-December-31 at 23:59:59");
}

#[test]
fn fractions_of_a_second_do_not_show() {
    let t = Timestamp::from_unix_nanos(1_546_300_800_999_999_999).unwrap();
    assert_eq!(t.unix_nanos(), 1_546_300_800_999_999_999);
    assert_eq!(t.to_display_string(), "2019-January-1 at 0:0:0");
}

#[test]
fn instants_without_a_date_are_no_timestamps() {
    assert!(Timestamp::from_unix_nanos(i128::MAX).is_none());
    assert!(Timestamp::from_unix_nanos(i128::MIN).is_none());
}

#[test]
fn civil_time_is_shown_field_by_field() {
    let c = CivilTime { year: -44, month: Month::March, day: 15, hour: 12, minute: 0, second: 7 };
    assert_eq!(c.to_display_string(), "-44-March-15 at 12:0:7");
    let d = CivilTime { year: 2000, month: Month::October, day: 10, hour: 10, minute: 10, second: 10 };
    assert_eq!(d.to_display_string(), "2000-October-10 at 10:10:10");
}

#[test]
fn months_are_numbered_from_one() {
    assert_eq!(Month::from_number(0), None);
    assert_eq!(Month::from_number(1), Some(Month::January));
    assert_eq!(Month::from_number(6), Some(Month::June));
    assert_eq!(Month::from_number(12), Some(Month::December));
    assert_eq!(Month::from_number(13), None);
    let names = [
        "January", "February", "March", "April", "May", "June", "July", "August", "September",
        "October", "November", "December",
    ];
    for (i, name) in names.iter().enumerate() {
        assert_eq!(Month::from_number(i as u8 + 1).unwrap().as_str(), *name);
    }
}

#[test]
fn earlier_instants_are_before_later_ones() {
    let a = at(10);
    let b = at(11);
    assert!(a.is_before(&b));
    assert!(!b.is_before(&a));
    assert!(!a.is_before(&a));
}

#[test]
fn older_than_counts_whole_seconds_strictly() {
    let now = at(1_000);
    assert!(at(969).is_older_than(&now, 30));
    assert!(!at(970).is_older_than(&now, 30));
    assert!(!at(999).is_older_than(&now, 30));
    assert!(!at(1_000).is_older_than(&now, 0));
    assert!(at(999).is_older_than(&now, 0));
    let just_inside = Timestamp::from_unix_nanos(970 * 1_000_000_000 - 1).unwrap();
    assert!(just_inside.is_older_than(&now, 30));
}
