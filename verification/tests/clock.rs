use chrono::{DateTime, Datelike, Local};
use myls::clock::{
    modified_text, shown_time, time_pattern, Timestamp, FIRST_SECOND, LAST_SECOND, MONTH_DAY_TIME, MONTH_DAY_YEAR,
};

#[test]
fn the_two_patterns() {
    assert_eq!(MONTH_DAY_YEAR, "%b %e  %Y");
    assert_eq!(MONTH_DAY_TIME, "%b %e %H:%M");
}

#[test]
fn the_pattern_follows_the_year() {
    assert_eq!(time_pattern(2024, 2024), MONTH_DAY_TIME);
    assert_eq!(time_pattern(2023, 2024), MONTH_DAY_YEAR);
    assert_eq!(time_pattern(2025, 2024), MONTH_DAY_YEAR);
    assert_eq!(time_pattern(1970, 1970), MONTH_DAY_TIME);
    assert_eq!(time_pattern(i32::MIN, i32::MAX), MONTH_DAY_YEAR);
    assert_eq!(time_pattern(-1, -1), MONTH_DAY_TIME);
}

#[test]
fn before_and_after() {
    let early = Timestamp { secs: 10, nanos: 999_999_999 };
    let late = Timestamp { secs: 11, nanos: 0 };
    let later = Timestamp { secs: 11, nanos: 1 };
    assert!(early.before(&late));
    assert!(late.before(&later));
    assert!(early.before(&later));
    assert!(!late.before(&early));
    assert!(!late.before(&late));
    assert!(Timestamp { secs: -1, nanos: 5 }.before(&Timestamp::epoch()));
}

fn by_hand(secs: i64, nanos: u32) -> String {
    let ltime: DateTime<Local> = DateTime::from_timestamp(secs, nanos).unwrap().with_timezone(&Local);
    if Local::now().year() != ltime.year() {
        format!("{}", ltime.format("%b %e  %Y"))
    } else {
        format!("{}", ltime.format("%b %e %H:%M"))
    }
}

#[test]
fn a_time_in_another_year_shows_the_year() {
    // the middle of 2001, in every time zone
    let text = modified_text(Timestamp { secs: 993_945_600, nanos: 0 }).unwrap();
    assert_eq!(text, by_hand(993_945_600, 0));
    assert!(text.ends_with("  2001"), "text {text:?}");
    assert!(text.starts_with("Jun 30") || text.starts_with("Jul  1"), "text {text:?}");
}

#[test]
fn a_time_in_this_year_shows_the_time_of_day() {
    let now = Local::now();
    let text = modified_text(Timestamp { secs: now.timestamp(), nanos: 0 }).unwrap();
    // unless the year changed between the two readings of the clock
    if Local::now().year() == now.year() {
        assert_eq!(text, format!("{}", now.format("%b %e %H:%M")));
        assert_eq!(text.len(), 12);
        assert_eq!(&text[9..10], ":");
    }
}

#[test]
fn the_epoch_and_other_times() {
    for (secs, nanos) in [(0i64, 0u32), (-1, 999_999_999), (1_700_000_000, 5), (4_102_444_800, 0), (-2_208_988_800, 0)] {
        assert_eq!(modified_text(Timestamp { secs, nanos }).unwrap(), by_hand(secs, nanos));
    }
}

#[test]
fn times_that_the_calendar_cannot_hold() {
    assert_eq!(modified_text(Timestamp { secs: i64::MAX, nanos: 0 }), None);
    assert_eq!(modified_text(Timestamp { secs: i64::MIN, nanos: 0 }), None);
    assert_eq!(modified_text(Timestamp { secs: 0, nanos: 2_000_000_000 }), None);
}

#[test]
fn the_range_of_the_calendar() {
    assert_eq!(FIRST_SECOND, DateTime::<chrono::Utc>::MIN_UTC.timestamp());
    assert_eq!(LAST_SECOND, DateTime::<chrono::Utc>::MAX_UTC.timestamp());
    let seconds = [
        i64::MIN,
        FIRST_SECOND - 1,
        FIRST_SECOND,
        FIRST_SECOND + 59,
        -61,
        -60,
        -1,
        0,
        59,
        60,
        119,
        1_700_000_000,
        1_700_000_039,
        LAST_SECOND - 60,
        LAST_SECOND,
        LAST_SECOND + 1,
        i64::MAX,
    ];
    let nanos = [0u32, 1, 999_999_999, 1_000_000_000, 1_999_999_999, 2_000_000_000, u32::MAX];
    for secs in seconds {
        for nanos in nanos {
            let time = Timestamp { secs, nanos };
            let held = DateTime::from_timestamp(secs, nanos).is_some();
            assert_eq!(time.representable(), held, "moment {secs} {nanos}");
        }
    }
}

#[test]
fn there_is_a_text_exactly_within_the_calendar() {
    for (secs, nanos) in [
        (0i64, 0u32),
        (59, 1_500_000_000),
        (58, 1_500_000_000),
        (-1, 1_000_000_000),
        (-2, 1_000_000_000),
        (FIRST_SECOND, 0),
        (LAST_SECOND, 999_999_999),
        (FIRST_SECOND + 86_400 * 400, 0),
        (FIRST_SECOND - 1, 0),
        (LAST_SECOND - 86_400 * 400, 999_999_999),
        (LAST_SECOND + 1, 0),
        (1_700_000_000, 2_000_000_000),
    ] {
        let time = Timestamp { secs, nanos };
        assert_eq!(modified_text(time).is_some(), time.representable(), "moment {secs} {nanos}");
    }
}

fn in_zone_by_hand(secs: i64, nanos: u32, offset: i32, current_year: i32) -> String {
    let zone = chrono::FixedOffset::east_opt(offset).unwrap();
    let time = DateTime::from_timestamp(secs, nanos).unwrap().with_timezone(&zone);
    if current_year != time.year() {
        format!("{}", time.format("%b %e  %Y"))
    } else {
        format!("{}", time.format("%b %e %H:%M"))
    }
}

#[test]
fn a_moment_in_a_given_zone() {
    // the first second of 2024 in Greenwich
    let new_year = Timestamp { secs: 1_704_067_200, nanos: 0 };
    assert_eq!(shown_time(new_year, 0, 2024), Some("Jan  1 00:00".to_string()));
    assert_eq!(shown_time(new_year, 0, 2023), Some("Jan  1  2024".to_string()));
    // one hour to the west it is still 2023
    assert_eq!(shown_time(new_year, -3600, 2024), Some("Dec 31  2023".to_string()));
    assert_eq!(shown_time(new_year, -3600, 2023), Some("Dec 31 23:00".to_string()));
    // five and a half hours to the east
    assert_eq!(shown_time(new_year, 19_800, 2024), Some("Jan  1 05:30".to_string()));
    assert_eq!(shown_time(Timestamp { secs: 0, nanos: 0 }, 0, 2024), Some("Jan  1  1970".to_string()));
    assert_eq!(shown_time(Timestamp { secs: 1_700_000_000, nanos: 5 }, 0, 2023), Some("Nov 14 22:13".to_string()));
}

#[test]
fn a_given_zone_as_the_calendar_has_it() {
    let moments = [
        (0i64, 0u32),
        (-1, 999_999_999),
        (59, 1_500_000_000),
        (951_782_400, 0),
        (1_704_067_199, 0),
        (1_704_067_200, 0),
        (FIRST_SECOND, 0),
        (LAST_SECOND, 999_999_999),
    ];
    for (secs, nanos) in moments {
        for offset in [-86_399, -43_200, -3600, -1, 0, 1, 3600, 19_800, 50_400, 86_399] {
            for current_year in [1969, 1970, 2000, 2023, 2024, 262_142, -262_143] {
                assert_eq!(
                    shown_time(Timestamp { secs, nanos }, offset, current_year),
                    Some(in_zone_by_hand(secs, nanos, offset, current_year)),
                    "moment {secs} {nanos} offset {offset} year {current_year}"
                );
            }
        }
    }
}

#[test]
fn no_text_without_a_moment_or_a_zone() {
    let fine = Timestamp { secs: 0, nanos: 0 };
    assert_eq!(shown_time(fine, 86_400, 2024), None);
    assert_eq!(shown_time(fine, -86_400, 2024), None);
    assert_eq!(shown_time(fine, i32::MAX, 2024), None);
    assert_eq!(shown_time(fine, i32::MIN, 2024), None);
    assert_eq!(shown_time(Timestamp { secs: LAST_SECOND + 1, nanos: 0 }, 0, 2024), None);
    assert_eq!(shown_time(Timestamp { secs: FIRST_SECOND - 1, nanos: 0 }, 0, 2024), None);
    assert_eq!(shown_time(Timestamp { secs: 0, nanos: 1_000_000_000 }, 0, 2024), None);
}

#[test]
fn the_listing_text_is_that_of_the_local_zone() {
    for secs in [0i64, 993_945_600, 1_700_000_000, 1_704_067_200] {
        let local = DateTime::from_timestamp(secs, 0).unwrap().with_timezone(&Local);
        let offset = local.offset().local_minus_utc();
        let year = Local::now().year();
        assert_eq!(modified_text(Timestamp { secs, nanos: 0 }), shown_time(Timestamp { secs, nanos: 0 }, offset, year));
    }
}
