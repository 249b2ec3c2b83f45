use chrono::Datelike;
use osubot_core::time::{
    day_start, today_0am_utc, utc_now, UtcTime, MAX_DAY, MAX_SECS, MIN_DAY, MIN_SECS,
};

fn at(secs: i64, nanos: u32) -> UtcTime {
    UtcTime { secs, nanos }
}

#[test]
fn range_is_that_of_chrono() {
    assert_eq!(chrono::DateTime::<chrono::Utc>::MAX_UTC.timestamp(), MAX_SECS);
    assert_eq!(chrono::DateTime::<chrono::Utc>::MIN_UTC.timestamp(), MIN_SECS);
    assert_eq!(chrono::NaiveDate::MIN.num_days_from_ce(), MIN_DAY);
    assert_eq!(chrono::NaiveDate::MAX.num_days_from_ce(), MAX_DAY);
}

#[test]
fn text_of_an_instant_reads_back() {
    let t = at(1_700_000_000, 120_000_000);
    assert_eq!(t.to_rfc3339(), "2023-11-14T22:13:20.120+00:00");
    assert_eq!(UtcTime::parse("2023-11-14T22:13:20.120+00:00"), Some(t));
}

#[test]
fn texts_with_an_offset_and_leap_seconds_are_read() {
    assert_eq!(UtcTime::parse("1970-01-01T09:00:00+09:00"), Some(at(0, 0)));
    assert_eq!(UtcTime::parse("2016-12-31T23:59:60Z"), Some(at(1_483_228_799, 1_000_000_000)));
    assert_eq!(UtcTime::parse("2016-12-31 is no instant"), None);
    assert_eq!(UtcTime::parse(""), None);
    assert_eq!(UtcTime::parse_or("no instant", at(7, 1)), at(7, 1));
    assert_eq!(UtcTime::parse_or("1970-01-01T00:00:08Z", at(7, 1)), at(8, 0));
}

#[test]
fn texts_of_four_digit_years_are_in_the_order_of_the_instants() {
    let instants = vec![
        at(-62_167_219_200, 0),
        at(-1, 999_999_999),
        at(0, 0),
        at(0, 1),
        at(0, 1_000),
        at(0, 1_000_000),
        at(0, 500_000_000),
        at(0, 500_000_001),
        at(59, 999_999_999),
        at(59, 1_000_000_000),
        at(59, 1_500_000_000),
        at(60, 0),
        at(1_700_000_000, 0),
        at(253_402_300_799, 999_999_999),
    ];
    for (i, a) in instants.iter().enumerate() {
        assert_eq!(UtcTime::parse(&a.to_rfc3339()), Some(*a));
        for (j, b) in instants.iter().enumerate() {
            assert_eq!(a.to_rfc3339() < b.to_rfc3339(), i < j);
            assert_eq!(a.is_before(*b), i < j);
        }
    }
}

#[test]
fn shifts_stay_in_range() {
    assert_eq!(at(10, 5).checked_add(-20), Some(at(-10, 5)));
    assert_eq!(at(MAX_SECS, 5).checked_add(1), None);
    assert_eq!(at(MAX_SECS - 1, 5).checked_add(1), Some(at(MAX_SECS, 5)));
    assert_eq!(at(MIN_SECS, 0).checked_add(-1), None);
    assert_eq!(at(0, 0).checked_add(i64::MAX), None);
    assert_eq!(at(0, 0).checked_add(i64::MIN), None);
    assert_eq!(at(7_200, 9).back_hours(2), Some(at(0, 9)));
    assert_eq!(at(0, 9).back_hours(-2), Some(at(7_200, 9)));
    assert_eq!(at(0, 0).back_hours(i64::MAX), None);
    assert_eq!(at(0, 0).back_hours(i64::MIN), None);
    assert_eq!(at(0, 9).ahead_hours(2), Some(at(7_200, 9)));
    assert_eq!(at(0, 0).ahead_hours(i64::MIN), None);
    assert_eq!(at(864_000, 0).checked_back(10, 86_400), Some(at(0, 0)));
}

#[test]
fn differences_are_rounded_toward_zero() {
    assert_eq!(at(10, 0).seconds_since(at(8, 500_000_000)), 1);
    assert_eq!(at(8, 500_000_000).seconds_since(at(10, 0)), -1);
    assert_eq!(at(7_199, 999_999_999).hours_since(at(0, 0)), 1);
    assert_eq!(at(0, 0).hours_since(at(7_199, 999_999_999)), -1);
    assert_eq!(at(8, 500_000_000).distance_to(at(10, 0)), 1);
    assert_eq!(at(10, 0).distance_to(at(7, 0)), 3);
    assert_eq!(at(60, 0).seconds_since(at(59, 1_500_000_000)), 0);
    assert_eq!(at(61, 0).seconds_since(at(59, 1_000_000_000)), 2);
    assert!(at(3_600, 0).is_within_hours_of(at(0, 1), 1));
    assert!(!at(3_600, 0).is_within_hours_of(at(0, 0), 1));
    assert!(at(0, 0).is_within_hours_of(at(3_600, 0), 0));
}

#[test]
fn timestamps_out_of_range_are_no_instants() {
    assert_eq!(UtcTime::from_timestamp(12), Some(at(12, 0)));
    assert_eq!(UtcTime::from_timestamp(MAX_SECS), Some(at(MAX_SECS, 0)));
    assert_eq!(UtcTime::from_timestamp(MAX_SECS + 1), None);
    assert_eq!(UtcTime::from_timestamp(MIN_SECS - 1), None);
}

#[test]
fn the_clock_is_that_of_chrono() {
    let before = chrono::Utc::now().timestamp();
    let now = utc_now();
    let after = chrono::Utc::now().timestamp();
    assert!(before <= now.secs && now.secs <= after);
    assert!(now.nanos < 1_000_000_000);
}

#[test]
fn day_starts_at_midnight_or_one_o_clock_or_now() {
    assert_eq!(day_start(Some(1), Some(2), 3), 1);
    assert_eq!(day_start(None, Some(2), 3), 2);
    assert_eq!(day_start(None, None, 3), 3);
}

#[test]
fn today_begins_within_the_last_day() {
    let start = today_0am_utc();
    let now = utc_now().secs;
    assert!(start <= now && now - start <= 25 * 3_600);
    let local = chrono::DateTime::from_timestamp(start, 0)
        .expect("in range")
        .with_timezone(&chrono::Local);
    assert_eq!(local.date_naive(), chrono::Local::now().date_naive());
}

#[test]
fn instants_before_the_year_zero_come_first_as_texts_too() {
    let early = [at(-62_167_219_201, 0), at(MIN_SECS, 0), at(-99_999_999_999, 7)];
    let plain = [at(-62_167_219_200, 0), at(0, 0), at(253_402_300_799, 999_999_999)];
    for a in early {
        assert_eq!(UtcTime::parse(&a.to_rfc3339()), None);
        for b in plain {
            assert!(a.is_before(b));
            assert!(a.to_rfc3339() < b.to_rfc3339());
        }
    }
    let late = at(253_402_300_800, 0);
    assert!(late.to_rfc3339() < plain[0].to_rfc3339());
}
