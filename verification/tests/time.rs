use chrono::{DateTime, Datelike, FixedOffset};
use jist::exchange::{ClockReading, Log, Reply, Request, Stop};
use jist::time::{
    format_claim_timestamp_at, format_duration, format_elapsed_since_unix_seconds,
    format_last_modified, format_local_claim_timestamp, format_ordinal_day, format_scheduled_sync,
    format_time_since_unix_seconds, seconds_since, utc_unix_timestamp,
};

#[test]
fn durations_add_up() {
    assert_eq!(format_duration(0), "0d 0h 0m");
    assert_eq!(format_duration(59), "0d 0h 0m");
    assert_eq!(format_duration(60), "0d 0h 1m");
    assert_eq!(format_duration(3_599), "0d 0h 59m");
    assert_eq!(format_duration(86_399), "0d 23h 59m");
    assert_eq!(format_duration(90_061), "1d 1h 1m");
    assert_eq!(format_duration(u64::MAX), "213503982334601d 7h 0m");
}

#[test]
fn elapsed_time_follows_the_clock() {
    let at = |seconds, since| seconds_since(&ClockReading::Seconds(seconds), since);
    assert_eq!(at(100, 40), 60);
    assert_eq!(at(101, 40), 61);
    assert_eq!(at(40, 100), 0);
    assert_eq!(at(0, i64::MIN), i64::MAX as u64);
    assert_eq!(at(u64::MAX, 0), 0);
    assert_eq!(at(u64::MAX, -2), 1);
    let early = ClockReading::BeforeEpoch("early".to_owned());
    assert_eq!(seconds_since(&early, -60), 60);
    assert_eq!(seconds_since(&early, 60), 0);
}

#[test]
fn says_how_long_ago() {
    let replies = vec![Reply::Clock(ClockReading::Seconds(3_700))];
    assert_eq!(
        format_elapsed_since_unix_seconds(&mut Log::new(&replies), 100).unwrap(),
        "0d 1h 0m"
    );
    assert_eq!(
        format_time_since_unix_seconds(&mut Log::new(&replies), 100).unwrap(),
        "0d 1h 0m ago"
    );
    assert_eq!(
        format_last_modified(&mut Log::new(&replies), 100).unwrap(),
        "last modified 0d 1h 0m ago"
    );
    let none = Vec::new();
    assert_eq!(
        format_last_modified(&mut Log::new(&none), 100),
        Err(Stop::Ask(Request::Clock))
    );
}

#[test]
fn timestamp_needs_a_clock_after_the_epoch() {
    let replies = vec![Reply::Clock(ClockReading::Seconds(42))];
    assert_eq!(utc_unix_timestamp(&mut Log::new(&replies)), Ok(42));
    let replies = vec![Reply::Clock(ClockReading::BeforeEpoch("early".to_owned()))];
    assert_eq!(
        utc_unix_timestamp(&mut Log::new(&replies)),
        Err(Stop::Fail(
            "System clock is before Unix epoch: early".to_owned()
        ))
    );
}

#[test]
fn says_when_the_next_push_is_due() {
    let say = |deadline: u128, now: u64| {
        let replies = vec![Reply::Monotonic(now)];
        format_scheduled_sync(&mut Log::new(&replies), deadline).unwrap()
    };
    assert_eq!(say(300_000_000_000, 0), "Sync scheduled in 5:00");
    assert_eq!(say(300_000_000_000, 1), "Sync scheduled in 4:59");
    assert_eq!(say(65_000_000_000, 0), "Sync scheduled in 1:05");
    assert_eq!(say(5, 6), "Sync scheduled in 0:00");
    assert_eq!(say(6_000_000_000_000, 0), "Sync scheduled in 100:00");
}

#[test]
fn days_are_ordinals() {
    for (day, text) in [
        (1, "1st"),
        (2, "2nd"),
        (3, "3rd"),
        (4, "4th"),
        (10, "10th"),
        (11, "11th"),
        (12, "12th"),
        (13, "13th"),
        (21, "21st"),
        (22, "22nd"),
        (23, "23rd"),
        (31, "31st"),
        (111, "111th"),
        (0, "0th"),
    ] {
        assert_eq!(format_ordinal_day(day), text);
    }
}

#[test]
fn local_times_in_words() {
    assert_eq!(format_claim_timestamp_at(0, 0), "January 1st at 12am +00:00");
    assert_eq!(
        format_claim_timestamp_at(0, -3_600),
        "December 31st at 11pm -01:00"
    );
    assert_eq!(
        format_claim_timestamp_at(1_709_208_000, 19_800),
        "February 29th at 5pm +05:30"
    );
    assert_eq!(
        format_claim_timestamp_at(1_751_371_200, 0),
        "July 1st at 12pm +00:00"
    );
    assert_eq!(
        format_claim_timestamp_at(0, 86_399),
        "January 1st at 11pm +23:59:59"
    );
    assert_eq!(
        format_claim_timestamp_at(-1, -86_399),
        "December 31st at 12am -23:59:59"
    );
}

#[test]
fn every_day_of_a_cycle_has_its_date() {
    let start = -11_676_096_000_i64;
    let mut days: i64 = 0;
    while days < 146_097 {
        let at = start + days * 86_400;
        let time = DateTime::from_timestamp(at, 0).unwrap();
        let text = format_claim_timestamp_at(at, 0);
        let expected = format!(
            "{} {} at 12am +00:00",
            [
                "January",
                "February",
                "March",
                "April",
                "May",
                "June",
                "July",
                "August",
                "September",
                "October",
                "November",
                "December"
            ][time.month0() as usize],
            format_ordinal_day(civil_day(at))
        );
        assert_eq!(text, expected);
        days += 37;
    }
}

// The day of the month, counted year by year and month by month from 1600.
fn civil_day(at: i64) -> u32 {
    let leap = |year: i64| year % 4 == 0 && (year % 100 != 0 || year % 400 == 0);
    let mut days = (at + 11_676_096_000) / 86_400;
    let mut year = 1600;
    loop {
        let length = if leap(year) { 366 } else { 365 };
        if days < length {
            break;
        }
        days -= length;
        year += 1;
    }
    let february = if leap(year) { 29 } else { 28 };
    for length in [31, february, 31, 30, 31, 30, 31, 31, 30, 31, 30, 31] {
        if days < length {
            return days as u32 + 1;
        }
        days -= length;
    }
    unreachable!()
}

#[test]
fn range_of_dates_has_these_ends() {
    let first = -8_334_601_228_800_i64;
    let last = 8_210_266_876_799_i64;
    assert!(DateTime::from_timestamp(first, 0).is_some());
    assert!(DateTime::from_timestamp(first - 1, 0).is_none());
    assert!(DateTime::from_timestamp(last, 0).is_some());
    assert!(DateTime::from_timestamp(last + 1, 0).is_none());
    assert_eq!(
        format_claim_timestamp_at(first, 0),
        "January 1st at 12am +00:00"
    );
    assert_eq!(
        format_claim_timestamp_at(first, -86_399),
        "December 31st at 12am -23:59:59"
    );
    assert_eq!(
        format_claim_timestamp_at(last, 0),
        "December 31st at 11pm +00:00"
    );
    assert_eq!(
        format_claim_timestamp_at(last, 86_399),
        "January 1st at 11pm +23:59:59"
    );
}

#[test]
fn offsets_shift_the_clock() {
    for offset in [-86_399, -43_200, -5_400, -59, 0, 1, 60, 45_900, 86_399] {
        for at in [0, 43_199, 43_200, 86_399, 951_782_400, 1_709_164_800, -86_401] {
            let zone = FixedOffset::east_opt(offset).unwrap();
            let time = DateTime::from_timestamp(at, 0).unwrap().with_timezone(&zone);
            let expected = format!(
                "{} {} at {} {}",
                time.format("%B"),
                format_ordinal_day(time.day()),
                time.format("%-I%P"),
                time.format("%Z")
            );
            assert_eq!(format_claim_timestamp_at(at, offset), expected);
        }
    }
}

#[test]
fn local_time_comes_from_the_log() {
    let none = Vec::new();
    assert_eq!(
        format_local_claim_timestamp(&mut Log::new(&none), 42),
        Err(Stop::Ask(Request::LocalOffset(42)))
    );
    let replies = vec![Reply::Offset(3_600)];
    assert_eq!(
        format_local_claim_timestamp(&mut Log::new(&replies), 42).unwrap(),
        "January 1st at 1am +01:00"
    );
}

#[test]
fn time_without_date_is_shown_as_now() {
    let none = Vec::new();
    assert_eq!(
        format_local_claim_timestamp(&mut Log::new(&none), i64::MAX),
        Err(Stop::Ask(Request::LocalNow))
    );
    let replies = vec![Reply::LocalNow(86_400, 0)];
    assert_eq!(
        format_local_claim_timestamp(&mut Log::new(&replies), i64::MAX).unwrap(),
        "January 2nd at 12am +00:00"
    );
    assert_eq!(
        format_local_claim_timestamp(&mut Log::new(&replies), i64::MIN).unwrap(),
        "January 2nd at 12am +00:00"
    );
}
