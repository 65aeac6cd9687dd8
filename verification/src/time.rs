//! Durations, clock readings and calendar times in words.

use crate::ask;
use crate::exchange::{ClockReading, Log, Reply, Request, RequestView, Run, Stop};
use crate::text;
use chrono::{DateTime, Datelike, FixedOffset};
use vstd::prelude::*;

verus! {

/// A duration in days, hours and minutes; what is left of a minute is dropped.
pub open spec fn duration_text(total_seconds: nat) -> Seq<char> {
    text::decimal(total_seconds / 86_400) + "d "@ + text::decimal(
        (total_seconds % 86_400) / 3_600,
    ) + "h "@ + text::decimal((total_seconds % 3_600) / 60) + "m"@
}

pub fn format_duration(total_seconds: u64) -> (result: String)
    ensures
        result@ == duration_text(total_seconds as nat),
{
    let days = total_seconds / 86_400;
    let hours = (total_seconds % 86_400) / 3_600;
    let minutes = (total_seconds % 3_600) / 60;
    text::decimal_text(days as u128).concat("d ").concat(
        text::decimal_text(hours as u128).as_str(),
    ).concat("h ").concat(text::decimal_text(minutes as u128).as_str()).concat("m")
}

/// The Unix time that a reading of the wall clock stands for: the reading as a signed
/// number, and the epoch itself where the clock shows an earlier time.
pub open spec fn unix_time(reading: ClockReading) -> int {
    match reading {
        ClockReading::Seconds(seconds) => if seconds <= i64::MAX {
            seconds as int
        } else {
            seconds - 0x1_0000_0000_0000_0000
        },
        ClockReading::BeforeEpoch(_) => 0,
    }
}

/// The seconds that passed since `unix_seconds`, as far as an `i64` can tell; none for a
/// time to come.
pub open spec fn elapsed_seconds(reading: ClockReading, unix_seconds: i64) -> nat {
    let elapsed = unix_time(reading) - unix_seconds;
    if elapsed < 0 {
        0
    } else if elapsed > i64::MAX {
        i64::MAX as nat
    } else {
        elapsed as nat
    }
}

/// The seconds that passed since `unix_seconds` when the wall clock showed `reading`.
pub fn seconds_since(reading: &ClockReading, unix_seconds: i64) -> (elapsed: u64)
    ensures
        elapsed == elapsed_seconds(*reading, unix_seconds),
{
    let now: i128 = match reading {
        ClockReading::Seconds(seconds) => if *seconds <= i64::MAX as u64 {
            *seconds as i128
        } else {
            *seconds as i128 - 0x1_0000_0000_0000_0000
        },
        ClockReading::BeforeEpoch(_) => 0,
    };
    let elapsed: i128 = now - unix_seconds as i128;
    if elapsed < 0 {
        0
    } else if elapsed > i64::MAX as i128 {
        i64::MAX as u64
    } else {
        elapsed as u64
    }
}

pub open spec fn elapsed_run(unix_seconds: i64, log: Seq<Reply>) -> Run<Seq<char>> {
    ask::clock_run(log).and_then(
        |reading: ClockReading, log: Seq<Reply>|
            Run::Done(duration_text(elapsed_seconds(reading, unix_seconds)), log),
    )
}

/// How long ago a Unix time was.
pub fn format_elapsed_since_unix_seconds(log: &mut Log, unix_seconds: i64) -> (result: Result<
    String,
    Stop,
>)
    ensures
        Run::of(result, final(log)@) == elapsed_run(unix_seconds, old(log)@),
{
    let reading = ask::clock(log)?;
    Ok(format_duration(seconds_since(reading, unix_seconds)))
}

pub open spec fn time_since_run(unix_seconds: i64, log: Seq<Reply>) -> Run<Seq<char>> {
    elapsed_run(unix_seconds, log).and_then(
        |elapsed: Seq<char>, log: Seq<Reply>| Run::Done(elapsed + " ago"@, log),
    )
}

pub fn format_time_since_unix_seconds(log: &mut Log, unix_seconds: i64) -> (result: Result<
    String,
    Stop,
>)
    ensures
        Run::of(result, final(log)@) == time_since_run(unix_seconds, old(log)@),
{
    Ok(format_elapsed_since_unix_seconds(log, unix_seconds)?.concat(" ago"))
}

pub open spec fn last_modified_run(unix_seconds: i64, log: Seq<Reply>) -> Run<Seq<char>> {
    time_since_run(unix_seconds, log).and_then(
        |since: Seq<char>, log: Seq<Reply>| Run::Done("last modified "@ + since, log),
    )
}

pub fn format_last_modified(log: &mut Log, unix_seconds: i64) -> (result: Result<String, Stop>)
    ensures
        Run::of(result, final(log)@) == last_modified_run(unix_seconds, old(log)@),
{
    let since = format_time_since_unix_seconds(log, unix_seconds)?;
    Ok("last modified ".to_owned().concat(since.as_str()))
}

pub open spec fn utc_unix_timestamp_run(log: Seq<Reply>) -> Run<u64> {
    ask::clock_run(log).and_then(
        |reading: ClockReading, log: Seq<Reply>|
            match reading {
                ClockReading::Seconds(seconds) => Run::Done(seconds, log),
                ClockReading::BeforeEpoch(error) => Run::Failed(
                    "System clock is before Unix epoch: "@ + error@,
                    log,
                ),
            },
    )
}

/// The Unix time now.
pub fn utc_unix_timestamp(log: &mut Log) -> (result: Result<u64, Stop>)
    ensures
        Run::of(result, final(log)@) == utc_unix_timestamp_run(old(log)@),
{
    match ask::clock(log)? {
        ClockReading::Seconds(seconds) => Ok(*seconds),
        ClockReading::BeforeEpoch(error) => Err(
            Stop::Fail(
                "System clock is before Unix epoch: ".to_owned().concat(error.as_str()),
            ),
        ),
    }
}

/// What is left until `deadline` when the monotonic clock shows `now`, both in nanoseconds,
/// in minutes and seconds.
pub open spec fn scheduled_sync_text(deadline: u128, now: u64) -> Seq<char> {
    let remaining: nat = if deadline > now { (deadline - now) as nat } else { 0 };
    let total_seconds: nat = remaining / 1_000_000_000;
    "Sync scheduled in "@ + text::decimal(total_seconds / 60) + ":"@ + text::two_digits(
        total_seconds % 60,
    )
}

pub open spec fn scheduled_sync_run(deadline: u128, log: Seq<Reply>) -> Run<Seq<char>> {
    ask::monotonic_run(log).and_then(
        |now: u64, log: Seq<Reply>| Run::Done(scheduled_sync_text(deadline, now), log),
    )
}

/// When the next push is due.
pub fn format_scheduled_sync(log: &mut Log, deadline: u128) -> (result: Result<String, Stop>)
    ensures
        Run::of(result, final(log)@) == scheduled_sync_run(deadline, old(log)@),
{
    let now: u64 = ask::monotonic(log)?;
    let remaining: u128 = if deadline > now as u128 { deadline - now as u128 } else { 0 };
    let total_seconds: u128 = remaining / 1_000_000_000;
    let minutes: u128 = total_seconds / 60;
    let seconds: u128 = total_seconds % 60;
    Ok(
        "Sync scheduled in ".to_owned().concat(text::decimal_text(minutes).as_str()).concat(
            ":",
        ).concat(text::two_digit_text(seconds).as_str()),
    )
}

/// The letters that make a number an ordinal.
pub open spec fn ordinal_suffix(n: nat) -> Seq<char> {
    if 11 <= n % 100 <= 13 {
        "th"@
    } else if n % 10 == 1 {
        "st"@
    } else if n % 10 == 2 {
        "nd"@
    } else if n % 10 == 3 {
        "rd"@
    } else {
        "th"@
    }
}

pub fn format_ordinal_day(day: u32) -> (result: String)
    ensures
        result@ == text::decimal(day as nat) + ordinal_suffix(day as nat),
{
    let suffix = match day % 100 {
        11..=13 => "th",
        _ => match day % 10 {
            1 => "st",
            2 => "nd",
            3 => "rd",
            _ => "th",
        },
    };
    text::decimal_text(day as u128).concat(suffix)
}

pub open spec fn is_leap_year(year: int) -> bool {
    year % 4 == 0 && (year % 100 != 0 || year % 400 == 0)
}

pub open spec fn month_length(year: int, month: int) -> int {
    if month == 2 {
        if is_leap_year(year) {
            29
        } else {
            28
        }
    } else if month == 4 || month == 6 || month == 9 || month == 11 {
        30
    } else {
        31
    }
}

pub open spec fn days_before_month(year: int, month: int) -> int
    decreases month,
{
    if month <= 1 {
        0
    } else {
        days_before_month(year, month - 1) + month_length(year, month - 1)
    }
}

/// The days from the first of January 1970 to that of `year`, in the Gregorian calendar.
pub open spec fn days_before_year(year: int) -> int {
    365 * (year - 1970) + ((year - 1) / 4 - (year - 1) / 100 + (year - 1) / 400 - 477)
}

/// A date in the Gregorian calendar.
pub struct Date {
    pub year: int,
    pub month: int,
    pub day: int,
}

/// Whether `date` is the day `number` days after the first of January 1970.
pub open spec fn is_date_of(number: int, date: Date) -> bool {
    &&& 1 <= date.month <= 12
    &&& 1 <= date.day <= month_length(date.year, date.month)
    &&& number == days_before_year(date.year) + days_before_month(date.year, date.month) + date.day
        - 1
}

/// The date `number` days after the first of January 1970.
pub open spec fn date_of(number: int) -> Date {
    choose|date: Date| is_date_of(number, date)
}

/// The local date at a Unix time, `offset` seconds ahead of UTC.
pub open spec fn local_date(unix_seconds: i64, offset: i32) -> Date {
    date_of((unix_seconds + offset) / 86_400)
}

pub open spec fn month_name(month: int) -> Seq<char> {
    if month == 1 {
        "January"@
    } else if month == 2 {
        "February"@
    } else if month == 3 {
        "March"@
    } else if month == 4 {
        "April"@
    } else if month == 5 {
        "May"@
    } else if month == 6 {
        "June"@
    } else if month == 7 {
        "July"@
    } else if month == 8 {
        "August"@
    } else if month == 9 {
        "September"@
    } else if month == 10 {
        "October"@
    } else if month == 11 {
        "November"@
    } else {
        "December"@
    }
}

/// The local hour on a twelve-hour clock.
pub open spec fn hour_text(unix_seconds: i64, offset: i32) -> Seq<char> {
    let hour = ((unix_seconds + offset) % 86_400) / 3_600;
    let shown = if hour % 12 == 0 { 12 } else { hour % 12 };
    text::decimal(shown as nat) + if hour < 12 { "am"@ } else { "pm"@ }
}

/// An offset from UTC: sign, hours and minutes, and seconds where there are any.
pub open spec fn offset_text(offset: i32) -> Seq<char> {
    let sign = if offset < 0 { "-"@ } else { "+"@ };
    let size: nat = if offset < 0 { -offset as nat } else { offset as nat };
    let minutes = sign + text::two_digits(size / 3_600) + ":"@ + text::two_digits(
        size / 60 % 60,
    );
    if size % 60 == 0 {
        minutes
    } else {
        minutes + ":"@ + text::two_digits(size % 60)
    }
}

/// The Unix times that have a date: the years from -262143 to 262142.
pub open spec fn has_date(unix_seconds: i64) -> bool {
    -8_334_601_228_800 <= unix_seconds <= 8_210_266_876_799
}

/// The offsets from UTC that a time zone can have: less than a day.
pub open spec fn is_offset(offset: i32) -> bool {
    -86_400 < offset < 86_400
}

/// `DateTime::from_timestamp`, asked only whether it gives a time: it does for the Unix times
/// whose year is in chrono's range.
#[verifier::external_body]
fn from_timestamp(unix_seconds: i64) -> (found: bool)
    ensures
        found == has_date(unix_seconds),
{
    DateTime::from_timestamp(unix_seconds, 0).is_some()
}

/// `DateTime::format` on the time `unix_seconds` at a fixed offset from UTC: the full English
/// name of the month for `%B`, the hour on a twelve-hour clock without padding and `am` or
/// `pm` for `%-I%P`, and the offset for `%Z`.
#[verifier::external_body]
fn format_time(unix_seconds: i64, offset: i32, pattern: &str) -> (text: String)
    requires
        has_date(unix_seconds),
        is_offset(offset),
        pattern@ == "%B"@ || pattern@ == "%-I%P"@ || pattern@ == "%Z"@,
    ensures
        pattern@ == "%B"@ ==> text@ == month_name(local_date(unix_seconds, offset).month),
        pattern@ == "%-I%P"@ ==> text@ == hour_text(unix_seconds, offset),
        pattern@ == "%Z"@ ==> text@ == offset_text(offset),
{
    let zone = FixedOffset::east_opt(offset).unwrap();
    let time = DateTime::from_timestamp(unix_seconds, 0).unwrap();
    time.with_timezone(&zone).format(pattern).to_string()
}

/// `Datelike::day` of the time `unix_seconds` at a fixed offset from UTC: the day of the
/// month, counted from one.
#[verifier::external_body]
fn day_of_month(unix_seconds: i64, offset: i32) -> (day: u32)
    requires
        has_date(unix_seconds),
        is_offset(offset),
    ensures
        day == local_date(unix_seconds, offset).day,
{
    let zone = FixedOffset::east_opt(offset).unwrap();
    let time = DateTime::from_timestamp(unix_seconds, 0).unwrap();
    time.with_timezone(&zone).day()
}

/// A local time in words: month, day, hour and offset from UTC.
pub open spec fn claim_timestamp_text(unix_seconds: i64, offset: i32) -> Seq<char> {
    let date = local_date(unix_seconds, offset);
    month_name(date.month) + " "@ + (text::decimal(date.day as nat) + ordinal_suffix(
        date.day as nat,
    )) + " at "@ + hour_text(unix_seconds, offset) + " "@ + offset_text(offset)
}

/// A Unix time as a local time in words, `offset` seconds ahead of UTC.
pub fn format_claim_timestamp_at(unix_seconds: i64, offset: i32) -> (result: String)
    requires
        has_date(unix_seconds),
        is_offset(offset),
    ensures
        result@ == claim_timestamp_text(unix_seconds, offset),
{
    let month = format_time(unix_seconds, offset, "%B");
    let day = day_of_month(unix_seconds, offset);
    let hour = format_time(unix_seconds, offset, "%-I%P");
    let timezone = format_time(unix_seconds, offset, "%Z");
    month.concat(" ").concat(format_ordinal_day(day).as_str()).concat(" at ").concat(
        hour.as_str(),
    ).concat(" ").concat(timezone.as_str())
}

pub open spec fn local_offset_run(unix_seconds: i64, log: Seq<Reply>) -> Run<i32> {
    if log.len() > 0 && log[0] is Offset && is_offset(log[0]->Offset_0) {
        Run::Done(log[0]->Offset_0, log.skip(1))
    } else {
        Run::Asks(RequestView::LocalOffset(unix_seconds))
    }
}

fn local_offset(log: &mut Log, unix_seconds: i64) -> (result: Result<i32, Stop>)
    ensures
        Run::of(result, final(log)@) == local_offset_run(unix_seconds, old(log)@),
{
    match log.peek() {
        Some(Reply::Offset(offset)) if -86_400 < *offset && *offset < 86_400 => {
            log.advance();
            Ok(*offset)
        },
        _ => Err(Stop::Ask(Request::LocalOffset(unix_seconds))),
    }
}

pub open spec fn local_now_run(log: Seq<Reply>) -> Run<(i64, i32)> {
    if log.len() > 0 && log[0] is LocalNow && has_date(log[0]->LocalNow_0) && is_offset(
        log[0]->LocalNow_1,
    ) {
        Run::Done((log[0]->LocalNow_0, log[0]->LocalNow_1), log.skip(1))
    } else {
        Run::Asks(RequestView::LocalNow)
    }
}

fn local_now(log: &mut Log) -> (result: Result<(i64, i32), Stop>)
    ensures
        Run::of(result, final(log)@) == local_now_run(old(log)@),
{
    match log.peek() {
        Some(Reply::LocalNow(unix_seconds, offset)) if -86_400 < *offset && *offset < 86_400
            && from_timestamp(*unix_seconds) => {
            log.advance();
            Ok((*unix_seconds, *offset))
        },
        _ => Err(Stop::Ask(Request::LocalNow)),
    }
}

/// The local time at `unix_seconds`, or the local time now where that has no date.
pub open spec fn local_claim_timestamp_run(unix_seconds: i64, log: Seq<Reply>) -> Run<Seq<char>> {
    if has_date(unix_seconds) {
        local_offset_run(unix_seconds, log).and_then(
            |offset: i32, log: Seq<Reply>|
                Run::Done(claim_timestamp_text(unix_seconds, offset), log),
        )
    } else {
        local_now_run(log).and_then(
            |now: (i64, i32), log: Seq<Reply>|
                Run::Done(claim_timestamp_text(now.0, now.1), log),
        )
    }
}

pub fn format_local_claim_timestamp(log: &mut Log, unix_seconds: i64) -> (result: Result<
    String,
    Stop,
>)
    ensures
        Run::of(result, final(log)@) == local_claim_timestamp_run(unix_seconds, old(log)@),
{
    if from_timestamp(unix_seconds) {
        let offset: i32 = local_offset(log, unix_seconds)?;
        Ok(format_claim_timestamp_at(unix_seconds, offset))
    } else {
        let now = local_now(log)?;
        Ok(format_claim_timestamp_at(now.0, now.1))
    }
}

} // verus!
