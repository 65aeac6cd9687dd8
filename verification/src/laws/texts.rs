//! Numbers, times and reports in words.

use crate::claim;
use crate::claim::ClaimStateView;
use crate::cli;
use crate::cli::{ReportView, WorkProgressView};
use crate::exchange::{ClockReading, RequestView, Run};
use crate::laws::calendar;
use crate::laws::pages;
use crate::status;
use crate::style;
use crate::sync;
use crate::sync::SyncStatusView;
use crate::text;
use crate::time;
use crate::time::Date;
use crate::work::WorkStageView;
use vstd::prelude::*;

verus! {

/// A number is written in digits, the last of which is its remainder by ten, and without
/// leading zeros.
pub proof fn law_number_in_digits(n: nat)
    ensures
        text::decimal(n).last() as nat == 48 + n % 10,
        n < 10 ==> text::decimal(n).len() == 1,
        n >= 10 ==> text::decimal(n).drop_last() == text::decimal(n / 10),
        text::decimal(n).len() > 1 ==> text::decimal(n)[0] != '0',
    decreases n,
{
    let last = n % 10;
    assert(((48 + last) as char) as nat == 48 + last);
    if n >= 10 {
        law_number_in_digits(n / 10);
        assert(text::decimal(n).drop_last() =~= text::decimal(n / 10));
        if n / 10 < 10 {
            let first = n / 10;
            assert(((48 + first) as char) as nat == 48 + first);
        }
    }
}

/// Two digits stand for a number below a hundred, with a zero in front where it needs one.
pub proof fn law_two_digits(n: nat)
    requires
        n < 100,
    ensures
        text::two_digits(n).len() == 2,
        text::two_digits(n)[0] as nat == 48 + n / 10,
        text::two_digits(n)[1] as nat == 48 + n % 10,
{
    let tens = n / 10;
    let ones = n % 10;
    assert(((48 + tens) as char) as nat == 48 + tens);
    assert(((48 + ones) as char) as nat == 48 + ones);
    if n >= 10 {
        assert(text::decimal(tens) == seq![text::digit(tens)]);
    }
}

/// The clock shows the seconds since the epoch. What is over the range of a signed number
/// wraps around, and a time before the epoch counts as the epoch.
pub proof fn law_clock_in_seconds(reading: ClockReading, since: i64)
    ensures
        ({
            let now = match reading {
                ClockReading::Seconds(seconds) => if seconds < 0x8000_0000_0000_0000 {
                    seconds as int
                } else {
                    seconds - 0x1_0000_0000_0000_0000
                },
                ClockReading::BeforeEpoch(_) => 0,
            };
            let elapsed = time::elapsed_seconds(reading, since) as int;
            &&& now <= since ==> elapsed == 0
            &&& since <= now <= since + 0x7fff_ffff_ffff_ffff ==> elapsed == now - since
            &&& now > since + 0x7fff_ffff_ffff_ffff ==> elapsed == 0x7fff_ffff_ffff_ffff
        }),
{
}

/// The hour of a time of day, on a clock of twelve hours.
pub proof fn law_hour_of_the_day(at: i64, offset: i32) -> (shown: nat)
    ensures
        ({
            let second = (at + offset) % 86_400;
            &&& 1 <= shown <= 12
            &&& shown % 12 == (second / 3_600) % 12
            &&& time::hour_text(at, offset) == text::decimal(shown) + if second < 43_200 {
                "am"@
            } else {
                "pm"@
            }
        }),
{
    let hour = ((at + offset) % 86_400) / 3_600;
    if hour % 12 == 0 {
        12
    } else {
        (hour % 12) as nat
    }
}

/// The offset from UTC, with its sign, in hours and minutes, and in seconds too where it has
/// any.
pub proof fn law_offset_adds_up(offset: i32) -> (at: (nat, nat, nat))
    requires
        -86_400 < offset < 86_400,
    ensures
        ({
            let (hours, minutes, seconds) = at;
            let sign = if offset < 0 {
                "-"@
            } else {
                "+"@
            };
            let size = hours * 3_600 + minutes * 60 + seconds;
            let front = sign + text::two_digits(hours) + ":"@ + text::two_digits(minutes);
            &&& hours < 24
            &&& minutes < 60
            &&& seconds < 60
            &&& offset == if offset < 0 {
                -size
            } else {
                size as int
            }
            &&& time::offset_text(offset) == if seconds == 0 {
                front
            } else {
                front + ":"@ + text::two_digits(seconds)
            }
        }),
{
    let size: nat = if offset < 0 {
        -offset as nat
    } else {
        offset as nat
    };
    (size / 3_600, size / 60 % 60, size % 60)
}

/// The names of the months.
pub open spec fn months() -> Seq<Seq<char>> {
    seq![
        "January"@,
        "February"@,
        "March"@,
        "April"@,
        "May"@,
        "June"@,
        "July"@,
        "August"@,
        "September"@,
        "October"@,
        "November"@,
        "December"@,
    ]
}

/// What follows the number of a day in the month.
pub open spec fn day_suffix(day: int) -> Seq<char> {
    if day == 1 || day == 21 || day == 31 {
        "st"@
    } else if day == 2 || day == 22 {
        "nd"@
    } else if day == 3 || day == 23 {
        "rd"@
    } else {
        "th"@
    }
}

/// The time of a claim is told by the month and the day of its local date, the hour, and the
/// offset from UTC.
pub proof fn law_claim_time_in_words(at: i64, offset: i32, date: Date)
    requires
        time::is_date_of((at + offset) / 86_400, date),
    ensures
        time::claim_timestamp_text(at, offset) == months()[date.month - 1] + " "@ + (
        text::decimal(date.day as nat) + day_suffix(date.day)) + " at "@
            + time::hour_text(at, offset) + " "@ + time::offset_text(offset),
{
    calendar::law_day_has_one_date((at + offset) / 86_400);
    let month = date.month;
    assert(1 <= month <= 12);
    assert(1 <= date.day <= 31);
    assert(time::month_name(month) == months()[month - 1]);
}

/// Colours and marks change nothing of a text but what stands before and after it.
pub proof fn law_styles_enclose_the_text(shown: Seq<char>, selected: Option<Seq<char>>, count: nat)
    ensures
        style::blue(shown) == "\x1b[34m"@ + shown + "\x1b[0m"@,
        style::green(shown) == "\x1b[32m"@ + shown + "\x1b[0m"@,
        style::red(shown) == "\x1b[31m"@ + shown + "\x1b[0m"@,
        style::linked(shown) == "\x1b[34;4m"@ + shown + "\x1b[0m"@,
        style::starred(shown) == "\x1b[32m*"@ + shown + "\x1b[0m"@,
        style::starred_bold(shown) == "\x1b[32m*\x1b[1;4m"@ + shown + "\x1b[0m"@,
        style::bold(shown) == "\x1b[1;4m"@ + shown + "\x1b[0m"@,
        style::session_name_text(shown, selected) == if selected == Some(shown) {
            style::starred(shown)
        } else {
            shown
        },
        style::plural("session"@, count) == if count == 1 {
            "session"@
        } else {
            "sessions"@
        },
        style::plural("file"@, count) == if count == 1 {
            "file"@
        } else {
            "files"@
        },
        style::verb(count) == if count == 1 {
            "is"@
        } else {
            "are"@
        },
{
    reveal_strlit("file");
    reveal_strlit("session");
    assert("file"@.len() != "session"@.len());
}

/// The brief line on synchronization.
pub proof fn law_sync_in_brief(counted: SyncStatusView)
    ensures
        ({
            let files = |count: nat|
                text::decimal(count) + " "@ + if count == 1 {
                    "file"@
                } else {
                    "files"@
                };
            sync::sync_text(counted) == if counted.unsynced_files == 0 {
                "\x1b[32mFully synced ("@ + files(counted.total_files) + ")\x1b[0m"@
            } else {
                "\x1b[31m"@ + files(counted.unsynced_files) + " unsynced (out of "@ + files(
                    counted.total_files,
                ) + ")\x1b[0m"@
            }
        }),
{
    reveal_strlit("file");
    reveal_strlit("session");
    assert("file"@.len() != "session"@.len());
}

/// How a session stands to the user of this machine, in brief and as a page. The sentences on
/// synchronization are told only of a session of one's own.
pub proof fn law_claim_state_in_words(
    session_name: Seq<char>,
    state: ClaimStateView,
    counted: Option<SyncStatusView>,
    session_url: Seq<char>,
    commit_url: Seq<char>,
)
    ensures
        status::claim_state_text(state) == match state {
            ClaimStateView::Unclaimed => "\x1b[31mUnclaimed\x1b[0m"@,
            ClaimStateView::ClaimedByCurrentSetup =>
                "\x1b[32mClaimed by this machine and user\x1b[0m"@,
            ClaimStateView::ClaimedByOther(id) => "\x1b[31mClaimed by `"@ + (id.user + "@"@
                + id.machine) + "`\x1b[0m"@,
        },
        status::session_state_text(session_name, state, counted, session_url, commit_url) == ({
            let session_link = "\x1b[34;4m"@ + session_url + "\x1b[0m"@;
            let commit_link = "\x1b[34;4m"@ + commit_url + "\x1b[0m"@;
            match state {
                ClaimStateView::Unclaimed => "You are on the working commit for session "@ + (
                "\x1b[32m*"@ + session_name + "\x1b[0m"@) + ".\n"@ + session_link
                    + "\n\nThis session is based on:\n"@ + commit_link
                    + "\n\nTo work on this session, run "@ + ("\x1b[32m"@ + "jist claim"@
                    + "\x1b[0m"@) + ".\n"@,
                ClaimStateView::ClaimedByCurrentSetup => {
                    let own = "You have "@ + ("\x1b[32m"@ + "claimed"@ + "\x1b[0m"@)
                        + " the working commit for session "@ + ("\x1b[32m*\x1b[1;4m"@
                        + session_name + "\x1b[0m"@) + ".\n"@ + session_link
                        + "\n\nThis session is based on:\n"@ + commit_link + "\n"@;
                    match counted {
                        Some(counted) => own + "\n"@ + pages::sync_sentences(
                            counted.unsynced_files,
                            counted.total_files,
                        ) + "\n"@,
                        None => own,
                    }
                },
                ClaimStateView::ClaimedByOther(id) => "Session "@ + session_name + " is "@ + (
                "\x1b[32m"@ + "claimed"@ + "\x1b[0m"@) + " by `"@ + (id.user + "@"@
                    + id.machine) + "`.\n"@,
            }
        }),
{
    if counted is Some {
        pages::law_sync_sentences(counted->Some_0);
    }
}

/// A command reports its result in its own words, a failure by its message on a line, and
/// asks for what its workflow asks for.
pub proof fn law_reports_follow_the_workflow<A>(run: Run<A>, show: spec_fn(A) -> Seq<char>)
    ensures
        match run {
            Run::Done(value, _) => cli::reported(run, show) == Ok::<ReportView, RequestView>(
                ReportView::Success(show(value)),
            ),
            Run::Failed(message, _) => cli::reported(run, show) == Ok::<ReportView, RequestView>(
                ReportView::Failure(message + "\n"@),
            ),
            Run::Asks(request) => cli::reported(run, show) == Err::<ReportView, RequestView>(
                request,
            ),
        },
{
}

/// Work goes on from stage to stage. Its end says nothing, and a failure ends it with its
/// message on a line.
pub proof fn law_work_reports_follow_the_workflow(run: Run<WorkStageView>)
    ensures
        match run {
            Run::Done(stage, _) => cli::work_progress(run) == Ok::<WorkProgressView, RequestView>(
                if stage is Finished {
                    WorkProgressView::Ended(ReportView::Success(Seq::empty()))
                } else {
                    WorkProgressView::Stage(stage)
                },
            ),
            Run::Failed(message, _) => cli::work_progress(run) == Ok::<
                WorkProgressView,
                RequestView,
            >(WorkProgressView::Ended(ReportView::Failure(message + "\n"@))),
            Run::Asks(request) => cli::work_progress(run) == Err::<WorkProgressView, RequestView>(
                request,
            ),
        },
{
}

/// The text of a claimee names the user and the machine, and a text that names no user or no
/// machine is none.
pub proof fn law_claimee_in_words(user: Seq<char>, machine: Seq<char>)
    requires
        !user.contains('@'),
    ensures
        claim::claimee_text(claim::ClaimeeIdView { user, machine }) == user + "@"@ + machine,
        claim::parsed_claimee(user.push('@') + machine) == if user.len() > 0 && machine.len() > 0 {
            Some(claim::ClaimeeIdView { user, machine })
        } else {
            None
        },
{
    text::lemma_split_once_joined(user, '@', machine);
}

} // verus!
