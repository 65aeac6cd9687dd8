//! Colors, markers and word forms in what is shown on the terminal.

use crate::text;
use vstd::prelude::*;

verus! {

pub open spec fn blue(text: Seq<char>) -> Seq<char> {
    "\x1b[34m"@ + text + "\x1b[0m"@
}

pub fn format_blue(text: &str) -> (result: String)
    ensures
        result@ == blue(text@),
{
    "\x1b[34m".to_owned().concat(text).concat("\x1b[0m")
}

pub open spec fn green(text: Seq<char>) -> Seq<char> {
    "\x1b[32m"@ + text + "\x1b[0m"@
}

pub fn format_green(text: &str) -> (result: String)
    ensures
        result@ == green(text@),
{
    "\x1b[32m".to_owned().concat(text).concat("\x1b[0m")
}

pub open spec fn red(text: Seq<char>) -> Seq<char> {
    "\x1b[31m"@ + text + "\x1b[0m"@
}

pub fn format_red(text: &str) -> (result: String)
    ensures
        result@ == red(text@),
{
    "\x1b[31m".to_owned().concat(text).concat("\x1b[0m")
}

pub open spec fn linked(url: Seq<char>) -> Seq<char> {
    "\x1b[34;4m"@ + url + "\x1b[0m"@
}

pub fn format_url(url: &str) -> (result: String)
    ensures
        result@ == linked(url@),
{
    "\x1b[34;4m".to_owned().concat(url).concat("\x1b[0m")
}

/// Commands are shown in green.
pub fn format_command(command: &str) -> (result: String)
    ensures
        result@ == green(command@),
{
    "\x1b[32m".to_owned().concat(command).concat("\x1b[0m")
}

/// A session name, marked as the selected one.
pub open spec fn starred(session_name: Seq<char>) -> Seq<char> {
    "\x1b[32m*"@ + session_name + "\x1b[0m"@
}

/// A session name, marked as the selected one and as claimed.
pub open spec fn starred_bold(session_name: Seq<char>) -> Seq<char> {
    "\x1b[32m*\x1b[1;4m"@ + session_name + "\x1b[0m"@
}

/// A session name, marked as claimed.
pub open spec fn bold(session_name: Seq<char>) -> Seq<char> {
    "\x1b[1;4m"@ + session_name + "\x1b[0m"@
}

pub fn format_selected_session_name(session_name: &str) -> (result: String)
    ensures
        result@ == starred(session_name@),
{
    "\x1b[32m*".to_owned().concat(session_name).concat("\x1b[0m")
}

/// A session name as lists show it: marked if it is the selected one.
pub open spec fn session_name_text(
    session_name: Seq<char>,
    selected_session: Option<Seq<char>>,
) -> Seq<char> {
    if selected_session == Some(session_name) {
        starred(session_name)
    } else {
        session_name
    }
}

pub fn format_session_name(session_name: &str, selected_session: Option<&str>) -> (result: String)
    ensures
        result@ == session_name_text(session_name@, selected_session.deep_view()),
{
    match selected_session {
        Some(selected) if text::same(selected, session_name) => format_selected_session_name(
            session_name,
        ),
        _ => session_name.to_owned(),
    }
}

pub fn format_current_session_name(session_name: &str, claimed: bool) -> (result: String)
    ensures
        result@ == (if claimed {
            starred_bold(session_name@)
        } else {
            starred(session_name@)
        }),
{
    if claimed {
        "\x1b[32m*\x1b[1;4m".to_owned().concat(session_name).concat("\x1b[0m")
    } else {
        "\x1b[32m*".to_owned().concat(session_name).concat("\x1b[0m")
    }
}

pub fn format_session_list_name(session_name: &str, current: bool, claimed: bool) -> (result:
    String)
    ensures
        result@ == (match (current, claimed) {
            (true, true) => starred_bold(session_name@),
            (true, false) => starred(session_name@),
            (false, true) => bold(session_name@),
            (false, false) => session_name@,
        }),
{
    match (current, claimed) {
        (true, true) => "\x1b[32m*\x1b[1;4m".to_owned().concat(session_name).concat("\x1b[0m"),
        (true, false) => "\x1b[32m*".to_owned().concat(session_name).concat("\x1b[0m"),
        (false, true) => "\x1b[1;4m".to_owned().concat(session_name).concat("\x1b[0m"),
        (false, false) => session_name.to_owned(),
    }
}

pub fn session_banner_hint(claimed: bool) -> (result: String)
    ensures
        result@ == (if claimed {
            "(\x1b[32;1;4mclaimed\x1b[0m, \x1b[32m*current session\x1b[0m)"@
        } else {
            "(\x1b[32m*current session\x1b[0m)"@
        }),
{
    if claimed {
        "(\x1b[32;1;4mclaimed\x1b[0m, \x1b[32m*current session\x1b[0m)".to_owned()
    } else {
        "(\x1b[32m*current session\x1b[0m)".to_owned()
    }
}

/// `word` for one; else the plural, which is known of sessions and of files.
pub open spec fn plural(word: Seq<char>, count: nat) -> Seq<char> {
    if count == 1 {
        word
    } else if word == "session"@ {
        "sessions"@
    } else {
        "files"@
    }
}

pub fn pluralize<'a>(word: &'a str, count: usize) -> (result: &'a str)
    ensures
        result@ == plural(word@, count as nat),
{
    if count == 1 {
        word
    } else if text::same(word, "session") {
        "sessions"
    } else {
        "files"
    }
}

pub open spec fn verb(count: nat) -> Seq<char> {
    if count == 1 {
        "is"@
    } else {
        "are"@
    }
}

pub fn pluralized_verb(count: usize) -> (result: &'static str)
    ensures
        result@ == verb(count as nat),
{
    if count == 1 {
        "is"
    } else {
        "are"
    }
}

} // verus!
