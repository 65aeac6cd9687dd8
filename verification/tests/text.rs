use jist::claim::{claim_info_in_metadata, metadata_value, ClaimInfo, ClaimeeId};
use jist::repository::jisthub_session_url;
use jist::session::{
    escape_ref_part, jist_branch_name, parse_ls_remote_commit, session_from_ref_line,
    session_name_from_jist_branch, sessions_from_refs, visible_sessions, SessionInfo,
};
use jist::style::{
    format_blue, format_command, format_green, format_red, format_selected_session_name,
    format_session_name, pluralize, pluralized_verb,
};
use jist::sync::{count_files, format_session_sync_status, non_empty_lines, SyncStatus};
use jist::text::{
    chars_of, cut, decimal_text, line_ranges, parse_i64, same, strip_prefix, text_of, trim,
    two_digit_text, white_space,
};

#[test]
fn white_space_is_that_of_std() {
    for code in 0..=0x10ffff_u32 {
        if let Some(c) = char::from_u32(code) {
            assert_eq!(white_space(c), c.is_whitespace(), "{code:x}");
        }
    }
}

#[test]
fn trims_like_std() {
    for text in [
        "",
        " ",
        "\t\r\n",
        "a",
        "  a b  ",
        "\u{a0}\u{3000}x\u{2028}",
        "\u{200b}x\u{200b}",
        "é\n",
        "\nünï\u{85}",
    ] {
        assert_eq!(trim(text), text.trim());
    }
}

#[test]
fn takes_lines_like_std() {
    for text in [
        "",
        "\n",
        "\r\n",
        "\r",
        "a",
        "a\n",
        "a\r\n",
        "a\r",
        "a\nb",
        "a\n\nb\n",
        "a\r\r\nb\n\r",
        "é\nß\r\n\u{1f600}",
    ] {
        let chars = chars_of(text);
        let lines: Vec<String> = line_ranges(&chars)
            .iter()
            .map(|range| text_of(&chars, range.0, range.1))
            .collect();
        let expected: Vec<String> = text.lines().map(str::to_owned).collect();
        assert_eq!(lines, expected, "{text:?}");
    }
}

#[test]
fn reads_numbers_like_std() {
    for text in [
        "",
        "+",
        "-",
        "0",
        "-0",
        "+0",
        "007",
        "42",
        "-42",
        "+42",
        "--1",
        "+-1",
        "1 ",
        " 1",
        "1_000",
        "12a",
        "٣",
        "9223372036854775807",
        "9223372036854775808",
        "+9223372036854775807",
        "-9223372036854775808",
        "-9223372036854775809",
        "00000000000000000000000000001",
        "99999999999999999999999999999999999999999999",
        "-99999999999999999999999999999999999999999999",
        "99999999999999999999999999999999999999999999x",
    ] {
        assert_eq!(parse_i64(text), text.parse::<i64>().ok(), "{text:?}");
    }
}

#[test]
fn writes_numbers_like_std() {
    for n in [
        0,
        1,
        9,
        10,
        11,
        99,
        100,
        101,
        86_400,
        u64::MAX as u128,
        u128::MAX,
    ] {
        assert_eq!(decimal_text(n), n.to_string());
        assert_eq!(two_digit_text(n), format!("{n:02}"));
    }
}

#[test]
fn decimal_numbers_are_read_back() {
    for n in [0_i64, 7, 10, 1_700_000_000, i64::MAX] {
        assert_eq!(parse_i64(&decimal_text(n as u128)), Some(n));
    }
    assert_eq!(parse_i64(&decimal_text(i64::MAX as u128 + 1)), None);
}

#[test]
fn cuts_at_the_first_separator() {
    for (text, c) in [
        ("a=b=c", '='),
        ("=b", '='),
        ("b=", '='),
        ("none", '='),
        ("", '='),
        ("é@ß@x", '@'),
    ] {
        assert_eq!(cut(text, c), text.split_once(c));
    }
}

#[test]
fn strips_prefixes_like_std() {
    for (text, prefix) in [
        ("jist-x", "jist-"),
        ("jist", "jist-"),
        ("", ""),
        ("éx", "é"),
        ("x", ""),
        ("xjist-", "jist-"),
    ] {
        assert_eq!(strip_prefix(text, prefix), text.strip_prefix(prefix));
    }
}

#[test]
fn compares_texts() {
    assert!(same("", ""));
    assert!(same("é", "é"));
    assert!(!same("a", "b"));
    assert!(!same("a", "ab"));
}

#[test]
fn escapes_names_for_branches() {
    assert_eq!(escape_ref_part("  plain  "), "plain");
    assert_eq!(escape_ref_part("a b\tc"), "a-b-c");
    assert_eq!(escape_ref_part("..a/b.."), "a/b");
    assert_eq!(escape_ref_part("-/.x_Y9.-/"), "x_Y9");
    assert_eq!(escape_ref_part("grüße"), "gr--e");
    assert_eq!(escape_ref_part("é"), "");
    assert_eq!(escape_ref_part(" . "), "");
    assert_eq!(escape_ref_part(""), "");
    assert_eq!(escape_ref_part("a..b"), "a..b");
}

#[test]
fn escaping_again_changes_nothing() {
    for name in ["a b", "..x..", "grüße", " - ", "ok", "a/b.c_d-e"] {
        let once = escape_ref_part(name);
        assert_eq!(escape_ref_part(&once), once);
        assert_eq!(jist_branch_name(&once), jist_branch_name(name));
    }
}

#[test]
fn branches_lead_back_to_sessions() {
    assert_eq!(
        session_name_from_jist_branch(&jist_branch_name("my session")),
        Some("my-session")
    );
    assert_eq!(session_name_from_jist_branch(&jist_branch_name("...")), None);
    assert_eq!(session_name_from_jist_branch("jist-"), None);
    assert_eq!(session_name_from_jist_branch("xjist-a"), None);
}

#[test]
fn names_of_one_branch_have_one_page() {
    assert_eq!(jist_branch_name("a b"), jist_branch_name("a-b"));
    assert_eq!(
        jisthub_session_url("o/r", "a b").unwrap(),
        jisthub_session_url("o/r", "a-b").unwrap()
    );
}

#[test]
fn page_needs_an_owner() {
    assert_eq!(
        jisthub_session_url("nobody", "x").unwrap_err(),
        "Could not parse repository `nobody`."
    );
    assert_eq!(
        jisthub_session_url("a/b/c", "x").unwrap(),
        "https://jisthub.com/a/b/c/session/x"
    );
}

#[test]
fn listed_session_is_read_back() {
    let line = format!(
        "jist/{}\t{}\t{}",
        jist_branch_name("my session"),
        1_700_000_000,
        "abc"
    );
    assert_eq!(
        session_from_ref_line(&line),
        Some(SessionInfo {
            name: "my-session".to_owned(),
            working_commit: "abc".to_owned(),
            base_commit: String::new(),
            modified_at_unix_seconds: 1_700_000_000,
        })
    );
}

#[test]
fn reads_sessions_off_lines() {
    assert!(session_from_ref_line("").is_none());
    assert!(session_from_ref_line("jist/jist-a\t1").is_none());
    assert!(session_from_ref_line("jist/jist-a\tx\tc").is_none());
    assert!(session_from_ref_line("jist/other\t1\tc").is_none());
    let more = session_from_ref_line("jist/jist-a\t-1\tc\textra").unwrap();
    assert_eq!(more.working_commit, "c");
    assert_eq!(more.modified_at_unix_seconds, -1);
    assert_eq!(session_from_ref_line("jist/jist-\t1\tc").unwrap().name, "");

    let names: Vec<String> = sessions_from_refs("jist/jist-b\t2\tc2\nrubbish\njist/jist-a\t1\tc1")
        .into_iter()
        .map(|session| session.name)
        .collect();
    assert_eq!(names, ["b", "a"]);
}

#[test]
fn refuses_unreadable_remote_branches() {
    assert_eq!(
        parse_ls_remote_commit("jist-x", "no tab here").unwrap_err(),
        "Could not parse remote branch `jist-x`."
    );
    assert_eq!(
        parse_ls_remote_commit("jist-x", "\nabc\tref").unwrap_err(),
        "Could not parse remote branch `jist-x`."
    );
    assert_eq!(
        parse_ls_remote_commit("jist-x", "a\tb\nc\td").unwrap(),
        Some("a".to_owned())
    );
}

fn id(user: &str, machine: &str) -> ClaimeeId {
    ClaimeeId {
        user: user.to_owned(),
        machine: machine.to_owned(),
    }
}

#[test]
fn claimees_are_read_back() {
    for claimee in [id("jos", "desktop"), id("a b", "c@d"), id("é", "ß")] {
        assert_eq!(ClaimeeId::parse(&claimee.to_string()), Ok(claimee));
    }
    for text in ["jos@desktop", "a@b@c", "@b", "a@", "ab", ""] {
        match ClaimeeId::parse(text) {
            Ok(claimee) => assert_eq!(claimee.to_string(), text),
            Err(message) => assert_eq!(message, format!("Invalid claimee id `{text}`.")),
        }
    }
    assert_eq!(ClaimeeId::parse("a@b@c"), Ok(id("a", "b@c")));
}

#[test]
fn first_value_counts() {
    assert_eq!(metadata_value("a=1\na=2", "a"), Some("1"));
    assert_eq!(metadata_value("a\nb=1=2\r\n", "b"), Some("1=2"));
    assert_eq!(metadata_value("=x", ""), Some("x"));
    assert_eq!(metadata_value("a =x", "a"), None);
    assert_eq!(metadata_value("", "a"), None);
}

#[test]
fn reads_claims_off_metadata() {
    assert_eq!(
        claim_info_in_metadata(
            "claimee_id=jos@desktop\ngit_user_name=J\ngit_user_email=j@x\nclaimed_at_utc_unix_seconds=42"
        ),
        Ok(Some(ClaimInfo {
            claimee_id: id("jos", "desktop"),
            claimed_at_utc_unix_seconds: Some(42),
        }))
    );
    assert_eq!(
        claim_info_in_metadata("machine_id=desktop\nlocal_user=jos\nclaimed_at_utc_unix_seconds=x"),
        Ok(Some(ClaimInfo {
            claimee_id: id("jos", "desktop"),
            claimed_at_utc_unix_seconds: None,
        }))
    );
    assert_eq!(claim_info_in_metadata("machine_id=desktop"), Ok(None));
    assert_eq!(claim_info_in_metadata("local_user=jos"), Ok(None));
    assert_eq!(claim_info_in_metadata("initialized=true"), Ok(None));
    assert_eq!(
        claim_info_in_metadata("claimee_id=jos"),
        Err("Invalid claimee id `jos`.".to_owned())
    );
}

#[test]
fn first_stated_time_and_claimee_count() {
    let claim = claim_info_in_metadata(
        "claimee_id=jos@desktop\ngit_user_name=J\nclaimed_at_utc_unix_seconds=7\nclaimee_id=x@y\ngit_user_email=e\nclaimed_at_utc_unix_seconds=42",
    )
    .unwrap()
    .unwrap();
    assert_eq!(claim.claimee_id, id("jos", "desktop"));
    assert_eq!(claim.claimed_at_utc_unix_seconds, Some(7));
}

#[test]
fn passes_over_blank_lines() {
    assert_eq!(non_empty_lines("a\n\n  \n b \n"), ["a", " b "]);
    assert!(non_empty_lines("").is_empty());
}

#[test]
fn counts_each_file_once() {
    let status = count_files("a\nb\na", "b\nc", "a\nd\ne");
    assert_eq!(status.unsynced_files, 3);
    assert_eq!(status.total_files, 5);
    let status = count_files("", " \n", "x\ny");
    assert_eq!(status.unsynced_files, 0);
    assert_eq!(status.total_files, 2);
    assert_eq!(
        count_files("", "", ""),
        SyncStatus {
            unsynced_files: 0,
            total_files: 0,
        }
    );
}

#[test]
fn says_how_many_files_agree() {
    let say = |unsynced_files, total_files| {
        format_session_sync_status(&SyncStatus {
            unsynced_files,
            total_files,
        })
    };
    assert_eq!(say(0, 0), "All 0 files are \x1b[32mfully synced\x1b[0m.");
    assert_eq!(
        say(3, 4),
        "3 files are \x1b[31munsynchronized\x1b[0m.\n1 file is \x1b[32msynchronized\x1b[0m."
    );
    assert_eq!(
        say(5, 4),
        "5 files are \x1b[31munsynchronized\x1b[0m.\n0 files are \x1b[32msynchronized\x1b[0m."
    );
}

#[test]
fn colors_and_forms_words() {
    assert_eq!(format_blue("x"), "\x1b[34mx\x1b[0m");
    assert_eq!(format_green("x"), "\x1b[32mx\x1b[0m");
    assert_eq!(format_red("x"), "\x1b[31mx\x1b[0m");
    assert_eq!(format_command("x"), "\x1b[32mx\x1b[0m");
    assert_eq!(format_selected_session_name("x"), "\x1b[32m*x\x1b[0m");
    assert_eq!(format_session_name("x", Some("x")), "\x1b[32m*x\x1b[0m");
    assert_eq!(format_session_name("x", Some("y")), "x");
    assert_eq!(format_session_name("x", None), "x");
    assert_eq!(pluralize("session", 1), "session");
    assert_eq!(pluralize("session", 0), "sessions");
    assert_eq!(pluralize("file", 1), "file");
    assert_eq!(pluralize("file", 2), "files");
    assert_eq!(pluralized_verb(1), "is");
    assert_eq!(pluralized_verb(0), "are");
}

fn named(names: &[&str]) -> Vec<SessionInfo> {
    names
        .iter()
        .map(|name| SessionInfo {
            name: (*name).to_owned(),
            working_commit: String::new(),
            base_commit: String::new(),
            modified_at_unix_seconds: 0,
        })
        .collect()
}

fn shown(names: &[&str], current: Option<&str>) -> Vec<String> {
    visible_sessions(&named(names), current)
        .into_iter()
        .map(|session| session.name.clone())
        .collect()
}

#[test]
fn short_list_keeps_its_limit() {
    assert_eq!(shown(&["a", "b", "c", "d"], None), ["a", "b", "c"]);
    assert_eq!(shown(&["a", "b", "c", "d"], Some("d")), ["d", "a", "b"]);
    assert_eq!(shown(&["a", "b", "c", "d"], Some("x")), ["a", "b", "c"]);
    assert_eq!(shown(&["a", "b"], Some("b")), ["b", "a"]);
    assert_eq!(shown(&["a"], Some("a")), ["a"]);
    assert!(shown(&[], Some("a")).is_empty());
    assert_eq!(shown(&["a", "a", "b"], Some("a")), ["a", "b"]);
}
