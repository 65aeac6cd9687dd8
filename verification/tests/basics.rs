use jist::claim::{metadata_value, unclaimed_metadata, ClaimState, ClaimeeId};
use jist::repository::{github_commit_url, jisthub_session_url};
use jist::session::{
    jist_branch_name, parse_ls_remote_commit, session_from_ref_line, session_name_from_jist_branch,
    visible_sessions, SessionInfo, STATUS_SESSION_LIMIT,
};
use jist::status::{format_claim_state, format_session_state_message};
use jist::style::{
    format_current_session_name, format_session_list_name, format_url, session_banner_hint,
};
use jist::sync::{format_session_sync_status, format_sync_status, SyncStatus};
use jist::work::is_git_internal_path;
use std::path::Path;

fn components(path: &Path) -> Vec<String> {
    path.components()
        .map(|component| component.as_os_str().to_string_lossy().into_owned())
        .collect()
}

#[test]
fn formats_jist_branch_name() {
    assert_eq!(jist_branch_name("feature1"), "jist-feature1");
    assert_eq!(
        jist_branch_name("test session 2"),
        "jist-test-session-2"
    );
}

#[test]
fn parses_session_from_ref_line() {
    let session =
        session_from_ref_line("jist/jist-test-session-2\t123\tabc123").unwrap();

    assert_eq!(session.name, "test-session-2");
    assert_eq!(session.modified_at_unix_seconds, 123);
    assert_eq!(session.working_commit, "abc123");
    assert!(session_from_ref_line("origin/main\t123").is_none());
}

#[test]
fn parses_remote_branch_commit() {
    assert_eq!(
        parse_ls_remote_commit("jist-test", "abc123\trefs/heads/jist-test\n").unwrap(),
        Some("abc123".to_owned())
    );
    assert_eq!(
        parse_ls_remote_commit("jist-test", "").unwrap(),
        None
    );
}

#[test]
fn parses_selected_session_from_branch() {
    assert_eq!(
        session_name_from_jist_branch("jist-test-session-2"),
        Some("test-session-2")
    );
    assert_eq!(session_name_from_jist_branch("main"), None);
}

#[test]
fn formats_urls() {
    assert_eq!(
        github_commit_url("veryjos/source-repo", "abc123"),
        "https://github.com/veryjos/source-repo/commit/abc123"
    );
    assert_eq!(
        jisthub_session_url("veryjos/source-repo", "test session 2").unwrap(),
        "https://jisthub.com/veryjos/source-repo/session/test-session-2"
    );
    assert_eq!(
        format_url("https://jisthub.com/veryjos/source-repo/session/test"),
        "\x1b[34;4mhttps://jisthub.com/veryjos/source-repo/session/test\x1b[0m"
    );
}

#[test]
fn formats_sync_status() {
    assert_eq!(
        format_session_sync_status(&SyncStatus {
            unsynced_files: 1,
            total_files: 5,
        }),
        "1 file is \x1b[31munsynchronized\x1b[0m.\n4 files are \x1b[32msynchronized\x1b[0m."
    );
    assert_eq!(
        format_session_sync_status(&SyncStatus {
            unsynced_files: 0,
            total_files: 1,
        }),
        "All 1 file is \x1b[32mfully synced\x1b[0m."
    );
    assert_eq!(
        format_sync_status(&SyncStatus {
            unsynced_files: 0,
            total_files: 3,
        }),
        "\x1b[32mFully synced (3 files)\x1b[0m"
    );
    assert_eq!(
        format_sync_status(&SyncStatus {
            unsynced_files: 1,
            total_files: 3,
        }),
        "\x1b[31m1 file unsynced (out of 3 files)\x1b[0m"
    );
}

#[test]
fn formats_session_state_messages() {
    assert_eq!(
        format_session_state_message(
            "moop",
            &ClaimState::Unclaimed,
            None,
            "https://jisthub.com/veryjos/jist-test/session/moop",
            "https://github.com/veryjos/jist-test/commit/c5b8bce",
        ),
        "You are on the working commit for session \x1b[32m*moop\x1b[0m.\n\x1b[34;4mhttps://jisthub.com/veryjos/jist-test/session/moop\x1b[0m\n\nThis session is based on:\n\x1b[34;4mhttps://github.com/veryjos/jist-test/commit/c5b8bce\x1b[0m\n\nTo work on this session, run \x1b[32mjist claim\x1b[0m.\n"
    );
    assert_eq!(
        format_session_state_message(
            "moop",
            &ClaimState::ClaimedByCurrentSetup,
            Some(&SyncStatus {
                unsynced_files: 0,
                total_files: 4,
            }),
            "https://jisthub.com/veryjos/jist-test/session/moop",
            "https://github.com/veryjos/jist-test/commit/c5b8bce",
        ),
        "You have \x1b[32mclaimed\x1b[0m the working commit for session \x1b[32m*\x1b[1;4mmoop\x1b[0m.\n\x1b[34;4mhttps://jisthub.com/veryjos/jist-test/session/moop\x1b[0m\n\nThis session is based on:\n\x1b[34;4mhttps://github.com/veryjos/jist-test/commit/c5b8bce\x1b[0m\n\nAll 4 files are \x1b[32mfully synced\x1b[0m.\n"
    );
    assert_eq!(
        format_session_state_message(
            "moop",
            &ClaimState::ClaimedByCurrentSetup,
            Some(&SyncStatus {
                unsynced_files: 2,
                total_files: 4,
            }),
            "https://jisthub.com/veryjos/jist-test/session/moop",
            "https://github.com/veryjos/jist-test/commit/c5b8bce",
        ),
        "You have \x1b[32mclaimed\x1b[0m the working commit for session \x1b[32m*\x1b[1;4mmoop\x1b[0m.\n\x1b[34;4mhttps://jisthub.com/veryjos/jist-test/session/moop\x1b[0m\n\nThis session is based on:\n\x1b[34;4mhttps://github.com/veryjos/jist-test/commit/c5b8bce\x1b[0m\n\n2 files are \x1b[31munsynchronized\x1b[0m.\n2 files are \x1b[32msynchronized\x1b[0m.\n"
    );
}

#[test]
fn formats_claim_state() {
    assert_eq!(
        format_claim_state(&ClaimState::Unclaimed),
        "\x1b[31mUnclaimed\x1b[0m"
    );
    assert_eq!(
        format_claim_state(&ClaimState::ClaimedByCurrentSetup),
        "\x1b[32mClaimed by this machine and user\x1b[0m"
    );
    assert_eq!(
        format_claim_state(&ClaimState::ClaimedByOther(ClaimeeId {
            user: "jos".to_owned(),
            machine: "desktop".to_owned(),
        })),
        "\x1b[31mClaimed by `jos@desktop`\x1b[0m"
    );
}

#[test]
fn formats_session_markers() {
    assert_eq!(
        format_current_session_name("moop", false),
        "\x1b[32m*moop\x1b[0m"
    );
    assert_eq!(
        format_current_session_name("moop", true),
        "\x1b[32m*\x1b[1;4mmoop\x1b[0m"
    );
    assert_eq!(
        format_session_list_name("moop", true, false),
        "\x1b[32m*moop\x1b[0m"
    );
    assert_eq!(
        format_session_list_name("moop", true, true),
        "\x1b[32m*\x1b[1;4mmoop\x1b[0m"
    );
    assert_eq!(
        format_session_list_name("moop", false, true),
        "\x1b[1;4mmoop\x1b[0m"
    );
    assert_eq!(
        format_session_list_name("moop", false, false),
        "moop"
    );
    assert_eq!(
        session_banner_hint(true),
        "(\x1b[32;1;4mclaimed\x1b[0m, \x1b[32m*current session\x1b[0m)"
    );
    assert_eq!(
        session_banner_hint(false),
        "(\x1b[32m*current session\x1b[0m)"
    );
}

#[test]
fn formats_and_parses_claimee_id() {
    let claimee_id = ClaimeeId::parse("jos@desktop").unwrap();

    assert_eq!(claimee_id.user, "jos");
    assert_eq!(claimee_id.machine, "desktop");
    assert_eq!(claimee_id.to_string(), "jos@desktop");
    assert!(ClaimeeId::parse("jos").is_err());
    assert!(ClaimeeId::parse("@desktop").is_err());
    assert!(ClaimeeId::parse("jos@").is_err());
}

#[test]
fn reads_metadata_values() {
    let metadata = "claimee_id=jos@desktop\nclaimed_at_utc_unix_seconds=42\n";

    assert_eq!(
        metadata_value(metadata, "claimee_id"),
        Some("jos@desktop")
    );
    assert_eq!(metadata_value(metadata, "missing"), None);
}

#[test]
fn unclaimed_metadata_has_no_claim_owner() {
    let metadata = unclaimed_metadata();

    assert_eq!(metadata_value(metadata, "claimee_id"), None);
    assert_eq!(metadata_value(metadata, "machine_id"), None);
    assert_eq!(metadata_value(metadata, "local_user"), None);
}

#[test]
fn detects_git_internal_paths() {
    assert!(is_git_internal_path(&components(Path::new(
        ".git/refs/heads/main"
    ))));
    assert!(!is_git_internal_path(&components(Path::new("src/main.rs"))));
}

#[test]
fn pins_current_session_in_visible_list() {
    let sessions = vec![
        SessionInfo {
            name: "newest".to_owned(),
            working_commit: "working-4".to_owned(),
            base_commit: "base-4".to_owned(),
            modified_at_unix_seconds: 4,
        },
        SessionInfo {
            name: "current".to_owned(),
            working_commit: "working-3".to_owned(),
            base_commit: "base-3".to_owned(),
            modified_at_unix_seconds: 3,
        },
        SessionInfo {
            name: "older".to_owned(),
            working_commit: "working-2".to_owned(),
            base_commit: "base-2".to_owned(),
            modified_at_unix_seconds: 2,
        },
        SessionInfo {
            name: "oldest".to_owned(),
            working_commit: "working-1".to_owned(),
            base_commit: "base-1".to_owned(),
            modified_at_unix_seconds: 1,
        },
    ];
    let visible = visible_sessions(&sessions, Some("current"));

    assert_eq!(visible[0].name, "current");
    assert_eq!(visible.len(), STATUS_SESSION_LIMIT);
}
