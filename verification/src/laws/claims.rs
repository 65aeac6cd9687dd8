//! Claims: what is written of them is what is read of them, and who may act on them.

use crate::claim;
use crate::claim::{ClaimInfoView, ClaimStateView, ClaimeeIdView};
use crate::command;
use crate::exchange::{CommandReply, Finished, Reply, Run};
use crate::text;
use vstd::prelude::*;
use vstd::utf8;

verus! {

/// A claimee in words is read as the same claimee, if neither part is empty and the user
/// holds no `@`.
pub proof fn law_claimee_text_is_read_back(id: ClaimeeIdView)
    requires
        id.user.len() > 0,
        !id.user.contains('@'),
        id.machine.len() > 0,
    ensures
        claim::parsed_claimee(claim::claimee_text(id)) == Some(id),
{
    reveal_strlit("@");
    assert(claim::claimee_text(id) =~= id.user.push('@') + id.machine);
    text::lemma_split_once_joined(id.user, '@', id.machine);
}

/// A text that is read as a claimee is that claimee in words.
pub proof fn law_claimee_read_is_written_back(value: Seq<char>)
    requires
        claim::parsed_claimee(value) is Some,
    ensures
        claim::claimee_text(claim::parsed_claimee(value)->0) == value,
{
    reveal_strlit("@");
    text::lemma_split_once_parts(value, '@');
    let id = claim::parsed_claimee(value)->0;
    assert(claim::claimee_text(id) =~= id.user.push('@') + id.machine);
}

proof fn lemma_not_contains(s: Seq<char>, c: char)
    requires
        forall|i: int| 0 <= i < s.len() ==> s[i] != c,
    ensures
        !s.contains(c),
{
}

/// The lines of a text that is put together at a line feed.
proof fn lemma_lines_joined(a: Seq<char>, b: Seq<char>)
    ensures
        text::lines(a.push('\n') + b) == text::lines(a.push('\n')) + text::lines(b),
    decreases a.len(),
{
    let none = Seq::<char>::empty();
    text::lemma_split_once_parts(a, '\n');
    match text::split_once(a, '\n') {
        Some((head, tail)) => {
            let rest = tail.push('\n');
            assert(a.push('\n') + b =~= head.push('\n') + (rest + b));
            assert(a.push('\n') =~= head.push('\n') + rest);
            text::lemma_split_once_joined(head, '\n', rest + b);
            text::lemma_split_once_joined(head, '\n', rest);
            lemma_lines_joined(tail, b);
            let line = text::without_return(head);
            assert(seq![line] + (text::lines(rest) + text::lines(b)) =~= (seq![line]
                + text::lines(rest)) + text::lines(b));
        },
        None => {
            assert(a.push('\n') + none =~= a.push('\n'));
            text::lemma_split_once_joined(a, '\n', b);
            text::lemma_split_once_joined(a, '\n', none);
            let line = text::without_return(a);
            assert(text::lines(none) =~= seq![]);
            assert(seq![line] + text::lines(none) =~= seq![line]);
        },
    }
}

/// A text without line feeds is one line, unless it is empty.
proof fn lemma_one_line(a: Seq<char>)
    requires
        a.len() > 0,
        !a.contains('\n'),
    ensures
        text::lines(a) == seq![a],
        text::lines(a.push('\n')) == seq![text::without_return(a)],
{
    let none = Seq::<char>::empty();
    assert forall|j: int| 0 <= j < a.len() implies a[j] != '\n' by {
        assert(a.contains(a[j]));
    }
    text::lemma_split_once_none(a, '\n');
    assert(a.push('\n') + none =~= a.push('\n'));
    text::lemma_split_once_joined(a, '\n', none);
    assert(text::lines(none) =~= seq![]);
    assert(seq![text::without_return(a)] + text::lines(none) =~= seq![text::without_return(a)]);
}

/// The first of two lists of lines that gives a value decides.
proof fn lemma_value_in_joined(a: Seq<Seq<char>>, b: Seq<Seq<char>>, key: Seq<char>)
    ensures
        claim::value_in_lines(a + b, key) == (match claim::value_in_lines(a, key) {
            Some(value) => Some(value),
            None => claim::value_in_lines(b, key),
        }),
    decreases a.len(),
{
    if a.len() == 0 {
        assert(a + b =~= b);
    } else {
        assert((a + b)[0] == a[0]);
        assert((a + b).skip(1) =~= a.skip(1) + b);
        lemma_value_in_joined(a.skip(1), b, key);
    }
}

/// A line of the form `key=value` gives that value for that key and none for another.
proof fn lemma_value_in_line(key: Seq<char>, value: Seq<char>, asked: Seq<char>)
    requires
        !key.contains('='),
    ensures
        claim::value_in_lines(seq![key.push('=') + value], asked) == (if asked == key {
            Some(value)
        } else {
            None
        }),
{
    let line = key.push('=') + value;
    text::lemma_split_once_joined(key, '=', value);
    assert(claim::value_in_lines(seq![line].skip(1), asked) is None);
    assert(seq![line][0] == line);
}

/// A number in decimal is digits that stand for it.
proof fn lemma_decimal(n: nat)
    ensures
        text::decimal(n).len() > 0,
        text::all_digits(text::decimal(n)),
        text::digits_value(text::decimal(n)) == n,
    decreases n,
{
    if n < 10 {
        let digits = seq![text::digit(n)];
        assert(digits.drop_last() =~= Seq::<char>::empty());
        assert(text::digits_value(digits.drop_last()) == 0);
    } else {
        lemma_decimal(n / 10);
        let front = text::decimal(n / 10);
        let digits = front.push(text::digit(n % 10));
        assert(digits.drop_last() =~= front);
        assert forall|i: int| 0 <= i < digits.len() implies text::is_digit(
            #[trigger] digits[i],
        ) by {
            if i < front.len() {
                assert(digits[i] == front[i]);
            }
        }
    }
}

/// A number in decimal is read as the same number, as far as an `i64` can hold it.
pub proof fn law_decimal_is_read_back(n: nat)
    ensures
        text::parsed_i64(text::decimal(n)) == (if n <= i64::MAX {
            Some(n as i64)
        } else {
            None
        }),
{
    lemma_decimal(n);
    assert(text::is_digit(text::decimal(n)[0]));
}

/// Whether a claimee fits on the first line of the metadata and is read there as itself.
pub open spec fn is_legible(id: ClaimeeIdView) -> bool {
    &&& id.user.len() > 0
    &&& !id.user.contains('@')
    &&& id.machine.len() > 0
    &&& !claim::claimee_text(id).contains('\n')
    &&& claim::claimee_text(id).last() != '\r'
}

/// The lines of the metadata on the git user.
pub open spec fn git_user_lines(git_user_name: Seq<char>, git_user_email: Seq<char>) -> Seq<char> {
    "git_user_name="@ + git_user_name + "\ngit_user_email="@ + git_user_email + "\n"@
}

/// The metadata of a claim, trimmed, line by line.
proof fn lemma_claim_metadata_lines(
    id: ClaimeeIdView,
    git_user_name: Seq<char>,
    git_user_email: Seq<char>,
    claimed_at: u64,
)
    requires
        is_legible(id),
    ensures
        text::lines(
            text::trimmed(
                claim::claim_metadata_text(id, git_user_name, git_user_email, claimed_at),
            ),
        ) == seq!["claimee_id"@.push('=') + claim::claimee_text(id)] + (text::lines(
            git_user_lines(git_user_name, git_user_email),
        ) + seq!["claimed_at_utc_unix_seconds"@.push('=') + text::decimal(claimed_at as nat)]),
        !"claimee_id"@.contains('='),
        !"claimed_at_utc_unix_seconds"@.contains('='),
        "claimee_id"@ != "claimed_at_utc_unix_seconds"@,
{
    reveal_strlit("claimee_id");
    reveal_strlit("claimee_id=");
    reveal_strlit("claimed_at_utc_unix_seconds");
    reveal_strlit("\nclaimed_at_utc_unix_seconds=");
    reveal_strlit("\ngit_user_name=");
    reveal_strlit("git_user_name=");
    reveal_strlit("\n");
    let whole = claim::claim_metadata_text(id, git_user_name, git_user_email, claimed_at);
    let digits = text::decimal(claimed_at as nat);
    let first = "claimee_id"@.push('=') + claim::claimee_text(id);
    let user = git_user_lines(git_user_name, git_user_email);
    let last = "claimed_at_utc_unix_seconds"@.push('=') + digits;
    assert("claimee_id="@ =~= "claimee_id"@.push('='));
    assert("\ngit_user_name="@ =~= "\n"@ + "git_user_name="@);
    assert("\nclaimed_at_utc_unix_seconds="@ =~= "\n"@ + "claimed_at_utc_unix_seconds"@.push('='));
    assert(whole =~= first.push('\n') + user + last.push('\n'));
    lemma_decimal(claimed_at as nat);
    assert(text::is_digit(digits[digits.len() - 1]));
    let space = |c: char| text::is_white_space(c);
    assert(whole[0] == 'c');
    assert(whole[whole.len() - 2] == digits[digits.len() - 1]);
    assert(whole.last() == '\n');
    text::lemma_strip_front(whole, space, 0);
    assert(whole.skip(0) =~= whole);
    text::lemma_strip_back(whole, space, whole.len() - 1);
    let trimmed = text::trimmed(whole);
    assert(trimmed =~= whole.take(whole.len() - 1));
    let user_front = user.drop_last();
    assert(user =~= user_front.push('\n'));
    assert(trimmed =~= first.push('\n') + (user_front.push('\n') + last));
    lemma_lines_joined(first, user_front.push('\n') + last);
    lemma_lines_joined(user_front, last);
    assert(!first.contains('\n')) by {
        let front = "claimee_id"@.push('=');
        assert forall|i: int| 0 <= i < first.len() implies first[i] != '\n' by {
            if i < front.len() {
                assert(first[i] == front[i]);
            } else {
                let rest = claim::claimee_text(id);
                assert(first[i] == rest[i - front.len()]);
                assert(rest.contains(rest[i - front.len()]));
            }
        }
    }
    assert(first.last() == claim::claimee_text(id).last());
    lemma_one_line(first);
    assert(!last.contains('\n')) by {
        let front = "claimed_at_utc_unix_seconds"@.push('=');
        assert forall|i: int| 0 <= i < last.len() implies last[i] != '\n' by {
            if i < front.len() {
                assert(last[i] == front[i]);
            } else {
                assert(last[i] == digits[i - front.len()]);
            }
        }
    }
    lemma_one_line(last);
}

/// The metadata of a claim names its claimee, whatever the git user is called.
pub proof fn law_claim_metadata_names_claimee(
    id: ClaimeeIdView,
    git_user_name: Seq<char>,
    git_user_email: Seq<char>,
    claimed_at: u64,
)
    requires
        is_legible(id),
    ensures
        claim::claim_in(
            text::trimmed(
                claim::claim_metadata_text(id, git_user_name, git_user_email, claimed_at),
            ),
        ) matches Ok(Some(claim)) && claim.claimee_id == id,
{
    let metadata = text::trimmed(
        claim::claim_metadata_text(id, git_user_name, git_user_email, claimed_at),
    );
    let first = "claimee_id"@.push('=') + claim::claimee_text(id);
    let last = "claimed_at_utc_unix_seconds"@.push('=') + text::decimal(claimed_at as nat);
    let user = text::lines(git_user_lines(git_user_name, git_user_email));
    lemma_claim_metadata_lines(id, git_user_name, git_user_email, claimed_at);
    lemma_value_in_line("claimee_id"@, claim::claimee_text(id), "claimee_id"@);
    lemma_value_in_joined(seq![first], user + seq![last], "claimee_id"@);
    assert(claim::value_in(metadata, "claimee_id"@) == Some(claim::claimee_text(id)));
    law_claimee_text_is_read_back(id);
}

/// The metadata of a claim is read back as that claim: its claimee, and its time as far as
/// an `i64` can hold it. The name and the email of the git user must not state a time of
/// their own on a line of theirs.
pub proof fn law_claim_metadata_is_read_back(
    id: ClaimeeIdView,
    git_user_name: Seq<char>,
    git_user_email: Seq<char>,
    claimed_at: u64,
)
    requires
        is_legible(id),
        claim::value_in(
            git_user_lines(git_user_name, git_user_email),
            "claimed_at_utc_unix_seconds"@,
        ) is None,
    ensures
        claim::claim_in(
            text::trimmed(
                claim::claim_metadata_text(id, git_user_name, git_user_email, claimed_at),
            ),
        ) == Ok::<Option<ClaimInfoView>, Seq<char>>(
            Some(
                ClaimInfoView {
                    claimee_id: id,
                    claimed_at_utc_unix_seconds: if claimed_at <= i64::MAX {
                        Some(claimed_at as i64)
                    } else {
                        None
                    },
                },
            ),
        ),
{
    let key = "claimed_at_utc_unix_seconds"@;
    let digits = text::decimal(claimed_at as nat);
    let metadata = text::trimmed(
        claim::claim_metadata_text(id, git_user_name, git_user_email, claimed_at),
    );
    let first = "claimee_id"@.push('=') + claim::claimee_text(id);
    let last = key.push('=') + digits;
    let user = text::lines(git_user_lines(git_user_name, git_user_email));
    law_claim_metadata_names_claimee(id, git_user_name, git_user_email, claimed_at);
    lemma_claim_metadata_lines(id, git_user_name, git_user_email, claimed_at);
    lemma_value_in_line("claimee_id"@, claim::claimee_text(id), key);
    lemma_value_in_line(key, digits, key);
    lemma_value_in_joined(seq![first], user + seq![last], key);
    lemma_value_in_joined(user, seq![last], key);
    assert(claim::value_in(metadata, key) == Some(digits));
    law_decimal_is_read_back(claimed_at as nat);
}

/// A git user whose name and email hold no line feed states no time.
pub proof fn law_plain_git_user_states_no_time(git_user_name: Seq<char>, git_user_email: Seq<char>)
    requires
        !git_user_name.contains('\n'),
        !git_user_email.contains('\n'),
    ensures
        claim::value_in(
            git_user_lines(git_user_name, git_user_email),
            "claimed_at_utc_unix_seconds"@,
        ) is None,
{
    reveal_strlit("git_user_name=");
    reveal_strlit("git_user_name");
    reveal_strlit("\ngit_user_email=");
    reveal_strlit("git_user_email");
    reveal_strlit("\n");
    reveal_strlit("claimed_at_utc_unix_seconds");
    let key = "claimed_at_utc_unix_seconds"@;
    let name = "git_user_name"@.push('=') + git_user_name;
    let email = "git_user_email"@.push('=') + git_user_email;
    let whole = git_user_lines(git_user_name, git_user_email);
    assert("git_user_name="@ =~= "git_user_name"@.push('='));
    assert("\ngit_user_email="@ =~= "\n"@ + "git_user_email"@.push('='));
    assert(whole =~= name.push('\n') + email.push('\n'));
    assert forall|i: int| 0 <= i < name.len() implies name[i] != '\n' by {
        if i >= 14 {
            assert(git_user_name.contains(name[i])) by {
                assert(git_user_name[i - 14] == name[i]);
            }
        }
    }
    assert forall|i: int| 0 <= i < email.len() implies email[i] != '\n' by {
        if i >= 15 {
            assert(git_user_email.contains(email[i])) by {
                assert(git_user_email[i - 15] == email[i]);
            }
        }
    }
    lemma_not_contains(name, '\n');
    lemma_not_contains(email, '\n');
    lemma_lines_joined(name, email.push('\n'));
    lemma_one_line(name);
    lemma_one_line(email);
    lemma_value_in_joined(
        seq![text::without_return(name)],
        seq![text::without_return(email)],
        key,
    );
    lemma_key_decides("git_user_name"@, git_user_name, key);
    lemma_key_decides("git_user_email"@, git_user_email, key);
}

/// A line of another key gives no value, with or without a carriage return at its end.
proof fn lemma_key_decides(key: Seq<char>, value: Seq<char>, asked: Seq<char>)
    requires
        !key.contains('='),
        asked != key,
    ensures
        claim::value_in_lines(seq![text::without_return(key.push('=') + value)], asked) is None,
{
    let line = key.push('=') + value;
    if line.last() == '\r' {
        assert(line.drop_last() =~= key.push('=') + value.drop_last());
        lemma_value_in_line(key, value.drop_last(), asked);
    } else {
        lemma_value_in_line(key, value, asked);
    }
}

/// Whether a command succeeded and printed `text`.
pub open spec fn printed(finished: Finished, text: Seq<char>) -> bool {
    finished.success && finished.stdout@ == utf8::encode_utf8(text)
}

/// What the metadata on the remote branch states is what is read of the claim.
pub proof fn law_remote_metadata_is_read(
    jist_branch: Seq<char>,
    metadata: Seq<char>,
    shown: Finished,
    log: Seq<Reply>,
)
    requires
        printed(shown, metadata),
    ensures
        claim::remote_claim_info_run(
            jist_branch,
            seq![Reply::Command(CommandReply::Finished(shown))] + log,
        ) == Run::end(claim::claim_in(text::trimmed(metadata)), log),
{
    let reply = Reply::Command(CommandReply::Finished(shown));
    let whole = seq![reply] + log;
    utf8::encode_utf8_valid_utf8(metadata);
    utf8::encode_utf8_decode_utf8(metadata);
    assert(whole[0] == reply);
    assert(whole.skip(1) =~= log);
    assert(command::output_result("Git command failed."@, shown) == Ok::<Seq<char>, Seq<char>>(
        text::trimmed(metadata),
    ));
}

/// A session that was claimed is open to its claimee and to nobody else: the claimee may act
/// on it but not claim it again, and another user is told whose it is.
pub proof fn law_claimed_session_belongs_to_its_claimee(
    jist_branch: Seq<char>,
    id: ClaimeeIdView,
    git_user_name: Seq<char>,
    git_user_email: Seq<char>,
    claimed_at: u64,
    shown: Finished,
    log: Seq<Reply>,
)
    requires
        is_legible(id),
        printed(
            shown,
            claim::claim_metadata_text(id, git_user_name, git_user_email, claimed_at),
        ),
        claim::current_run(log) is Done,
        claim::current_run(claim::current_run(log)->Done_1) is Done,
    ensures
        ({
            let whole = seq![Reply::Command(CommandReply::Finished(shown))] + log;
            let current = claim::current_run(log)->Done_0;
            let rest = claim::current_run(log)->Done_1;
            let again = claim::current_run(rest)->Done_0;
            let end = claim::current_run(rest)->Done_1;
            if current == id {
                &&& claim::ensure_claimed_by_this_machine_run(jist_branch, whole) == Run::Done(
                    (),
                    rest,
                )
                &&& claim::ensure_unclaimed_run(jist_branch, whole) == Run::<()>::Failed(
                    "This JIST session is already claimed by this machine and user."@,
                    rest,
                )
                &&& claim::claim_state_for_branch_run(jist_branch, whole) == Run::Done(
                    ClaimStateView::ClaimedByCurrentSetup,
                    rest,
                )
            } else {
                &&& claim::ensure_claimed_by_this_machine_run(jist_branch, whole) == Run::<
                    (),
                >::Failed(claim::wrong_owner_text(id, Some(again)), end)
                &&& claim::ensure_unclaimed_run(jist_branch, whole) == Run::<()>::Failed(
                    claim::wrong_owner_text(id, Some(again)),
                    end,
                )
                &&& claim::claim_state_for_branch_run(jist_branch, whole) == Run::Done(
                    ClaimStateView::ClaimedByOther(id),
                    rest,
                )
            }
        }),
{
    let metadata = claim::claim_metadata_text(id, git_user_name, git_user_email, claimed_at);
    law_remote_metadata_is_read(jist_branch, metadata, shown, log);
    law_claim_metadata_names_claimee(id, git_user_name, git_user_email, claimed_at);
    let whole = seq![Reply::Command(CommandReply::Finished(shown))] + log;
    assert(claim::remote_claim_owner_run(jist_branch, whole) == Run::Done(Some(id), log));
}

/// A session whose claim was given back belongs to nobody: it may be claimed, and nobody may
/// act on it before.
pub proof fn law_unclaimed_session_belongs_to_nobody(
    jist_branch: Seq<char>,
    shown: Finished,
    log: Seq<Reply>,
)
    requires
        printed(shown, "initialized=true\n"@),
    ensures
        ({
            let whole = seq![Reply::Command(CommandReply::Finished(shown))] + log;
            &&& claim::ensure_unclaimed_run(jist_branch, whole) == Run::Done((), log)
            &&& claim::ensure_claimed_by_this_machine_run(jist_branch, whole) == Run::<
                (),
            >::Failed("This JIST session has not been claimed yet."@, log)
            &&& claim::claim_state_for_branch_run(jist_branch, whole) == Run::Done(
                ClaimStateView::Unclaimed,
                log,
            )
        }),
{
    reveal_strlit("initialized=true\n");
    reveal_strlit("initialized=true");
    reveal_strlit("initialized");
    reveal_strlit("true");
    reveal_strlit("claimee_id");
    reveal_strlit("machine_id");
    reveal_strlit("local_user");
    let metadata = "initialized=true\n"@;
    let space = |c: char| text::is_white_space(c);
    text::lemma_strip_front(metadata, space, 0);
    assert(metadata.skip(0) =~= metadata);
    text::lemma_strip_back(metadata, space, metadata.len() - 1);
    let line = "initialized"@.push('=') + "true"@;
    assert(text::trimmed(metadata) =~= line);
    lemma_not_contains(line, '\n');
    lemma_one_line(line);
    lemma_value_in_line("initialized"@, "true"@, "claimee_id"@);
    lemma_value_in_line("initialized"@, "true"@, "machine_id"@);
    assert("initialized"@.len() != "claimee_id"@.len());
    assert("initialized"@.len() != "machine_id"@.len());
    law_remote_metadata_is_read(jist_branch, metadata, shown, log);
    let whole = seq![Reply::Command(CommandReply::Finished(shown))] + log;
    assert(claim::remote_claim_owner_run(jist_branch, whole) == Run::<Option<ClaimeeIdView>>::Done(
        None,
        log,
    ));
}

} // verus!
