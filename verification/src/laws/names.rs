//! Session names and the branches they lead to.

use crate::repository;
use crate::session;
use crate::session::SessionInfoView;
use crate::text;
use vstd::prelude::*;

verus! {

proof fn lemma_strip_front_ends(s: Seq<char>, drop: spec_fn(char) -> bool)
    ensures
        strip_front_part(s, drop),
    decreases s.len(),
{
    if s.len() > 0 && drop(s[0]) {
        lemma_strip_front_ends(s.skip(1), drop);
        assert forall|c: char| text::strip_front(s, drop).contains(c) implies s.contains(c) by {
            let i = s.skip(1).index_of(c);
            assert(s[i + 1] == c);
        }
    }
}

/// What is left of `s` begins with a character that is kept, and all of it is in `s`.
spec fn strip_front_part(s: Seq<char>, drop: spec_fn(char) -> bool) -> bool {
    let left = text::strip_front(s, drop);
    &&& left.len() > 0 ==> !drop(left[0])
    &&& forall|c: char| left.contains(c) ==> s.contains(c)
}

proof fn lemma_strip_back_ends(s: Seq<char>, drop: spec_fn(char) -> bool)
    ensures
        text::strip_back(s, drop).len() <= s.len(),
        text::strip_back(s, drop) == s.take(text::strip_back(s, drop).len() as int),
        text::strip_back(s, drop).len() > 0 ==> !drop(text::strip_back(s, drop).last()),
    decreases s.len(),
{
    if s.len() > 0 && drop(s.last()) {
        lemma_strip_back_ends(s.drop_last(), drop);
        let n = text::strip_back(s, drop).len() as int;
        assert(s.drop_last().take(n) =~= s.take(n));
    } else {
        assert(s.take(s.len() as int) =~= s);
    }
}

proof fn lemma_strip_ends(s: Seq<char>, drop: spec_fn(char) -> bool)
    ensures
        text::strip(s, drop).len() > 0 ==> !drop(text::strip(s, drop)[0]) && !drop(
            text::strip(s, drop).last(),
        ),
        forall|c: char| text::strip(s, drop).contains(c) ==> s.contains(c),
{
    let front = text::strip_front(s, drop);
    lemma_strip_front_ends(s, drop);
    lemma_strip_back_ends(front, drop);
    assert forall|c: char| text::strip(s, drop).contains(c) implies s.contains(c) by {
        let i = text::strip(s, drop).index_of(c);
        assert(front[i] == c);
    }
}

/// An escaped name holds only characters that may stand in a branch name, and neither begins
/// nor ends with a dot, a hyphen or a slash.
pub proof fn law_escaped_name_is_fit(value: Seq<char>)
    ensures
        forall|i: int|
            0 <= i < session::escaped(value).len() ==> session::is_ref_char(
                #[trigger] session::escaped(value)[i],
            ),
        session::escaped(value).len() > 0 ==> {
            &&& !session::is_ref_edge(session::escaped(value)[0])
            &&& !session::is_ref_edge(session::escaped(value).last())
        },
{
    let mapped = text::trimmed(value).map_values(|c: char| session::as_ref_char(c));
    let edge = |c: char| session::is_ref_edge(c);
    lemma_strip_ends(mapped, edge);
    assert(text::strip(mapped, edge) == session::escaped(value));
    assert forall|i: int| 0 <= i < session::escaped(value).len() implies session::is_ref_char(
        #[trigger] session::escaped(value)[i],
    ) by {
        let c = session::escaped(value)[i];
        assert(text::strip(mapped, edge).contains(c));
        assert(mapped.contains(c));
        let j = mapped.index_of(c);
        assert(mapped[j] == session::as_ref_char(text::trimmed(value)[j]));
    }
}

/// To escape a name again changes nothing.
pub proof fn law_escaping_is_idempotent(value: Seq<char>)
    ensures
        session::escaped(session::escaped(value)) == session::escaped(value),
{
    let name = session::escaped(value);
    law_escaped_name_is_fit(value);
    text::lemma_strip_keeps(name, |c: char| text::is_white_space(c));
    assert(name.map_values(|c: char| session::as_ref_char(c)) =~= name);
    text::lemma_strip_keeps(name, |c: char| session::is_ref_edge(c));
}

/// The branch of a session leads back to its escaped name, and that name to the same branch.
/// A name of which nothing is left has a branch that belongs to no session.
pub proof fn law_branch_leads_back_to_session(session_name: Seq<char>)
    ensures
        session::session_of_branch(session::branch_of(session_name)) == (if session::escaped(
            session_name,
        ).len() > 0 {
            Some(session::escaped(session_name))
        } else {
            None
        }),
        session::branch_of(session::escaped(session_name)) == session::branch_of(session_name),
{
    let name = session::escaped(session_name);
    let branch = session::branch_of(session_name);
    let prefix = "jist-"@;
    assert(branch.take(prefix.len() as int) =~= prefix);
    assert(branch.skip(prefix.len() as int) =~= name);
    law_escaping_is_idempotent(session_name);
}

/// Two names with the same branch have the same escaped form and the same page.
pub proof fn law_same_branch_same_page(a: Seq<char>, b: Seq<char>, original_repository: Seq<char>)
    requires
        session::branch_of(a) == session::branch_of(b),
    ensures
        session::escaped(a) == session::escaped(b),
        repository::session_url(original_repository, a) == repository::session_url(
            original_repository,
            b,
        ),
{
    let prefix = "jist-"@;
    assert(session::branch_of(a).skip(prefix.len() as int) =~= session::escaped(a));
    assert(session::branch_of(b).skip(prefix.len() as int) =~= session::escaped(b));
}

/// The line on a session that git lists is read back as that session, whose branch is the
/// one that its name led to.
pub proof fn law_listed_session_is_read_back(
    session_name: Seq<char>,
    modified_at: Seq<char>,
    working_commit: Seq<char>,
)
    requires
        text::parsed_i64(modified_at) is Some,
        !working_commit.contains('\t'),
    ensures
        session::session_in_line(
            session::ref_prefix() + session::escaped(session_name) + "\t"@ + modified_at + "\t"@
                + working_commit,
        ) == Some(
            SessionInfoView {
                name: session::escaped(session_name),
                working_commit,
                base_commit: Seq::empty(),
                modified_at_unix_seconds: text::parsed_i64(modified_at)->0,
            },
        ),
        session::branch_of(session::escaped(session_name)) == session::branch_of(session_name),
{
    let name = session::escaped(session_name);
    let ref_name = session::ref_prefix() + name;
    let line = ref_name + "\t"@ + modified_at + "\t"@ + working_commit;
    reveal_strlit("\t");
    law_branch_leads_back_to_session(session_name);
    assert(!ref_name.contains('\t')) by {
        law_escaped_name_is_fit(session_name);
        reveal_strlit("jist");
        reveal_strlit("/jist-");
        let prefix = session::ref_prefix();
        assert forall|i: int| 0 <= i < ref_name.len() implies ref_name[i] != '\t' by {
            if i < prefix.len() {
                assert(ref_name[i] == prefix[i]);
            } else {
                assert(ref_name[i] == name[i - prefix.len()]);
            }
        }
    }
    assert(!modified_at.contains('\t')) by {
        assert forall|i: int| 0 <= i < modified_at.len() implies modified_at[i] != '\t' by {
            let signed = modified_at[0] == '+' || modified_at[0] == '-';
            let digits = if signed { modified_at.skip(1) } else { modified_at };
            if signed && i > 0 {
                assert(text::is_digit(digits[i - 1]));
            } else if !signed {
                assert(text::is_digit(digits[i]));
            }
        }
    }
    let rest = modified_at + "\t"@ + working_commit;
    assert(line =~= ref_name.push('\t') + rest);
    assert(rest =~= modified_at.push('\t') + working_commit);
    text::lemma_split_once_joined(ref_name, '\t', rest);
    text::lemma_split_once_joined(modified_at, '\t', working_commit);
    assert forall|j: int| 0 <= j < working_commit.len() implies working_commit[j] != '\t' by {
        assert(working_commit.contains(working_commit[j]));
    }
    text::lemma_split_once_none(working_commit, '\t');
    assert(text::split(working_commit, '\t') == seq![working_commit]);
    assert(text::split(rest, '\t') == seq![modified_at] + seq![working_commit]);
    let fields = text::split(line, '\t');
    assert(fields == seq![ref_name] + (seq![modified_at] + seq![working_commit]));
    assert(fields =~= seq![ref_name, modified_at, working_commit]);
    let prefix = session::ref_prefix();
    assert(ref_name.take(prefix.len() as int) =~= prefix);
    assert(ref_name.skip(prefix.len() as int) =~= name);
}

} // verus!
