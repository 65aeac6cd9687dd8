//! How text is taken apart: white space, lines, fields, numbers and the metadata of a claim.

use crate::claim;
use crate::claim::ClaimeeIdView;
use crate::session;
use crate::session::SessionInfoView;
use crate::sync;
use crate::text;
use vstd::prelude::*;

verus! {

/// White space is what Unicode gives the property of that name.
pub proof fn law_white_space(c: char)
    ensures
        text::is_white_space(c) == ({
            let code = c as u32;
            ||| 9 <= code <= 13
            ||| code == 32
            ||| code == 133
            ||| code == 160
            ||| code == 5760
            ||| 8192 <= code <= 8202
            ||| code == 8232
            ||| code == 8233
            ||| code == 8239
            ||| code == 8287
            ||| code == 12288
        }),
{
}

/// Whether `part` is what is left of `s` between `from` and `to`: outside of them every
/// character is dropped, and neither end of `part` is.
pub open spec fn is_core(
    s: Seq<char>,
    drop: spec_fn(char) -> bool,
    part: Seq<char>,
    from: int,
    to: int,
) -> bool {
    &&& 0 <= from <= to <= s.len()
    &&& part == s.subrange(from, to)
    &&& forall|i: int| 0 <= i < from ==> drop(#[trigger] s[i])
    &&& forall|i: int| to <= i < s.len() ==> drop(#[trigger] s[i])
    &&& part.len() > 0 ==> !drop(part[0]) && !drop(part.last())
}

proof fn lemma_front(s: Seq<char>, drop: spec_fn(char) -> bool) -> (from: int)
    ensures
        0 <= from <= s.len(),
        text::strip_front(s, drop) == s.skip(from),
        forall|i: int| 0 <= i < from ==> drop(#[trigger] s[i]),
        from < s.len() ==> !drop(s[from]),
    decreases s.len(),
{
    if s.len() > 0 && drop(s[0]) {
        let from = lemma_front(s.skip(1), drop);
        assert(s.skip(1).skip(from) =~= s.skip(from + 1));
        assert forall|i: int| 0 <= i < from + 1 implies drop(#[trigger] s[i]) by {
            if i > 0 {
                assert(s.skip(1)[i - 1] == s[i]);
            }
        }
        from + 1
    } else {
        assert(s.skip(0) =~= s);
        0
    }
}

proof fn lemma_back(s: Seq<char>, drop: spec_fn(char) -> bool) -> (to: int)
    ensures
        0 <= to <= s.len(),
        text::strip_back(s, drop) == s.take(to),
        forall|i: int| to <= i < s.len() ==> drop(#[trigger] s[i]),
        0 < to ==> !drop(s[to - 1]),
    decreases s.len(),
{
    if s.len() > 0 && drop(s.last()) {
        let to = lemma_back(s.drop_last(), drop);
        assert(s.drop_last().take(to) =~= s.take(to));
        assert forall|i: int| to <= i < s.len() implies drop(#[trigger] s[i]) by {
            if i < s.len() - 1 {
                assert(s.drop_last()[i] == s[i]);
            }
        }
        to
    } else {
        assert(s.take(s.len() as int) =~= s);
        s.len() as int
    }
}

pub(crate) proof fn lemma_core(s: Seq<char>, drop: spec_fn(char) -> bool) -> (at: (int, int))
    ensures
        is_core(s, drop, text::strip(s, drop), at.0, at.1),
{
    let from = lemma_front(s, drop);
    let front = s.skip(from);
    let to = lemma_back(front, drop);
    assert(front.take(to) =~= s.subrange(from, from + to));
    assert forall|i: int| from + to <= i < s.len() implies drop(#[trigger] s[i]) by {
        assert(front[i - from] == s[i]);
    }
    (from, from + to)
}

/// A trimmed text is the text without the white space at its two ends, and nothing else.
pub proof fn law_trimmed_text_is_the_core(s: Seq<char>) -> (at: (int, int))
    ensures
        is_core(s, |c: char| text::is_white_space(c), text::trimmed(s), at.0, at.1),
{
    lemma_core(s, |c: char| text::is_white_space(c))
}

/// Whether a character may stand in the name of a branch.
pub open spec fn is_plain(c: char) -> bool {
    ||| 'a' <= c <= 'z'
    ||| 'A' <= c <= 'Z'
    ||| '0' <= c <= '9'
    ||| seq!['-', '_', '.', '/'].contains(c)
}

/// Whether a character may not stand at the ends of an escaped name.
pub open spec fn is_loose(c: char) -> bool {
    c == '.' || c == '-' || c == '/' || !is_plain(c)
}

/// An escaped name is the trimmed name from its first to its last letter, digit or
/// underscore. In between, every character that may not stand in the name of a branch
/// becomes a hyphen, and the others stay.
pub proof fn law_escaped_name_follows_the_name(value: Seq<char>) -> (at: (int, int))
    ensures
        0 <= at.0 <= at.1 <= text::trimmed(value).len(),
        session::escaped(value).len() == at.1 - at.0,
        forall|i: int|
            0 <= i < session::escaped(value).len() ==> #[trigger] session::escaped(value)[i] == ({
                let c = text::trimmed(value)[at.0 + i];
                if is_plain(c) {
                    c
                } else {
                    '-'
                }
            }),
        forall|i: int|
            0 <= i < text::trimmed(value).len() && (i < at.0 || at.1 <= i) ==> is_loose(
                #[trigger] text::trimmed(value)[i],
            ),
        at.0 < at.1 ==> !is_loose(text::trimmed(value)[at.0]) && !is_loose(
            text::trimmed(value)[at.1 - 1],
        ),
{
    let name = text::trimmed(value);
    let mapped = name.map_values(|c: char| session::as_ref_char(c));
    let edge = |c: char| session::is_ref_edge(c);
    let at = lemma_core(mapped, edge);
    assert forall|c: char| #[trigger] is_plain(c) == session::is_ref_char(c) by {
        let others = seq!['-', '_', '.', '/'];
        assert(others[0] == '-' && others[1] == '_' && others[2] == '.' && others[3] == '/');
    }
    assert forall|i: int| 0 <= i < name.len() && (i < at.0 || at.1 <= i) implies is_loose(
        #[trigger] name[i],
    ) by {
        assert(edge(mapped[i]));
    }
    at
}

/// A text is split at the first occurrence of a character, and only where it occurs.
pub proof fn law_split_once_at_first(s: Seq<char>, c: char)
    ensures
        match text::split_once(s, c) {
            Some((front, back)) => s == front.push(c) + back && !front.contains(c),
            None => !s.contains(c),
        },
{
    match text::split_once(s, c) {
        Some((front, back)) => {
            let i = s.index_of_first(c)->0;
            s.index_of_first_ensures(c);
            assert(s =~= front.push(c) + back);
        },
        None => {
            s.index_of_first_ensures(c);
        },
    }
}

/// The fields of a text hold no separator, and put together with the separator between them
/// they are the text.
pub proof fn law_fields_are_the_text(s: Seq<char>, c: char)
    ensures
        text::split(s, c).len() > 0,
        forall|i: int|
            0 <= i < text::split(s, c).len() ==> !(#[trigger] text::split(s, c)[i]).contains(c),
        joined(text::split(s, c), c) == s,
    decreases s.len(),
{
    law_split_once_at_first(s, c);
    match text::split_once(s, c) {
        Some((front, back)) => {
            law_fields_are_the_text(back, c);
            let fields = text::split(s, c);
            assert(fields == seq![front] + text::split(back, c));
            assert(fields.skip(1) =~= text::split(back, c));
            assert forall|i: int| 0 <= i < fields.len() implies !(
            #[trigger] fields[i]).contains(c) by {
                if i > 0 {
                    assert(fields[i] == text::split(back, c)[i - 1]);
                }
            }
        },
        None => {},
    }
}

/// Texts put together with a character between each and the next.
pub open spec fn joined(parts: Seq<Seq<char>>, c: char) -> Seq<char>
    decreases parts.len(),
{
    if parts.len() == 0 {
        Seq::empty()
    } else if parts.len() == 1 {
        parts[0]
    } else {
        parts[0].push(c) + joined(parts.skip(1), c)
    }
}

/// A line ends with a line feed, which may follow a carriage return; the last one may go
/// without. An empty text has no lines.
pub proof fn law_lines_of_a_text(line: Seq<char>, rest: Seq<char>)
    requires
        !line.contains('\n'),
    ensures
        text::lines(Seq::<char>::empty()) == Seq::<Seq<char>>::empty(),
        line.len() > 0 ==> text::lines(line) == seq![line],
        text::lines(line + seq!['\r', '\n'] + rest) == seq![line] + text::lines(rest),
        line.len() == 0 || line.last() != '\r' ==> text::lines(line + seq!['\n'] + rest)
            == seq![line] + text::lines(rest),
{
    assert forall|j: int| 0 <= j < line.len() implies line[j] != '\n' by {
        assert(line.contains(line[j]));
    }
    text::lemma_split_once_none(line, '\n');
    let returned = line.push('\r');
    assert(line + seq!['\r', '\n'] + rest =~= returned.push('\n') + rest);
    assert(!returned.contains('\n')) by {
        assert forall|j: int| 0 <= j < returned.len() implies returned[j] != '\n' by {}
    }
    text::lemma_split_once_joined(returned, '\n', rest);
    assert(returned.drop_last() =~= line);
    assert(line + seq!['\n'] + rest =~= line.push('\n') + rest);
    text::lemma_split_once_joined(line, '\n', rest);
}

/// A number is read digit by digit: one more digit at its end makes it ten times as large and
/// adds the digit.
pub proof fn law_number_grows_by_its_digits(digits: Seq<char>, n: nat)
    requires
        n < 10,
    ensures
        text::digits_value(Seq::empty()) == 0,
        text::digits_value(digits.push((48 + n) as char)) == 10 * text::digits_value(digits) + n,
{
    let more = digits.push((48 + n) as char);
    assert(more.drop_last() =~= digits);
    assert(((48 + n) as char) as nat == 48 + n);
}

/// The digits of a number: what follows its sign, if it has one.
pub open spec fn unsigned(s: Seq<char>) -> Seq<char> {
    if s.len() > 0 && (s[0] == '-' || s[0] == '+') {
        s.skip(1)
    } else {
        s
    }
}

/// The number that a text stands for, if it is one.
pub open spec fn number_of(s: Seq<char>) -> int {
    if s.len() > 0 && s[0] == '-' {
        -text::digits_value(unsigned(s))
    } else {
        text::digits_value(unsigned(s)) as int
    }
}

/// A number is written in digits, at least one, after a sign that may be missing, and lies
/// within the range of its type. Anything else is none.
pub proof fn law_number_is_sign_and_digits(s: Seq<char>)
    ensures
        match text::parsed_i64(s) {
            Some(read) => {
                &&& unsigned(s).len() > 0
                &&& forall|i: int|
                    0 <= i < unsigned(s).len() ==> '0' <= #[trigger] unsigned(s)[i] <= '9'
                &&& read == number_of(s)
            },
            None => {
                ||| unsigned(s).len() == 0
                ||| exists|i: int|
                    0 <= i < unsigned(s).len() && !('0' <= #[trigger] unsigned(s)[i] <= '9')
                ||| number_of(s) < -0x8000_0000_0000_0000
                ||| number_of(s) > 0x7fff_ffff_ffff_ffff
            },
        },
{
    let digits = unsigned(s);
    if text::all_digits(digits) {
        assert forall|i: int| 0 <= i < digits.len() implies '0' <= #[trigger] digits[i]
            <= '9' by {
            assert(text::is_digit(digits[i]));
        }
    }
}

/// Whether the line at `i` is the first one that gives `key` a value, and gives it `value`.
pub open spec fn is_stated_at(
    metadata: Seq<char>,
    key: Seq<char>,
    value: Seq<char>,
    i: int,
) -> bool {
    let lines = text::lines(metadata);
    &&& 0 <= i < lines.len()
    &&& lines[i] == key.push('=') + value
    &&& forall|j: int| 0 <= j < i ==> !gives(#[trigger] lines[j], key)
}

/// Whether a line gives `key` a value.
pub open spec fn gives(line: Seq<char>, key: Seq<char>) -> bool {
    exists|value: Seq<char>| line == #[trigger] (key.push('=') + value)
}

/// Whether metadata gives `key` the value `value`.
pub open spec fn states(metadata: Seq<char>, key: Seq<char>, value: Seq<char>) -> bool {
    exists|i: int| is_stated_at(metadata, key, value, i)
}

/// Whether metadata gives `key` no value.
pub open spec fn is_silent(metadata: Seq<char>, key: Seq<char>) -> bool {
    forall|j: int|
        0 <= j < text::lines(metadata).len() ==> !gives(
            #[trigger] text::lines(metadata)[j],
            key,
        )
}

proof fn lemma_gives(line: Seq<char>, key: Seq<char>)
    requires
        !key.contains('='),
    ensures
        gives(line, key) == (text::split_once(line, '=') matches Some((k, _)) && k == key),
{
    law_split_once_at_first(line, '=');
    if gives(line, key) {
        let value = choose|value: Seq<char>| line == #[trigger] (key.push('=') + value);
        text::lemma_split_once_joined(key, '=', value);
    }
    match text::split_once(line, '=') {
        Some((k, value)) => {
            if k == key {
                assert(line == key.push('=') + value);
            }
        },
        None => {},
    }
}

proof fn lemma_first_value(lines: Seq<Seq<char>>, key: Seq<char>) -> (i: int)
    requires
        !key.contains('='),
    ensures
        match claim::value_in_lines(lines, key) {
            Some(value) => {
                &&& 0 <= i < lines.len()
                &&& lines[i] == key.push('=') + value
                &&& forall|j: int| 0 <= j < i ==> !gives(#[trigger] lines[j], key)
            },
            None => forall|j: int| 0 <= j < lines.len() ==> !gives(#[trigger] lines[j], key),
        },
    decreases lines.len(),
{
    if lines.len() == 0 {
        0
    } else {
        lemma_gives(lines[0], key);
        law_split_once_at_first(lines[0], '=');
        if gives(lines[0], key) {
            0
        } else {
            let rest = lines.skip(1);
            let i = lemma_first_value(rest, key);
            assert forall|j: int| 0 < j < lines.len() implies #[trigger] lines[j] == rest[j
                - 1] by {}
            i + 1
        }
    }
}

/// The value of a key is the one that its first line gives it.
pub proof fn law_first_line_gives_the_value(metadata: Seq<char>, key: Seq<char>)
    requires
        !key.contains('='),
    ensures
        match claim::value_in(metadata, key) {
            Some(value) => states(metadata, key, value),
            None => is_silent(metadata, key),
        },
{
    let i = lemma_first_value(text::lines(metadata), key);
    match claim::value_in(metadata, key) {
        Some(value) => {
            assert(is_stated_at(metadata, key, value, i));
        },
        None => {},
    }
}

proof fn lemma_keys()
    ensures
        !"claimee_id"@.contains('='),
        !"machine_id"@.contains('='),
        !"local_user"@.contains('='),
        !"claimed_at_utc_unix_seconds"@.contains('='),
{
    reveal_strlit("claimee_id");
    reveal_strlit("machine_id");
    reveal_strlit("local_user");
    reveal_strlit("claimed_at_utc_unix_seconds");
}

/// Whether metadata states this claim: by a claimee of the form `user@machine`, or, where it
/// names none, by a user and a machine of their own.
pub open spec fn states_claimee(metadata: Seq<char>, id: ClaimeeIdView) -> bool {
    ||| {
        &&& states(metadata, "claimee_id"@, id.user.push('@') + id.machine)
        &&& id.user.len() > 0
        &&& !id.user.contains('@')
        &&& id.machine.len() > 0
    }
    ||| {
        &&& is_silent(metadata, "claimee_id"@)
        &&& states(metadata, "machine_id"@, id.machine)
        &&& states(metadata, "local_user"@, id.user)
    }
}

/// Metadata states a claim where it names the claimee in either form, and the time of it
/// where that is a number. It states none where it names neither a claimee nor both a user
/// and a machine. A claimee that is not a user and a machine is refused.
pub proof fn law_claim_follows_the_metadata(metadata: Seq<char>)
    ensures
        match claim::claim_in(metadata) {
            Ok(Some(found)) => {
                &&& states_claimee(metadata, found.claimee_id)
                &&& match found.claimed_at_utc_unix_seconds {
                    Some(seconds) => exists|value: Seq<char>|
                        #[trigger] states(metadata, "claimed_at_utc_unix_seconds"@, value)
                            && text::parsed_i64(value) == Some(seconds),
                    None => is_silent(metadata, "claimed_at_utc_unix_seconds"@) || exists|
                        value: Seq<char>,
                    |
                        #[trigger] states(metadata, "claimed_at_utc_unix_seconds"@, value)
                            && text::parsed_i64(value) is None,
                }
            },
            Ok(None) => is_silent(metadata, "claimee_id"@) && (is_silent(
                metadata,
                "machine_id"@,
            ) || is_silent(metadata, "local_user"@)),
            Err(message) => exists|value: Seq<char>|
                #[trigger] states(metadata, "claimee_id"@, value) && message
                    == "Invalid claimee id `"@ + value + "`."@ && (forall|
                    user: Seq<char>,
                    machine: Seq<char>,
                |
                    value == #[trigger] (user.push('@') + machine) && !user.contains('@')
                        ==> user.len() == 0 || machine.len() == 0),
        },
{
    lemma_keys();
    law_first_line_gives_the_value(metadata, "claimee_id"@);
    law_first_line_gives_the_value(metadata, "machine_id"@);
    law_first_line_gives_the_value(metadata, "local_user"@);
    law_first_line_gives_the_value(metadata, "claimed_at_utc_unix_seconds"@);
    match claim::value_in(metadata, "claimee_id"@) {
        Some(value) => {
            law_split_once_at_first(value, '@');
            assert forall|user: Seq<char>, machine: Seq<char>|
                value == #[trigger] (user.push('@') + machine) && !user.contains(
                    '@',
                ) implies text::split_once(value, '@') == Some((user, machine)) by {
                text::lemma_split_once_joined(user, '@', machine);
            }
        },
        None => {},
    }
}

/// A line on a session begins with the remote branch of the session, then come the time and
/// the commit, with tabs between them.
pub proof fn law_session_line_has_its_fields(line: Seq<char>)
    ensures
        ({
            let fields = text::split(line, '\t');
            match session::session_in_line(line) {
                Some(found) => {
                    &&& fields.len() >= 3
                    &&& fields[0] == "jist/jist-"@ + found.name
                    &&& text::parsed_i64(fields[1]) == Some(found.modified_at_unix_seconds)
                    &&& fields[2] == found.working_commit
                },
                None => fields.len() < 3 || text::parsed_i64(fields[1]) is None || forall|
                    name: Seq<char>,
                | fields[0] != #[trigger] ("jist/jist-"@ + name),
            }
        }),
{
    reveal_strlit("jist");
    reveal_strlit("/jist-");
    reveal_strlit("jist/jist-");
    assert(session::ref_prefix() =~= "jist/jist-"@);
    let fields = text::split(line, '\t');
    let prefix = "jist/jist-"@;
    let n = prefix.len() as int;
    if fields.len() >= 3 {
        match text::without_prefix(fields[0], prefix) {
            Some(name) => {
                assert(fields[0] =~= prefix + name);
            },
            None => {
                assert forall|name: Seq<char>| fields[0] != #[trigger] (prefix + name) by {
                    if fields[0] == prefix + name {
                        assert(fields[0].take(n) =~= prefix);
                    }
                }
            },
        }
    }
}

proof fn lemma_filter_map_joined(
    a: Seq<Seq<char>>,
    b: Seq<Seq<char>>,
    f: spec_fn(Seq<char>) -> Option<SessionInfoView>,
)
    ensures
        (a + b).filter_map(f) == a.filter_map(f) + b.filter_map(f),
    decreases b.len(),
{
    if b.len() == 0 {
        assert(a + b =~= a);
        assert(b.filter_map(f) =~= Seq::<SessionInfoView>::empty());
        assert(a.filter_map(f) + b.filter_map(f) =~= a.filter_map(f));
    } else {
        assert((a + b).drop_last() =~= a + b.drop_last());
        lemma_filter_map_joined(a, b.drop_last(), f);
        match f(b.last()) {
            Some(found) => {
                assert(a.filter_map(f) + (b.drop_last().filter_map(f) + seq![found])
                    =~= a.filter_map(f) + b.drop_last().filter_map(f) + seq![found]);
            },
            None => {},
        }
    }
}

/// The sessions that git lists come in the order of the lines, one for each line that is on a
/// session and none for any other.
pub proof fn law_listed_sessions_follow_the_lines(line: Seq<char>, rest: Seq<char>)
    requires
        !line.contains('\n'),
        line.len() == 0 || line.last() != '\r',
    ensures
        session::sessions_in(Seq::empty()) == Seq::<SessionInfoView>::empty(),
        session::sessions_in(line + seq!['\n'] + rest) == (match session::session_in_line(line) {
            Some(found) => seq![found],
            None => Seq::empty(),
        }) + session::sessions_in(rest),
        line.len() > 0 ==> session::sessions_in(line) == match session::session_in_line(line) {
            Some(found) => seq![found],
            None => Seq::empty(),
        },
{
    let f = |line: Seq<char>| session::session_in_line(line);
    law_lines_of_a_text(line, rest);
    let one = seq![line];
    lemma_filter_map_joined(one, text::lines(rest), f);
    assert(one.drop_last() =~= Seq::<Seq<char>>::empty());
    assert(one.drop_last().filter_map(f) =~= Seq::<SessionInfoView>::empty());
    match session::session_in_line(line) {
        Some(found) => {
            assert(one.filter_map(f) =~= seq![found]);
        },
        None => {
            assert(one.filter_map(f) =~= Seq::<SessionInfoView>::empty());
        },
    }
}

/// Whether a file is named on a line of its own.
pub open spec fn is_named(file: Seq<char>, listing: Seq<char>) -> bool {
    text::lines(listing).contains(file) && exists|i: int|
        0 <= i < file.len() && !text::is_white_space(#[trigger] file[i])
}

proof fn lemma_filled(line: Seq<char>)
    ensures
        (text::trimmed(line).len() > 0) == (exists|i: int|
            0 <= i < line.len() && !text::is_white_space(#[trigger] line[i])),
{
    let at = law_trimmed_text_is_the_core(line);
    if text::trimmed(line).len() > 0 {
        assert(text::trimmed(line)[0] == line[at.0]);
    }
}

proof fn lemma_named(listing: Seq<char>)
    ensures
        sync::files_in(listing) == Set::new(|file: Seq<char>| is_named(file, listing)),
{
    let lines = text::lines(listing);
    let filled = |line: Seq<char>| text::trimmed(line).len() > 0;
    assert forall|file: Seq<char>|
        sync::files_in(listing).contains(file) == is_named(file, listing) by {
        lemma_filled(file);
        if lines.filter(filled).contains(file) {
            let i = lines.filter(filled).index_of(file);
            assert(filled(lines.filter(filled)[i]));
            lines.lemma_filter_contains_rev(filled, file);
        }
        if lines.contains(file) && filled(file) {
            let i = lines.index_of(file);
            assert(lines.filter(filled).contains(lines[i]));
        }
    }
    assert(sync::files_in(listing) =~= Set::new(|file: Seq<char>| is_named(file, listing)));
}

/// The files that count as unsynchronized are those that the first two listings name, and
/// all files are those that any of the three names; each counts once.
pub proof fn law_files_are_counted_once(
    changed: Seq<char>,
    untracked: Seq<char>,
    remote: Seq<char>,
)
    ensures
        sync::sync_status_of(changed, untracked, remote).unsynced_files == Set::new(
            |file: Seq<char>| is_named(file, changed) || is_named(file, untracked),
        ).len(),
        sync::sync_status_of(changed, untracked, remote).total_files == Set::new(
            |file: Seq<char>|
                is_named(file, changed) || is_named(file, untracked) || is_named(file, remote),
        ).len(),
{
    lemma_named(changed);
    lemma_named(untracked);
    lemma_named(remote);
    assert(sync::unsynced_set(changed, untracked) =~= Set::new(
        |file: Seq<char>| is_named(file, changed) || is_named(file, untracked),
    ));
    assert(sync::total_set(changed, untracked, remote) =~= Set::new(
        |file: Seq<char>|
            is_named(file, changed) || is_named(file, untracked) || is_named(file, remote),
    ));
}

} // verus!
