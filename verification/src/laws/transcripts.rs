//! What the workflows ask for, word for word, and what they make of the replies.

use crate::claim;
use crate::claim::ClaimeeIdView;
use crate::command;
use crate::exchange::{ClockReading, CommandLineView, Program, Reply, RequestView, Run};
use crate::laws::dialogue;
use crate::laws::dialogue::Turn;
use crate::laws::lists;
use crate::laws::replay;
use crate::repository;
use crate::session;
use crate::sync;
use crate::sync::SyncStatusView;
use crate::text;
use crate::workflow;
use vstd::prelude::*;

verus! {

/// The files that count as unsynchronized are those that git names as changed against the
/// remote branch and the untracked ones that are not ignored, each once; the total adds the
/// files of the remote branch.
pub proof fn law_sync_status_asks_git(
    jist_branch: Seq<char>,
    d: Seq<Turn>,
    counted: SyncStatusView,
)
    requires
        dialogue::succeeds(
            |log: Seq<Reply>| sync::sync_status_for_branch_run(jist_branch, log),
            d,
            counted,
        ),
    ensures
        d.len() == 3,
        dialogue::answered(
            d[0],
            dialogue::git_query(
                seq!["diff"@, "--name-only"@, "refs/remotes/jist/"@ + jist_branch, "--"@],
            ),
        ),
        dialogue::answered(
            d[1],
            dialogue::git_query(seq!["ls-files"@, "--others"@, "--exclude-standard"@]),
        ),
        dialogue::answered(
            d[2],
            dialogue::git_query(
                seq!["ls-tree"@, "-r"@, "--name-only"@, "refs/remotes/jist/"@ + jist_branch],
            ),
        ),
        counted == sync::sync_status_of(
            dialogue::output_of(d[0].reply),
            dialogue::output_of(d[1].reply),
            dialogue::output_of(d[2].reply),
        ),
{
    lemma_remote_ref(jist_branch);
    dialogue::lemma_words();
    dialogue::lemma_replies();
    let w = |log: Seq<Reply>| sync::sync_status_for_branch_run(jist_branch, log);
    assert(w(dialogue::replies(d) + Seq::empty()) is Done);
    assert(d.len() > 0 ==> w(dialogue::replies(d).take(0)) is Asks);
    assert(d.len() > 1 ==> w(dialogue::replies(d).take(1)) is Asks);
    assert(d.len() > 2 ==> w(dialogue::replies(d).take(2)) is Asks);
    assert(d.len() > 3 ==> w(dialogue::replies(d).take(3)) is Asks);
}

/// The remote of the sessions points to the private repository: its name comes from `gh`,
/// and where the remote is another or missing, it is set or added.
pub open spec fn is_remote_setup(d: Seq<Turn>) -> bool {
    let repository = dialogue::output_of(d[1].reply) + "/jist-"@ + dialogue::output_of(d[0].reply);
    &&& d.len() >= 3
    &&& is_naming(d.take(2))
    &&& is_pointing(d.skip(2), repository)
}

/// The private repository gets its name from this one and from the user.
pub open spec fn is_naming(d: Seq<Turn>) -> bool {
    &&& d.len() == 2
    &&& dialogue::answered(
        d[0],
        dialogue::gh_query(seq!["repo"@, "view"@, "--json"@, "name"@, "--jq"@, ".name"@]),
    )
    &&& dialogue::answered(d[1], dialogue::gh_query(seq!["api"@, "user"@, "--jq"@, ".login"@]))
}

/// The remote `jist` has the address of `repository` in the end.
pub open spec fn is_pointing(d: Seq<Turn>, repository: Seq<char>) -> bool {
    let url = "https://github.com/"@ + repository + ".git"@;
    &&& d.len() > 0
    &&& d[0].request == dialogue::git_query(seq!["remote"@, "get-url"@, "jist"@])
    &&& d[0].reply is Command
    &&& if !dialogue::has_output(d[0].reply) {
        d.len() == 2 && dialogue::ran(d[1], dialogue::git(seq!["remote"@, "add"@, "jist"@, url]))
    } else if dialogue::output_of(d[0].reply) == url {
        d.len() == 1
    } else {
        d.len() == 2 && dialogue::ran(
            d[1],
            dialogue::git(seq!["remote"@, "set-url"@, "jist"@, url]),
        )
    }
}

/// `gh` was started.
pub open spec fn is_gh_check(turn: Turn) -> bool {
    turn.request == dialogue::gh_query(seq!["--version"@]) && dialogue::is_ended(turn.reply)
}

/// The branch of a session was fetched.
pub open spec fn is_fetch(turn: Turn, branch: Seq<char>) -> bool {
    dialogue::ran(
        turn,
        dialogue::git(
            seq![
                "fetch"@,
                "jist"@,
                "+refs/heads/"@ + branch + ":refs/remotes/jist/"@ + branch,
            ],
        ),
    )
}

/// The branch `branch` is checked out, and it was brought up to date from the remote.
pub open spec fn is_entry(d: Seq<Turn>, branch: Seq<char>) -> bool {
    &&& d.len() >= 6
    &&& is_gh_check(d[0])
    &&& dialogue::answered(d[1], dialogue::git_query(seq!["branch"@, "--show-current"@]))
    &&& dialogue::output_of(d[1].reply) == branch
    &&& is_remote_setup(d.subrange(2, d.len() - 1))
    &&& is_fetch(d[d.len() - 1], branch)
}

/// The name of the user was read from the environment.
pub open spec fn is_user(d: Seq<Turn>, user: Seq<char>) -> bool {
    &&& d.len() == 1 || d.len() == 2
    &&& d[0].request == RequestView::Variable("USERNAME"@)
    &&& d.len() == 2 ==> d[0].reply == Reply::Variable(None) && d[1].request
        == RequestView::Variable("USER"@)
    &&& d.last().reply matches Reply::Variable(Some(value)) && value@ == user
}

/// The name of the machine was read from the environment, or else from `hostname`.
pub open spec fn is_machine(d: Seq<Turn>, machine: Seq<char>) -> bool {
    &&& 1 <= d.len() <= 3
    &&& d[0].request == RequestView::Variable("COMPUTERNAME"@)
    &&& d.len() > 1 ==> d[0].reply == Reply::Variable(None) && d[1].request
        == RequestView::Variable("HOSTNAME"@)
    &&& d.len() > 2 ==> d[1].reply == Reply::Variable(None) && dialogue::answered(
        d[2],
        RequestView::Command(
            CommandLineView {
                program: Program::Hostname,
                args: seq![],
                index_file: None,
                stdin: None,
                collect: true,
            },
        ),
    ) && machine == dialogue::output_of(d[2].reply)
    &&& d.len() <= 2 ==> (d.last().reply matches Reply::Variable(Some(value)) && text::trimmed(
        value@,
    ) == machine)
}

/// The user of this machine was found to be `id`.
pub open spec fn is_setup(d: Seq<Turn>, id: ClaimeeIdView) -> bool {
    &&& d.len() >= 2
    &&& {
        ||| is_user(d.take(1), id.user) && is_machine(d.skip(1), id.machine)
        ||| is_user(d.take(2), id.user) && is_machine(d.skip(2), id.machine)
    }
}

/// The metadata on the remote branch was read.
pub open spec fn is_metadata(turn: Turn, branch: Seq<char>) -> bool {
    dialogue::answered(
        turn,
        dialogue::git_query(seq!["show"@, "refs/remotes/jist/"@ + branch + ":.jist-meta"@]),
    )
}

/// The remote branch states a claim, and it is that of the user of this machine.
pub open spec fn is_own_claim(d: Seq<Turn>, branch: Seq<char>) -> bool {
    &&& d.len() >= 3
    &&& is_metadata(d[0], branch)
    &&& claim::claim_in(dialogue::output_of(d[0].reply)) matches Ok(Some(claim)) && is_setup(
        d.skip(1),
        claim.claimee_id,
    )
}

pub(crate) proof fn lemma_remote_ref(jist_branch: Seq<char>)
    ensures
        claim::remote_ref_of(jist_branch) == "refs/remotes/jist/"@ + jist_branch,
{
    reveal_strlit("refs/remotes/");
    reveal_strlit("refs/remotes/jist/");
    reveal_strlit("jist");
    reveal_strlit("/");
    assert(claim::remote_ref_of(jist_branch) =~= "refs/remotes/jist/"@ + jist_branch);
}

/// Opens what a workflow makes of a dialogue of up to six turns.
pub(crate) proof fn lemma_steps<A>(w: spec_fn(Seq<Reply>) -> Run<A>, d: Seq<Turn>, value: A)
    requires
        dialogue::succeeds(w, d, value),
    ensures
        w(dialogue::replies(d) + Seq::empty()) == Run::Done(value, Seq::<Reply>::empty()),
        forall|n: int|
            0 <= n < d.len() && n < 6 ==> w(#[trigger] dialogue::replies(d).take(n)) == Run::<
                A,
            >::Asks(d[n].request),
        d.len() > 0 ==> w(dialogue::replies(d).take(0)) is Asks,
        d.len() > 1 ==> w(dialogue::replies(d).take(1)) is Asks,
        d.len() > 2 ==> w(dialogue::replies(d).take(2)) is Asks,
        d.len() > 3 ==> w(dialogue::replies(d).take(3)) is Asks,
        d.len() > 4 ==> w(dialogue::replies(d).take(4)) is Asks,
        d.len() > 5 ==> w(dialogue::replies(d).take(5)) is Asks,
{
}

pub(crate) proof fn lemma_naming(d: Seq<Turn>, repository: Seq<char>)
    requires
        dialogue::succeeds(|log: Seq<Reply>| repository::private_name_run(log), d, repository),
    ensures
        is_naming(d),
        repository == dialogue::output_of(d[1].reply) + "/jist-"@ + dialogue::output_of(
            d[0].reply,
        ),
{
    dialogue::lemma_words();
    dialogue::lemma_replies();
    lemma_steps(|log: Seq<Reply>| repository::private_name_run(log), d, repository);
}

pub(crate) proof fn lemma_pointing(d: Seq<Turn>, repository: Seq<char>)
    requires
        dialogue::succeeds(
            |log: Seq<Reply>| repository::ensure_jist_remote_run(repository, log),
            d,
            (),
        ),
    ensures
        is_pointing(d, repository),
{
    dialogue::lemma_words();
    dialogue::lemma_replies();
    lemma_steps(|log: Seq<Reply>| repository::ensure_jist_remote_run(repository, log), d, ());
}

pub(crate) proof fn lemma_remote_setup(d: Seq<Turn>)
    requires
        dialogue::succeeds(|log: Seq<Reply>| repository::reach_remote_run(log), d, ()),
    ensures
        is_remote_setup(d),
{
    let first = |log: Seq<Reply>| repository::private_name_run(log);
    assert forall|log: Seq<Reply>, more: Seq<Reply>| #[trigger]
        replay::replays(first, log, more) by {
        replay::lemma_private_name(log, more);
    }
    let cut = dialogue::lemma_split(
        |log: Seq<Reply>| repository::reach_remote_run(log),
        first,
        |repository: Seq<char>, log: Seq<Reply>|
            repository::ensure_jist_remote_run(repository, log),
        d,
        (),
    );
    lemma_naming(d.take(cut.0), cut.1);
    lemma_pointing(d.skip(cut.0), cut.1);
}

pub(crate) proof fn lemma_user(d: Seq<Turn>, user: Seq<char>)
    requires
        dialogue::succeeds(|log: Seq<Reply>| claim::local_machine_user_run(log), d, user),
    ensures
        is_user(d, user),
{
    dialogue::lemma_replies();
    lemma_steps(|log: Seq<Reply>| claim::local_machine_user_run(log), d, user);
}

pub(crate) proof fn lemma_machine(d: Seq<Turn>, machine: Seq<char>)
    requires
        dialogue::succeeds(|log: Seq<Reply>| claim::machine_id_run(log), d, machine),
    ensures
        is_machine(d, machine),
{
    dialogue::lemma_replies();
    lemma_steps(|log: Seq<Reply>| claim::machine_id_run(log), d, machine);
}

pub(crate) proof fn lemma_setup(d: Seq<Turn>, id: ClaimeeIdView)
    requires
        dialogue::succeeds(|log: Seq<Reply>| claim::current_run(log), d, id),
    ensures
        is_setup(d, id),
        d.len() >= 2,
{
    let first = |log: Seq<Reply>| claim::local_machine_user_run(log);
    assert forall|log: Seq<Reply>, more: Seq<Reply>| #[trigger]
        replay::replays(first, log, more) by {
        replay::lemma_log();
    }
    let next = |user: Seq<char>, log: Seq<Reply>|
        claim::machine_id_run(log).and_then(
            |machine: Seq<char>, log: Seq<Reply>| Run::Done(ClaimeeIdView { user, machine }, log),
        );
    let cut = dialogue::lemma_split(
        |log: Seq<Reply>| claim::current_run(log),
        first,
        next,
        d,
        id,
    );
    let user = cut.1;
    lemma_user(d.take(cut.0), user);
    let second = |log: Seq<Reply>| claim::machine_id_run(log);
    assert forall|log: Seq<Reply>, more: Seq<Reply>| #[trigger]
        replay::replays(second, log, more) by {
        replay::lemma_log();
    }
    let machine = dialogue::lemma_mapped(
        |log: Seq<Reply>| next(user, log),
        second,
        |machine: Seq<char>, log: Seq<Reply>| Run::Done(ClaimeeIdView { user, machine }, log),
        d.skip(cut.0),
        id,
    );
    lemma_machine(d.skip(cut.0), machine);
}

pub(crate) proof fn lemma_fetch_spec(branch: Seq<char>)
    ensures
        "+refs/heads/"@ + branch + ":refs/remotes/"@ + claim::JIST_REMOTE@ + "/"@ + branch
            == "+refs/heads/"@ + branch + ":refs/remotes/jist/"@ + branch,
{
    reveal_strlit(":refs/remotes/");
    reveal_strlit(":refs/remotes/jist/");
    reveal_strlit("jist");
    reveal_strlit("/");
    assert("+refs/heads/"@ + branch + ":refs/remotes/"@ + claim::JIST_REMOTE@ + "/"@ + branch
        =~= "+refs/heads/"@ + branch + ":refs/remotes/jist/"@ + branch);
}

pub(crate) proof fn lemma_fetch(d: Seq<Turn>, branch: Seq<char>)
    requires
        dialogue::succeeds(
            |log: Seq<Reply>| session::fetch_jist_branch_run(branch, log),
            d,
            (),
        ),
    ensures
        d.len() == 1,
        is_fetch(d[0], branch),
{
    lemma_fetch_spec(branch);
    dialogue::lemma_words();
    dialogue::lemma_replies();
    lemma_steps(|log: Seq<Reply>| session::fetch_jist_branch_run(branch, log), d, ());
}

pub(crate) proof fn lemma_gh_check(d: Seq<Turn>)
    requires
        dialogue::succeeds(|log: Seq<Reply>| command::ensure_gh_installed_run(log), d, ()),
    ensures
        d.len() == 1,
        is_gh_check(d[0]),
{
    dialogue::lemma_words();
    dialogue::lemma_replies();
    lemma_steps(|log: Seq<Reply>| command::ensure_gh_installed_run(log), d, ());
}

pub(crate) proof fn lemma_current_branch(d: Seq<Turn>, branch: Seq<char>)
    requires
        dialogue::succeeds(|log: Seq<Reply>| session::current_branch_run(log), d, branch),
    ensures
        d.len() == 1,
        dialogue::answered(d[0], dialogue::git_query(seq!["branch"@, "--show-current"@])),
        dialogue::output_of(d[0].reply) == branch,
{
    dialogue::lemma_words();
    dialogue::lemma_replies();
    lemma_steps(|log: Seq<Reply>| session::current_branch_run(log), d, branch);
}

pub(crate) proof fn lemma_update(d: Seq<Turn>, branch: Seq<char>)
    requires
        dialogue::succeeds(|log: Seq<Reply>| workflow::update_run(branch, log), d, ()),
    ensures
        d.len() >= 4,
        is_remote_setup(d.take(d.len() - 1)),
        is_fetch(d[d.len() - 1], branch),
{
    let first = |log: Seq<Reply>| repository::reach_remote_run(log);
    assert forall|log: Seq<Reply>, more: Seq<Reply>| #[trigger]
        replay::replays(first, log, more) by {
        replay::lemma_reach_remote(log, more);
    }
    let next = |_done: (), log: Seq<Reply>| session::fetch_jist_branch_run(branch, log);
    let cut = dialogue::lemma_split(
        |log: Seq<Reply>| workflow::update_run(branch, log),
        first,
        next,
        d,
        (),
    );
    lemma_remote_setup(d.take(cut.0));
    lemma_fetch(d.skip(cut.0), branch);
}

pub(crate) proof fn lemma_entry(refusal: Seq<char>, d: Seq<Turn>, branch: Seq<char>, name: Seq<char>)
    requires
        dialogue::succeeds(
            |log: Seq<Reply>| workflow::enter_session_run(refusal, log),
            d,
            (branch, name),
        ),
    ensures
        is_entry(d, branch),
        branch == "jist-"@ + name,
        name.len() > 0,
{
    let first = |log: Seq<Reply>| command::ensure_gh_installed_run(log);
    assert forall|log: Seq<Reply>, more: Seq<Reply>| #[trigger]
        replay::replays(first, log, more) by {
        replay::lemma_gh_installed(log, more);
    }
    let cut = dialogue::lemma_split(
        |log: Seq<Reply>| workflow::enter_session_run(refusal, log),
        first,
        |_done: (), log: Seq<Reply>| workflow::enter_installed_run(refusal, log),
        d,
        (branch, name),
    );
    lemma_gh_check(d.take(cut.0));
    let after = d.skip(1);
    let second = |log: Seq<Reply>| session::current_branch_run(log);
    assert forall|log: Seq<Reply>, more: Seq<Reply>| #[trigger]
        replay::replays(second, log, more) by {
        replay::lemma_current_branch(log, more);
    }
    let next = |branch: Seq<char>, log: Seq<Reply>|
        match session::session_of_branch(branch) {
            Some(name) => workflow::update_run(branch, log).and_then(
                |_done: (), log: Seq<Reply>| Run::Done((branch, name), log),
            ),
            None => Run::Failed(refusal, log),
        };
    let entered = |log: Seq<Reply>| workflow::enter_installed_run(refusal, log);
    let cut = dialogue::lemma_split(entered, second, next, after, (branch, name));
    let found = cut.1;
    lemma_current_branch(after.take(cut.0), found);
    let tail = after.skip(1);
    dialogue::lemma_replies();
    let then = |log: Seq<Reply>| next(found, log);
    assert(then(dialogue::replies(tail) + Seq::empty()) is Done);
    let own = session::session_of_branch(found)->0;
    let third = |log: Seq<Reply>| workflow::update_run(found, log);
    assert forall|log: Seq<Reply>, more: Seq<Reply>| #[trigger]
        replay::replays(third, log, more) by {
        replay::lemma_update(found, log, more);
    }
    let done = dialogue::lemma_mapped(
        then,
        third,
        |_done: (), log: Seq<Reply>| Run::Done((found, own), log),
        tail,
        (branch, name),
    );
    lemma_update(tail, branch);
    assert(tail.take(tail.len() - 1) =~= d.subrange(2, d.len() - 1));
    assert(branch =~= "jist-"@ + name) by {
        let n = "jist-"@.len() as int;
        assert(branch =~= branch.take(n) + branch.skip(n));
    }
}

pub(crate) proof fn lemma_metadata(d: Seq<Turn>, branch: Seq<char>, owner: Option<ClaimeeIdView>)
    requires
        dialogue::succeeds(
            |log: Seq<Reply>| claim::remote_claim_owner_run(branch, log),
            d,
            owner,
        ),
    ensures
        d.len() == 1,
        is_metadata(d[0], branch),
        match owner {
            Some(id) => claim::claim_in(dialogue::output_of(d[0].reply)) matches Ok(Some(claim))
                && claim.claimee_id == id,
            None => claim::claim_in(dialogue::output_of(d[0].reply)) matches Ok(None),
        },
{
    lemma_remote_ref(branch);
    dialogue::lemma_words();
    dialogue::lemma_replies();
    lemma_steps(|log: Seq<Reply>| claim::remote_claim_owner_run(branch, log), d, owner);
}

pub(crate) proof fn lemma_own_claim(d: Seq<Turn>, branch: Seq<char>)
    requires
        dialogue::succeeds(
            |log: Seq<Reply>| claim::ensure_claimed_by_this_machine_run(branch, log),
            d,
            (),
        ),
    ensures
        is_own_claim(d, branch),
{
    let whole = |log: Seq<Reply>| claim::ensure_claimed_by_this_machine_run(branch, log);
    let first = |log: Seq<Reply>| claim::remote_claim_owner_run(branch, log);
    assert forall|log: Seq<Reply>, more: Seq<Reply>| #[trigger]
        replay::replays(first, log, more) by {
        replay::lemma_owner(branch, log, more);
    }
    let next = |owner: Option<ClaimeeIdView>, log: Seq<Reply>|
        match owner {
            Some(id) => claim::allowed_run(id, log),
            None => Run::Failed("This JIST session has not been claimed yet."@, log),
        };
    let cut = dialogue::lemma_split(whole, first, next, d, ());
    lemma_metadata(d.take(cut.0), branch, cut.1);
    let tail = d.skip(1);
    dialogue::lemma_replies();
    let then = |log: Seq<Reply>| next(cut.1, log);
    assert(then(dialogue::replies(tail) + Seq::empty()) is Done);
    let id = cut.1->0;
    let second = |log: Seq<Reply>| claim::current_run(log);
    assert forall|log: Seq<Reply>, more: Seq<Reply>| #[trigger]
        replay::replays(second, log, more) by {
        replay::lemma_current(log, more);
    }
    let last = |current: ClaimeeIdView, log: Seq<Reply>|
        if id == current {
            Run::Done((), log)
        } else {
            claim::refused_run(id, log)
        };
    let cut = dialogue::lemma_split(then, second, last, tail, ());
    let end = tail.skip(cut.0);
    let ending = |log: Seq<Reply>| last(cut.1, log);
    assert(ending(dialogue::replies(end) + Seq::empty()) is Done);
    assert(id == cut.1);
    if end.len() > 0 {
        assert(ending(dialogue::replies(end).take(0)) is Asks);
    }
    assert(tail.take(cut.0) =~= tail);
    lemma_setup(tail, id);
}

/// The session `name` was pushed: its branch is checked out and up to date, the claim on it
/// is that of the user of this machine, all changes were added, the commit was amended if
/// something was staged, and what is checked out was pushed to that branch by force.
pub open spec fn is_push(d: Seq<Turn>, name: Seq<char>, k: int, e: int) -> bool {
    let branch = "jist-"@ + name;
    let staged = !dialogue::is_success(d[e + 1].reply);
    &&& name.len() > 0
    &&& 0 <= k <= e <= d.len()
    &&& is_entry(d.take(k), branch)
    &&& is_own_claim(d.subrange(k, e), branch)
    &&& d.len() == e + if staged {
        4int
    } else {
        3int
    }
    &&& dialogue::ran(d[e], dialogue::git(seq!["add"@, "-A"@]))
    &&& d[e + 1].request == dialogue::git(seq!["diff"@, "--cached"@, "--quiet"@])
    &&& dialogue::is_ended(d[e + 1].reply)
    &&& staged ==> dialogue::ran(
        d[e + 2],
        dialogue::git(seq!["commit"@, "--amend"@, "--no-edit"@]),
    )
    &&& dialogue::ran(
        d.last(),
        dialogue::git(seq!["push"@, "--force"@, "jist"@, "HEAD:refs/heads/"@ + branch]),
    )
}

/// Whenever a push comes to a result, the branch of that session is checked out and up to
/// date, the claim on it is that of the user of this machine, all changes were added, and the
/// last thing that was done, with success, is to push what is checked out to that branch by
/// force. Where changes were staged, the commit was amended just before.
pub proof fn law_push_transcript(d: Seq<Turn>, name: Seq<char>) -> (at: (int, int))
    requires
        dialogue::succeeds(|log: Seq<Reply>| workflow::push_session_run(log), d, name),
    ensures
        is_push(d, name, at.0, at.1),
{
    let refusal = "Check out a JIST session branch before running `jist push`."@;
    let first = |log: Seq<Reply>| workflow::enter_session_run(refusal, log);
    assert forall|log: Seq<Reply>, more: Seq<Reply>| #[trigger]
        replay::replays(first, log, more) by {
        replay::lemma_enter_session(refusal, log, more);
    }
    let next = |entered: (Seq<char>, Seq<char>), log: Seq<Reply>|
        workflow::push_entered_run(entered.0, entered.1, log);
    let cut = dialogue::lemma_split(
        |log: Seq<Reply>| workflow::push_session_run(log),
        first,
        next,
        d,
        name,
    );
    let k = cut.0;
    let branch = cut.1.0;
    let own = cut.1.1;
    lemma_entry(refusal, d.take(k), branch, own);
    let tail = d.skip(k);
    let second = |log: Seq<Reply>| claim::ensure_claimed_by_this_machine_run(branch, log);
    assert forall|log: Seq<Reply>, more: Seq<Reply>| #[trigger]
        replay::replays(second, log, more) by {
        replay::lemma_claimed_gate(branch, log, more);
    }
    let then = |_done: (), log: Seq<Reply>|
        workflow::push_changes_run(branch, log).and_then(
            |_done: (), log: Seq<Reply>| Run::Done(own, log),
        );
    let cut = dialogue::lemma_split(
        |log: Seq<Reply>| next((branch, own), log),
        second,
        then,
        tail,
        name,
    );
    lemma_own_claim(tail.take(cut.0), branch);
    let e = k + cut.0;
    assert(tail.take(cut.0) =~= d.subrange(k, e));
    let end = tail.skip(cut.0);
    dialogue::lemma_words();
    dialogue::lemma_replies();
    lemma_steps(|log: Seq<Reply>| then((), log), end, name);
    (k, e)
}

/// The metadata file was written with this content, added and made part of the last commit,
/// and that commit was pushed to the branch by force, each with success and in this order.
pub open spec fn is_record(d: Seq<Turn>, branch: Seq<char>, metadata: Seq<char>) -> bool {
    &&& d.len() == 4
    &&& d[0].request == RequestView::WriteFile(".jist-meta"@, metadata)
    &&& d[0].reply matches Reply::Outcome(Ok(_))
    &&& dialogue::ran(d[1], dialogue::git(seq!["add"@, ".jist-meta"@]))
    &&& dialogue::ran(d[2], dialogue::git(seq!["commit"@, "--amend"@, "--no-edit"@]))
    &&& dialogue::ran(
        d[3],
        dialogue::git(seq!["push"@, "--force"@, "jist"@, "HEAD:refs/heads/"@ + branch]),
    )
}

pub(crate) proof fn lemma_record(d: Seq<Turn>, branch: Seq<char>, metadata: Seq<char>)
    requires
        dialogue::succeeds(
            |log: Seq<Reply>| workflow::record_metadata_run(branch, metadata, log),
            d,
            (),
        ),
    ensures
        is_record(d, branch, metadata),
{
    dialogue::lemma_words();
    dialogue::lemma_replies();
    lemma_steps(
        |log: Seq<Reply>| workflow::record_metadata_run(branch, metadata, log),
        d,
        (),
    );
}

/// The claim of the user of this machine on the session `name` was given back.
pub open spec fn is_unclaim(d: Seq<Turn>, name: Seq<char>, k: int, e: int) -> bool {
    let branch = "jist-"@ + name;
    &&& name.len() > 0
    &&& 0 <= k <= e <= d.len()
    &&& is_entry(d.take(k), branch)
    &&& is_own_claim(d.subrange(k, e), branch)
    &&& is_record(d.skip(e), branch, "initialized=true\n"@)
}

/// Whenever a claim is given back, the branch of that session is checked out and up to date,
/// the claim on it was that of the user of this machine, and metadata without a claim was
/// recorded on its remote branch.
pub proof fn law_unclaim_transcript(d: Seq<Turn>, name: Seq<char>) -> (at: (int, int))
    requires
        dialogue::succeeds(|log: Seq<Reply>| workflow::unclaim_session_run(log), d, name),
    ensures
        is_unclaim(d, name, at.0, at.1),
{
    let refusal = "Check out a JIST session branch before running `jist unclaim`."@;
    let first = |log: Seq<Reply>| workflow::enter_session_run(refusal, log);
    assert forall|log: Seq<Reply>, more: Seq<Reply>| #[trigger]
        replay::replays(first, log, more) by {
        replay::lemma_enter_session(refusal, log, more);
    }
    let next = |entered: (Seq<char>, Seq<char>), log: Seq<Reply>|
        workflow::unclaim_entered_run(entered.0, entered.1, log);
    let cut = dialogue::lemma_split(
        |log: Seq<Reply>| workflow::unclaim_session_run(log),
        first,
        next,
        d,
        name,
    );
    let k = cut.0;
    let branch = cut.1.0;
    let own = cut.1.1;
    lemma_entry(refusal, d.take(k), branch, own);
    let tail = d.skip(k);
    let second = |log: Seq<Reply>| claim::ensure_claimed_by_this_machine_run(branch, log);
    assert forall|log: Seq<Reply>, more: Seq<Reply>| #[trigger]
        replay::replays(second, log, more) by {
        replay::lemma_claimed_gate(branch, log, more);
    }
    let metadata = "initialized=true\n"@;
    let then = |_done: (), log: Seq<Reply>|
        workflow::record_metadata_run(branch, metadata, log).and_then(
            |_done: (), log: Seq<Reply>| Run::Done(own, log),
        );
    let cut = dialogue::lemma_split(
        |log: Seq<Reply>| next((branch, own), log),
        second,
        then,
        tail,
        name,
    );
    lemma_own_claim(tail.take(cut.0), branch);
    let e = k + cut.0;
    assert(tail.take(cut.0) =~= d.subrange(k, e));
    let end = tail.skip(cut.0);
    assert(end =~= d.skip(e));
    let third = |log: Seq<Reply>| workflow::record_metadata_run(branch, metadata, log);
    assert forall|log: Seq<Reply>, more: Seq<Reply>| #[trigger]
        replay::replays(third, log, more) by {
        replay::lemma_record_metadata(branch, metadata, log, more);
    }
    let done = dialogue::lemma_mapped(
        |log: Seq<Reply>| then((), log),
        third,
        |_done: (), log: Seq<Reply>| Run::Done(own, log),
        end,
        name,
    );
    lemma_record(end, branch, metadata);
    (k, e)
}

/// The session `name` was claimed for `id`: its branch is checked out and up to date, git
/// names no file that differs, the remote branch states no claim, and the claim was recorded.
pub open spec fn is_claim(
    d: Seq<Turn>,
    name: Seq<char>,
    k: int,
    e: int,
    id: ClaimeeIdView,
) -> bool {
    let branch = "jist-"@ + name;
    &&& name.len() > 0
    &&& 0 <= k && k + 6 <= e && e + 7 == d.len()
    &&& is_entry(d.take(k), branch)
    &&& is_synchronized(d.subrange(k, k + 3), branch)
    &&& is_metadata(d[k + 3], branch)
    &&& claim::claim_in(dialogue::output_of(d[k + 3].reply)) matches Ok(None)
    &&& is_setup(d.subrange(k + 4, e), id)
    &&& is_claim_record(d.skip(e), branch, id)
}

/// Whenever a session is claimed, its branch is checked out and up to date, git names no file
/// that differs from the remote branch, the remote branch states no claim, the claim of the
/// user of this machine was put together at that time, and it was recorded on the remote
/// branch: the metadata file that was written is part of the commit that was pushed.
pub proof fn law_claim_transcript(d: Seq<Turn>, name: Seq<char>) -> (at: (int, int, ClaimeeIdView))
    requires
        dialogue::succeeds(|log: Seq<Reply>| workflow::claim_session_run(log), d, name),
    ensures
        is_claim(d, name, at.0, at.1, at.2),
{
    let refusal = "Check out a JIST session branch before running `jist claim`."@;
    let first = |log: Seq<Reply>| workflow::enter_session_run(refusal, log);
    assert forall|log: Seq<Reply>, more: Seq<Reply>| #[trigger]
        replay::replays(first, log, more) by {
        replay::lemma_enter_session(refusal, log, more);
    }
    let next = |entered: (Seq<char>, Seq<char>), log: Seq<Reply>|
        workflow::claim_entered_run(entered.0, entered.1, log);
    let cut = dialogue::lemma_split(
        |log: Seq<Reply>| workflow::claim_session_run(log),
        first,
        next,
        d,
        name,
    );
    let k = cut.0;
    let branch = cut.1.0;
    let own = cut.1.1;
    lemma_entry(refusal, d.take(k), branch, own);
    let tail = d.skip(k);
    let second = |log: Seq<Reply>| sync::ensure_fully_synchronized_run(branch, log);
    assert forall|log: Seq<Reply>, more: Seq<Reply>| #[trigger]
        replay::replays(second, log, more) by {
        replay::lemma_synchronized(branch, log, more);
    }
    let cut = dialogue::lemma_split(
        |log: Seq<Reply>| next((branch, own), log),
        second,
        |_done: (), log: Seq<Reply>| workflow::claim_synchronized_run(branch, own, log),
        tail,
        name,
    );
    lemma_synchronized(tail.take(cut.0), branch);
    assert(tail.take(3) =~= d.subrange(k, k + 3));
    let tail = tail.skip(3);
    let third = |log: Seq<Reply>| claim::ensure_unclaimed_run(branch, log);
    assert forall|log: Seq<Reply>, more: Seq<Reply>| #[trigger]
        replay::replays(third, log, more) by {
        replay::lemma_unclaimed_gate(branch, log, more);
    }
    let cut = dialogue::lemma_split(
        |log: Seq<Reply>| workflow::claim_synchronized_run(branch, own, log),
        third,
        |_done: (), log: Seq<Reply>| workflow::write_claim_run(branch, own, log),
        tail,
        name,
    );
    lemma_unclaimed(tail.take(cut.0), branch);
    let tail = tail.skip(1);
    let (n, id) = lemma_write_claim(tail, branch, own, name);
    let e = k + 4 + n;
    assert(tail.take(n) =~= d.subrange(k + 4, e));
    assert(tail.skip(n) =~= d.skip(e));
    (k, e, id)
}

/// No file differs from the remote branch, as far as git names any.
pub open spec fn is_synchronized(d: Seq<Turn>, branch: Seq<char>) -> bool {
    &&& d.len() == 3
    &&& dialogue::answered(
        d[0],
        dialogue::git_query(
            seq!["diff"@, "--name-only"@, "refs/remotes/jist/"@ + branch, "--"@],
        ),
    )
    &&& dialogue::answered(
        d[1],
        dialogue::git_query(seq!["ls-files"@, "--others"@, "--exclude-standard"@]),
    )
    &&& dialogue::answered(
        d[2],
        dialogue::git_query(
            seq!["ls-tree"@, "-r"@, "--name-only"@, "refs/remotes/jist/"@ + branch],
        ),
    )
    &&& sync::filled_lines(dialogue::output_of(d[0].reply)).len() == 0
    &&& sync::filled_lines(dialogue::output_of(d[1].reply)).len() == 0
}

pub(crate) proof fn lemma_synchronized(d: Seq<Turn>, branch: Seq<char>)
    requires
        dialogue::succeeds(
            |log: Seq<Reply>| sync::ensure_fully_synchronized_run(branch, log),
            d,
            (),
        ),
    ensures
        is_synchronized(d, branch),
{
    let first = |log: Seq<Reply>| sync::sync_status_for_branch_run(branch, log);
    assert forall|log: Seq<Reply>, more: Seq<Reply>| #[trigger]
        replay::replays(first, log, more) by {
        replay::lemma_sync_status(branch, log, more);
    }
    let next = |status: SyncStatusView, log: Seq<Reply>|
        if status.unsynced_files == 0 {
            Run::Done((), log)
        } else {
            Run::Failed(
                "Cannot claim this JIST session while "@ + sync::counted_files(
                    status.unsynced_files,
                ) + " unsynchronized."@,
                log,
            )
        };
    let counted = dialogue::lemma_mapped(
        |log: Seq<Reply>| sync::ensure_fully_synchronized_run(branch, log),
        first,
        next,
        d,
        (),
    );
    law_sync_status_asks_git(branch, d, counted);
    lists::law_synchronized_means_no_difference(
        dialogue::output_of(d[0].reply),
        dialogue::output_of(d[1].reply),
        dialogue::output_of(d[2].reply),
    );
}

pub(crate) proof fn lemma_unclaimed(d: Seq<Turn>, branch: Seq<char>)
    requires
        dialogue::succeeds(|log: Seq<Reply>| claim::ensure_unclaimed_run(branch, log), d, ()),
    ensures
        d.len() == 1,
        is_metadata(d[0], branch),
        claim::claim_in(dialogue::output_of(d[0].reply)) matches Ok(None),
{
    let whole = |log: Seq<Reply>| claim::ensure_unclaimed_run(branch, log);
    let first = |log: Seq<Reply>| claim::remote_claim_owner_run(branch, log);
    assert forall|log: Seq<Reply>, more: Seq<Reply>| #[trigger]
        replay::replays(first, log, more) by {
        replay::lemma_owner(branch, log, more);
    }
    let next = |owner: Option<ClaimeeIdView>, log: Seq<Reply>|
        match owner {
            Some(id) => claim::taken_run(id, log),
            None => Run::Done((), log),
        };
    let cut = dialogue::lemma_split(whole, first, next, d, ());
    lemma_metadata(d.take(cut.0), branch, cut.1);
    let tail = d.skip(1);
    dialogue::lemma_replies();
    let then = |log: Seq<Reply>| next(cut.1, log);
    assert(then(dialogue::replies(tail) + Seq::empty()) is Done);
    if tail.len() > 0 {
        assert(then(dialogue::replies(tail).take(0)) is Asks);
    }
}

/// The claim of `id` was put together, with the name and the email of the git user and the
/// time on the clock, and recorded on the branch.
pub open spec fn is_claim_record(d: Seq<Turn>, branch: Seq<char>, id: ClaimeeIdView) -> bool {
    &&& d.len() == 7
    &&& dialogue::answered(d[0], dialogue::git_query(seq!["config"@, "user.name"@]))
    &&& dialogue::answered(d[1], dialogue::git_query(seq!["config"@, "user.email"@]))
    &&& d[2].request == RequestView::Clock
    &&& d[2].reply matches Reply::Clock(ClockReading::Seconds(now)) && is_record(
        d.skip(3),
        branch,
        "claimee_id="@ + id.user + "@"@ + id.machine + "\ngit_user_name="@ + dialogue::output_of(
            d[0].reply,
        ) + "\ngit_user_email="@ + dialogue::output_of(d[1].reply)
            + "\nclaimed_at_utc_unix_seconds="@ + text::decimal(now as nat) + "\n"@,
    )
}

pub(crate) proof fn lemma_write_claim(
    d: Seq<Turn>,
    branch: Seq<char>,
    own: Seq<char>,
    name: Seq<char>,
) -> (at: (int, ClaimeeIdView))
    requires
        dialogue::succeeds(
            |log: Seq<Reply>| workflow::write_claim_run(branch, own, log),
            d,
            name,
        ),
    ensures
        own == name,
        2 <= at.0 <= d.len(),
        is_setup(d.take(at.0), at.1),
        is_claim_record(d.skip(at.0), branch, at.1),
{
    let first = |log: Seq<Reply>| claim::claim_metadata_run(log);
    assert forall|log: Seq<Reply>, more: Seq<Reply>| #[trigger]
        replay::replays(first, log, more) by {
        replay::lemma_claim_metadata(log, more);
    }
    let next = |metadata: Seq<char>, log: Seq<Reply>|
        workflow::record_metadata_run(branch, metadata, log).and_then(
            |_done: (), log: Seq<Reply>| Run::Done(own, log),
        );
    let cut = dialogue::lemma_split(
        |log: Seq<Reply>| workflow::write_claim_run(branch, own, log),
        first,
        next,
        d,
        name,
    );
    let metadata = cut.1;
    let front = d.take(cut.0);
    let back = d.skip(cut.0);
    let second = |log: Seq<Reply>| claim::current_run(log);
    assert forall|log: Seq<Reply>, more: Seq<Reply>| #[trigger]
        replay::replays(second, log, more) by {
        replay::lemma_current(log, more);
    }
    let dated = |id: ClaimeeIdView, log: Seq<Reply>| claim::metadata_for_run(id, log);
    let cut2 = dialogue::lemma_split(first, second, dated, front, metadata);
    let n = cut2.0;
    let id = cut2.1;
    lemma_setup(front.take(n), id);
    assert(front.take(n) =~= d.take(n));
    let middle = front.skip(n);
    dialogue::lemma_words();
    dialogue::lemma_replies();
    lemma_steps(|log: Seq<Reply>| dated(id, log), middle, metadata);
    let third = |log: Seq<Reply>| workflow::record_metadata_run(branch, metadata, log);
    assert forall|log: Seq<Reply>, more: Seq<Reply>| #[trigger]
        replay::replays(third, log, more) by {
        replay::lemma_record_metadata(branch, metadata, log, more);
    }
    let done = dialogue::lemma_mapped(
        |log: Seq<Reply>| next(metadata, log),
        third,
        |_done: (), log: Seq<Reply>| Run::Done(own, log),
        back,
        name,
    );
    lemma_record(back, branch, metadata);
    assert(d.skip(n).skip(3) =~= back);
    assert(middle.len() == 3);
    assert(middle[0] == d.skip(n)[0] && middle[1] == d.skip(n)[1] && middle[2] == d.skip(n)[2]);
    let now = middle[2].reply->Clock_0->Seconds_0;
    let name_out = dialogue::output_of(middle[0].reply);
    let email_out = dialogue::output_of(middle[1].reply);
    assert(metadata =~= "claimee_id="@ + id.user + "@"@ + id.machine + "\ngit_user_name="@
        + name_out + "\ngit_user_email="@ + email_out + "\nclaimed_at_utc_unix_seconds="@
        + text::decimal(now as nat) + "\n"@);
    (n, id)
}

} // verus!
