//! Dialogues: the requests that a workflow makes, each with the reply it gets.

use crate::exchange;
use crate::exchange::{CommandLineView, CommandReply, Program, Reply, RequestView, Run};
use crate::laws::replay;
use crate::text;
use vstd::prelude::*;
use vstd::utf8;

verus! {

/// A request and the reply to it.
pub struct Turn {
    pub request: RequestView,
    pub reply: Reply,
}

/// The replies of a dialogue, which are the log that it leaves.
pub open spec fn replies(dialogue: Seq<Turn>) -> Seq<Reply> {
    Seq::new(dialogue.len(), |n: int| dialogue[n].reply)
}

/// Whether a workflow makes the requests of a dialogue, one after the other, as the replies
/// come in.
pub open spec fn makes<A>(workflow: spec_fn(Seq<Reply>) -> Run<A>, dialogue: Seq<Turn>) -> bool {
    forall|n: int|
        0 <= n < dialogue.len() ==> workflow(#[trigger] replies(dialogue).take(n)) == Run::<
            A,
        >::Asks(dialogue[n].request)
}

/// Whether a workflow leads this dialogue from its first request to its last and comes to
/// the result `value` with it.
pub open spec fn succeeds<A>(
    workflow: spec_fn(Seq<Reply>) -> Run<A>,
    dialogue: Seq<Turn>,
    value: A,
) -> bool {
    &&& makes(workflow, dialogue)
    &&& forall|rest: Seq<Reply>|
        workflow(#[trigger] (replies(dialogue) + rest)) == Run::Done(value, rest)
}

/// Whether a workflow leads this dialogue and fails with `message` at its end.
pub open spec fn fails<A>(
    workflow: spec_fn(Seq<Reply>) -> Run<A>,
    dialogue: Seq<Turn>,
    message: Seq<char>,
) -> bool {
    &&& makes(workflow, dialogue)
    &&& forall|rest: Seq<Reply>|
        workflow(#[trigger] (replies(dialogue) + rest)) == Run::<A>::Failed(message, rest)
}

/// A command of `git` whose output goes to the terminal.
pub open spec fn git(args: Seq<Seq<char>>) -> RequestView {
    RequestView::Command(
        CommandLineView {
            program: Program::Git,
            args,
            index_file: None,
            stdin: None,
            collect: false,
        },
    )
}

/// A command of `git` whose output is collected.
pub open spec fn git_query(args: Seq<Seq<char>>) -> RequestView {
    RequestView::Command(
        CommandLineView {
            program: Program::Git,
            args,
            index_file: None,
            stdin: None,
            collect: true,
        },
    )
}

/// A command of `gh` whose output goes to the terminal.
pub open spec fn gh(args: Seq<Seq<char>>) -> RequestView {
    RequestView::Command(
        CommandLineView {
            program: Program::Gh,
            args,
            index_file: None,
            stdin: None,
            collect: false,
        },
    )
}

/// A command of `gh` whose output is collected.
pub open spec fn gh_query(args: Seq<Seq<char>>) -> RequestView {
    RequestView::Command(
        CommandLineView {
            program: Program::Gh,
            args,
            index_file: None,
            stdin: None,
            collect: true,
        },
    )
}

/// Whether a reply says that a command was started and came to its end.
pub open spec fn is_ended(reply: Reply) -> bool {
    reply matches Reply::Command(CommandReply::Finished(_))
}

/// Whether a reply says that a command succeeded.
pub open spec fn is_success(reply: Reply) -> bool {
    reply matches Reply::Command(CommandReply::Finished(finished)) && finished.success
}

/// Whether a reply says that a command succeeded and printed `output`, apart from white
/// space around it.
pub open spec fn is_output(reply: Reply, output: Seq<char>) -> bool {
    reply matches Reply::Command(CommandReply::Finished(finished)) && finished.success
        && utf8::valid_utf8(finished.stdout@) && output == text::trimmed(
        utf8::decode_utf8(finished.stdout@),
    )
}

/// Whether a reply says that a command succeeded and printed something.
pub open spec fn has_output(reply: Reply) -> bool {
    reply matches Reply::Command(CommandReply::Finished(finished)) && finished.success
        && utf8::valid_utf8(finished.stdout@)
}

/// What a command printed, apart from white space around it.
pub open spec fn output_of(reply: Reply) -> Seq<char> {
    text::trimmed(utf8::decode_utf8(reply->Command_0->Finished_0.stdout@))
}

/// Whether the command of a turn is `request`, and succeeded.
pub open spec fn ran(turn: Turn, request: RequestView) -> bool {
    turn.request == request && is_success(turn.reply)
}

/// Whether the command of a turn is `request`, and succeeded with text as its output.
pub open spec fn answered(turn: Turn, request: RequestView) -> bool {
    turn.request == request && has_output(turn.reply)
}

/// Words put together one by one are the words as a list.
pub(crate) proof fn lemma_words()
    ensures
        forall|a: Seq<char>|
            #[trigger] exchange::argv(a) == seq![a],
        forall|a: Seq<char>, b: Seq<char>|
            #[trigger] exchange::argv(a).push(b) == seq![a, b],
        forall|a: Seq<char>, b: Seq<char>, c: Seq<char>|
            #[trigger] exchange::argv(a).push(b).push(c) == seq![a, b, c],
        forall|a: Seq<char>, b: Seq<char>, c: Seq<char>, d: Seq<char>|
            #[trigger] exchange::argv(a).push(b).push(c).push(d) == seq![a, b, c, d],
        forall|a: Seq<char>, b: Seq<char>, c: Seq<char>, d: Seq<char>, e: Seq<char>|
            #[trigger] exchange::argv(a).push(b).push(c).push(d).push(e) == seq![a, b, c, d, e],
        forall|a: Seq<char>, b: Seq<char>, c: Seq<char>, d: Seq<char>, e: Seq<char>, f: Seq<char>|
            #[trigger] exchange::argv(a).push(b).push(c).push(d).push(e).push(f) == seq![a, b, c, d, e, f],
        forall|a: Seq<char>, b: Seq<char>, c: Seq<char>, d: Seq<char>, e: Seq<char>, f: Seq<char>, g: Seq<char>|
            #[trigger] exchange::argv(a).push(b).push(c).push(d).push(e).push(f).push(g) == seq![a, b, c, d, e, f, g],
{
    assert forall|a: Seq<char>|
        #[trigger] exchange::argv(a) == seq![a] by {
        assert(exchange::argv(a) =~= seq![a]);
    }
    assert forall|a: Seq<char>, b: Seq<char>|
        #[trigger] exchange::argv(a).push(b) == seq![a, b] by {
        assert(exchange::argv(a).push(b) =~= seq![a, b]);
    }
    assert forall|a: Seq<char>, b: Seq<char>, c: Seq<char>|
        #[trigger] exchange::argv(a).push(b).push(c) == seq![a, b, c] by {
        assert(exchange::argv(a).push(b).push(c) =~= seq![a, b, c]);
    }
    assert forall|a: Seq<char>, b: Seq<char>, c: Seq<char>, d: Seq<char>|
        #[trigger] exchange::argv(a).push(b).push(c).push(d) == seq![a, b, c, d] by {
        assert(exchange::argv(a).push(b).push(c).push(d) =~= seq![a, b, c, d]);
    }
    assert forall|a: Seq<char>, b: Seq<char>, c: Seq<char>, d: Seq<char>, e: Seq<char>|
        #[trigger] exchange::argv(a).push(b).push(c).push(d).push(e) == seq![a, b, c, d, e] by {
        assert(exchange::argv(a).push(b).push(c).push(d).push(e) =~= seq![a, b, c, d, e]);
    }
    assert forall|a: Seq<char>, b: Seq<char>, c: Seq<char>, d: Seq<char>, e: Seq<char>, f: Seq<char>|
        #[trigger] exchange::argv(a).push(b).push(c).push(d).push(e).push(f) == seq![a, b, c, d, e, f] by {
        assert(exchange::argv(a).push(b).push(c).push(d).push(e).push(f) =~= seq![a, b, c, d, e, f]);
    }
    assert forall|a: Seq<char>, b: Seq<char>, c: Seq<char>, d: Seq<char>, e: Seq<char>, f: Seq<char>, g: Seq<char>|
        #[trigger] exchange::argv(a).push(b).push(c).push(d).push(e).push(f).push(g) == seq![a, b, c, d, e, f, g] by {
        assert(exchange::argv(a).push(b).push(c).push(d).push(e).push(f).push(g) =~= seq![a, b, c, d, e, f, g]);
    }
}

/// The replies that follow the first one.
pub(crate) proof fn lemma_replies()
    ensures
        forall|d: Seq<Turn>| #[trigger] replies(d).len() == d.len(),
        forall|d: Seq<Turn>, rest: Seq<Reply>|
            d.len() > 0 ==> #[trigger] (replies(d) + rest).skip(1) == replies(d.skip(1)) + rest && (
            replies(d) + rest)[0] == d[0].reply,
        forall|d: Seq<Turn>, rest: Seq<Reply>|
            d.len() == 0 ==> #[trigger] (replies(d) + rest) == rest,
        forall|d: Seq<Turn>, n: int|
            0 < n <= d.len() ==> #[trigger] replies(d).take(n).skip(1) == replies(d.skip(1)).take(
                n - 1,
            ) && replies(d).take(n)[0] == d[0].reply,
        forall|d: Seq<Turn>| #[trigger] (replies(d) + Seq::empty()) == replies(d),
{
    assert forall|d: Seq<Turn>, rest: Seq<Reply>| d.len() > 0 implies #[trigger] (replies(d)
        + rest).skip(1) == replies(d.skip(1)) + rest by {
        assert((replies(d) + rest).skip(1) =~= replies(d.skip(1)) + rest);
    }
    assert forall|d: Seq<Turn>, rest: Seq<Reply>| d.len() == 0 implies #[trigger] (replies(d)
        + rest) == rest by {
        assert(replies(d) + rest =~= rest);
    }
    assert forall|d: Seq<Turn>, n: int| 0 < n <= d.len() implies #[trigger] replies(d).take(n).skip(
        1,
    ) == replies(d.skip(1)).take(n - 1) by {
        assert(replies(d).take(n).skip(1) =~= replies(d.skip(1)).take(n - 1));
    }
    assert forall|d: Seq<Turn>| #[trigger] (replies(d) + Seq::empty()) == replies(d) by {
        assert(replies(d) + Seq::empty() =~= replies(d));
    }
}

/// Where a workflow `whole` first does what `first` does, its dialogue begins with one that
/// brings `first` to a result, and `next` leads the rest.
pub(crate) proof fn lemma_split<A, B>(
    whole: spec_fn(Seq<Reply>) -> Run<B>,
    first: spec_fn(Seq<Reply>) -> Run<A>,
    next: spec_fn(A, Seq<Reply>) -> Run<B>,
    d: Seq<Turn>,
    value: B,
) -> (cut: (int, A))
    requires
        forall|log: Seq<Reply>, more: Seq<Reply>| #[trigger] replay::replays(first, log, more),
        forall|log: Seq<Reply>| #[trigger] whole(log) == first(log).and_then(next),
        succeeds(whole, d, value),
    ensures
        0 <= cut.0 <= d.len(),
        succeeds(first, d.take(cut.0), cut.1),
        succeeds(|log: Seq<Reply>| next(cut.1, log), d.skip(cut.0), value),
{
    lemma_replies();
    let all = replies(d);
    assert(whole(all + Seq::empty()) == Run::Done(value, Seq::<Reply>::empty()));
    assert(whole(all) == first(all).and_then(next));
    assert(first(all) is Done);
    let result = first(all)->Done_0;
    let left = first(all)->Done_1;
    assert(replay::replays(first, all, Seq::empty()));
    let k = d.len() - left.len();
    let head = all.take(k);
    let tail = all.skip(k);
    assert(head + tail =~= all);
    assert(replay::replays(first, head, tail));
    assert(first(head) == Run::Done(result, Seq::<Reply>::empty())) by {
        let own = first(head)->Done_1;
        assert(first(head) is Done);
        assert((own + tail).len() == left.len());
        assert(own =~= Seq::<Reply>::empty());
    }
    assert(replies(d.take(k)) =~= head);
    assert(replies(d.skip(k)) =~= tail);
    assert forall|rest: Seq<Reply>| first(#[trigger] (head + rest)) == Run::Done(result, rest) by {
        assert(replay::replays(first, head, rest));
        assert(Seq::<Reply>::empty() + rest =~= rest);
    }
    assert forall|n: int| 0 <= n < k implies first(#[trigger] replies(d.take(k)).take(n)) == Run::<
        A,
    >::Asks(d.take(k)[n].request) by {
        let part = all.take(n);
        assert(replies(d.take(k)).take(n) =~= part);
        assert(part + all.skip(n) =~= all);
        assert(replay::replays(first, part, all.skip(n)));
        if first(part) is Done {
            assert((first(part)->Done_1 + all.skip(n)).len() == left.len());
        }
        assert(first(part) is Asks);
        assert(whole(replies(d).take(n)) == Run::<B>::Asks(d[n].request));
    }
    let then = |log: Seq<Reply>| next(result, log);
    assert forall|rest: Seq<Reply>|
        then(#[trigger] (replies(d.skip(k)) + rest)) == Run::Done(value, rest) by {
        assert(head + (tail + rest) =~= all + rest);
        assert(first(head + (tail + rest)) == Run::Done(result, tail + rest));
        assert(whole(all + rest) == Run::Done(value, rest));
    }
    assert forall|n: int| 0 <= n < d.skip(k).len() implies then(
        #[trigger] replies(d.skip(k)).take(n),
    ) == Run::<B>::Asks(d.skip(k)[n].request) by {
        assert(head + tail.take(n) =~= all.take(k + n));
        assert(first(head + tail.take(n)) == Run::Done(result, tail.take(n)));
        assert(whole(replies(d).take(k + n)) == Run::<B>::Asks(d[k + n].request));
    }
    (k, result)
}

/// Where a workflow `whole` does what `first` does and then asks for nothing more, it leads
/// the same dialogue.
pub(crate) proof fn lemma_mapped<A, B>(
    whole: spec_fn(Seq<Reply>) -> Run<B>,
    first: spec_fn(Seq<Reply>) -> Run<A>,
    next: spec_fn(A, Seq<Reply>) -> Run<B>,
    d: Seq<Turn>,
    value: B,
) -> (result: A)
    requires
        forall|log: Seq<Reply>, more: Seq<Reply>| #[trigger] replay::replays(first, log, more),
        forall|log: Seq<Reply>| #[trigger] whole(log) == first(log).and_then(next),
        forall|value: A, log: Seq<Reply>| !(#[trigger] next(value, log) is Asks),
        succeeds(whole, d, value),
    ensures
        succeeds(first, d, result),
        next(result, Seq::empty()) == Run::Done(value, Seq::<Reply>::empty()),
{
    lemma_replies();
    let cut = lemma_split(whole, first, next, d, value);
    let tail = d.skip(cut.0);
    let then = |log: Seq<Reply>| next(cut.1, log);
    if tail.len() > 0 {
        assert(then(replies(tail).take(0)) is Asks);
        assert(next(cut.1, replies(tail).take(0)) is Asks);
    }
    assert(d.take(cut.0) =~= d);
    assert(then(replies(tail) + Seq::empty()) == Run::Done(value, Seq::<Reply>::empty()));
    assert(replies(tail) + Seq::empty() =~= Seq::<Reply>::empty());
    cut.1
}

/// Two workflows that do the same lead the same dialogues.
pub(crate) proof fn lemma_same<A>(
    a: spec_fn(Seq<Reply>) -> Run<A>,
    b: spec_fn(Seq<Reply>) -> Run<A>,
    d: Seq<Turn>,
    value: A,
)
    requires
        succeeds(a, d, value),
        forall|log: Seq<Reply>| #[trigger] a(log) == b(log),
    ensures
        succeeds(b, d, value),
{
    assert forall|rest: Seq<Reply>| b(#[trigger] (replies(d) + rest)) == Run::Done(value, rest) by {
        assert(a(replies(d) + rest) == Run::Done(value, rest));
    }
    assert forall|n: int| 0 <= n < d.len() implies b(#[trigger] replies(d).take(n)) == Run::<
        A,
    >::Asks(d[n].request) by {
        assert(a(replies(d).take(n)) == Run::<A>::Asks(d[n].request));
    }
}

/// Where a workflow `whole` first does what `first` does, a dialogue that brings `first` to a
/// result and one that `next` leads from there make up a dialogue of `whole`.
pub(crate) proof fn lemma_join<A, B>(
    whole: spec_fn(Seq<Reply>) -> Run<B>,
    first: spec_fn(Seq<Reply>) -> Run<A>,
    next: spec_fn(A, Seq<Reply>) -> Run<B>,
    d: Seq<Turn>,
    k: int,
    middle: A,
    value: B,
)
    requires
        0 <= k <= d.len(),
        forall|log: Seq<Reply>| #[trigger] whole(log) == first(log).and_then(next),
        succeeds(first, d.take(k), middle),
        succeeds(|log: Seq<Reply>| next(middle, log), d.skip(k), value),
    ensures
        succeeds(whole, d, value),
{
    lemma_joined_requests(whole, first, next, d, k, middle);
    let then = |log: Seq<Reply>| next(middle, log);
    let head = replies(d.take(k));
    let tail = replies(d.skip(k));
    assert forall|rest: Seq<Reply>| whole(#[trigger] (replies(d) + rest)) == Run::Done(
        value,
        rest,
    ) by {
        assert(replies(d) + rest =~= head + (tail + rest));
        assert(first(head + (tail + rest)) == Run::Done(middle, tail + rest));
        assert(then(tail + rest) == Run::Done(value, rest));
    }
}

proof fn lemma_joined_requests<A, B>(
    whole: spec_fn(Seq<Reply>) -> Run<B>,
    first: spec_fn(Seq<Reply>) -> Run<A>,
    next: spec_fn(A, Seq<Reply>) -> Run<B>,
    d: Seq<Turn>,
    k: int,
    middle: A,
)
    requires
        0 <= k <= d.len(),
        forall|log: Seq<Reply>| #[trigger] whole(log) == first(log).and_then(next),
        succeeds(first, d.take(k), middle),
        makes(|log: Seq<Reply>| next(middle, log), d.skip(k)),
    ensures
        makes(whole, d),
{
    let then = |log: Seq<Reply>| next(middle, log);
    let head = replies(d.take(k));
    let tail = replies(d.skip(k));
    assert forall|n: int| 0 <= n < d.len() implies whole(#[trigger] replies(d).take(n)) == Run::<
        B,
    >::Asks(d[n].request) by {
        if n < k {
            assert(replies(d).take(n) =~= head.take(n));
            assert(first(head.take(n)) == Run::<A>::Asks(d.take(k)[n].request));
        } else {
            assert(replies(d).take(n) =~= head + tail.take(n - k));
            assert(first(head + tail.take(n - k)) == Run::Done(middle, tail.take(n - k)));
            assert(then(tail.take(n - k)) == Run::<B>::Asks(d.skip(k)[n - k].request));
        }
    }
}

/// The same where `next` fails.
pub(crate) proof fn lemma_join_failure<A, B>(
    whole: spec_fn(Seq<Reply>) -> Run<B>,
    first: spec_fn(Seq<Reply>) -> Run<A>,
    next: spec_fn(A, Seq<Reply>) -> Run<B>,
    d: Seq<Turn>,
    k: int,
    middle: A,
    message: Seq<char>,
)
    requires
        0 <= k <= d.len(),
        forall|log: Seq<Reply>| #[trigger] whole(log) == first(log).and_then(next),
        succeeds(first, d.take(k), middle),
        fails(|log: Seq<Reply>| next(middle, log), d.skip(k), message),
    ensures
        fails(whole, d, message),
{
    lemma_joined_requests(whole, first, next, d, k, middle);
    let then = |log: Seq<Reply>| next(middle, log);
    let head = replies(d.take(k));
    let tail = replies(d.skip(k));
    assert forall|rest: Seq<Reply>| whole(#[trigger] (replies(d) + rest)) == Run::<B>::Failed(
        message,
        rest,
    ) by {
        assert(replies(d) + rest =~= head + (tail + rest));
        assert(first(head + (tail + rest)) == Run::Done(middle, tail + rest));
        assert(then(tail + rest) == Run::<B>::Failed(message, rest));
    }
}

/// Where `first` fails, so does what goes on from it.
pub(crate) proof fn lemma_first_failure<A, B>(
    whole: spec_fn(Seq<Reply>) -> Run<B>,
    first: spec_fn(Seq<Reply>) -> Run<A>,
    next: spec_fn(A, Seq<Reply>) -> Run<B>,
    d: Seq<Turn>,
    message: Seq<char>,
)
    requires
        forall|log: Seq<Reply>| #[trigger] whole(log) == first(log).and_then(next),
        fails(first, d, message),
    ensures
        fails(whole, d, message),
{
    assert forall|n: int| 0 <= n < d.len() implies whole(#[trigger] replies(d).take(n)) == Run::<
        B,
    >::Asks(d[n].request) by {
        assert(first(replies(d).take(n)) == Run::<A>::Asks(d[n].request));
    }
    assert forall|rest: Seq<Reply>| whole(#[trigger] (replies(d) + rest)) == Run::<B>::Failed(
        message,
        rest,
    ) by {
        assert(first(replies(d) + rest) == Run::<A>::Failed(message, rest));
    }
}

/// The requests of a dialogue of up to nine turns, one by one.
pub(crate) proof fn lemma_made<A>(w: spec_fn(Seq<Reply>) -> Run<A>, d: Seq<Turn>)
    requires
        d.len() <= 9,
        d.len() > 0 ==> w(replies(d).take(0)) == Run::<A>::Asks(d[0].request),
        d.len() > 1 ==> w(replies(d).take(1)) == Run::<A>::Asks(d[1].request),
        d.len() > 2 ==> w(replies(d).take(2)) == Run::<A>::Asks(d[2].request),
        d.len() > 3 ==> w(replies(d).take(3)) == Run::<A>::Asks(d[3].request),
        d.len() > 4 ==> w(replies(d).take(4)) == Run::<A>::Asks(d[4].request),
        d.len() > 5 ==> w(replies(d).take(5)) == Run::<A>::Asks(d[5].request),
        d.len() > 6 ==> w(replies(d).take(6)) == Run::<A>::Asks(d[6].request),
        d.len() > 7 ==> w(replies(d).take(7)) == Run::<A>::Asks(d[7].request),
        d.len() > 8 ==> w(replies(d).take(8)) == Run::<A>::Asks(d[8].request),
    ensures
        makes(w, d),
{
    assert forall|n: int| 0 <= n < d.len() implies w(#[trigger] replies(d).take(n)) == Run::<
        A,
    >::Asks(d[n].request) by {
        if n == 0 {
        } else if n == 1 {
        } else if n == 2 {
        } else if n == 3 {
        } else if n == 4 {
        } else if n == 5 {
        } else if n == 6 {
        } else if n == 7 {
        } else {
        }
    }
}

/// Every result of a workflow comes from a dialogue that the log records.
pub proof fn law_result_has_a_dialogue<A>(
    workflow: spec_fn(Seq<Reply>) -> Run<A>,
    log: Seq<Reply>,
) -> (d: Seq<Turn>)
    requires
        forall|log: Seq<Reply>, more: Seq<Reply>| #[trigger] replay::replays(workflow, log, more),
        workflow(log) is Done,
    ensures
        replies(d) + workflow(log)->Done_1 == log,
        succeeds(workflow, d, workflow(log)->Done_0),
{
    let value = workflow(log)->Done_0;
    let left = workflow(log)->Done_1;
    assert(replay::replays(workflow, log, Seq::empty()));
    let k = log.len() - left.len();
    let head = log.take(k);
    let tail = log.skip(k);
    assert(head + tail =~= log);
    assert(replay::replays(workflow, head, tail));
    let own = workflow(head)->Done_1;
    assert(workflow(head) is Done);
    assert((own + tail).len() == left.len());
    assert(own =~= Seq::<Reply>::empty());
    assert(own + tail =~= tail);
    let d = Seq::new(
        k as nat,
        |n: int| Turn { request: workflow(log.take(n))->Asks_0, reply: log[n] },
    );
    assert(replies(d) =~= head);
    assert forall|n: int| 0 <= n < d.len() implies workflow(#[trigger] replies(d).take(n)) == Run::<
        A,
    >::Asks(d[n].request) by {
        let part = log.take(n);
        assert(replies(d).take(n) =~= part);
        assert(part + log.skip(n) =~= log);
        assert(replay::replays(workflow, part, log.skip(n)));
        if workflow(part) is Done {
            assert((workflow(part)->Done_1 + log.skip(n)).len() == left.len());
        }
        assert(workflow(part) is Asks);
    }
    assert forall|rest: Seq<Reply>|
        workflow(#[trigger] (replies(d) + rest)) == Run::Done(value, rest) by {
        assert(replay::replays(workflow, head, rest));
        assert(Seq::<Reply>::empty() + rest =~= rest);
    }
    d
}

} // verus!
