//! What the two sides of a call have said to each other, and why the replies
//! are right whatever the timing.
//!
//! The caller sends, ends and takes when it likes; the handler makes its steps
//! when it is driven; either may find a direction full or empty and come back
//! later. [`in_accord`] relates the handler's memory to what has passed through
//! the call. It holds when the call is opened, every operation of the caller
//! and every step of the handler keeps it, and of a closed call it says that
//! the replies are those that the pattern owes to the requests.

use crate::call::{arrival_of, CallOp, CallView};
use crate::handlers::{
    repeated, replies_for, CountingView, EchoView, ReplyStreamView, REPLY_COUNT,
};
use crate::message::{decimal, greeting, greetings, names, texts};
use crate::pattern::Pattern;
use crate::server::{initial_handler, served, HandlerView, Progress};
use vstd::prelude::*;

verus! {

/// The names of the requests that the handler has taken.
pub open spec fn heard(call: CallView) -> Seq<Seq<char>> {
    names(call.requests.delivered())
}

/// The messages of the replies that the handler has sent.
pub open spec fn said(call: CallView) -> Seq<Seq<char>> {
    texts(call.replies.sent)
}

/// The handler has taken every request, and the requests have ended.
pub open spec fn heard_all(call: CallView) -> bool {
    call.requests.closed && call.requests.taken == call.requests.sent.len()
}

/// The handler's memory agrees with what has passed through the call.
///
/// Of a failed call nothing is claimed. Otherwise the handler is one of the
/// call's pattern, and what it has said so far is what the pattern owes to what
/// it has heard so far; a finished handler has heard all and said all.
pub open spec fn in_accord(handler: HandlerView, call: CallView) -> bool {
    call.failure() is Some || match handler {
        HandlerView::Unary => {
            &&& call.pattern is Unary
            &&& call.requests.taken == 0
            &&& call.replies.sent.len() == 0
            &&& !call.replies.closed
        },
        HandlerView::ServerStreaming(None) => {
            &&& call.pattern is ServerStreaming
            &&& call.requests.taken == 0
            &&& call.replies.sent.len() == 0
            &&& !call.replies.closed
        },
        HandlerView::ServerStreaming(Some(stream)) => {
            &&& call.pattern is ServerStreaming
            &&& call.requests.taken == 1
            &&& stream.subject == call.requests.sent[0]@
            &&& stream.remaining <= REPLY_COUNT
            &&& stream.rested ==> stream.remaining > 0
            &&& said(call) == repeated(
                greeting(stream.subject),
                (REPLY_COUNT - stream.remaining) as nat,
            )
            &&& !call.replies.closed
        },
        HandlerView::ClientStreaming(counting) => {
            &&& call.pattern is ClientStreaming
            &&& counting.count == Some(call.requests.taken)
            &&& call.replies.sent.len() == 0
            &&& !call.replies.closed
        },
        HandlerView::Bidirectional(None) => {
            &&& call.pattern is Bidirectional
            &&& call.requests.taken == 0
            &&& call.replies.sent.len() == 0
            &&& !call.replies.closed
        },
        HandlerView::Bidirectional(Some(echo)) => {
            &&& call.pattern is Bidirectional
            &&& !call.replies.closed
            &&& match echo.first {
                Some(request) => {
                    &&& echo.live
                    &&& call.requests.taken >= 1
                    &&& request == call.requests.sent[call.requests.taken - 1]
                    &&& said(call) == greetings(heard(call).drop_last())
                },
                None => {
                    &&& said(call) == greetings(heard(call))
                    &&& !echo.live ==> heard_all(call)
                },
            }
        },
        HandlerView::Finished => {
            &&& heard_all(call)
            &&& call.replies.closed
            &&& call.requests.sent.len() > 0 || call.pattern.streams_requests()
            &&& said(call) == replies_for(call.pattern, names(call.requests.sent))
        },
    }
}

/// A call that has just been opened is in accord with the handler that its
/// pattern begins with.
pub proof fn lemma_accord_begins(pattern: Pattern)
    ensures
        in_accord(initial_handler(pattern), CallView::fresh(pattern).after(CallOp::Open)),
        CallView::fresh(pattern).after(CallOp::Open).wf(),
{
}

/// Whether `op` is one that the caller's side makes: opening, sending and
/// ending requests, taking replies, and aborting.
pub open spec fn by_caller(op: CallOp) -> bool {
    op is Open || op is SendRequest || op is FinishRequests || op is NextReply || op is Fail
}

/// Nothing that the caller does breaks the accord: it may send, end, take and
/// abort at any time, before, between or after the handler's steps.
pub proof fn lemma_caller_keeps_accord(handler: HandlerView, call: CallView, op: CallOp)
    requires
        call.wf(),
        call.opened,
        in_accord(handler, call),
        by_caller(op),
    ensures
        in_accord(handler, call.after(op)),
{
    let next = call.after(op);
    if next.failure() is None {
        assert(next.requests.taken == call.requests.taken);
        assert(next.replies.sent == call.replies.sent);
        assert(next.requests.delivered() =~= call.requests.delivered());
        if handler is Finished {
            assert(next.requests.sent == call.requests.sent);
        }
        if call.requests.sent.len() > 0 {
            assert(next.requests.sent[0] == call.requests.sent[0]);
        }
    }
}

/// No step of the handler breaks the accord.
pub proof fn lemma_step_keeps_accord(
    handler: HandlerView,
    call: CallView,
    handler_next: HandlerView,
    call_next: CallView,
    progress: Progress,
)
    requires
        call.wf(),
        call.opened,
        in_accord(handler, call),
        served(handler, call, handler_next, call_next, progress),
    ensures
        in_accord(handler_next, call_next),
{
    if call.failure() is None && call_next.failure() is None {
        match handler {
            HandlerView::Unary => {
                lemma_unary_step(call, handler_next, call_next, progress);
            },
            HandlerView::ServerStreaming(slot) => {
                lemma_server_streaming_step(slot, call, handler_next, call_next, progress);
            },
            HandlerView::ClientStreaming(counting) => {
                lemma_client_streaming_step(counting, call, handler_next, call_next, progress);
            },
            HandlerView::Bidirectional(slot) => {
                lemma_bidirectional_step(slot, call, handler_next, call_next, progress);
            },
            HandlerView::Finished => {},
        }
    }
}

proof fn lemma_unary_step(
    call: CallView,
    handler_next: HandlerView,
    call_next: CallView,
    progress: Progress,
)
    requires
        call.wf(),
        call.opened,
        call.failure() is None,
        call_next.failure() is None,
        in_accord(HandlerView::Unary, call),
        served(HandlerView::Unary, call, handler_next, call_next, progress),
    ensures
        in_accord(handler_next, call_next),
{
    if handler_next is Finished {
        assert(call.requests.sent.len() == 1);
        assert(said(call_next) =~= seq![greeting(call.requests.sent[0]@)]);
        assert(names(call_next.requests.sent)[0] == call.requests.sent[0]@);
    }
}

proof fn lemma_server_streaming_step(
    slot: Option<ReplyStreamView>,
    call: CallView,
    handler_next: HandlerView,
    call_next: CallView,
    progress: Progress,
)
    requires
        call.wf(),
        call.opened,
        call.failure() is None,
        call_next.failure() is None,
        in_accord(HandlerView::ServerStreaming(slot), call),
        served(HandlerView::ServerStreaming(slot), call, handler_next, call_next, progress),
    ensures
        in_accord(handler_next, call_next),
{
    match slot {
        None => match handler_next {
            HandlerView::ServerStreaming(Some(stream)) => {
                assert(said(call_next) =~= repeated(greeting(stream.subject), 0));
            },
            _ => {},
        },
        Some(stream) => match handler_next {
            HandlerView::ServerStreaming(Some(next)) => {
                if next.remaining < stream.remaining {
                    assert(said(call_next) =~= said(call).push(greeting(stream.subject)));
                    assert(said(call_next) =~= repeated(
                        greeting(next.subject),
                        (REPLY_COUNT - next.remaining) as nat,
                    ));
                }
            },
            HandlerView::Finished => {
                if stream.remaining == 0 {
                    assert(names(call_next.requests.sent)[0] == call.requests.sent[0]@);
                    assert(said(call_next) =~= said(call));
                }
            },
            _ => {},
        },
    }
}

proof fn lemma_client_streaming_step(
    counting: CountingView,
    call: CallView,
    handler_next: HandlerView,
    call_next: CallView,
    progress: Progress,
)
    requires
        call.wf(),
        call.opened,
        call.failure() is None,
        call_next.failure() is None,
        in_accord(HandlerView::ClientStreaming(counting), call),
        served(HandlerView::ClientStreaming(counting), call, handler_next, call_next, progress),
    ensures
        in_accord(handler_next, call_next),
{
    if handler_next is Finished {
        assert(said(call_next) =~= seq![greeting(decimal(call.requests.sent.len()))]);
        assert(names(call_next.requests.sent).len() == call.requests.sent.len());
    }
}

proof fn lemma_bidirectional_step(
    slot: Option<EchoView>,
    call: CallView,
    handler_next: HandlerView,
    call_next: CallView,
    progress: Progress,
)
    requires
        call.wf(),
        call.opened,
        call.failure() is None,
        call_next.failure() is None,
        in_accord(HandlerView::Bidirectional(slot), call),
        served(HandlerView::Bidirectional(slot), call, handler_next, call_next, progress),
    ensures
        in_accord(handler_next, call_next),
{
    let taken = call.requests.taken as int;
    match slot {
        None => match handler_next {
            HandlerView::Bidirectional(Some(echo)) => {
                if echo.first is Some {
                    assert(heard(call_next).drop_last() =~= heard(call));
                }
                assert(said(call_next) =~= greetings(heard(call)));
                assert(heard(call_next) =~= heard(call) || echo.first is Some);
            },
            _ => {},
        },
        Some(echo) => {
            if call.replies.is_full() {
            } else if echo.first is Some {
                let request = echo.first->0;
                assert(call_next.requests == call.requests);
                assert(heard(call).last() == request@);
                assert(heard(call) =~= heard(call).drop_last().push(request@));
                assert(said(call_next) =~= said(call).push(greeting(request@)));
                assert(said(call_next) =~= greetings(heard(call_next)));
            } else if !echo.live {
                assert(call.requests.delivered() =~= call.requests.sent);
                assert(said(call_next) =~= said(call));
            } else if taken < call.requests.sent.len() {
                let request = call.requests.sent[taken];
                assert(heard(call_next) =~= heard(call).push(request@));
                assert(said(call_next) =~= said(call).push(greeting(request@)));
                assert(said(call_next) =~= greetings(heard(call_next)));
            } else if call.requests.closed {
                assert(call.requests.delivered() =~= call.requests.sent);
                assert(said(call_next) =~= said(call));
            }
        },
    }
}

/// The number of replies that a call of `pattern` owes to `count` requests.
pub open spec fn owed(pattern: Pattern, count: nat) -> nat {
    match pattern {
        Pattern::Unary => 1,
        Pattern::ServerStreaming => REPLY_COUNT as nat,
        Pattern::ClientStreaming => 1,
        Pattern::Bidirectional => count,
    }
}

/// The steps that a handler still has to make on its own account: the pauses
/// of a reply stream, and the first look of an echo.
pub open spec fn own_steps_left(handler: HandlerView) -> int {
    match handler {
        HandlerView::ServerStreaming(None) => REPLY_COUNT as int,
        HandlerView::ServerStreaming(Some(stream)) => if stream.rested {
            stream.remaining - 1
        } else {
            stream.remaining as int
        },
        HandlerView::Bidirectional(None) => 1,
        _ => 0,
    }
}

/// What is left to do in a conversation of `total` requests: the requests
/// still to be sent and to be taken, the replies still to be sent and to be
/// taken, the two ends still to be signaled, and the handler's own steps.
/// Whatever either side does, as long as it does anything, makes this smaller.
pub open spec fn work_left(handler: HandlerView, call: CallView, total: nat) -> int {
    let replies = owed(call.pattern, total);
    let requests_end: int = if call.requests.closed {
        0
    } else {
        1
    };
    let replies_end: int = if call.replies.closed {
        0
    } else {
        1
    };
    let handler_end: int = if handler is Finished {
        0
    } else {
        1
    };
    (total - call.requests.sent.len()) + (total - call.requests.taken) + (replies
        - call.replies.sent.len()) + (replies - call.replies.taken) + requests_end + replies_end
        + own_steps_left(handler) + handler_end
}

/// A conversation of `total` requests that is under way: the call is open and
/// sound and has not failed, handler and call are in accord, and no more than
/// `total` requests were sent, exactly one where the pattern has one.
pub open spec fn under_way(handler: HandlerView, call: CallView, total: nat) -> bool {
    &&& call.wf()
    &&& call.opened
    &&& call.failure() is None
    &&& in_accord(handler, call)
    &&& call.requests.sent.len() <= total
    &&& total <= u64::MAX
    &&& !call.pattern.streams_requests() ==> total == 1
    &&& call.requests.closed && call.pattern.streams_requests() ==> call.requests.sent.len()
        == total
}

/// There is never less than nothing left to do.
pub proof fn lemma_work_is_bounded(handler: HandlerView, call: CallView, total: nat)
    requires
        under_way(handler, call, total),
    ensures
        0 <= work_left(handler, call, total),
        call.replies.sent.len() <= owed(call.pattern, total),
{
    assert(said(call).len() == call.replies.sent.len());
    assert(heard(call).len() == call.requests.taken);
    assert(names(call.requests.sent).len() == call.requests.sent.len());
}

/// A conversation is bounded from the start: when the call has just been
/// opened, what is left to do is twice the requests, twice the replies owed,
/// the two ends, the handler's own steps and its finish. Since every move
/// leaves less to do, no conversation of `total` requests has more moves
/// than that; one without requests is over after a handful.
pub proof fn lemma_work_at_the_start(pattern: Pattern, total: nat)
    ensures
        work_left(initial_handler(pattern), CallView::fresh(pattern).after(CallOp::Open), total)
            == 2 * total + 2 * owed(pattern, total) + 3 + own_steps_left(
            initial_handler(pattern),
        ),
        total == 0 ==> work_left(
            initial_handler(pattern),
            CallView::fresh(pattern).after(CallOp::Open),
            total,
        ) <= 3 + 3 * REPLY_COUNT,
{
}

/// A step of the handler in a conversation that is under way never fails, and
/// unless it finds the handler waiting it leaves less to do. A handler that
/// awaits a request has taken all that were sent; one that awaits room has
/// found the replies full.
pub proof fn lemma_step_makes_headway(
    handler: HandlerView,
    call: CallView,
    handler_next: HandlerView,
    call_next: CallView,
    progress: Progress,
    total: nat,
)
    requires
        under_way(handler, call, total),
        !(handler is Finished),
        served(handler, call, handler_next, call_next, progress),
    ensures
        under_way(handler_next, call_next, total),
        !(progress is Failed),
        work_left(handler_next, call_next, total) <= work_left(handler, call, total),
        progress is Advanced || progress is Pace || progress is Done ==> work_left(
            handler_next,
            call_next,
            total,
        ) < work_left(handler, call, total),
        progress is Done <==> handler_next is Finished,
        progress is AwaitingRequest ==> arrival_of(call_next.requests) is None
            && call_next.replies == call.replies,
        progress is AwaitingRequest && call.requests.pending().len() > 0 ==> work_left(
            handler_next,
            call_next,
            total,
        ) < work_left(handler, call, total),
        progress is AwaitingRequest && call.requests.pending().len() == 0 ==> call_next
            == call,
        progress is AwaitingRoom ==> call_next == call && call.replies.is_full(),
        call_next.requests.sent == call.requests.sent,
        call_next.requests.closed == call.requests.closed,
        call_next.replies.taken == call.replies.taken,
        call_next.replies.sent.take(call.replies.sent.len() as int) == call.replies.sent,
{
    lemma_work_is_bounded(handler, call, total);
    assert(call.requests.pending().len() == call.requests.sent.len() - call.requests.taken);
    assert(call_next.failure() is None);
    lemma_step_keeps_accord(handler, call, handler_next, call_next, progress);
    assert(call_next.replies.sent.take(call.replies.sent.len() as int) =~= call.replies.sent);
}

/// What the caller does in a conversation that is under way leaves less to do:
/// a request that the call accepts, the end of the requests, a reply taken.
pub proof fn lemma_caller_makes_headway(
    handler: HandlerView,
    call: CallView,
    op: CallOp,
    total: nat,
)
    requires
        under_way(handler, call, total),
        match op {
            CallOp::SendRequest(_) => call.requests.sent.len() < total
                && !call.requests.is_full(),
            CallOp::FinishRequests => call.requests.sent.len() == total
                && call.pattern.streams_requests() && !call.requests.closed,
            CallOp::NextReply => call.replies.taken < call.replies.sent.len(),
            _ => false,
        },
    ensures
        under_way(handler, call.after(op), total),
        work_left(handler, call.after(op), total) < work_left(handler, call, total),
{
    lemma_caller_keeps_accord(handler, call, op);
    if op is SendRequest {
        assert(!call.pattern.streams_requests() ==> call.requests.sent.len() == 0);
    }
}

/// A conversation that is under way is never stuck. Whatever state the two
/// sides have reached, the call is closed, or one of them can move: the caller
/// can send its next request, or end the requests, or take a reply that
/// waits, or else the handler's next step leaves less to do. So neither a full
/// window nor an empty sequence of requests makes both sides wait for each
/// other.
pub proof fn lemma_never_stuck(
    handler: HandlerView,
    call: CallView,
    handler_next: HandlerView,
    call_next: CallView,
    progress: Progress,
    total: nat,
)
    requires
        under_way(handler, call, total),
        served(handler, call, handler_next, call_next, progress),
    ensures
        ({
            ||| call.state() is Closed
            ||| call.requests.sent.len() < total && !call.requests.is_full()
            ||| call.requests.sent.len() == total && call.pattern.streams_requests()
                && !call.requests.closed
            ||| call.replies.taken < call.replies.sent.len()
            ||| work_left(handler_next, call_next, total) < work_left(handler, call, total)
        }),
{
    if !(handler is Finished) {
        lemma_step_makes_headway(handler, call, handler_next, call_next, progress, total);
    }
}

/// A closed call has the replies that its pattern owes to its requests: if the
/// accord held throughout, then whatever the order in which the two sides
/// acted, the messages of the replies are those of [`replies_for`], and the
/// caller has taken every one of them.
pub proof fn lemma_closed_call_is_answered(handler: HandlerView, call: CallView)
    requires
        call.wf(),
        in_accord(handler, call),
        call.state() is Closed,
    ensures
        said(call) == replies_for(call.pattern, names(call.requests.sent)),
        texts(call.replies.delivered()) == said(call),
        call.pattern is Unary ==> call.replies.sent.len() == 1 && call.replies.sent[0]@
            == greeting(call.requests.sent[0]@),
        call.pattern is ServerStreaming ==> said(call) == repeated(
            greeting(call.requests.sent[0]@),
            REPLY_COUNT as nat,
        ),
        call.pattern is ClientStreaming ==> call.replies.sent.len() == 1
            && call.replies.sent[0]@ == greeting(decimal(call.requests.sent.len())),
        call.pattern is Bidirectional ==> said(call) == greetings(names(call.requests.sent)),
{
    assert(call.replies.delivered() =~= call.replies.sent);
    if handler is Finished {
        if !call.pattern.streams_requests() {
            assert(names(call.requests.sent)[0] == call.requests.sent[0]@);
        }
        if !call.pattern.streams_replies() {
            assert(said(call)[0] == call.replies.sent[0]@);
        }
    }
}

} // verus!
