//! The caller's side: whole invocations of each pattern, run against a greeter
//! in this process.
//!
//! An invocation creates a call and holds the whole conversation on it: it
//! sends what the pattern has to send as far as the call has room, drives the
//! handler, and takes the replies until the call is closed. The handler's
//! pauses take no time here.

use crate::call::{Call, CallOp};
use crate::channel::{Received, Sent};
use crate::conversation::{
    lemma_accord_begins, lemma_caller_makes_headway, lemma_closed_call_is_answered,
    lemma_step_makes_headway, lemma_work_is_bounded, under_way, work_left,
};
use crate::error::CallError;
use crate::handlers::{repeated, replies_for, MyGreeter, REPLY_COUNT};
use crate::message::{decimal, greeting, greetings, names, texts, HelloReply, HelloRequest};
use crate::pattern::Pattern;
use crate::server::{Handler, HandlerView, Progress};
use vstd::pervasive::unreached;
use vstd::prelude::*;

verus! {

/// The caller's turn to send: the next request if the call has room for it,
/// or the end of the requests once all are sent. `false`: the caller could
/// do neither, and nothing has changed.
fn caller_sends(
    call: &mut Call,
    requests: &Vec<HelloRequest>,
    count: usize,
    sent: &mut usize,
    Ghost(handler): Ghost<HandlerView>,
) -> (moved: bool)
    requires
        old(call).wf(),
        count == requests@.len(),
        under_way(handler, old(call)@, requests@.len()),
        *old(sent) == old(call)@.requests.sent.len(),
        old(call)@.requests.sent =~= requests@.take(*old(sent) as int),
    ensures
        final(call).wf(),
        under_way(handler, final(call)@, requests@.len()),
        *final(sent) == final(call)@.requests.sent.len(),
        final(call)@.requests.sent =~= requests@.take(*final(sent) as int),
        final(call)@.replies == old(call)@.replies,
        final(call)@.pattern == old(call)@.pattern,
        moved ==> work_left(handler, final(call)@, requests@.len()) < work_left(
            handler,
            old(call)@,
            requests@.len(),
        ),
        !moved ==> final(call)@ == old(call)@ && (old(call)@.requests.closed || old(
            call,
        )@.requests.pending().len() > 0),
{
    let ghost before = call@;
    let ghost total = requests@.len();
    proof {
        call.lemma_view_wf();
    }
    if *sent < count {
        if call.requests_full() {
            return false;
        }
        let request = requests[*sent].duplicate();
        proof {
            lemma_caller_makes_headway(handler, before, CallOp::SendRequest(request), total);
        }
        match call.send_request(request) {
            Ok(Sent::Accepted) => {
                proof {
                    assert(call@.requests.sent =~= requests@.take(*sent + 1));
                }
                *sent = *sent + 1;
                true
            },
            _ => unreached(),
        }
    } else if call.pattern().has_request_sequence() && !call.requests_ended() {
        proof {
            lemma_caller_makes_headway(handler, before, CallOp::FinishRequests, total);
        }
        match call.finish_requests() {
            Ok(()) => true,
            Err(_) => unreached(),
        }
    } else {
        false
    }
}

/// The handler's turn: one step, unless the handler has finished. `false`: the
/// handler has finished, or awaits a request or room, and nothing has changed.
fn handler_steps(
    greeter: &MyGreeter,
    handler: &mut Handler,
    call: &mut Call,
    Ghost(total): Ghost<nat>,
) -> (moved: bool)
    requires
        old(call).wf(),
        under_way(old(handler)@, old(call)@, total),
    ensures
        final(call).wf(),
        under_way(final(handler)@, final(call)@, total),
        final(call)@.requests.sent == old(call)@.requests.sent,
        final(call)@.requests.closed == old(call)@.requests.closed,
        final(call)@.replies.delivered() == old(call)@.replies.delivered(),
        final(call)@.pattern == old(call)@.pattern,
        work_left(final(handler)@, final(call)@, total) <= work_left(
            old(handler)@,
            old(call)@,
            total,
        ),
        moved ==> work_left(final(handler)@, final(call)@, total) < work_left(
            old(handler)@,
            old(call)@,
            total,
        ),
        !moved ==> final(call)@ == old(call)@ && {
            ||| final(handler)@ is Finished
            ||| final(call)@.replies.is_full()
            ||| final(call)@.requests.pending().len() == 0 && !final(call)@.requests.closed
        },
{
    if handler.is_finished() {
        return false;
    }
    proof {
        call.lemma_view_wf();
    }
    let ghost before = call@;
    let ghost handling = handler@;
    let waiting = call.requests_waiting();
    let progress = greeter.serve(handler, call);
    proof {
        lemma_step_makes_headway(handling, before, handler@, call@, progress, total);
        assert(call@.replies.delivered() =~= before.replies.delivered());
    }
    match progress {
        Progress::Advanced | Progress::Pace(_) | Progress::Done => true,
        Progress::AwaitingRequest => waiting > 0,
        _ => false,
    }
}

/// The caller's turn to take: the next reply, if one has arrived. `Some(true)`:
/// the replies have ended and all are taken. `None`: nothing has arrived.
fn caller_takes(
    call: &mut Call,
    replies: &mut Vec<HelloReply>,
    Ghost(handler): Ghost<HandlerView>,
    Ghost(total): Ghost<nat>,
) -> (ended: Option<bool>)
    requires
        old(call).wf(),
        under_way(handler, old(call)@, total),
        old(replies)@ =~= old(call)@.replies.delivered(),
    ensures
        final(call).wf(),
        under_way(handler, final(call)@, total),
        final(replies)@ =~= final(call)@.replies.delivered(),
        final(call)@.requests == old(call)@.requests,
        final(call)@.pattern == old(call)@.pattern,
        match ended {
            Some(false) => work_left(handler, final(call)@, total) < work_left(
                handler,
                old(call)@,
                total,
            ),
            Some(true) => final(call)@ == old(call)@ && old(call)@.replies.closed && old(
                call,
            )@.replies.pending().len() == 0,
            None => final(call)@ == old(call)@ && !old(call)@.replies.closed && old(
                call,
            )@.replies.pending().len() == 0,
        },
{
    let ghost before = call@;
    proof {
        call.lemma_view_wf();
        if before.replies.taken < before.replies.sent.len() {
            lemma_caller_makes_headway(handler, before, CallOp::NextReply, total);
        }
    }
    match call.next_reply() {
        Some(Received::Item(reply)) => {
            replies.push(reply);
            proof {
                assert(replies@ =~= call@.replies.delivered());
            }
            Some(false)
        },
        Some(Received::EndOfSequence) => Some(true),
        Some(Received::Error(_)) => unreached(),
        None => None,
    }
}

/// Holds a whole conversation of `pattern` with the greeter and returns the
/// replies in the order of their arrival.
///
/// In each round the caller sends the next request if the call has room for
/// it, or ends the requests once all are sent; failing that the handler makes
/// a step; failing that the caller takes a reply. So the requests run ahead of
/// the handler as far as the window allows, and the replies wait for the
/// caller until the handler can go no further. Every round leaves less to do,
/// so the conversation ends; it ends with the call closed.
fn converse(greeter: &MyGreeter, pattern: Pattern, requests: &Vec<HelloRequest>) -> (replies: Vec<
    HelloReply,
>)
    requires
        pattern.streams_requests() || requests@.len() == 1,
    ensures
        texts(replies@) == replies_for(pattern, names(requests@)),
{
    let count = requests.len();
    let ghost total = count as nat;
    let mut call = Call::new(pattern);
    let mut handler = greeter.handler(pattern);
    let mut replies: Vec<HelloReply> = Vec::new();
    let mut sent: usize = 0;
    call.open();
    proof {
        lemma_accord_begins(pattern);
        call.lemma_view_wf();
        assert(replies@ =~= call@.replies.delivered());
    }
    loop
        invariant
            call.wf(),
            under_way(handler@, call@, total),
            total == requests@.len(),
            count == total,
            call@.pattern == pattern,
            sent == call@.requests.sent.len(),
            call@.requests.sent =~= requests@.take(sent as int),
            replies@ =~= call@.replies.delivered(),
        decreases work_left(handler@, call@, total),
    {
        proof {
            lemma_work_is_bounded(handler@, call@, total);
        }
        if caller_sends(&mut call, requests, count, &mut sent, Ghost(handler@)) {
            proof {
                lemma_work_is_bounded(handler@, call@, total);
            }
            continue ;
        }
        if handler_steps(greeter, &mut handler, &mut call, Ghost(total)) {
            proof {
                lemma_work_is_bounded(handler@, call@, total);
            }
            continue ;
        }
        match caller_takes(&mut call, &mut replies, Ghost(handler@), Ghost(total)) {
            Some(true) => {
                proof {
                    lemma_closed_call_is_answered(handler@, call@);
                    assert(call@.replies.delivered() =~= call@.replies.sent);
                    assert(requests@.take(sent as int) =~= requests@);
                }
                return replies;
            },
            Some(false) => {
                proof {
                    lemma_work_is_bounded(handler@, call@, total);
                }
            },
            None => {
                proof {
                    assert(false);
                }
            },
        }
    }
}

/// Unary: sends `request` and returns the one reply, which greets the request's name.
pub fn invoke_unary(greeter: &MyGreeter, request: HelloRequest) -> (outcome: Result<
    HelloReply,
    CallError,
>)
    ensures
        outcome matches Ok(reply) && reply@ == greeting(request@),
        outcome matches Ok(reply) && seq![reply@] == replies_for(Pattern::Unary, seq![request@]),
{
    let ghost asked = request@;
    let mut requests: Vec<HelloRequest> = Vec::new();
    requests.push(request);
    assert(names(requests@) =~= seq![asked]);
    let mut replies = converse(greeter, Pattern::Unary, &requests);
    assert(texts(replies@).len() == 1);
    assert(texts(replies@)[0] == replies@[0]@);
    match replies.pop() {
        Some(reply) => Ok(reply),
        None => unreached(),
    }
}

/// Server streaming: sends `request` and returns the replies in the order of
/// their arrival: [`REPLY_COUNT`] replies, each of
/// which greets the request's name, and then the end of the sequence.
pub fn invoke_server_streaming(greeter: &MyGreeter, request: HelloRequest) -> (outcome: Result<
    Vec<HelloReply>,
    CallError,
>)
    ensures
        outcome matches Ok(replies) && texts(replies@) == repeated(
            greeting(request@),
            REPLY_COUNT as nat,
        ),
        outcome matches Ok(replies) && texts(replies@) == replies_for(
            Pattern::ServerStreaming,
            seq![request@],
        ),
{
    let ghost asked = request@;
    let mut requests: Vec<HelloRequest> = Vec::new();
    requests.push(request);
    assert(names(requests@) =~= seq![asked]);
    Ok(converse(greeter, Pattern::ServerStreaming, &requests))
}

/// Client streaming: sends `requests` in order and returns the one reply, which
/// greets the number of the requests, also where there is none.
pub fn invoke_client_streaming(greeter: &MyGreeter, requests: Vec<HelloRequest>) -> (outcome:
    Result<HelloReply, CallError>)
    ensures
        outcome matches Ok(reply) && reply@ == greeting(decimal(requests@.len())),
        outcome matches Ok(reply) && seq![reply@] == replies_for(
            Pattern::ClientStreaming,
            names(requests@),
        ),
{
    let mut replies = converse(greeter, Pattern::ClientStreaming, &requests);
    assert(texts(replies@).len() == 1);
    assert(texts(replies@)[0] == replies@[0]@);
    assert(names(requests@).len() == requests@.len());
    match replies.pop() {
        Some(reply) => Ok(reply),
        None => unreached(),
    }
}

/// Bidirectional streaming: sends `requests` in order and returns the replies in
/// the order of their arrival. There is one reply for each request, in the same
/// order, and it greets that request's name; no request gives no reply.
pub fn invoke_bidirectional(greeter: &MyGreeter, requests: Vec<HelloRequest>) -> (outcome: Result<
    Vec<HelloReply>,
    CallError,
>)
    ensures
        outcome matches Ok(replies) && texts(replies@) == greetings(names(requests@)),
        outcome matches Ok(replies) && texts(replies@) == replies_for(
            Pattern::Bidirectional,
            names(requests@),
        ),
{
    Ok(converse(greeter, Pattern::Bidirectional, &requests))
}

/// The names that the example invocation of `pattern` sends: `Tonic` where the
/// pattern has one request, `1` to `5` where it has a sequence of them.
pub open spec fn example_subjects(pattern: Pattern) -> Seq<Seq<char>> {
    if pattern.streams_requests() {
        seq!["1"@, "2"@, "3"@, "4"@, "5"@]
    } else {
        seq!["Tonic"@]
    }
}

/// The request of the example invocations with one request.
pub fn example_request() -> (request: HelloRequest)
    ensures
        seq![request@] == example_subjects(Pattern::Unary),
        seq![request@] == example_subjects(Pattern::ServerStreaming),
{
    HelloRequest::new("Tonic")
}

/// The requests of the example invocations with a sequence of requests.
pub fn example_requests() -> (requests: Vec<HelloRequest>)
    ensures
        names(requests@) == example_subjects(Pattern::ClientStreaming),
        names(requests@) == example_subjects(Pattern::Bidirectional),
{
    let mut requests: Vec<HelloRequest> = Vec::new();
    requests.push(HelloRequest::new("1"));
    requests.push(HelloRequest::new("2"));
    requests.push(HelloRequest::new("3"));
    requests.push(HelloRequest::new("4"));
    requests.push(HelloRequest::new("5"));
    assert(names(requests@) =~= seq!["1"@, "2"@, "3"@, "4"@, "5"@]);
    requests
}

/// The example unary invocation: greets `Tonic` and surfaces the reply.
pub fn say_hello(greeter: &MyGreeter) -> (outcome: Result<Vec<HelloReply>, CallError>)
    ensures
        outcome matches Ok(replies) && texts(replies@) == replies_for(
            Pattern::Unary,
            example_subjects(Pattern::Unary),
        ),
{
    let reply = invoke_unary(greeter, example_request())?;
    let mut replies: Vec<HelloReply> = Vec::new();
    replies.push(reply);
    assert(texts(replies@) =~= seq![reply@]);
    Ok(replies)
}

/// The example server-streaming invocation: greets `Tonic` and surfaces each reply.
pub fn server_streaming(greeter: &MyGreeter) -> (outcome: Result<Vec<HelloReply>, CallError>)
    ensures
        outcome matches Ok(replies) && texts(replies@) == replies_for(
            Pattern::ServerStreaming,
            example_subjects(Pattern::ServerStreaming),
        ),
{
    invoke_server_streaming(greeter, example_request())
}

/// The example client-streaming invocation: sends `1` to `5` and surfaces the reply.
pub fn client_streaming(greeter: &MyGreeter) -> (outcome: Result<Vec<HelloReply>, CallError>)
    ensures
        outcome matches Ok(replies) && texts(replies@) == replies_for(
            Pattern::ClientStreaming,
            example_subjects(Pattern::ClientStreaming),
        ),
{
    let reply = invoke_client_streaming(greeter, example_requests())?;
    let mut replies: Vec<HelloReply> = Vec::new();
    replies.push(reply);
    assert(texts(replies@) =~= seq![reply@]);
    Ok(replies)
}

/// The example bidirectional invocation: sends `1` to `5` and surfaces each reply.
pub fn bidirectional_streaming(greeter: &MyGreeter) -> (outcome: Result<
    Vec<HelloReply>,
    CallError,
>)
    ensures
        outcome matches Ok(replies) && texts(replies@) == replies_for(
            Pattern::Bidirectional,
            example_subjects(Pattern::Bidirectional),
        ),
{
    invoke_bidirectional(greeter, example_requests())
}

/// Runs the example invocation that `selector` names, and returns its replies.
///
/// A selector that names no pattern is no error: nothing is invoked, and the
/// result is `None`.
pub fn run(selector: &str, greeter: &MyGreeter) -> (outcome: Result<
    Option<Vec<HelloReply>>,
    CallError,
>)
    ensures
        match Pattern::selected(selector@) {
            None => outcome == Ok::<Option<Vec<HelloReply>>, CallError>(None),
            Some(pattern) => {
                &&& outcome matches Ok(Some(replies))
                &&& texts(replies@) == replies_for(pattern, example_subjects(pattern))
            },
        },
{
    let replies = match Pattern::from_selector(selector) {
        None => return Ok(None),
        Some(Pattern::Unary) => say_hello(greeter)?,
        Some(Pattern::ServerStreaming) => server_streaming(greeter)?,
        Some(Pattern::ClientStreaming) => client_streaming(greeter)?,
        Some(Pattern::Bidirectional) => bidirectional_streaming(greeter)?,
    };
    Ok(Some(replies))
}

/// `items` in another order: the result holds, at each place, the item that
/// `order` names for it. A permutation of the places reorders; `order` may also
/// repeat or leave out places.
pub open spec fn reordered<T>(items: Seq<T>, order: Seq<int>) -> Seq<T> {
    Seq::new(order.len(), |i: int| items[order[i]])
}

/// Repeating an invocation gives the same replies: what a call answers depends
/// on its pattern and on the names of its requests, and on nothing else. Two
/// invocations of one pattern whose requests have the same names, each
/// answered as the invocations of this module answer, have replies of the same
/// number and, place by place, of the same message.
pub proof fn lemma_invocations_repeat(
    pattern: Pattern,
    first: Seq<HelloRequest>,
    second: Seq<HelloRequest>,
    first_replies: Seq<HelloReply>,
    second_replies: Seq<HelloReply>,
)
    requires
        names(first) == names(second),
        texts(first_replies) == replies_for(pattern, names(first)),
        texts(second_replies) == replies_for(pattern, names(second)),
    ensures
        texts(first_replies) == texts(second_replies),
        first_replies.len() == second_replies.len(),
        forall|i: int|
            0 <= i < first_replies.len() ==> (#[trigger] first_replies[i]).message@
                == second_replies[i].message@,
{
    assert(texts(first_replies).len() == first_replies.len());
    assert(texts(second_replies).len() == second_replies.len());
    assert forall|i: int| 0 <= i < first_replies.len() implies (#[trigger] first_replies[i]).message@
        == second_replies[i].message@ by {
        assert(texts(first_replies)[i] == first_replies[i]@);
        assert(texts(second_replies)[i] == second_replies[i]@);
    }
}

/// A bidirectional call keeps the order of its requests: sending the requests
/// in another order gives the replies in that other order, each reply still
/// with the request that it answers.
pub proof fn lemma_echo_follows_order(subjects: Seq<Seq<char>>, order: Seq<int>)
    requires
        forall|i: int| 0 <= i < order.len() ==> 0 <= #[trigger] order[i] < subjects.len(),
    ensures
        replies_for(Pattern::Bidirectional, reordered(subjects, order)) == reordered(
            replies_for(Pattern::Bidirectional, subjects),
            order,
        ),
{
    assert(greetings(reordered(subjects, order)) =~= reordered(greetings(subjects), order));
}

/// In a bidirectional call the reply at each place answers the request at that
/// place, whatever stands before or after it.
pub proof fn lemma_echo_is_pointwise(subjects: Seq<Seq<char>>, place: int)
    requires
        0 <= place < subjects.len(),
    ensures
        replies_for(Pattern::Bidirectional, subjects).len() == subjects.len(),
        replies_for(Pattern::Bidirectional, subjects)[place] == greeting(subjects[place]),
{
}

} // verus!
