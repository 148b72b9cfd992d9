//! The handler's side of a call: one handler per pattern, driven step by step.
//!
//! A [`Handler`] is chosen once, when the call is created. [`MyGreeter::serve`]
//! then makes one step of it on the call. A step sends at most one reply or
//! end-of-sequence; the counting handler takes every request that waits, the
//! others take one at most. A handler looks for room in the replies before it
//! takes a request, so that no request is consumed whose reply cannot be sent.

use crate::call::{arrival_of, Call, CallView};
use crate::channel::{Received, Sent};
use crate::error::{CallError, HandlerFault};
use crate::handlers::{
    waiting, Counting, CountingView, Echo, EchoView, MyGreeter, ReplyStream, ReplyStreamView,
    StreamStep, PACE, REPLY_COUNT,
};
use crate::message::{decimal, greeting, HelloReply};
use crate::pattern::Pattern;
use vstd::prelude::*;

verus! {

/// What a step of a handler came to.
#[derive(Clone, Copy, Debug, PartialEq, Eq, Structural)]
pub enum Progress {
    /// The handler went on and can make its next step at once.
    Advanced,
    /// The handler awaits a request.
    AwaitingRequest,
    /// The handler awaits room in the replies.
    AwaitingRoom,
    /// The handler wants to pause for so many time units before its next step.
    Pace(u64),
    /// The handler has sent all it had to send and has ended the replies.
    Done,
    /// The call has failed with this error.
    Failed(CallError),
}

/// The handler of one call, with what it has to remember between steps.
#[derive(Debug)]
pub enum Handler {
    /// Answers the one request.
    Unary,
    /// Streams replies to the one request; `None` until the request has arrived.
    ServerStreaming(Option<ReplyStream>),
    /// Counts the requests.
    ClientStreaming(Counting),
    /// Echoes the requests; `None` until the first arrival has been looked at.
    Bidirectional(Option<Echo>),
    /// Has nothing more to do.
    Finished,
}

/// The mathematical model of a handler.
pub ghost enum HandlerView {
    Unary,
    ServerStreaming(Option<ReplyStreamView>),
    ClientStreaming(CountingView),
    Bidirectional(Option<EchoView>),
    Finished,
}

impl View for Handler {
    type V = HandlerView;

    open spec fn view(&self) -> HandlerView {
        match self {
            Handler::Unary => HandlerView::Unary,
            Handler::ServerStreaming(None) => HandlerView::ServerStreaming(None),
            Handler::ServerStreaming(Some(stream)) => HandlerView::ServerStreaming(Some(stream@)),
            Handler::ClientStreaming(counting) => HandlerView::ClientStreaming(counting@),
            Handler::Bidirectional(None) => HandlerView::Bidirectional(None),
            Handler::Bidirectional(Some(echo)) => HandlerView::Bidirectional(Some(echo@)),
            Handler::Finished => HandlerView::Finished,
        }
    }
}

impl Handler {
    /// Whether the handler has nothing more to do.
    pub fn is_finished(&self) -> (finished: bool)
        ensures
            finished == (self@ is Finished),
    {
        match self {
            Handler::Finished => true,
            _ => false,
        }
    }
}

/// The handler with which a call of `pattern` begins.
pub open spec fn initial_handler(pattern: Pattern) -> HandlerView {
    match pattern {
        Pattern::Unary => HandlerView::Unary,
        Pattern::ServerStreaming => HandlerView::ServerStreaming(None),
        Pattern::ClientStreaming => HandlerView::ClientStreaming(CountingView { count: Some(0) }),
        Pattern::Bidirectional => HandlerView::Bidirectional(None),
    }
}

/// `after` is `before` with one more reply, whose message is `text`.
pub open spec fn replied(before: CallView, after: CallView, text: Seq<char>) -> bool {
    &&& after.replies.sent.len() == before.replies.sent.len() + 1
    &&& after.replies.sent.last()@ == text
    &&& after == before.with_reply(after.replies.sent.last())
}

/// The handler offered a reply of message `text` to a call with room for it:
/// the call took it, and the step came to `done`; or the call's rules forbid
/// the reply, and the call is aborted with the violation.
pub open spec fn reply_offered(
    before: CallView,
    after: CallView,
    text: Seq<char>,
    done: Progress,
    progress: Progress,
) -> bool {
    match before.reply_violation() {
        Some(violation) => {
            &&& progress == Progress::Failed(CallError::Protocol(violation))
            &&& after == before.struck_by(CallError::Protocol(violation))
        },
        None => progress == done && replied(before, after, text),
    }
}

/// The handler ended the replies: the call took the end-of-sequence, and the
/// step came to `Done`; or the call's rules forbid it, and the call is aborted
/// with the violation.
pub open spec fn end_offered(before: CallView, after: CallView, progress: Progress) -> bool {
    match before.replies_end_violation() {
        Some(violation) => {
            &&& progress == Progress::Failed(CallError::Protocol(violation))
            &&& after == before.struck_by(CallError::Protocol(violation))
        },
        None => progress == Progress::Done && after == before.with_replies_ended(),
    }
}

/// The handler as a step leaves it: `next` where the step went well, `Finished`
/// where the step ended the handler's work.
pub open spec fn handler_after(progress: Progress, next: HandlerView) -> HandlerView {
    if progress is Failed || progress is Done {
        HandlerView::Finished
    } else {
        next
    }
}

/// A step that changed nothing and came to `progress`.
pub open spec fn stalled(
    handler: HandlerView,
    call: CallView,
    handler_next: HandlerView,
    call_next: CallView,
    progress: Progress,
    expected: Progress,
) -> bool {
    progress == expected && handler_next == handler && call_next == call
}

/// One step of the unary handler.
pub open spec fn unary_step(
    call: CallView,
    handler_next: HandlerView,
    call_next: CallView,
    progress: Progress,
) -> bool {
    if call.replies.is_full() {
        stalled(HandlerView::Unary, call, handler_next, call_next, progress, Progress::AwaitingRoom)
    } else {
        match arrival_of(call.requests) {
            None => stalled(
                HandlerView::Unary,
                call,
                handler_next,
                call_next,
                progress,
                Progress::AwaitingRequest,
            ),
            Some(Received::Item(request)) => {
                &&& handler_next == HandlerView::Finished
                &&& reply_offered(
                    call.after_request_taken(),
                    call_next,
                    greeting(request@),
                    Progress::Done,
                    progress,
                )
            },
            Some(Received::EndOfSequence) => {
                &&& handler_next == HandlerView::Finished
                &&& call_next == call
                &&& progress == Progress::Done
            },
            Some(Received::Error(error)) => {
                &&& handler_next == HandlerView::Finished
                &&& call_next == call
                &&& progress == Progress::Failed(error)
            },
        }
    }
}

/// One step of the server-streaming handler.
pub open spec fn server_streaming_step(
    slot: Option<ReplyStreamView>,
    call: CallView,
    handler_next: HandlerView,
    call_next: CallView,
    progress: Progress,
) -> bool {
    match slot {
        None => match arrival_of(call.requests) {
            None => stalled(
                HandlerView::ServerStreaming(slot),
                call,
                handler_next,
                call_next,
                progress,
                Progress::AwaitingRequest,
            ),
            Some(Received::Item(request)) => {
                &&& progress == Progress::Advanced
                &&& call_next == call.after_request_taken()
                &&& handler_next == HandlerView::ServerStreaming(
                    Some(
                        ReplyStreamView {
                            subject: request@,
                            remaining: REPLY_COUNT as nat,
                            rested: false,
                        },
                    ),
                )
            },
            Some(Received::EndOfSequence) => {
                &&& handler_next == HandlerView::Finished
                &&& end_offered(call, call_next, progress)
            },
            Some(Received::Error(error)) => {
                &&& handler_next == HandlerView::Finished
                &&& call_next == call
                &&& progress == Progress::Failed(error)
            },
        },
        Some(stream) => if call.replies.is_full() {
            stalled(
                HandlerView::ServerStreaming(slot),
                call,
                handler_next,
                call_next,
                progress,
                Progress::AwaitingRoom,
            )
        } else if stream.remaining == 0 {
            &&& handler_next == HandlerView::Finished
            &&& end_offered(call, call_next, progress)
        } else if !stream.rested {
            &&& progress == Progress::Pace(PACE)
            &&& call_next == call
            &&& handler_next == HandlerView::ServerStreaming(
                Some(ReplyStreamView { rested: true, ..stream }),
            )
        } else {
            &&& reply_offered(
                call,
                call_next,
                greeting(stream.subject),
                Progress::Advanced,
                progress,
            )
            &&& handler_next == handler_after(
                progress,
                HandlerView::ServerStreaming(
                    Some(
                        ReplyStreamView {
                            remaining: (stream.remaining - 1) as nat,
                            rested: false,
                            ..stream
                        },
                    ),
                ),
            )
        },
    }
}

/// One step of the client-streaming handler.
pub open spec fn client_streaming_step(
    counting: CountingView,
    call: CallView,
    handler_next: HandlerView,
    call_next: CallView,
    progress: Progress,
) -> bool {
    let overflow = CallError::Handler(HandlerFault::CountOverflow);
    if call.replies.is_full() {
        stalled(
            HandlerView::ClientStreaming(counting),
            call,
            handler_next,
            call_next,
            progress,
            Progress::AwaitingRoom,
        )
    } else {
        match counting.count {
            None => {
                &&& handler_next == HandlerView::Finished
                &&& call_next == call.struck_by(overflow)
                &&& progress == Progress::Failed(overflow)
            },
            Some(count) => {
                let total = count + waiting(call);
                let drained = call.with_requests_taken(
                    Counting::taken_by_poll(count, waiting(call)),
                );
                if total > Counting::limit() {
                    &&& handler_next == HandlerView::Finished
                    &&& call_next == drained.struck_by(overflow)
                    &&& progress == Progress::Failed(overflow)
                } else if call.requests.closed {
                    &&& handler_next == HandlerView::Finished
                    &&& reply_offered(
                        drained,
                        call_next,
                        greeting(decimal(total)),
                        Progress::Done,
                        progress,
                    )
                } else {
                    &&& progress == Progress::AwaitingRequest
                    &&& call_next == drained
                    &&& handler_next == HandlerView::ClientStreaming(
                        CountingView { count: Some(total) },
                    )
                }
            },
        }
    }
}

/// One step of the bidirectional handler.
pub open spec fn bidirectional_step(
    slot: Option<EchoView>,
    call: CallView,
    handler_next: HandlerView,
    call_next: CallView,
    progress: Progress,
) -> bool {
    match slot {
        None => match arrival_of(call.requests) {
            None => stalled(
                HandlerView::Bidirectional(slot),
                call,
                handler_next,
                call_next,
                progress,
                Progress::AwaitingRequest,
            ),
            Some(Received::Item(request)) => {
                &&& progress == Progress::Advanced
                &&& call_next == call.after_request_taken()
                &&& handler_next == HandlerView::Bidirectional(
                    Some(EchoView { first: Some(request), live: true }),
                )
            },
            Some(Received::EndOfSequence) => {
                &&& progress == Progress::Advanced
                &&& call_next == call
                &&& handler_next == HandlerView::Bidirectional(
                    Some(EchoView { first: None, live: false }),
                )
            },
            Some(Received::Error(error)) => {
                &&& handler_next == HandlerView::Finished
                &&& call_next == call
                &&& progress == Progress::Failed(error)
            },
        },
        Some(echo) => if call.replies.is_full() {
            stalled(
                HandlerView::Bidirectional(slot),
                call,
                handler_next,
                call_next,
                progress,
                Progress::AwaitingRoom,
            )
        } else {
            match echo.first {
                Some(request) => {
                    &&& reply_offered(
                        call,
                        call_next,
                        greeting(request@),
                        Progress::Advanced,
                        progress,
                    )
                    &&& handler_next == handler_after(
                        progress,
                        HandlerView::Bidirectional(Some(EchoView { first: None, ..echo })),
                    )
                },
                None => if !echo.live {
                    &&& handler_next == HandlerView::Finished
                    &&& end_offered(call, call_next, progress)
                } else {
                    match arrival_of(call.requests) {
                        None => stalled(
                            HandlerView::Bidirectional(slot),
                            call,
                            handler_next,
                            call_next,
                            progress,
                            Progress::AwaitingRequest,
                        ),
                        Some(Received::Item(request)) => {
                            &&& reply_offered(
                                call.after_request_taken(),
                                call_next,
                                greeting(request@),
                                Progress::Advanced,
                                progress,
                            )
                            &&& handler_next == handler_after(
                                progress,
                                HandlerView::Bidirectional(slot),
                            )
                        },
                        Some(Received::EndOfSequence) => {
                            &&& handler_next == HandlerView::Finished
                            &&& end_offered(call, call_next, progress)
                        },
                        Some(Received::Error(error)) => {
                            &&& handler_next == HandlerView::Finished
                            &&& call_next == call
                            &&& progress == Progress::Failed(error)
                        },
                    }
                },
            }
        },
    }
}

/// One step of `handler` on `call`: the transition relation of the handler's side.
///
/// A failed call ends every handler. A finished handler stays finished.
pub open spec fn served(
    handler: HandlerView,
    call: CallView,
    handler_next: HandlerView,
    call_next: CallView,
    progress: Progress,
) -> bool {
    match call.failure() {
        Some(error) => {
            &&& progress == Progress::Failed(error)
            &&& call_next == call
            &&& handler_next == HandlerView::Finished
        },
        None => match handler {
            HandlerView::Finished => {
                &&& progress == Progress::Done
                &&& call_next == call
                &&& handler_next == HandlerView::Finished
            },
            HandlerView::Unary => unary_step(call, handler_next, call_next, progress),
            HandlerView::ServerStreaming(slot) => server_streaming_step(
                slot,
                call,
                handler_next,
                call_next,
                progress,
            ),
            HandlerView::ClientStreaming(counting) => client_streaming_step(
                counting,
                call,
                handler_next,
                call_next,
                progress,
            ),
            HandlerView::Bidirectional(slot) => bidirectional_step(
                slot,
                call,
                handler_next,
                call_next,
                progress,
            ),
        },
    }
}

/// A call whose requests form a sequence, just after the caller has ended that
/// sequence without sending anything: open, sound, nothing sent in either direction.
pub open spec fn ended_before_first_request(call: CallView) -> bool {
    &&& call.wf()
    &&& call.pattern.streams_requests()
    &&& call.opened
    &&& call.failure() is None
    &&& call.requests.sent.len() == 0
    &&& call.requests.closed
    &&& call.replies.sent.len() == 0
    &&& !call.replies.closed
}

/// An empty sequence of requests never leaves the handler waiting: two steps at
/// most bring it to `Done`, with the replies ended. The client-streaming
/// handler has then sent its one reply, which greets the count zero; the
/// bidirectional handler has sent none.
pub proof fn lemma_empty_requests_resolve(
    call: CallView,
    handler_1: HandlerView,
    call_1: CallView,
    progress_1: Progress,
    handler_2: HandlerView,
    call_2: CallView,
    progress_2: Progress,
)
    requires
        ended_before_first_request(call),
        served(initial_handler(call.pattern), call, handler_1, call_1, progress_1),
        served(handler_1, call_1, handler_2, call_2, progress_2),
    ensures
        !(progress_1 is AwaitingRequest) && !(progress_2 is AwaitingRequest),
        !(progress_1 is AwaitingRoom) && !(progress_2 is AwaitingRoom),
        progress_2 == Progress::Done,
        handler_2 == HandlerView::Finished,
        call_2.failure() is None,
        call_2.replies.closed,
        call_2.pattern is ClientStreaming ==> call_2.replies.sent.len() == 1
            && call_2.replies.sent[0]@ == greeting(decimal(0)),
        call_2.pattern is Bidirectional ==> call_2.replies.sent.len() == 0,
{
    assert(call.requests.pending().len() == 0);
    assert(call.replies.pending().len() == 0);
}

impl MyGreeter {
    /// The handler for a call of `pattern`: chosen once, when the call is created.
    pub fn handler(&self, pattern: Pattern) -> (handler: Handler)
        ensures
            handler@ == initial_handler(pattern),
    {
        match pattern {
            Pattern::Unary => Handler::Unary,
            Pattern::ServerStreaming => Handler::ServerStreaming(None),
            Pattern::ClientStreaming => Handler::ClientStreaming(self.client_streaming()),
            Pattern::Bidirectional => Handler::Bidirectional(None),
        }
    }

    /// Makes one step of `handler` on `call`, as [`served`] says: the step of
    /// the handler's pattern, which leaves the handler `Finished` once it is
    /// done or the call has failed.
    pub fn serve(&self, handler: &mut Handler, call: &mut Call) -> (progress: Progress)
        requires
            old(call).wf(),
        ensures
            final(call).wf(),
            served(old(handler)@, old(call)@, final(handler)@, final(call)@, progress),
    {
        proof {
            call.lemma_view_wf();
        }
        if let Some(error) = call.failure() {
            *handler = Handler::Finished;
            return Progress::Failed(error);
        }
        let mut taken = Handler::Finished;
        std::mem::swap(handler, &mut taken);
        match taken {
            Handler::Finished => Progress::Done,
            Handler::Unary => {
                let (next, progress) = self.serve_unary(call);
                *handler = next;
                progress
            },
            Handler::ServerStreaming(slot) => {
                let (next, progress) = self.serve_server_streaming(slot, call);
                *handler = next;
                progress
            },
            Handler::ClientStreaming(counting) => {
                let (next, progress) = self.serve_client_streaming(counting, call);
                *handler = next;
                progress
            },
            Handler::Bidirectional(slot) => {
                let (next, progress) = self.serve_bidirectional(slot, call);
                *handler = next;
                progress
            },
        }
    }

    fn serve_unary(&self, call: &mut Call) -> (step: (Handler, Progress))
        requires
            old(call).wf(),
            old(call)@.wf(),
            old(call)@.failure() is None,
        ensures
            final(call).wf(),
            unary_step(old(call)@, step.0@, final(call)@, step.1),
    {
        if call.replies_full() {
            return (Handler::Unary, Progress::AwaitingRoom);
        }
        match call.next_request() {
            None => (Handler::Unary, Progress::AwaitingRequest),
            Some(Received::EndOfSequence) => (Handler::Finished, Progress::Done),
            Some(Received::Error(error)) => (Handler::Finished, Progress::Failed(error)),
            Some(Received::Item(request)) => match self.say_hello(request) {
                Ok(reply) => (Handler::Finished, send(call, reply, Progress::Done)),
                Err(error) => {
                    call.fail(error);
                    (Handler::Finished, Progress::Failed(error))
                },
            },
        }
    }

    fn serve_server_streaming(&self, slot: Option<ReplyStream>, call: &mut Call) -> (step: (
        Handler,
        Progress,
    ))
        requires
            old(call).wf(),
            old(call)@.wf(),
            old(call)@.failure() is None,
        ensures
            final(call).wf(),
            server_streaming_step(
                match slot {
                    Some(stream) => Some(stream@),
                    None => None,
                },
                old(call)@,
                step.0@,
                final(call)@,
                step.1,
            ),
    {
        match slot {
            None => match call.next_request() {
                None => (Handler::ServerStreaming(None), Progress::AwaitingRequest),
                Some(Received::EndOfSequence) => (Handler::Finished, finish(call)),
                Some(Received::Error(error)) => (Handler::Finished, Progress::Failed(error)),
                Some(Received::Item(request)) => match self.server_streaming(request) {
                    Ok(stream) => (Handler::ServerStreaming(Some(stream)), Progress::Advanced),
                    Err(error) => {
                        call.fail(error);
                        (Handler::Finished, Progress::Failed(error))
                    },
                },
            },
            Some(stream) => {
                if call.replies_full() {
                    return (Handler::ServerStreaming(Some(stream)), Progress::AwaitingRoom);
                }
                let mut stream = stream;
                match stream.poll_next() {
                    StreamStep::End => (Handler::Finished, finish(call)),
                    StreamStep::Pace(units) => (
                        Handler::ServerStreaming(Some(stream)),
                        Progress::Pace(units),
                    ),
                    StreamStep::Item(reply) => {
                        let progress = send(call, reply, Progress::Advanced);
                        match progress {
                            Progress::Failed(_) => (Handler::Finished, progress),
                            _ => (Handler::ServerStreaming(Some(stream)), progress),
                        }
                    },
                }
            },
        }
    }

    fn serve_client_streaming(&self, counting: Counting, call: &mut Call) -> (step: (
        Handler,
        Progress,
    ))
        requires
            old(call).wf(),
            old(call)@.wf(),
            old(call)@.failure() is None,
        ensures
            final(call).wf(),
            client_streaming_step(counting@, old(call)@, step.0@, final(call)@, step.1),
    {
        if call.replies_full() {
            return (Handler::ClientStreaming(counting), Progress::AwaitingRoom);
        }
        let mut counting = counting;
        match counting.poll(call) {
            None => (Handler::ClientStreaming(counting), Progress::AwaitingRequest),
            Some(Ok(reply)) => (Handler::Finished, send(call, reply, Progress::Done)),
            Some(Err(error)) => {
                call.fail(error);
                (Handler::Finished, Progress::Failed(error))
            },
        }
    }

    fn serve_bidirectional(&self, slot: Option<Echo>, call: &mut Call) -> (step: (
        Handler,
        Progress,
    ))
        requires
            old(call).wf(),
            old(call)@.wf(),
            old(call)@.failure() is None,
        ensures
            final(call).wf(),
            bidirectional_step(
                match slot {
                    Some(echo) => Some(echo@),
                    None => None,
                },
                old(call)@,
                step.0@,
                final(call)@,
                step.1,
            ),
    {
        match slot {
            None => match self.bidirectional_streaming(call) {
                None => (Handler::Bidirectional(None), Progress::AwaitingRequest),
                Some(Ok(echo)) => (Handler::Bidirectional(Some(echo)), Progress::Advanced),
                Some(Err(error)) => (Handler::Finished, Progress::Failed(error)),
            },
            Some(echo) => {
                if call.replies_full() {
                    return (Handler::Bidirectional(Some(echo)), Progress::AwaitingRoom);
                }
                let mut echo = echo;
                match echo.poll_next(call) {
                    None => (Handler::Bidirectional(Some(echo)), Progress::AwaitingRequest),
                    Some(Received::EndOfSequence) => (Handler::Finished, finish(call)),
                    Some(Received::Error(error)) => (Handler::Finished, Progress::Failed(error)),
                    Some(Received::Item(reply)) => {
                        let progress = send(call, reply, Progress::Advanced);
                        match progress {
                            Progress::Failed(_) => (Handler::Finished, progress),
                            _ => (Handler::Bidirectional(Some(echo)), progress),
                        }
                    },
                }
            },
        }
    }
}

/// Sends `reply` on a call that has room for it.
fn send(call: &mut Call, reply: HelloReply, done: Progress) -> (progress: Progress)
    requires
        old(call).wf(),
        old(call)@.failure() is None,
        !old(call)@.replies.is_full(),
        !(done is Failed),
    ensures
        final(call).wf(),
        reply_offered(old(call)@, final(call)@, reply@, done, progress),
{
    match call.send_reply(reply) {
        Ok(Sent::Accepted) => done,
        Ok(Sent::Backpressure(_)) => Progress::AwaitingRoom,
        Err(error) => Progress::Failed(error),
    }
}

/// Ends the replies of a call.
fn finish(call: &mut Call) -> (progress: Progress)
    requires
        old(call).wf(),
        old(call)@.failure() is None,
    ensures
        final(call).wf(),
        end_offered(old(call)@, final(call)@, progress),
{
    match call.finish_replies() {
        Ok(()) => Progress::Done,
        Err(error) => Progress::Failed(error),
    }
}

} // verus!
