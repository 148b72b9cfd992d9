//! The service handler: what the greeter answers under each of the four patterns.
//!
//! A handler never waits. Where it has to await a request it returns `None`, and
//! is polled again once more of the call has arrived; where it wants to pause it
//! says for how long, and whoever drives it does the pausing.

use crate::call::{arrival_of, Call, CallView};
use crate::channel::Received;
use crate::error::{CallError, HandlerFault};
use crate::message::{decimal, greeting, greetings, HelloReply, HelloRequest};
use crate::pattern::Pattern;
use vstd::prelude::*;
use vstd::string::*;

verus! {

/// The number of replies to one server-streaming request.
pub const REPLY_COUNT: u8 = 3;

/// The pause before each streamed reply, in time units.
pub const PACE: u64 = 1;

/// `count` times `text`.
pub open spec fn repeated(text: Seq<char>, count: nat) -> Seq<Seq<char>> {
    Seq::new(count, |i: int| text)
}

/// What a call of `pattern` answers to requests of the names `subjects`: the
/// messages of its replies, in order. Unary and server streaming answer the
/// first name, and are called with one.
pub open spec fn replies_for(pattern: Pattern, subjects: Seq<Seq<char>>) -> Seq<Seq<char>> {
    match pattern {
        Pattern::Unary => seq![greeting(subjects[0])],
        Pattern::ServerStreaming => repeated(greeting(subjects[0]), REPLY_COUNT as nat),
        Pattern::ClientStreaming => seq![greeting(decimal(subjects.len()))],
        Pattern::Bidirectional => greetings(subjects),
    }
}

/// The greeter service. It keeps no state: what it answers depends on the
/// requests of the call alone.
#[derive(Debug, Default)]
pub struct MyGreeter {}

/// The mathematical model of a reply stream.
pub ghost struct ReplyStreamView {
    /// The name that every reply greets.
    pub subject: Seq<char>,
    /// How many replies are still to come.
    pub remaining: nat,
    /// Whether the pause before the next reply has been asked for.
    pub rested: bool,
}

/// The replies to one server-streaming request, produced one at a time.
#[derive(Debug)]
pub struct ReplyStream {
    subject: String,
    remaining: u8,
    rested: bool,
}

/// What a reply stream does next.
#[derive(Debug, PartialEq, Eq)]
pub enum StreamStep {
    /// Pause for so many time units, then poll again.
    Pace(u64),
    /// The next reply.
    Item(HelloReply),
    /// No reply is left.
    End,
}

impl View for ReplyStream {
    type V = ReplyStreamView;

    closed spec fn view(&self) -> ReplyStreamView {
        ReplyStreamView {
            subject: self.subject@,
            remaining: self.remaining as nat,
            rested: self.rested,
        }
    }
}

impl ReplyStream {
    /// Polls the stream: before each reply one pause of [`PACE`], after the last reply the end.
    pub fn poll_next(&mut self) -> (step: StreamStep)
        ensures
            if old(self)@.remaining == 0 {
                step is End && final(self)@ == old(self)@
            } else if !old(self)@.rested {
                step == StreamStep::Pace(PACE) && final(self)@ == (ReplyStreamView {
                    rested: true,
                    ..old(self)@
                })
            } else {
                &&& step matches StreamStep::Item(reply)
                &&& reply@ == greeting(old(self)@.subject)
                &&& final(self)@ == (ReplyStreamView {
                    remaining: (old(self)@.remaining - 1) as nat,
                    rested: false,
                    ..old(self)@
                })
            },
    {
        if self.remaining == 0 {
            StreamStep::End
        } else if !self.rested {
            self.rested = true;
            StreamStep::Pace(PACE)
        } else {
            self.remaining = self.remaining - 1;
            self.rested = false;
            StreamStep::Item(HelloReply::greeting_for(self.subject.as_str()))
        }
    }
}

/// The mathematical model of a request count.
pub ghost struct CountingView {
    /// The number of requests counted so far; `None` once there were too many to count.
    pub count: Option<nat>,
}

/// The reduction of a sequence of requests to their number.
#[derive(Debug)]
pub struct Counting {
    count: Option<u64>,
}

impl View for Counting {
    type V = CountingView;

    closed spec fn view(&self) -> CountingView {
        CountingView {
            count: match self.count {
                Some(n) => Some(n as nat),
                None => None,
            },
        }
    }
}

/// The number of requests that wait in `call` for the handler.
pub open spec fn waiting(call: CallView) -> nat {
    call.requests.pending().len()
}

impl Counting {
    /// A count that has `count` requests behind it already.
    pub fn starting_at(count: u64) -> (counting: Self)
        ensures
            counting@.count == Some(count as nat),
    {
        Counting { count: Some(count) }
    }

    /// The largest number that a count holds.
    pub open spec fn limit() -> nat {
        u64::MAX as nat
    }

    /// How many of the waiting requests one poll takes: all of them, or, where
    /// the count cannot hold them all, those that fit and the one that does not.
    pub open spec fn taken_by_poll(count: nat, waiting: nat) -> nat {
        if count + waiting <= Self::limit() {
            waiting
        } else {
            (Self::limit() - count + 1) as nat
        }
    }

    /// Counts the requests that have arrived, and answers once they have ended.
    ///
    /// Every waiting request is taken and counted. Then: on end-of-sequence the
    /// reply greets the count, also where the count is zero; on a failed call
    /// the answer is the call's error; where more may come the answer is `None`.
    /// A count that would pass `u64::MAX` ends the reduction with `CountOverflow`,
    /// now and on every later poll.
    pub fn poll(&mut self, call: &mut Call) -> (answer: Option<Result<HelloReply, CallError>>)
        requires
            old(call).wf(),
        ensures
            final(call).wf(),
            match old(self)@.count {
                None => {
                    &&& answer == Some(
                        Err::<HelloReply, CallError>(
                            CallError::Handler(HandlerFault::CountOverflow),
                        ),
                    )
                    &&& final(self)@ == old(self)@
                    &&& final(call)@ == old(call)@
                },
                Some(count) => match old(call)@.failure() {
                    Some(error) => {
                        &&& answer == Some(Err::<HelloReply, CallError>(error))
                        &&& final(self)@ == old(self)@
                        &&& final(call)@ == old(call)@
                    },
                    None => {
                        let taken = Self::taken_by_poll(count, waiting(old(call)@));
                        &&& final(call)@ == old(call)@.with_requests_taken(taken)
                        &&& if count + waiting(old(call)@) > Self::limit() {
                            &&& answer == Some(
                                Err::<HelloReply, CallError>(
                                    CallError::Handler(HandlerFault::CountOverflow),
                                ),
                            )
                            &&& final(self)@.count is None
                        } else {
                            &&& final(self)@.count == Some(count + waiting(old(call)@))
                            &&& if old(call)@.requests.closed {
                                &&& answer matches Some(Ok(reply))
                                &&& reply@ == greeting(decimal(count + waiting(old(call)@)))
                            } else {
                                answer is None
                            }
                        }
                    },
                },
            },
    {
        proof {
            call.lemma_view_wf();
        }
        loop
            invariant
                call.wf(),
                old(call)@.wf(),
                old(self)@.count is Some ==> old(call)@.failure() is None ==> {
                    &&& self@.count is Some
                    &&& call@.failure() is None
                    &&& old(call)@.requests.taken <= call@.requests.taken
                        <= call@.requests.sent.len()
                    &&& call@ == old(call)@.with_requests_taken(
                        (call@.requests.taken - old(call)@.requests.taken) as nat,
                    )
                    &&& self@.count->0 == old(self)@.count->0 + (call@.requests.taken - old(
                        call,
                    )@.requests.taken)
                },
                old(self)@.count is None || old(call)@.failure() is Some ==> {
                    &&& self@ == old(self)@
                    &&& call@ == old(call)@
                },
            decreases call@.requests.sent.len() - call@.requests.taken,
        {
            let count = match self.count {
                Some(count) => count,
                None => {
                    return Some(Err(CallError::Handler(HandlerFault::CountOverflow)));
                },
            };
            proof {
                call.lemma_view_wf();
            }
            match call.next_request() {
                None => {
                    return None;
                },
                Some(Received::Error(error)) => {
                    return Some(Err(error));
                },
                Some(Received::EndOfSequence) => {
                    return Some(Ok(HelloReply::counting(count)));
                },
                Some(Received::Item(_)) => {
                    if count == u64::MAX {
                        self.count = None;
                        return Some(Err(CallError::Handler(HandlerFault::CountOverflow)));
                    }
                    self.count = Some(count + 1);
                },
            }
        }
    }
}

/// The mathematical model of an echo.
pub ghost struct EchoView {
    /// The request that was taken when the echo began and is not answered yet.
    pub first: Option<HelloRequest>,
    /// Whether the echo still reads requests.
    pub live: bool,
}

/// The replies to a sequence of requests, one for each, produced one at a time.
#[derive(Debug)]
pub struct Echo {
    first: Option<HelloRequest>,
    live: bool,
}

impl View for Echo {
    type V = EchoView;

    closed spec fn view(&self) -> EchoView {
        EchoView { first: self.first, live: self.live }
    }
}

impl Echo {
    /// Polls the echo for its next reply.
    ///
    /// The request that was taken when the echo began is answered first. After
    /// it each request of the call is taken and answered in turn. The echo ends
    /// with the requests, and after an error; an echo that began on an empty
    /// sequence has ended from the start and reads nothing. `None`: the echo
    /// awaits a request.
    pub fn poll_next(&mut self, call: &mut Call) -> (arrival: Option<Received<HelloReply>>)
        requires
            old(call).wf(),
        ensures
            final(call).wf(),
            match old(self)@.first {
                Some(request) => {
                    &&& arrival matches Some(Received::Item(reply))
                    &&& reply@ == greeting(request@)
                    &&& final(self)@ == (EchoView { first: None, ..old(self)@ })
                    &&& final(call)@ == old(call)@
                },
                None => if !old(self)@.live {
                    &&& arrival == Some(Received::<HelloReply>::EndOfSequence)
                    &&& final(self)@ == old(self)@
                    &&& final(call)@ == old(call)@
                } else {
                    &&& final(call)@ == old(call)@.after_request_taken()
                    &&& match arrival_of(old(call)@.requests) {
                        None => arrival is None && final(self)@ == old(self)@,
                        Some(Received::Item(request)) => {
                            &&& arrival matches Some(Received::Item(reply))
                            &&& reply@ == greeting(request@)
                            &&& final(self)@ == old(self)@
                        },
                        Some(Received::EndOfSequence) => {
                            &&& arrival == Some(Received::<HelloReply>::EndOfSequence)
                            &&& final(self)@ == (EchoView { first: None, live: false })
                        },
                        Some(Received::Error(error)) => {
                            &&& arrival == Some(Received::<HelloReply>::Error(error))
                            &&& final(self)@ == (EchoView { first: None, live: false })
                        },
                    }
                },
            },
    {
        if let Some(request) = self.first.take() {
            return Some(Received::Item(HelloReply::greeting_for(request.name.as_str())));
        }
        if !self.live {
            return Some(Received::EndOfSequence);
        }
        match call.next_request() {
            None => None,
            Some(Received::Item(request)) => Some(
                Received::Item(HelloReply::greeting_for(request.name.as_str())),
            ),
            Some(Received::EndOfSequence) => {
                self.live = false;
                Some(Received::EndOfSequence)
            },
            Some(Received::Error(error)) => {
                self.live = false;
                Some(Received::Error(error))
            },
        }
    }
}

impl MyGreeter {
    /// Unary: the reply greets the request's name. It never fails.
    pub fn say_hello(&self, request: HelloRequest) -> (outcome: Result<HelloReply, CallError>)
        ensures
            outcome matches Ok(reply) && reply@ == greeting(request@),
    {
        Ok(HelloReply::greeting_for(request.name.as_str()))
    }

    /// Server streaming: a stream of [`REPLY_COUNT`] replies, each greeting the
    /// request's name, each after a pause of [`PACE`]. It never fails.
    pub fn server_streaming(&self, request: HelloRequest) -> (outcome: Result<
        ReplyStream,
        CallError,
    >)
        ensures
            outcome matches Ok(stream) && stream@ == (ReplyStreamView {
                subject: request@,
                remaining: REPLY_COUNT as nat,
                rested: false,
            }),
    {
        Ok(ReplyStream { subject: request.name, remaining: REPLY_COUNT, rested: false })
    }

    /// Client streaming: a count that starts at zero, to be polled on the call.
    pub fn client_streaming(&self) -> (counting: Counting)
        ensures
            counting@.count == Some(0nat),
    {
        Counting::starting_at(0)
    }

    /// Bidirectional streaming: looks at the first request before it decides
    /// what to answer.
    ///
    /// `None`: nothing has arrived yet. A failed call gives its error. Where the
    /// requests end before the first, the echo has ended from the start: no
    /// reply, no waiting. Otherwise the echo begins with the request that was
    /// taken, which it answers first.
    pub fn bidirectional_streaming(&self, call: &mut Call) -> (outcome: Option<
        Result<Echo, CallError>,
    >)
        requires
            old(call).wf(),
        ensures
            final(call).wf(),
            final(call)@ == old(call)@.after_request_taken(),
            match arrival_of(old(call)@.requests) {
                None => outcome is None,
                Some(Received::Error(error)) => outcome == Some(Err::<Echo, CallError>(error)),
                Some(Received::EndOfSequence) => {
                    &&& outcome matches Some(Ok(echo))
                    &&& echo@ == (EchoView { first: None, live: false })
                },
                Some(Received::Item(request)) => {
                    &&& outcome matches Some(Ok(echo))
                    &&& echo@ == (EchoView { first: Some(request), live: true })
                },
            },
    {
        match call.next_request() {
            None => None,
            Some(Received::Error(error)) => Some(Err(error)),
            Some(Received::EndOfSequence) => Some(Ok(Echo { first: None, live: false })),
            Some(Received::Item(request)) => Some(Ok(Echo { first: Some(request), live: true })),
        }
    }
}

} // verus!
