//! The invocation layer: one logical call, its two directions and its lifecycle.
//!
//! A call binds a pattern to a channel of requests and a channel of replies. A
//! direction that carries a sequence in the call's pattern is ended by an
//! explicit end-of-sequence; a direction that carries a single item ends with
//! that item. The call is seen from the caller's side: it is `Closing` once the
//! caller has nothing more to send, and `Closed` once the replies have ended
//! and the caller has taken them all.

use crate::channel::{Channel, ChannelView, Received, Sent};
use crate::error::{CallError, Violation};
use crate::message::{HelloReply, HelloRequest};
use crate::pattern::Pattern;
use vstd::prelude::*;

verus! {

/// The number of undelivered items that each direction of a call holds at most.
pub const WINDOW: usize = 8;

/// Where a call stands in its lifecycle.
#[derive(Clone, Copy, Debug, PartialEq, Eq, Structural)]
pub enum CallState {
    /// Created; no payload has been exchanged yet.
    Opening,
    /// Open; the caller may still send.
    Active,
    /// The caller has ended its side; the replies are still under way.
    Closing,
    /// Both directions have ended and every reply has been taken.
    Closed,
    /// Aborted by a transport, protocol or handler error.
    Failed,
}

/// Why a direction does not take another item, if it does not.
pub open spec fn send_violation(opened: bool, ended: bool, streams: bool) -> Option<Violation> {
    if !opened {
        Some(Violation::NotOpen)
    } else if ended {
        if streams {
            Some(Violation::SendAfterClose)
        } else {
            Some(Violation::IllegalSequence)
        }
    } else {
        None
    }
}

/// Why a direction does not take an explicit end-of-sequence, if it does not.
pub open spec fn finish_violation(opened: bool, ended: bool, streams: bool) -> Option<Violation> {
    if !opened {
        Some(Violation::NotOpen)
    } else if !streams {
        Some(Violation::IllegalSequence)
    } else if ended {
        Some(Violation::SendAfterClose)
    } else {
        None
    }
}

/// A direction after it has accepted `item`: one that carries a single item ends with it.
pub open spec fn direction_with<T>(direction: ChannelView<T>, item: T, streams: bool)
    -> ChannelView<T> {
    if streams {
        direction.with_sent(item)
    } else {
        direction.with_sent(item).with_closed()
    }
}

/// What a direction delivers: the receive rule of its channel.
pub open spec fn arrival_of<T>(direction: ChannelView<T>) -> Option<Received<T>> {
    match direction.fault {
        Some(error) => Some(Received::Error(error)),
        None => if direction.taken < direction.sent.len() {
            Some(Received::Item(direction.sent[direction.taken as int]))
        } else if direction.closed {
            Some(Received::EndOfSequence)
        } else {
            None
        },
    }
}

/// A direction after a delivery was asked for: one more item is taken where one was waiting.
pub open spec fn direction_after_arrival<T>(direction: ChannelView<T>) -> ChannelView<T> {
    if direction.fault is None && direction.taken < direction.sent.len() {
        direction.with_taken()
    } else {
        direction
    }
}

/// One direction of a call is sound for its pattern.
pub open spec fn direction_wf<T>(direction: ChannelView<T>, opened: bool, streams: bool) -> bool {
    &&& direction.wf()
    &&& direction.capacity == WINDOW
    &&& !opened ==> direction.sent.len() == 0 && !direction.closed
    &&& !streams ==> direction.sent.len() <= 1 && (direction.closed <==> direction.sent.len() == 1)
}

/// The mathematical model of a call.
pub ghost struct CallView {
    pub pattern: Pattern,
    pub opened: bool,
    pub requests: ChannelView<HelloRequest>,
    pub replies: ChannelView<HelloReply>,
}

impl CallView {
    /// A call of `pattern` through which nothing has passed.
    pub open spec fn fresh(pattern: Pattern) -> Self {
        CallView {
            pattern,
            opened: false,
            requests: ChannelView::fresh(WINDOW as nat),
            replies: ChannelView::fresh(WINDOW as nat),
        }
    }

    /// Both directions are sound for the pattern, and they have failed together or not at all.
    pub open spec fn wf(self) -> bool {
        &&& direction_wf(self.requests, self.opened, self.pattern.streams_requests())
        &&& direction_wf(self.replies, self.opened, self.pattern.streams_replies())
        &&& self.requests.fault == self.replies.fault
    }

    /// The error with which the call failed, if it did.
    pub open spec fn failure(self) -> Option<CallError> {
        self.requests.fault
    }

    /// Where the call stands: failed; else not yet opened; else active while
    /// the requests have not ended; else closed once the replies have ended
    /// and are all taken; else closing.
    pub open spec fn state(self) -> CallState {
        if self.failure() is Some {
            CallState::Failed
        } else if !self.opened {
            CallState::Opening
        } else if !self.requests.closed {
            CallState::Active
        } else if self.replies.closed && self.replies.pending().len() == 0 {
            CallState::Closed
        } else {
            CallState::Closing
        }
    }

    /// A closed or failed call changes no more.
    pub open spec fn is_terminal(self) -> bool {
        self.state() is Closed || self.state() is Failed
    }

    /// The terminal status: `Ok` of a closed call, the error of a failed one.
    pub open spec fn status(self) -> Option<Result<(), CallError>> {
        match self.failure() {
            Some(error) => Some(Err(error)),
            None => if self.state() is Closed {
                Some(Ok(()))
            } else {
                None
            },
        }
    }

    /// The call aborted with `error`: both directions fail and lose what was not delivered.
    pub open spec fn failed_with(self, error: CallError) -> Self {
        CallView {
            requests: self.requests.with_fault(error),
            replies: self.replies.with_fault(error),
            ..self
        }
    }

    /// The call after `error` struck it: a terminal call stays as it is.
    pub open spec fn struck_by(self, error: CallError) -> Self {
        if self.is_terminal() {
            self
        } else {
            self.failed_with(error)
        }
    }

    /// The call after it has accepted the request `item`.
    pub open spec fn with_request(self, item: HelloRequest) -> Self {
        CallView {
            requests: direction_with(self.requests, item, self.pattern.streams_requests()),
            ..self
        }
    }

    /// The call after it has accepted the reply `item`.
    pub open spec fn with_reply(self, item: HelloReply) -> Self {
        CallView {
            replies: direction_with(self.replies, item, self.pattern.streams_replies()),
            ..self
        }
    }

    /// The call after the caller has ended the requests.
    pub open spec fn with_requests_ended(self) -> Self {
        CallView { requests: self.requests.with_closed(), ..self }
    }

    /// The call after the handler has ended the replies.
    pub open spec fn with_replies_ended(self) -> Self {
        CallView { replies: self.replies.with_closed(), ..self }
    }

    /// The call after the handler has taken `count` of the requests that waited.
    pub open spec fn with_requests_taken(self, count: nat) -> Self {
        CallView {
            requests: ChannelView { taken: self.requests.taken + count, ..self.requests },
            ..self
        }
    }

    /// The call after the handler has asked for the next request.
    pub open spec fn after_request_taken(self) -> Self {
        CallView { requests: direction_after_arrival(self.requests), ..self }
    }

    /// The call after the caller has asked for the next reply.
    pub open spec fn after_reply_taken(self) -> Self {
        CallView { replies: direction_after_arrival(self.replies), ..self }
    }
}

/// An operation on a call.
pub ghost enum CallOp {
    Open,
    Fail(CallError),
    SendRequest(HelloRequest),
    SendReply(HelloReply),
    FinishRequests,
    FinishReplies,
    NextRequest,
    NextReply,
}

/// The call after an item was offered to one of its directions: `sent` is the
/// call with the item accepted.
pub open spec fn after_offer(call: CallView, violation: Option<Violation>, full: bool, sent: CallView)
    -> CallView {
    if call.failure() is Some {
        call
    } else {
        match violation {
            Some(violation) => call.struck_by(CallError::Protocol(violation)),
            None => if full {
                call
            } else {
                sent
            },
        }
    }
}

/// The answer to an item that was offered to a direction of a call.
pub open spec fn answer_to_offer<T>(
    failure: Option<CallError>,
    violation: Option<Violation>,
    full: bool,
    item: T,
) -> Result<Sent<T>, CallError> {
    match failure {
        Some(error) => Err(error),
        None => match violation {
            Some(violation) => Err(CallError::Protocol(violation)),
            None => if full {
                Ok(Sent::Backpressure(item))
            } else {
                Ok(Sent::Accepted)
            },
        },
    }
}

/// The answer to an end-of-sequence that was signaled on a direction of a call.
pub open spec fn answer_to_finish(failure: Option<CallError>, violation: Option<Violation>)
    -> Result<(), CallError> {
    match failure {
        Some(error) => Err(error),
        None => match violation {
            Some(violation) => Err(CallError::Protocol(violation)),
            None => Ok(()),
        },
    }
}

impl CallView {
    /// Why the requests do not take another item, if they do not.
    pub open spec fn request_violation(self) -> Option<Violation> {
        send_violation(self.opened, self.requests.closed, self.pattern.streams_requests())
    }

    /// Why the replies do not take another item, if they do not.
    pub open spec fn reply_violation(self) -> Option<Violation> {
        send_violation(self.opened, self.replies.closed, self.pattern.streams_replies())
    }

    /// Why the requests do not take an end-of-sequence, if they do not.
    pub open spec fn requests_end_violation(self) -> Option<Violation> {
        finish_violation(self.opened, self.requests.closed, self.pattern.streams_requests())
    }

    /// Why the replies do not take an end-of-sequence, if they do not.
    pub open spec fn replies_end_violation(self) -> Option<Violation> {
        finish_violation(self.opened, self.replies.closed, self.pattern.streams_replies())
    }

    /// The call after `op`: the transition function of the lifecycle.
    ///
    /// A failed call is changed by nothing. A violation aborts the call, unless
    /// it is closed. An item that finds its direction full is handed back and
    /// changes nothing.
    pub open spec fn after(self, op: CallOp) -> CallView {
        match op {
            CallOp::Open => CallView { opened: self.failure() is None || self.opened, ..self },
            CallOp::Fail(error) => self.struck_by(error),
            CallOp::SendRequest(item) => after_offer(
                self,
                self.request_violation(),
                self.requests.is_full(),
                self.with_request(item),
            ),
            CallOp::SendReply(item) => after_offer(
                self,
                self.reply_violation(),
                self.replies.is_full(),
                self.with_reply(item),
            ),
            CallOp::FinishRequests => after_offer(
                self,
                self.requests_end_violation(),
                false,
                self.with_requests_ended(),
            ),
            CallOp::FinishReplies => after_offer(
                self,
                self.replies_end_violation(),
                false,
                self.with_replies_ended(),
            ),
            CallOp::NextRequest => self.after_request_taken(),
            CallOp::NextReply => self.after_reply_taken(),
        }
    }

    /// How far the call has come: the states in the order of the lifecycle.
    pub open spec fn stage(self) -> nat {
        match self.state() {
            CallState::Opening => 0,
            CallState::Active => 1,
            CallState::Closing => 2,
            CallState::Closed => 3,
            CallState::Failed => 4,
        }
    }

    /// Every operation leaves a sound call sound.
    pub proof fn lemma_after_keeps_wf(self, op: CallOp)
        requires
            self.wf(),
        ensures
            self.after(op).wf(),
    {
    }

    /// The pattern of a call is fixed when the call is created.
    pub proof fn lemma_pattern_is_fixed(self, op: CallOp)
        ensures
            self.after(op).pattern == self.pattern,
    {
    }

    /// A closed or failed call stays what it is: no operation changes its state
    /// or its terminal status.
    pub proof fn lemma_terminal_is_final(self, op: CallOp)
        requires
            self.wf(),
            self.is_terminal(),
        ensures
            self.after(op).state() == self.state(),
            self.after(op).status() == self.status(),
    {
    }

    /// A call fails once: the error of a failed call is the one error that it
    /// ever reports, and no operation changes a failed call.
    pub proof fn lemma_failure_is_single(self, op: CallOp)
        requires
            self.wf(),
            self.failure() is Some,
        ensures
            self.after(op) == self,
    {
    }

    /// The lifecycle runs one way: `Opening`, `Active`, `Closing`, `Closed`, with
    /// `Failed` reachable from each state before `Closed`. No operation takes a
    /// call back to an earlier state.
    pub proof fn lemma_lifecycle_runs_forward(self, op: CallOp)
        requires
            self.wf(),
        ensures
            self.stage() <= self.after(op).stage(),
            self.after(op).state() is Failed && !(self.state() is Failed) ==> !(self.state()
                is Closed),
    {
    }

    /// What was delivered stays delivered, and what was sent keeps its place: an
    /// operation adds at most one item at the end of what a direction has
    /// sent, and takes at most the next item in order. A failure takes nothing
    /// back.
    pub proof fn lemma_order_is_kept(self, op: CallOp)
        requires
            self.wf(),
        ensures
            self.after(op).requests.sent.take(self.requests.sent.len() as int)
                == self.requests.sent,
            self.after(op).replies.sent.take(self.replies.sent.len() as int) == self.replies.sent,
            self.after(op).requests.sent.len() <= self.requests.sent.len() + 1,
            self.after(op).replies.sent.len() <= self.replies.sent.len() + 1,
            self.requests.taken <= self.after(op).requests.taken <= self.requests.taken + 1,
            self.replies.taken <= self.after(op).replies.taken <= self.replies.taken + 1,
    {
        assert(self.after(op).requests.sent.take(self.requests.sent.len() as int)
            =~= self.requests.sent);
        assert(self.after(op).replies.sent.take(self.replies.sent.len() as int)
            =~= self.replies.sent);
    }

    /// An abort releases whoever waits on the call: once a call that was under
    /// way is aborted, neither side is told to wait any more. Both directions
    /// deliver the error, the status is that error, and what was not delivered
    /// is gone, while what was delivered stays delivered.
    pub proof fn lemma_abort_releases_the_waiting(self, error: CallError)
        requires
            self.wf(),
            !self.is_terminal(),
        ensures
            self.after(CallOp::Fail(error)).state() is Failed,
            self.after(CallOp::Fail(error)).status() == Some(Err::<(), CallError>(error)),
            arrival_of(self.after(CallOp::Fail(error)).requests) == Some(
                Received::<HelloRequest>::Error(error),
            ),
            arrival_of(self.after(CallOp::Fail(error)).replies) == Some(
                Received::<HelloReply>::Error(error),
            ),
            self.after(CallOp::Fail(error)).requests.pending().len() == 0,
            self.after(CallOp::Fail(error)).replies.pending().len() == 0,
            self.after(CallOp::Fail(error)).requests.delivered() == self.requests.delivered(),
            self.after(CallOp::Fail(error)).replies.delivered() == self.replies.delivered(),
    {
    }

    /// When a call is closed: both directions have ended and every reply was
    /// taken. In a pattern with a single request that request was sent, and in
    /// a pattern with a single reply that reply was sent and taken.
    pub proof fn lemma_closed_means_exchanged(self)
        requires
            self.wf(),
            self.state() is Closed,
        ensures
            self.requests.closed && self.replies.closed,
            self.replies.taken == self.replies.sent.len(),
            !self.pattern.streams_requests() ==> self.requests.sent.len() == 1,
            !self.pattern.streams_replies() ==> self.replies.sent.len() == 1,
            self.status() == Some(Ok::<(), CallError>(())),
    {
    }
}

/// One logical invocation under a fixed pattern.
pub struct Call {
    pattern: Pattern,
    opened: bool,
    requests: Channel<HelloRequest>,
    replies: Channel<HelloReply>,
}

impl View for Call {
    type V = CallView;

    closed spec fn view(&self) -> CallView {
        CallView {
            pattern: self.pattern,
            opened: self.opened,
            requests: self.requests@,
            replies: self.replies@,
        }
    }
}

impl Call {
    /// The two channels are sound, and so is the model.
    pub closed spec fn wf(&self) -> bool {
        &&& self.requests.wf()
        &&& self.replies.wf()
        &&& self@.wf()
    }

    /// A well-formed call has a well-formed model.
    pub proof fn lemma_view_wf(&self)
        requires
            self.wf(),
        ensures
            self@.wf(),
    {
    }

    /// A call of `pattern`, in state `Opening`. The pattern stays fixed for the call's life.
    pub fn new(pattern: Pattern) -> (call: Self)
        ensures
            call.wf(),
            call@ == CallView::fresh(pattern),
    {
        Call { pattern, opened: false, requests: Channel::new(WINDOW), replies: Channel::new(WINDOW) }
    }

    /// The pattern of the call.
    pub fn pattern(&self) -> (pattern: Pattern)
        ensures
            pattern == self@.pattern,
    {
        self.pattern
    }

    /// Where the call stands in its lifecycle.
    pub fn state(&self) -> (state: CallState)
        requires
            self.wf(),
        ensures
            state == self@.state(),
    {
        if self.requests.fault().is_some() {
            CallState::Failed
        } else if !self.opened {
            CallState::Opening
        } else if !self.requests.is_closed() {
            CallState::Active
        } else if self.replies.is_closed() && self.replies.len() == 0 {
            CallState::Closed
        } else {
            CallState::Closing
        }
    }

    /// The terminal status, once the caller can observe one.
    pub fn status(&self) -> (status: Option<Result<(), CallError>>)
        requires
            self.wf(),
        ensures
            status == self@.status(),
    {
        match self.requests.fault() {
            Some(error) => Some(Err(error)),
            None => match self.state() {
                CallState::Closed => Some(Ok(())),
                _ => None,
            },
        }
    }

    /// The error with which the call failed, if it did.
    pub fn failure(&self) -> (failure: Option<CallError>)
        ensures
            failure == self@.failure(),
    {
        self.requests.fault()
    }

    /// The number of requests that wait for the handler.
    pub fn requests_waiting(&self) -> (count: usize)
        requires
            self.wf(),
        ensures
            count == self@.requests.pending().len(),
    {
        self.requests.len()
    }

    /// The number of replies that wait for the caller.
    pub fn replies_waiting(&self) -> (count: usize)
        requires
            self.wf(),
        ensures
            count == self@.replies.pending().len(),
    {
        self.replies.len()
    }

    /// Whether the requests have ended.
    pub fn requests_ended(&self) -> (ended: bool)
        ensures
            ended == self@.requests.closed,
    {
        self.requests.is_closed()
    }

    /// Whether the replies have ended.
    pub fn replies_ended(&self) -> (ended: bool)
        ensures
            ended == self@.replies.closed,
    {
        self.replies.is_closed()
    }

    /// Whether the replies have no room for another item.
    pub fn replies_full(&self) -> (full: bool)
        requires
            self.wf(),
        ensures
            full == self@.replies.is_full(),
    {
        self.replies.is_full()
    }

    /// Whether the requests have no room for another item.
    pub fn requests_full(&self) -> (full: bool)
        requires
            self.wf(),
        ensures
            full == self@.requests.is_full(),
    {
        self.requests.is_full()
    }

    /// Opens the call: `Opening` becomes `Active`. On a call that is open, closed or failed
    /// this changes nothing.
    pub fn open(&mut self)
        requires
            old(self).wf(),
        ensures
            final(self).wf(),
            final(self)@ == old(self)@.after(CallOp::Open),
    {
        if self.requests.fault().is_none() {
            self.opened = true;
        }
    }

    /// Aborts the call with `error`, unless it is closed or has failed already:
    /// what was not delivered is discarded, and `error` is the one error that
    /// every later operation reports.
    pub fn fail(&mut self, error: CallError)
        requires
            old(self).wf(),
        ensures
            final(self).wf(),
            final(self)@ == old(self)@.after(CallOp::Fail(error)),
    {
        match self.state() {
            CallState::Closed | CallState::Failed => {},
            _ => {
                self.requests.fail(error);
                self.replies.fail(error);
            },
        }
    }

    /// Sends a request.
    ///
    /// A failed call answers with its error. A call that is not open, or whose
    /// requests have ended, answers with the violation and is aborted with it
    /// (a closed call stays closed). Where the requests are full the item comes
    /// back. Otherwise the item is accepted, and in a pattern with a single
    /// request the requests end with it.
    pub fn send_request(&mut self, item: HelloRequest) -> (outcome: Result<
        Sent<HelloRequest>,
        CallError,
    >)
        requires
            old(self).wf(),
        ensures
            final(self).wf(),
            outcome == answer_to_offer(
                old(self)@.failure(),
                old(self)@.request_violation(),
                old(self)@.requests.is_full(),
                item,
            ),
            final(self)@ == old(self)@.after(CallOp::SendRequest(item)),
    {
        if let Some(error) = self.requests.fault() {
            return Err(error);
        }
        let streams = self.pattern.has_request_sequence();
        if !self.opened {
            return Err(self.violate(Violation::NotOpen));
        }
        if self.requests.is_closed() {
            let violation = if streams {
                Violation::SendAfterClose
            } else {
                Violation::IllegalSequence
            };
            return Err(self.violate(violation));
        }
        offer(&mut self.requests, item, streams)
    }

    /// Sends a reply. The rules are those of [`Call::send_request`], on the replies.
    pub fn send_reply(&mut self, item: HelloReply) -> (outcome: Result<Sent<HelloReply>, CallError>)
        requires
            old(self).wf(),
        ensures
            final(self).wf(),
            outcome == answer_to_offer(
                old(self)@.failure(),
                old(self)@.reply_violation(),
                old(self)@.replies.is_full(),
                item,
            ),
            final(self)@ == old(self)@.after(CallOp::SendReply(item)),
    {
        if let Some(error) = self.requests.fault() {
            return Err(error);
        }
        let streams = self.pattern.has_reply_sequence();
        if !self.opened {
            return Err(self.violate(Violation::NotOpen));
        }
        if self.replies.is_closed() {
            let violation = if streams {
                Violation::SendAfterClose
            } else {
                Violation::IllegalSequence
            };
            return Err(self.violate(violation));
        }
        offer(&mut self.replies, item, streams)
    }

    /// Signals the end of the requests.
    ///
    /// Only a pattern whose requests form a sequence has an end to signal: in
    /// the others this is `IllegalSequence`. On requests that have ended it is
    /// `SendAfterClose`, on a call that is not open `NotOpen`. Each violation
    /// aborts the call (a closed call stays closed).
    pub fn finish_requests(&mut self) -> (outcome: Result<(), CallError>)
        requires
            old(self).wf(),
        ensures
            final(self).wf(),
            outcome == answer_to_finish(old(self)@.failure(), old(self)@.requests_end_violation()),
            final(self)@ == old(self)@.after(CallOp::FinishRequests),
    {
        if let Some(error) = self.requests.fault() {
            return Err(error);
        }
        if !self.opened {
            return Err(self.violate(Violation::NotOpen));
        }
        if !self.pattern.has_request_sequence() {
            return Err(self.violate(Violation::IllegalSequence));
        }
        if self.requests.is_closed() {
            return Err(self.violate(Violation::SendAfterClose));
        }
        self.requests.close()
    }

    /// Signals the end of the replies. The rules are those of
    /// [`Call::finish_requests`], on the replies.
    pub fn finish_replies(&mut self) -> (outcome: Result<(), CallError>)
        requires
            old(self).wf(),
        ensures
            final(self).wf(),
            outcome == answer_to_finish(old(self)@.failure(), old(self)@.replies_end_violation()),
            final(self)@ == old(self)@.after(CallOp::FinishReplies),
    {
        if let Some(error) = self.requests.fault() {
            return Err(error);
        }
        if !self.opened {
            return Err(self.violate(Violation::NotOpen));
        }
        if !self.pattern.has_reply_sequence() {
            return Err(self.violate(Violation::IllegalSequence));
        }
        if self.replies.is_closed() {
            return Err(self.violate(Violation::SendAfterClose));
        }
        self.replies.close()
    }

    /// Takes the next request, as the handler's side does: the requests in the
    /// order in which they were sent, then `EndOfSequence`; the call's error
    /// once it has failed; `None` where the handler would wait.
    pub fn next_request(&mut self) -> (arrival: Option<Received<HelloRequest>>)
        requires
            old(self).wf(),
        ensures
            final(self).wf(),
            arrival == arrival_of(old(self)@.requests),
            final(self)@ == old(self)@.after(CallOp::NextRequest),
    {
        self.requests.receive()
    }

    /// Takes the next reply, as the caller's side does: the replies in the
    /// order in which they were sent, then `EndOfSequence`; the call's error
    /// once it has failed; `None` where the caller would wait.
    pub fn next_reply(&mut self) -> (arrival: Option<Received<HelloReply>>)
        requires
            old(self).wf(),
        ensures
            final(self).wf(),
            arrival == arrival_of(old(self)@.replies),
            final(self)@ == old(self)@.after(CallOp::NextReply),
    {
        self.replies.receive()
    }

    /// Aborts the call for `violation`, unless it is closed, and hands the error back.
    fn violate(&mut self, violation: Violation) -> (error: CallError)
        requires
            old(self).wf(),
            old(self)@.failure() is None,
        ensures
            final(self).wf(),
            error == CallError::Protocol(violation),
            final(self)@ == old(self)@.struck_by(error),
    {
        let error = CallError::Protocol(violation);
        self.fail(error);
        error
    }
}

/// Offers `item` to a direction that is open and has not failed: a direction
/// that carries a single item ends with the item it accepts.
fn offer<T>(direction: &mut Channel<T>, item: T, streams: bool) -> (outcome: Result<
    Sent<T>,
    CallError,
>)
    requires
        old(direction).wf(),
        old(direction)@.refusal() is None,
    ensures
        final(direction).wf(),
        if old(direction)@.is_full() {
            outcome == Ok::<Sent<T>, CallError>(Sent::Backpressure(item)) && final(direction)@
                == old(direction)@
        } else {
            outcome == Ok::<Sent<T>, CallError>(Sent::Accepted) && final(direction)@
                == direction_with(old(direction)@, item, streams)
        },
{
    let outcome = direction.send(item);
    if !streams {
        if let Ok(Sent::Accepted) = outcome {
            let _ = direction.close();
        }
    }
    outcome
}

} // verus!
