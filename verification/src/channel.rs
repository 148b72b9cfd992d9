//! The message channel: an ordered, bounded hand-off of items in one direction.
//!
//! A producer offers items with [`Channel::send`] and ends the sequence with
//! [`Channel::close`]; a consumer takes them with [`Channel::receive`]. Neither
//! operation blocks: where an asynchronous channel would suspend, `send` hands the
//! item back and `receive` returns `None`, and the caller tries again later.

use crate::error::{CallError, Violation};
use std::collections::VecDeque;
use vstd::prelude::*;

verus! {

/// What a consumer gets from a channel once something has arrived.
#[derive(Debug, PartialEq, Eq)]
pub enum Received<T> {
    /// The next item, in the order in which the items were sent.
    Item(T),
    /// The producer has closed the channel and every item has been delivered.
    EndOfSequence,
    /// The channel has failed.
    Error(CallError),
}

/// What became of an item that was offered to a channel.
#[derive(Debug, PartialEq, Eq)]
pub enum Sent<T> {
    /// The item was enqueued for delivery.
    Accepted,
    /// The channel is full: the item comes back, to be offered again later.
    Backpressure(T),
}

/// The mathematical model of a channel.
pub ghost struct ChannelView<T> {
    /// Every item that the channel has accepted, in the order of acceptance.
    pub sent: Seq<T>,
    /// How many of them have been delivered.
    pub taken: nat,
    /// The largest number of undelivered items that the channel holds.
    pub capacity: nat,
    /// Whether the producer has signaled end-of-sequence.
    pub closed: bool,
    /// The error with which the channel failed, if it did.
    pub fault: Option<CallError>,
}

impl<T> ChannelView<T> {
    /// An open channel through which nothing has passed.
    pub open spec fn fresh(capacity: nat) -> Self {
        ChannelView { sent: Seq::empty(), taken: 0, capacity, closed: false, fault: None }
    }

    /// The items that were accepted and wait for delivery. A failed channel has none.
    pub open spec fn pending(self) -> Seq<T> {
        if self.fault is Some {
            Seq::empty()
        } else {
            self.sent.skip(self.taken as int)
        }
    }

    /// The items that were delivered: the first `taken` of those sent.
    pub open spec fn delivered(self) -> Seq<T> {
        self.sent.take(self.taken as int)
    }

    /// No more was delivered than was sent, and no more waits than the channel holds.
    pub open spec fn wf(self) -> bool {
        &&& self.taken <= self.sent.len()
        &&& self.pending().len() <= self.capacity
    }

    /// Whether as many items wait as the channel holds.
    pub open spec fn is_full(self) -> bool {
        self.pending().len() >= self.capacity
    }

    /// Why the channel takes neither an item nor an end-of-sequence, if it does not.
    pub open spec fn refusal(self) -> Option<CallError> {
        if self.fault is Some {
            self.fault
        } else if self.closed {
            Some(CallError::Protocol(Violation::SendAfterClose))
        } else {
            None
        }
    }

    /// The channel after it has accepted `item`.
    pub open spec fn with_sent(self, item: T) -> Self {
        ChannelView { sent: self.sent.push(item), ..self }
    }

    /// The channel after it has delivered its next item.
    pub open spec fn with_taken(self) -> Self {
        ChannelView { taken: self.taken + 1, ..self }
    }

    /// The channel after its producer has signaled end-of-sequence.
    pub open spec fn with_closed(self) -> Self {
        ChannelView { closed: true, ..self }
    }

    /// The channel after it has failed with `error`.
    pub open spec fn with_fault(self, error: CallError) -> Self {
        ChannelView { fault: Some(error), ..self }
    }
}

/// A bounded first-in first-out channel with an explicit end-of-sequence.
pub struct Channel<T> {
    queue: VecDeque<T>,
    capacity: usize,
    closed: bool,
    fault: Option<CallError>,
    sent: Ghost<Seq<T>>,
    taken: Ghost<nat>,
}

impl<T> View for Channel<T> {
    type V = ChannelView<T>;

    closed spec fn view(&self) -> ChannelView<T> {
        ChannelView {
            sent: self.sent@,
            taken: self.taken@,
            capacity: self.capacity as nat,
            closed: self.closed,
            fault: self.fault,
        }
    }
}

impl<T> Channel<T> {
    /// The queue holds exactly the pending items of the model, and the model is well formed.
    pub closed spec fn wf(&self) -> bool {
        &&& self@.wf()
        &&& self.queue@ == self@.pending()
    }

    /// A well-formed channel has a well-formed model.
    pub proof fn lemma_view_wf(&self)
        requires
            self.wf(),
        ensures
            self@.wf(),
            self@.capacity <= usize::MAX,
    {
    }

    /// An open, empty channel that holds at most `capacity` undelivered items.
    pub fn new(capacity: usize) -> (channel: Self)
        ensures
            channel.wf(),
            channel@ == ChannelView::<T>::fresh(capacity as nat),
    {
        let channel = Channel {
            queue: VecDeque::new(),
            capacity,
            closed: false,
            fault: None,
            sent: Ghost(Seq::empty()),
            taken: Ghost(0),
        };
        assert(channel.queue@ =~= channel@.pending());
        channel
    }

    /// The largest number of undelivered items that the channel holds.
    pub fn capacity(&self) -> (n: usize)
        ensures
            n == self@.capacity,
    {
        self.capacity
    }

    /// The number of items that wait for delivery.
    pub fn len(&self) -> (n: usize)
        requires
            self.wf(),
        ensures
            n == self@.pending().len(),
    {
        self.queue.len()
    }

    /// Whether the channel has no room for another item.
    pub fn is_full(&self) -> (full: bool)
        requires
            self.wf(),
        ensures
            full == self@.is_full(),
    {
        self.queue.len() >= self.capacity
    }

    /// Whether the producer has signaled end-of-sequence.
    pub fn is_closed(&self) -> (closed: bool)
        ensures
            closed == self@.closed,
    {
        self.closed
    }

    /// The error with which the channel failed, if it did.
    pub fn fault(&self) -> (fault: Option<CallError>)
        ensures
            fault == self@.fault,
    {
        self.fault
    }

    /// Offers `item` for delivery.
    ///
    /// A failed channel answers with its error, a closed one with
    /// `SendAfterClose`; neither takes the item. A full channel hands the item
    /// back. Otherwise the item is enqueued behind those already sent.
    pub fn send(&mut self, item: T) -> (outcome: Result<Sent<T>, CallError>)
        requires
            old(self).wf(),
        ensures
            final(self).wf(),
            match old(self)@.refusal() {
                Some(error) => outcome == Err::<Sent<T>, CallError>(error) && final(self)@ == old(self)@,
                None => if old(self)@.is_full() {
                    outcome == Ok::<Sent<T>, CallError>(Sent::Backpressure(item)) && final(self)@
                        == old(self)@
                } else {
                    outcome == Ok::<Sent<T>, CallError>(Sent::Accepted) && final(self)@ == old(self)@.with_sent(item)
                },
            },
    {
        if let Some(error) = self.fault {
            return Err(error);
        }
        if self.closed {
            return Err(CallError::Protocol(Violation::SendAfterClose));
        }
        if self.queue.len() >= self.capacity {
            return Ok(Sent::Backpressure(item));
        }
        self.queue.push_back(item);
        proof {
            self.sent@ = self.sent@.push(item);
            assert(self@.pending() =~= old(self)@.pending().push(item));
        }
        Ok(Sent::Accepted)
    }

    /// Signals end-of-sequence: an operation of its own, distinct from sending an item.
    ///
    /// The consumer sees it after the last item that was sent. A failed channel
    /// answers with its error, a closed one with `SendAfterClose`.
    pub fn close(&mut self) -> (outcome: Result<(), CallError>)
        requires
            old(self).wf(),
        ensures
            final(self).wf(),
            match old(self)@.refusal() {
                Some(error) => outcome == Err::<(), CallError>(error) && final(self)@ == old(self)@,
                None => outcome == Ok::<(), CallError>(()) && final(self)@ == old(self)@.with_closed(),
            },
    {
        if let Some(error) = self.fault {
            return Err(error);
        }
        if self.closed {
            return Err(CallError::Protocol(Violation::SendAfterClose));
        }
        self.closed = true;
        Ok(())
    }

    /// Takes what has arrived, or `None` where nothing has: the consumer would wait.
    ///
    /// Items come out in the order in which they were sent: the item delivered
    /// is `sent[taken]`. `EndOfSequence` comes only once the channel is closed
    /// and every item has been delivered. A failed channel delivers its error.
    pub fn receive(&mut self) -> (arrival: Option<Received<T>>)
        requires
            old(self).wf(),
        ensures
            final(self).wf(),
            match old(self)@.fault {
                Some(error) => arrival == Some(Received::<T>::Error(error)) && final(self)@ == old(self)@,
                None => if old(self)@.taken < old(self)@.sent.len() {
                    arrival == Some(Received::Item(old(self)@.sent[old(self)@.taken as int]))
                        && final(self)@ == old(self)@.with_taken()
                } else if old(self)@.closed {
                    arrival == Some(Received::<T>::EndOfSequence) && final(self)@ == old(self)@
                } else {
                    arrival == None::<Received<T>> && final(self)@ == old(self)@
                },
            },
    {
        if let Some(error) = self.fault {
            return Some(Received::Error(error));
        }
        match self.queue.pop_front() {
            Some(item) => {
                proof {
                    self.taken@ = self.taken@ + 1;
                    assert(self@.pending() =~= old(self)@.pending().subrange(
                        1,
                        old(self)@.pending().len() as int,
                    ));
                }
                Some(Received::Item(item))
            },
            None => {
                if self.closed {
                    Some(Received::EndOfSequence)
                } else {
                    None
                }
            },
        }
    }

    /// Fails the channel with `error` and discards the items that were not delivered.
    ///
    /// A channel fails once: on a failed channel this changes nothing.
    pub fn fail(&mut self, error: CallError)
        requires
            old(self).wf(),
        ensures
            final(self).wf(),
            final(self)@ == if old(self)@.fault is Some {
                old(self)@
            } else {
                old(self)@.with_fault(error)
            },
            final(self)@.pending().len() == 0,
    {
        if self.fault.is_none() {
            self.queue.clear();
            self.fault = Some(error);
        }
    }
}

} // verus!
