//! What can go wrong with a call.

use vstd::prelude::*;

verus! {

/// A fault of the transport beneath a call. Always fatal to the call; never retried here.
#[derive(Clone, Copy, Debug, PartialEq, Eq, Structural)]
pub enum TransportFault {
    ConnectionLost,
    Timeout,
    MalformedFrame,
}

/// A use of a call that its pattern or its lifecycle does not allow.
#[derive(Clone, Copy, Debug, PartialEq, Eq, Structural)]
pub enum Violation {
    /// Payload was sent before the call was opened.
    NotOpen,
    /// A second item, or an explicit end-of-sequence, on a direction that carries
    /// a single item in the call's pattern.
    IllegalSequence,
    /// An item or an end-of-sequence on a direction that has already ended.
    SendAfterClose,
}

/// A handler could not compute its reply.
#[derive(Clone, Copy, Debug, PartialEq, Eq, Structural)]
pub enum HandlerFault {
    /// More requests arrived than the handler can count.
    CountOverflow,
}

/// The single error value with which a call fails.
#[derive(Clone, Copy, Debug, PartialEq, Eq, Structural)]
pub enum CallError {
    Transport(TransportFault),
    Protocol(Violation),
    Handler(HandlerFault),
}

} // verus!
