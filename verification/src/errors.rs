//! Error types of the transport.

use vstd::prelude::*;

verus! {

/// The timer that ran out.
#[derive(Debug, Clone, Copy, PartialEq, Eq, Structural)]
pub enum TimeoutKind {
    /// Handing a frame to the link, or a whole transmission.
    NAs,
    /// Waiting for a frame from the link, or a whole reception.
    NAr,
    /// Waiting for a flow control frame.
    NBs,
    /// Waiting for a consecutive frame.
    NBr,
    /// From one consecutive frame to the next.
    NCs,
}

/// What can go wrong while sending or receiving; `E` is the error of the CAN link.
#[derive(Debug, Clone, Copy, PartialEq, Eq)]
pub enum IsoTpError<E> {
    /// A timer ran out.
    Timeout(TimeoutKind),
    /// A frame is not a well-formed ISO-TP frame, or cannot be built.
    InvalidFrame,
    /// A consecutive frame carries the wrong sequence number.
    BadSequence,
    /// A frame arrived that the current state has no use for.
    UnexpectedPdu,
    /// The payload is longer than this node or the peer accepts.
    Overflow,
    /// The peer announced a payload longer than this node accepts.
    RxOverflow,
    /// The configuration or the supplied buffer is unusable.
    InvalidConfig,
    /// Nothing can be done right now.
    WouldBlock,
    /// Another transfer is under way.
    NotIdle,
    /// The CAN link failed.
    LinkError(E),
}

} // verus!
