//! What a receiver makes of the frames that arrive.

use crate::config::IsoTpConfig;
use crate::errors::{IsoTpError, TimeoutKind};
use crate::id::{id_matches, Id};
use crate::pdu::{
    decode, decoded, duration_to_st_min, encode, frame_of, st_min_code, CanFrame, FlowStatus, Pdu,
    PduView, WireFrame,
};
use crate::rx::{RxBuffer, RxMachine, RxOutcome, RxView};
use vstd::prelude::*;

verus! {

/// What a frame calls for on the receiving side.
#[derive(Debug)]
pub enum Reception<E> {
    /// Nothing; the frame is not for this reception.
    Ignored,
    /// Nothing yet; the frame's bytes have been stored.
    Stored,
    /// This flow control frame has to go to the sender.
    Reply(CanFrame),
    /// The payload is too long: this flow control frame goes to the sender, and the reception has
    /// failed.
    Reject(CanFrame),
    /// A payload of this length is complete.
    Complete(usize),
    /// The reception has failed.
    Failed(IsoTpError<E>),
}

/// What a [`Reception`] holds.
pub enum ReceptionView<E> {
    Ignored,
    Stored,
    Reply(WireFrame),
    Reject(WireFrame),
    Complete(usize),
    Failed(IsoTpError<E>),
}

impl<E> View for Reception<E> {
    type V = ReceptionView<E>;

    open spec fn view(&self) -> ReceptionView<E> {
        match *self {
            Reception::Ignored => ReceptionView::Ignored,
            Reception::Stored => ReceptionView::Stored,
            Reception::Reply(frame) => ReceptionView::Reply(frame@),
            Reception::Reject(frame) => ReceptionView::Reject(frame@),
            Reception::Complete(len) => ReceptionView::Complete(len),
            Reception::Failed(error) => ReceptionView::Failed(error),
        }
    }
}

/// An error that no link has a part in, as an error over any link.
pub open spec fn relinked<E>(error: IsoTpError<()>) -> IsoTpError<E> {
    match error {
        IsoTpError::Timeout(kind) => IsoTpError::Timeout(kind),
        IsoTpError::InvalidFrame => IsoTpError::InvalidFrame,
        IsoTpError::BadSequence => IsoTpError::BadSequence,
        IsoTpError::UnexpectedPdu => IsoTpError::UnexpectedPdu,
        IsoTpError::Overflow => IsoTpError::Overflow,
        IsoTpError::RxOverflow => IsoTpError::RxOverflow,
        IsoTpError::InvalidConfig => IsoTpError::InvalidConfig,
        IsoTpError::WouldBlock => IsoTpError::WouldBlock,
        IsoTpError::NotIdle => IsoTpError::NotIdle,
        IsoTpError::LinkError(_) => IsoTpError::InvalidFrame,
    }
}

fn relink<E>(error: IsoTpError<()>) -> (r: IsoTpError<E>)
    ensures
        r == relinked::<E>(error),
{
    match error {
        IsoTpError::Timeout(kind) => IsoTpError::Timeout(kind),
        IsoTpError::InvalidFrame => IsoTpError::InvalidFrame,
        IsoTpError::BadSequence => IsoTpError::BadSequence,
        IsoTpError::UnexpectedPdu => IsoTpError::UnexpectedPdu,
        IsoTpError::Overflow => IsoTpError::Overflow,
        IsoTpError::RxOverflow => IsoTpError::RxOverflow,
        IsoTpError::InvalidConfig => IsoTpError::InvalidConfig,
        IsoTpError::WouldBlock => IsoTpError::WouldBlock,
        IsoTpError::NotIdle => IsoTpError::NotIdle,
        IsoTpError::LinkError(_) => IsoTpError::InvalidFrame,
    }
}

/// The flow control frame of the node `cfg` with the given fields.
pub open spec fn flow_frame(
    cfg: IsoTpConfig,
    status: FlowStatus,
    block_size: u8,
    st_min: u8,
) -> WireFrame {
    frame_of(cfg.tx_id, PduView::FlowControl { status, block_size, st_min }, cfg.padding)
}

/// Build a flow control frame of the node `cfg`.
pub fn flow_control_frame(
    cfg: &IsoTpConfig,
    status: FlowStatus,
    block_size: u8,
    st_min: u8,
) -> (r: Result<CanFrame, ()>)
    ensures
        r matches Ok(frame) && frame@ == flow_frame(*cfg, status, block_size, st_min),
{
    encode(cfg.tx_id, &Pdu::FlowControl { status, block_size, st_min }, cfg.padding)
}

/// The flow control frame that turns down a payload.
pub open spec fn overflow_frame(cfg: IsoTpConfig) -> WireFrame {
    flow_frame(cfg, FlowStatus::Overflow, 0, st_min_code(cfg.st_min@))
}

/// What a frame does to the receiving side of the node `cfg`, and what it calls for. Frames with
/// another identifier, flow control frames and units that are out of place are ignored; a payload
/// that is too long is turned down with an overflow frame.
pub open spec fn reception<E>(cfg: IsoTpConfig, rx: RxView, id: Id, data: Seq<u8>) -> (
    RxView,
    ReceptionView<E>,
) {
    if id != cfg.rx_id {
        (rx, ReceptionView::Ignored)
    } else {
        match decoded(data) {
            None => (rx, ReceptionView::Failed(IsoTpError::InvalidFrame)),
            Some(PduView::FlowControl { .. }) => (rx, ReceptionView::Ignored),
            Some(pdu) => {
                let (next, outcome) = rx.on_pdu(cfg, pdu);
                (
                    next,
                    match outcome {
                        Ok(RxOutcome::Pending) => ReceptionView::Stored,
                        Ok(RxOutcome::SendFlowControl { status, block_size, st_min }) => {
                            ReceptionView::Reply(flow_frame(cfg, status, block_size, st_min))
                        },
                        Ok(RxOutcome::Completed(len)) => ReceptionView::Complete(len),
                        Err(IsoTpError::Overflow) => ReceptionView::Reject(overflow_frame(cfg)),
                        Err(IsoTpError::UnexpectedPdu) => ReceptionView::Ignored,
                        Err(error) => ReceptionView::Failed(relinked(error)),
                    },
                )
            },
        }
    }
}

/// Take up a frame that arrived at the node `cfg`.
pub fn accept<E>(
    cfg: &IsoTpConfig,
    rx: &mut RxMachine<'_>,
    id: Id,
    data: &[u8],
) -> (r: Reception<E>)
    requires
        old(rx).wf(),
    ensures
        final(rx).wf(),
        final(rx)@ == reception::<E>(*cfg, old(rx)@, id, data@).0,
        r@ == reception::<E>(*cfg, old(rx)@, id, data@).1,
        match (old(rx).storage(), final(rx).storage()) {
            (RxBuffer::Borrowed(before), RxBuffer::Borrowed(after)) => final(after)@
                == final(before)@,
            (RxBuffer::Owned(_), RxBuffer::Owned(_)) => true,
            _ => false,
        },
{
    if !id_matches(id, &cfg.rx_id) {
        return Reception::Ignored;
    }
    let pdu = match decode(data) {
        Ok(pdu) => pdu,
        Err(()) => return Reception::Failed(IsoTpError::InvalidFrame),
    };
    if matches!(pdu, Pdu::FlowControl { .. }) {
        return Reception::Ignored;
    }
    match rx.on_pdu(cfg, pdu) {
        Ok(RxOutcome::Pending) => Reception::Stored,
        Ok(RxOutcome::SendFlowControl { status, block_size, st_min }) => {
            match flow_control_frame(cfg, status, block_size, st_min) {
                Ok(frame) => Reception::Reply(frame),
                Err(()) => Reception::Failed(IsoTpError::InvalidFrame),
            }
        },
        Ok(RxOutcome::Completed(len)) => Reception::Complete(len),
        Err(IsoTpError::Overflow) => {
            match flow_control_frame(
                cfg,
                FlowStatus::Overflow,
                0,
                duration_to_st_min(cfg.st_min),
            ) {
                Ok(frame) => Reception::Reject(frame),
                Err(()) => Reception::Failed(IsoTpError::RxOverflow),
            }
        },
        Err(IsoTpError::UnexpectedPdu) => Reception::Ignored,
        Err(error) => Reception::Failed(relink(error)),
    }
}

/// When the last frame of the reception under way arrived, after a frame with the given effect at
/// the time `now`; `before` is what it was before the frame.
pub open spec fn received_at<T, E>(
    rx: RxView,
    effect: ReceptionView<E>,
    before: Option<T>,
    now: T,
) -> Option<T> {
    if !(rx.progress is Receiving) {
        None
    } else if effect is Stored || effect is Reply {
        Some(now)
    } else {
        before
    }
}

/// Keep account of when the last frame of the reception under way arrived.
pub fn arrival<T: Copy, E>(
    rx: &RxMachine<'_>,
    effect: &Reception<E>,
    before: Option<T>,
    now: T,
) -> (r: Option<T>)
    ensures
        r == received_at(rx@, effect@, before, now),
{
    if !rx.is_receiving() {
        None
    } else if matches!(effect, Reception::Stored | Reception::Reply(_)) {
        Some(now)
    } else {
        before
    }
}

/// Errors keep their meaning from one link to another: each stays the same, with its timer where there
/// is one; only the error of a link itself cannot be carried over, and becomes an invalid frame.
pub proof fn law_relinked<E>(error: IsoTpError<()>, kind: TimeoutKind)
    ensures
        relinked::<E>(IsoTpError::Timeout(kind)) == IsoTpError::<E>::Timeout(kind),
        relinked::<E>(IsoTpError::BadSequence) == IsoTpError::<E>::BadSequence,
        relinked::<E>(IsoTpError::InvalidConfig) == IsoTpError::<E>::InvalidConfig,
        relinked::<E>(IsoTpError::WouldBlock) == IsoTpError::<E>::WouldBlock,
        relinked::<E>(IsoTpError::RxOverflow) == IsoTpError::<E>::RxOverflow,
        relinked::<E>(IsoTpError::NotIdle) == IsoTpError::<E>::NotIdle,
        relinked::<E>(error) is InvalidFrame <==> error is InvalidFrame || error is LinkError,
        !(relinked::<E>(error) is LinkError),
{
}

} // verus!
