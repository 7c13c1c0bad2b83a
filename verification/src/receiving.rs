//! What holds of a receiver, byte by byte and call by call.

use crate::async_node::{after_silence, arrival_limit_of, refused_result};
use crate::config::IsoTpConfig;
use crate::errors::{IsoTpError, TimeoutKind};
use crate::id::Id;
use crate::link::LinkReply;
use crate::node::{recv_step, rejected_result, replied_result, silent_step, RecvStepView};
use crate::pdu::{
    decoded, law_decoded, law_frame_layout, st_min_code, FlowStatus, PduView, WireFrame,
};
use crate::reception::{received_at, reception, ReceptionView};
use crate::rx::{RxProgress, RxView};
use crate::tx::Progress;
use vstd::prelude::*;

verus! {

/// The frame is flow control of the node `cfg` with the given first byte and block size, and with the
/// node's own separation time.
pub open spec fn is_flow_control(
    cfg: IsoTpConfig,
    frame: WireFrame,
    first: int,
    block_size: u8,
) -> bool {
    &&& frame.id == cfg.tx_id
    &&& frame.data.len() == (if cfg.padding is Some {
        8
    } else {
        3int
    })
    &&& frame.data[0] == first
    &&& frame.data[1] == block_size
    &&& frame.data[2] == st_min_code(cfg.st_min@)
    &&& forall|i: int| 3 <= i < frame.data.len() ==> Some(#[trigger] frame.data[i]) == cfg.padding
}

proof fn lemma_flow_control(cfg: IsoTpConfig)
    ensures
        forall|frame: WireFrame, block_size: u8|
            #![trigger is_flow_control(cfg, frame, 0x30, block_size)]
            frame == crate::reception::flow_frame(
                cfg,
                FlowStatus::ClearToSend,
                block_size,
                st_min_code(cfg.st_min@),
            ) ==> is_flow_control(cfg, frame, 0x30, block_size),
        forall|frame: WireFrame, block_size: u8|
            #![trigger is_flow_control(cfg, frame, 0x32, block_size)]
            frame == crate::reception::flow_frame(
                cfg,
                FlowStatus::Overflow,
                block_size,
                st_min_code(cfg.st_min@),
            ) ==> is_flow_control(cfg, frame, 0x32, block_size),
{
    assert forall|status: FlowStatus, block_size: u8, code: u8|
        #![trigger crate::reception::flow_frame(cfg, status, block_size, code)] {
        let frame = crate::reception::flow_frame(cfg, status, block_size, code);
        &&& frame.id == cfg.tx_id
        &&& frame.data.len() == (if cfg.padding is Some {
            8
        } else {
            3int
        })
        &&& frame.data[0] == 0x30 + status.code()
        &&& frame.data[1] == block_size && frame.data[2] == code
        &&& forall|i: int|
            3 <= i < frame.data.len() ==> Some(#[trigger] frame.data[i]) == cfg.padding
    } by {
        law_frame_layout(
            cfg.tx_id,
            PduView::FlowControl { status, block_size, st_min: code },
            cfg.padding,
        );
    }
}

/// A single frame is a whole payload: it is delivered, whatever was under way, or turned down with 32
/// if the node or its buffer does not take as many bytes.
pub proof fn law_single_frame<E>(cfg: IsoTpConfig, rx: RxView, data: Seq<u8>)
    requires
        1 <= data.len() <= 8,
        data[0] <= 7,
        data[0] < data.len(),
    ensures
        ({
            let (next, effect) = reception::<E>(cfg, rx, cfg.rx_id, data);
            let len = data[0] as int;
            &&& next.capacity == rx.capacity
            &&& if len <= cfg.max_payload_len && len <= rx.capacity {
                &&& recv_step(effect) == RecvStepView::<E>::Deliver
                &&& effect == ReceptionView::<E>::Complete(len as usize)
                &&& next.completed() == data.subrange(1, 1 + len)
            } else {
                &&& recv_step(effect) matches RecvStepView::Reject(frame) && is_flow_control(
                    cfg,
                    frame,
                    0x32,
                    0,
                )
                &&& next.progress is Idle
            }
        }),
{
    law_decoded(data);
    lemma_flow_control(cfg);
    assert(data.subrange(1, 1 + data[0]).take(data[0] as int) == data.subrange(1, 1 + data[0]));
}

/// A first frame starts a payload of as many bytes as it announces, whatever was under way: its six
/// bytes are kept, the go-ahead 30 with the node's block size and separation time is the answer, and
/// the frame with number one is next. It is turned down with 32 if the node or its buffer does not
/// take as many bytes.
pub proof fn law_first_frame<E>(cfg: IsoTpConfig, rx: RxView, data: Seq<u8>)
    requires
        data.len() == 8,
        0x10 <= data[0] <= 0x1F,
        (data[0] - 0x10) * 256 + data[1] >= 8,
    ensures
        ({
            let (next, effect) = reception::<E>(cfg, rx, cfg.rx_id, data);
            let len = (data[0] - 0x10) * 256 + data[1];
            &&& next.capacity == rx.capacity
            &&& if len <= cfg.max_payload_len && len <= rx.capacity {
                &&& recv_step(effect) matches RecvStepView::Reply(frame) && is_flow_control(
                    cfg,
                    frame,
                    0x30,
                    cfg.block_size,
                )
                &&& next.progress matches RxProgress::Receiving {
                    total,
                    data: have,
                    next_sn,
                    block_left,
                }
                &&& total == len && have == data.subrange(2, 8) && next_sn == 1
                &&& block_left == cfg.block_size
            } else {
                &&& recv_step(effect) matches RecvStepView::Reject(frame) && is_flow_control(
                    cfg,
                    frame,
                    0x32,
                    0,
                )
                &&& next.progress is Idle
            }
        }),
{
    law_decoded(data);
    lemma_flow_control(cfg);
}

/// A consecutive frame of a reception. Out of turn, it ends the reception, and the caller is told so.
/// In its turn, its bytes go behind those that are there; those beyond the announced length are
/// dropped. With the last missing byte the payload is delivered. Otherwise the next number is
/// expected, and after the last frame of a block the answer is the go-ahead.
pub proof fn law_consecutive_frame_received<E>(
    cfg: IsoTpConfig,
    rx: RxView,
    total: int,
    have: Seq<u8>,
    next_sn: u8,
    block_left: u8,
    data: Seq<u8>,
)
    requires
        rx.progress == (RxProgress::Receiving { total, data: have, next_sn, block_left }),
        have.len() < total <= usize::MAX,
        2 <= data.len() <= 8,
        0x20 <= data[0] <= 0x2F,
    ensures
        ({
            let (next, effect) = reception::<E>(cfg, rx, cfg.rx_id, data);
            let missing = total - have.len();
            let block_over = cfg.block_size > 0 && block_left <= 1;
            &&& next.capacity == rx.capacity
            &&& if data[0] - 0x20 != next_sn {
                &&& recv_step(effect) == RecvStepView::<E>::Finished(Err(IsoTpError::BadSequence))
                &&& next.progress is Idle
            } else if missing < data.len() {
                &&& recv_step(effect) == RecvStepView::<E>::Deliver
                &&& next.completed() == have + data.subrange(1, 1 + missing)
                &&& next.completed().len() == total
            } else {
                &&& next.progress matches RxProgress::Receiving {
                    total: total2,
                    data: have2,
                    next_sn: sn2,
                    block_left: left2,
                }
                &&& total2 == total && have2 == have + data.subrange(1, data.len() as int)
                &&& sn2 == (next_sn + 1) % 16
                &&& if block_over {
                    &&& recv_step(effect) matches RecvStepView::Reply(frame) && is_flow_control(
                        cfg,
                        frame,
                        0x30,
                        cfg.block_size,
                    )
                    &&& left2 == cfg.block_size
                } else {
                    &&& recv_step(effect) == RecvStepView::<E>::Finished(Ok(Progress::InFlight))
                    &&& cfg.block_size > 0 ==> left2 == block_left - 1
                }
            }
        }),
{
    law_decoded(data);
    lemma_flow_control(cfg);
    let body = data.subrange(1, data.len() as int);
    let missing = total - have.len();
    if missing < data.len() {
        assert(body.take(missing) == data.subrange(1, 1 + missing));
    }
}

/// A consecutive frame outside a reception, and flow control, change nothing; what is not well-formed
/// is reported and changes nothing either.
pub proof fn law_other_frames<E>(cfg: IsoTpConfig, rx: RxView, id: Id, data: Seq<u8>)
    ensures
        ({
            let (next, effect) = reception::<E>(cfg, rx, id, data);
            &&& id != cfg.rx_id ==> next == rx && recv_step(effect) == RecvStepView::<E>::Next
            &&& id == cfg.rx_id && decoded(data) is None ==> next == rx && recv_step(effect)
                == RecvStepView::<E>::Finished(Err(IsoTpError::InvalidFrame))
            &&& id == cfg.rx_id && 3 <= data.len() <= 8 && 0x30 <= data[0] <= 0x32 ==> next == rx
                && recv_step(effect) == RecvStepView::<E>::Next
            &&& id == cfg.rx_id && 2 <= data.len() <= 8 && 0x20 <= data[0] <= 0x2F && !(
            rx.progress is Receiving) ==> next == rx && recv_step(effect)
                == RecvStepView::<E>::Next
        }),
{
    law_decoded(data);
}

/// A polling receiver tells its caller what a frame has come to: every failure is reported as it is,
/// progress is reported only while a reception is under way, a payload is delivered exactly when it
/// is complete, what is turned down leaves nothing under way, and a frame that is passed over leaves
/// everything as it was.
pub proof fn law_receiver_reports<E>(cfg: IsoTpConfig, rx: RxView, id: Id, data: Seq<u8>)
    ensures
        ({
            let (next, effect) = reception::<E>(cfg, rx, id, data);
            match recv_step(effect) {
                RecvStepView::Next => next == rx && effect is Ignored,
                RecvStepView::Reply(frame) => next.progress is Receiving && effect
                    == ReceptionView::<E>::Reply(frame),
                RecvStepView::Reject(frame) => next.progress is Idle && effect == ReceptionView::<
                    E,
                >::Reject(frame),
                RecvStepView::Deliver => next.progress is Ready && effect is Complete,
                RecvStepView::Finished(Ok(progress)) => progress == Progress::InFlight
                    && next.progress is Receiving && rx.progress is Receiving && effect is Stored,
                RecvStepView::Finished(Err(error)) => {
                    &&& effect == ReceptionView::<E>::Failed(error)
                    &&& next == rx || next.progress is Idle
                },
            }
        }),
        forall|error: IsoTpError<E>|
            #[trigger] recv_step(ReceptionView::<E>::Failed(error)) == RecvStepView::<E>::Finished(
                Err(error),
            ),
        rx.progress is Receiving && !(reception::<E>(cfg, rx, id, data).0.progress is Receiving)
            ==> !(recv_step(reception::<E>(cfg, rx, id, data).1) matches RecvStepView::Finished(
            Ok(_),
        )) && !(recv_step(reception::<E>(cfg, rx, id, data).1) is Next),
{
}

/// A poll without a frame: a reception that has waited longer than `n_br` for its next frame is over,
/// and the caller is told so; nothing else happens.
pub proof fn law_silence<T, E>(cfg: IsoTpConfig, rx: RxView, at: Option<T>, since: int)
    ensures
        ({
            let (step, next, next_at) = silent_step::<T, E>(cfg, rx, at, since);
            if rx.progress is Receiving && since > cfg.n_br@ {
                &&& step == RecvStepView::<E>::Finished(Err(IsoTpError::Timeout(TimeoutKind::NBr)))
                &&& next.progress is Idle && next.capacity == rx.capacity
                &&& next.completed() == Seq::<u8>::empty()
                &&& next_at is None
            } else {
                &&& step == RecvStepView::<E>::Finished(Ok(Progress::WouldBlock))
                &&& next == rx && next_at == at
            }
        }),
{
}

/// The time that a reception allows for its next frame counts from its last one: every frame that is
/// taken up starts it anew, others do not, and without a reception nothing is counted.
pub proof fn law_reception_clock<T, E>(
    cfg: IsoTpConfig,
    rx: RxView,
    at: Option<T>,
    now: T,
    id: Id,
    data: Seq<u8>,
)
    ensures
        ({
            let (next, effect) = reception::<E>(cfg, rx, id, data);
            let next_at = received_at(next, effect, at, now);
            match recv_step(effect) {
                RecvStepView::Reply(_) => next_at == Some(now),
                RecvStepView::Finished(Ok(_)) => next_at == Some(now),
                RecvStepView::Deliver => next_at is None,
                RecvStepView::Reject(_) => next_at is None,
                _ => next_at == (if next.progress is Receiving {
                    at
                } else {
                    None
                }),
            }
        }),
{
}

/// An asynchronous receiver waits for a frame no longer than `n_ar` and the call allow, and within a
/// reception no longer than `n_br` after its last frame. When that is what ran out the reception is
/// over, and otherwise it can go on in a later call; in both cases the caller is told which timer it
/// was.
pub proof fn law_async_silence<T, E>(
    cfg: IsoTpConfig,
    rx: RxView,
    at: Option<T>,
    since_last: int,
    timeout: int,
    elapsed: int,
)
    requires
        since_last >= 0,
    ensures
        match arrival_limit_of::<E>(cfg, rx, since_last, timeout, elapsed) {
            Ok(limit) => {
                let (error, next, next_at) = after_silence::<T, E>(rx, at, limit.expiry);
                &&& elapsed <= timeout && elapsed + limit.wait_for <= timeout
                &&& limit.wait_for <= cfg.n_ar@
                &&& rx.progress is Receiving && since_last <= cfg.n_br@ ==> since_last
                    + limit.wait_for <= cfg.n_br@
                &&& rx.progress is Receiving && since_last > cfg.n_br@ ==> limit.wait_for <= 0
                &&& error == IsoTpError::<E>::Timeout(limit.expiry)
                &&& if limit.expiry is NBr {
                    &&& rx.progress is Receiving
                    &&& since_last + limit.wait_for >= cfg.n_br@
                    &&& next.progress is Idle && next.capacity == rx.capacity
                    &&& next_at is None
                } else {
                    &&& limit.expiry is NAr
                    &&& limit.wait_for == cfg.n_ar@ || elapsed + limit.wait_for == timeout
                    &&& next == rx && next_at == at
                }
            },
            Err(error) => elapsed > timeout && error == IsoTpError::<E>::Timeout(TimeoutKind::NAr),
        },
{
}

/// What becomes of the answers: the caller learns of a go-ahead that the link did not take, with the
/// link's own error, and goes on otherwise; that a payload was turned down it learns in any case.
pub proof fn law_answers_reported<E>(reply: LinkReply<E>, error: E, sent: Result<(), IsoTpError<E>>)
    ensures
        replied_result(LinkReply::<E>::Sent) == Ok::<Progress, IsoTpError<E>>(Progress::InFlight),
        replied_result(LinkReply::Failed(error)) == Err::<Progress, IsoTpError<E>>(
            IsoTpError::LinkError(error),
        ),
        replied_result(LinkReply::<E>::Unframeable) == Err::<Progress, IsoTpError<E>>(
            IsoTpError::InvalidFrame,
        ),
        rejected_result(reply) == Err::<Progress, IsoTpError<E>>(IsoTpError::RxOverflow),
        refused_result(sent) == Err::<(), IsoTpError<E>>(IsoTpError::RxOverflow),
{
}

/// A payload can be taken once: what is complete is handed out as it is and is gone afterwards; where
/// nothing is complete nothing is handed out, and nothing changes.
pub proof fn law_taken_once(rx: RxView)
    ensures
        match rx.progress {
            RxProgress::Ready { data } => rx.completed() == data && rx.taken().progress is Idle,
            _ => rx.completed() == Seq::<u8>::empty() && rx.taken() == rx,
        },
        rx.taken().completed() == Seq::<u8>::empty(),
        rx.taken().taken() == rx.taken(),
        rx.taken().capacity == rx.capacity,
{
}

} // verus!
