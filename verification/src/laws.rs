//! What holds of a sender and a receiver together.

use crate::async_node::{FlowTurn, Stage, TransferStepView, TransferView};
use crate::config::IsoTpConfig;
use crate::errors::{IsoTpError, TimeoutKind};
use crate::flow::{flow_verdict, FlowVerdict};
use crate::id::Id;
use crate::node::{
    after_consecutive, consecutive_step, flow_step, poll_step, start_step, FlowWaitView,
    SendStepView,
};
use crate::pdu::{
    decoded, frame_of, law_decode_encode, st_min_code, st_min_span, FlowStatus, PduView,
    WireFrame, CONSECUTIVE_MAX, FIRST_LEN, FRAME_LEN, SINGLE_MAX,
};
use crate::reception::{flow_frame, overflow_frame, received_at, reception, ReceptionView};
use crate::rx::{RxOutcome, RxProgress, RxView};
use crate::timing::{flow_budget_of, TimeLimit};
use crate::tx::{Deadline, Progress, SessionView, TxStateView};
use vstd::arithmetic::div_mod::{
    lemma_fundamental_div_mod, lemma_fundamental_div_mod_converse, lemma_mod_bound,
};
use vstd::prelude::*;

verus! {

/// Two nodes whose identifiers belong together: each sends what the other listens for.
pub open spec fn peers(a: IsoTpConfig, b: IsoTpConfig) -> bool {
    a.tx_id == b.rx_id && b.tx_id == a.rx_id
}

/// Sender `a` and receiver `b` agree where the blocks of a payload of `len` bytes end: the sender
/// takes over the receiver's block size; or neither uses blocks; or all of the payload fits the
/// first block of the sender.
pub open spec fn blocks_agree(a: IsoTpConfig, b: IsoTpConfig, len: nat) -> bool {
    b.block_size > 0 || a.block_size == 0 || len <= FIRST_LEN + CONSECUTIVE_MAX * a.block_size
}

/// The polling step that a sender takes as soon as the deadline that it waits for has come.
pub open spec fn due_step<T, E>(
    cfg: IsoTpConfig,
    state: TxStateView<T>,
    payload: Seq<u8>,
    now: T,
) -> SendStepView<T, E> {
    let waited = match state.deadline() {
        Some(deadline) => deadline.wait@,
        None => 0,
    };
    poll_step(cfg, state, payload, now, waited, waited).0
}

/// The separation time that the receiver `b` asks of the sender `a`.
pub open spec fn pace(a: IsoTpConfig, b: IsoTpConfig) -> int {
    match st_min_span(st_min_code(b.st_min@)) {
        Some(span) => span@,
        None => a.st_min@,
    }
}

/// The sender `a` can keep the separation time of the receiver `b` with a payload of `len` bytes
/// without running into `n_cs`: the separation time is shorter; or there is only one consecutive
/// frame; or every one is a block of its own, whose reply comes when the separation time is over.
pub open spec fn pace_allowed(a: IsoTpConfig, b: IsoTpConfig, len: int, lag: int) -> bool {
    pace(a, b) < a.n_cs@ || len <= FIRST_LEN + CONSECUTIVE_MAX || (b.block_size == 1 && pace(a, b)
        <= lag)
}

/// The conversation in which the polling sender `a`, about to take `step`, sends `payload` to the
/// receiver `b`, over a link that loses nothing: every frame of the sender goes to the receiver,
/// every reply of the receiver to the sender, who waits for one exactly when there is one and looks
/// for it `lag` nanoseconds after its own frame. Where the separation time is not over by then, or
/// there is no reply, the sender goes on when it is over. The result is the payload that the
/// receiver delivers when the sender is done; `None` if the two fall out of step, or are not done
/// within `fuel` frames.
pub open spec fn conversation<T, E>(
    a: IsoTpConfig,
    b: IsoTpConfig,
    payload: Seq<u8>,
    step: SendStepView<T, E>,
    rx: RxView,
    now: T,
    lag: int,
    fuel: nat,
) -> Option<Seq<u8>>
    decreases fuel,
{
    match step {
        SendStepView::Transmit { frame, next, .. } if fuel > 0 => {
            let (rx2, effect) = reception::<E>(b, rx, frame.id, frame.data);
            match (next, effect) {
                (TxStateView::Idle, ReceptionView::Complete(_)) => Some(rx2.completed()),
                (TxStateView::Sending { .. }, ReceptionView::Stored) => conversation(
                    a,
                    b,
                    payload,
                    due_step::<T, E>(a, next, payload, now),
                    rx2,
                    now,
                    lag,
                    (fuel - 1) as nat,
                ),
                (TxStateView::WaitingForFc { .. }, ReceptionView::Reply(reply)) => {
                    match poll_step::<T, E>(a, next, payload, now, lag, lag).0 {
                        SendStepView::Receive(wait) => {
                            let (answered, state) = flow_step::<T, E>(
                                a,
                                wait,
                                reply.id,
                                reply.data,
                            );
                            conversation(
                                a,
                                b,
                                payload,
                                if state is Sending {
                                    due_step::<T, E>(a, state, payload, now)
                                } else {
                                    answered
                                },
                                rx2,
                                now,
                                lag,
                                (fuel - 1) as nat,
                            )
                        },
                        _ => None,
                    }
                },
                _ => None,
            }
        },
        _ => None,
    }
}

/// The receiver has what the sender has sent, waits for the frame that comes next, and has
/// `block_left` frames to go in its block.
spec fn in_sync(session: SessionView, rx: RxView, block_left: u8) -> bool {
    &&& rx.progress == (RxProgress::Receiving {
        total: session.payload.len() as int,
        data: session.payload.take(session.offset),
        next_sn: session.next_sn,
        block_left,
    })
    &&& session.payload.len() <= rx.capacity
}

/// Sender and receiver `b` count the frames of a block alike; or the receiver does not count, and
/// neither does the sender, or all that is left fits its block.
spec fn in_step(b: IsoTpConfig, session: SessionView, rx: RxView) -> bool {
    if b.block_size > 0 {
        &&& in_sync(session, rx, session.block_remaining)
        &&& session.block_size == b.block_size
        &&& 0 < session.block_remaining <= session.block_size
    } else {
        &&& in_sync(session, rx, 0)
        &&& session.block_size == 0 || session.payload.len() - session.offset <= CONSECUTIVE_MAX
            * session.block_remaining
    }
}

/// What a receiver in sync does with the sender's next consecutive frame.
proof fn lemma_consecutive_received<E>(
    a: IsoTpConfig,
    b: IsoTpConfig,
    session: SessionView,
    rx: RxView,
    block_left: u8,
)
    requires
        peers(a, b),
        session.wf(),
        !session.done(),
        in_sync(session, rx, block_left),
    ensures
        ({
            let frame = frame_of(a.tx_id, session.next_pdu(), a.padding);
            let (rx2, effect) = reception::<E>(b, rx, frame.id, frame.data);
            let sent = session.advanced();
            let full = b.block_size > 0 && block_left <= 1;
            if sent.done() {
                &&& rx2.progress == (RxProgress::Ready { data: session.payload })
                &&& effect == ReceptionView::<E>::Complete(session.payload.len() as usize)
            } else if full {
                &&& in_sync(sent, rx2, b.block_size)
                &&& effect == ReceptionView::<E>::Reply(
                    flow_frame(
                        b,
                        FlowStatus::ClearToSend,
                        b.block_size,
                        st_min_code(b.st_min@),
                    ),
                )
            } else {
                &&& in_sync(
                    sent,
                    rx2,
                    if b.block_size > 0 {
                        (block_left - 1) as u8
                    } else {
                        block_left
                    },
                )
                &&& effect == ReceptionView::<E>::Stored
            }
        }),
{
    let pdu = session.next_pdu();
    let frame = frame_of(a.tx_id, pdu, a.padding);
    law_decode_encode(a.tx_id, pdu, a.padding);
    if let PduView::ConsecutiveFrame { sn, data } = decoded(frame.data)->0 {
        let chunk = session.payload.subrange(session.offset, session.next_end());
        let have = session.payload.take(session.offset);
        if session.advanced().done() {
            assert(have + data.take(chunk.len() as int) == session.payload);
        } else {
            assert(data == chunk);
            assert(have + chunk == session.payload.take(session.next_end()));
        }
    }
}

/// What a sender makes of the flow control frames of its peer.
proof fn lemma_flow_frame_judged(
    a: IsoTpConfig,
    b: IsoTpConfig,
    status: FlowStatus,
    block_size: u8,
    st_min: u8,
)
    requires
        peers(a, b),
    ensures
        ({
            let frame = flow_frame(b, status, block_size, st_min);
            flow_verdict(a, frame.id, frame.data) == (match status {
                FlowStatus::ClearToSend => FlowVerdict::Proceed {
                    block_size: if block_size == 0 {
                        a.block_size
                    } else {
                        block_size
                    },
                    st_min: match st_min_span(st_min) {
                        Some(span) => span,
                        None => a.st_min,
                    },
                },
                FlowStatus::Wait => FlowVerdict::Hold,
                FlowStatus::Overflow => FlowVerdict::Abort,
            })
        }),
{
    law_decode_encode(b.tx_id, PduView::FlowControl { status, block_size, st_min }, b.padding);
}

/// From a state in step on, the conversation ends with the payload.
proof fn lemma_conversation<T, E>(
    a: IsoTpConfig,
    b: IsoTpConfig,
    session: SessionView,
    rx: RxView,
    now: T,
    lag: int,
    fuel: nat,
)
    requires
        peers(a, b),
        session.wf(),
        session.wait_count == 0,
        session.payload.len() <= a.max_payload_len,
        !session.done(),
        in_step(b, session, rx),
        lag < a.n_bs@,
        session.st_min@ == pace(a, b),
        pace_allowed(a, b, FIRST_LEN + session.payload.len() - session.offset, lag),
        session.payload.len() - session.offset <= fuel,
    ensures
        conversation::<T, E>(
            a,
            b,
            session.payload,
            consecutive_step::<T, E>(a, session, now),
            rx,
            now,
            lag,
            fuel,
        ) == Some(session.payload),
    decreases fuel,
{
    let block_left: u8 = if b.block_size > 0 {
        session.block_remaining
    } else {
        0
    };
    lemma_consecutive_received::<E>(a, b, session, rx, block_left);
    let frame = frame_of(a.tx_id, session.next_pdu(), a.padding);
    let (rx2, effect) = reception::<E>(b, rx, frame.id, frame.data);
    let (next, progress) = after_consecutive::<T>(a, session, now);
    match next {
        TxStateView::Idle => {},
        TxStateView::Sending { session: s2, .. } => {
            s2.st_min.lemma_not_negative();
            lemma_conversation::<T, E>(a, b, s2, rx2, now, lag, (fuel - 1) as nat);
        },
        TxStateView::WaitingForFc { session: s2, .. } => {
            let code = st_min_code(b.st_min@);
            lemma_flow_frame_judged(a, b, FlowStatus::ClearToSend, b.block_size, code);
            let reply = flow_frame(b, FlowStatus::ClearToSend, b.block_size, code);
            let verdict = flow_verdict(a, reply.id, reply.data);
            if let FlowVerdict::Proceed { block_size, st_min } = verdict {
                lemma_conversation::<T, E>(
                    a,
                    b,
                    s2.granted(block_size, st_min),
                    rx2,
                    now,
                    lag,
                    (fuel - 1) as nat,
                );
            }
        },
    }
}

/// A payload that a polling node sends is delivered as it was sent, whatever the receiver had been
/// doing before: for every payload that both nodes accept, empty and maximal ones included, every
/// padding, every block size and every separation time, as long as the replies come within `n_bs` and
/// the separation time leaves room in `n_cs`.
/// Only where the receiver's block size is "unlimited" and the sender has one of its own does the
/// payload have to fit the sender's first block: the sender then waits for flow control that the
/// receiver does not owe it.
pub proof fn law_round_trip<T, E>(
    a: IsoTpConfig,
    b: IsoTpConfig,
    payload: Seq<u8>,
    rx: RxView,
    now: T,
    lag: int,
)
    requires
        a.valid(),
        peers(a, b),
        blocks_agree(a, b, payload.len()),
        payload.len() <= a.max_payload_len,
        rx.fits(b, payload.len() as int),
        payload.len() > SINGLE_MAX ==> lag < a.n_bs@ && pace_allowed(
            a,
            b,
            payload.len() as int,
            lag,
        ),
    ensures
        conversation::<T, E>(
            a,
            b,
            payload,
            poll_step::<T, E>(a, TxStateView::Idle, payload, now, 0, 0).0,
            rx,
            now,
            lag,
            payload.len() + 1,
        ) == Some(payload),
{
    if payload.len() <= SINGLE_MAX {
        let pdu = PduView::SingleFrame { len: payload.len() as u8, data: payload };
        law_decode_encode(a.tx_id, pdu, a.padding);
        assert(payload.take(payload.len() as int) == payload);
    } else {
        let pdu = PduView::FirstFrame {
            len: payload.len() as u16,
            data: payload.take(FIRST_LEN as int),
        };
        law_decode_encode(a.tx_id, pdu, a.padding);
        let code = st_min_code(b.st_min@);
        lemma_flow_frame_judged(a, b, FlowStatus::ClearToSend, b.block_size, code);
        let reply = flow_frame(b, FlowStatus::ClearToSend, b.block_size, code);
        let frame = frame_of(a.tx_id, pdu, a.padding);
        let (rx2, effect) = reception::<E>(b, rx, frame.id, frame.data);
        assert(effect == ReceptionView::<E>::Reply(reply));
        let session = SessionView::opened(a, payload);
        if let FlowVerdict::Proceed { block_size, st_min } = flow_verdict(
            a,
            reply.id,
            reply.data,
        ) {
            lemma_conversation::<T, E>(
                a,
                b,
                session.granted(block_size, st_min),
                rx2,
                now,
                lag,
                payload.len(),
            );
        }
    }
}

/// A sender with a block size of its own comes to wait for flow control that a receiver without
/// blocks does not send.
proof fn lemma_stall<T, E>(
    a: IsoTpConfig,
    b: IsoTpConfig,
    session: SessionView,
    rx: RxView,
    now: T,
    lag: int,
    fuel: nat,
)
    requires
        peers(a, b),
        b.block_size == 0,
        session.wf(),
        session.block_size > 0,
        session.block_remaining > 0,
        session.payload.len() <= a.max_payload_len,
        session.payload.len() - session.offset > CONSECUTIVE_MAX * session.block_remaining,
        in_sync(session, rx, 0),
    ensures
        conversation::<T, E>(
            a,
            b,
            session.payload,
            consecutive_step::<T, E>(a, session, now),
            rx,
            now,
            lag,
            fuel,
        ) is None,
    decreases fuel,
{
    if fuel > 0 {
        reveal_with_fuel(conversation, 2);
        lemma_consecutive_received::<E>(a, b, session, rx, 0);
        let frame = frame_of(a.tx_id, session.next_pdu(), a.padding);
        let rx2 = reception::<E>(b, rx, frame.id, frame.data).0;
        if let TxStateView::Sending { session: s2, .. } = after_consecutive::<T>(
            a,
            session,
            now,
        ).0 {
            lemma_stall::<T, E>(a, b, s2, rx2, now, lag, (fuel - 1) as nat);
        }
    }
}

/// Where the block sizes do not agree in the sense of [`blocks_agree`], no conversation comes to an
/// end, however long it goes on: the sender waits in vain after its first block.
pub proof fn law_disagreeing_blocks_stall<T, E>(
    a: IsoTpConfig,
    b: IsoTpConfig,
    payload: Seq<u8>,
    rx: RxView,
    now: T,
    lag: int,
    fuel: nat,
)
    requires
        a.valid(),
        peers(a, b),
        !blocks_agree(a, b, payload.len()),
        payload.len() <= a.max_payload_len,
        rx.fits(b, payload.len() as int),
    ensures
        conversation::<T, E>(
            a,
            b,
            payload,
            poll_step::<T, E>(a, TxStateView::Idle, payload, now, 0, 0).0,
            rx,
            now,
            lag,
            fuel,
        ) is None,
{
    if fuel > 0 {
        let pdu = PduView::FirstFrame {
            len: payload.len() as u16,
            data: payload.take(FIRST_LEN as int),
        };
        law_decode_encode(a.tx_id, pdu, a.padding);
        let code = st_min_code(b.st_min@);
        lemma_flow_frame_judged(a, b, FlowStatus::ClearToSend, b.block_size, code);
        let reply = flow_frame(b, FlowStatus::ClearToSend, b.block_size, code);
        let frame = frame_of(a.tx_id, pdu, a.padding);
        let (rx2, effect) = reception::<E>(b, rx, frame.id, frame.data);
        assert(effect == ReceptionView::<E>::Reply(reply));
        if let FlowVerdict::Proceed { block_size, st_min } = flow_verdict(
            a,
            reply.id,
            reply.data,
        ) {
            lemma_stall::<T, E>(
                a,
                b,
                SessionView::opened(a, payload).granted(block_size, st_min),
                rx2,
                now,
                lag,
                (fuel - 1) as nat,
            );
        }
    }
}

/// The conversation in which the asynchronous sender `a` carries on with `transfer` towards the
/// receiver `b`, over a link that loses nothing and with timers that do not run out. The result is
/// the payload that the receiver delivers when the sender is done; `None` if the two fall out of
/// step, or are not done within `fuel` frames.
pub open spec fn async_conversation<E>(
    a: IsoTpConfig,
    b: IsoTpConfig,
    transfer: TransferView,
    rx: RxView,
    fuel: nat,
) -> Option<Seq<u8>>
    decreases fuel,
{
    match transfer.step(a) {
        TransferStepView::Transmit(frame) if fuel > 0 => {
            let (rx2, effect) = reception::<E>(b, rx, frame.id, frame.data);
            let sent = transfer.sent();
            match (sent.step(a), effect) {
                (TransferStepView::Done, ReceptionView::Complete(_)) => Some(rx2.completed()),
                (TransferStepView::Transmit(_), ReceptionView::Stored) => async_conversation::<E>(
                    a,
                    b,
                    sent,
                    rx2,
                    (fuel - 1) as nat,
                ),
                (TransferStepView::AwaitFlowControl, ReceptionView::Reply(reply)) => {
                    match sent.on_flow_frame::<E>(a, reply.id, reply.data) {
                        (granted, FlowTurn::Granted) => async_conversation::<E>(
                            a,
                            b,
                            granted,
                            rx2,
                            (fuel - 1) as nat,
                        ),
                        _ => None,
                    }
                },
                _ => None,
            }
        },
        _ => None,
    }
}

/// From a state in step on, the asynchronous conversation ends with the payload.
proof fn lemma_async_conversation<E>(
    a: IsoTpConfig,
    b: IsoTpConfig,
    session: SessionView,
    rx: RxView,
    fuel: nat,
)
    requires
        peers(a, b),
        session.wf(),
        !session.done(),
        in_step(b, session, rx),
        session.payload.len() - session.offset <= fuel,
    ensures
        async_conversation::<E>(
            a,
            b,
            TransferView { session, stage: Stage::Streaming },
            rx,
            fuel,
        ) == Some(session.payload),
    decreases fuel,
{
    let block_left: u8 = if b.block_size > 0 {
        session.block_remaining
    } else {
        0
    };
    lemma_consecutive_received::<E>(a, b, session, rx, block_left);
    let transfer = TransferView { session, stage: Stage::Streaming };
    let frame = frame_of(a.tx_id, session.next_pdu(), a.padding);
    let (rx2, effect) = reception::<E>(b, rx, frame.id, frame.data);
    let sent = transfer.sent();
    if !sent.session.done() {
        if sent.awaits_flow_control() {
            let code = st_min_code(b.st_min@);
            lemma_flow_frame_judged(a, b, FlowStatus::ClearToSend, b.block_size, code);
            let reply = flow_frame(b, FlowStatus::ClearToSend, b.block_size, code);
            let granted = sent.on_flow_frame::<E>(a, reply.id, reply.data).0;
            lemma_async_conversation::<E>(a, b, granted.session, rx2, (fuel - 1) as nat);
        } else {
            lemma_async_conversation::<E>(a, b, sent.session, rx2, (fuel - 1) as nat);
        }
    }
}

/// A payload that an asynchronous node sends is delivered as it was sent, under the conditions of
/// [`law_round_trip`].
pub proof fn law_async_round_trip<E>(
    a: IsoTpConfig,
    b: IsoTpConfig,
    payload: Seq<u8>,
    rx: RxView,
)
    requires
        a.valid(),
        peers(a, b),
        blocks_agree(a, b, payload.len()),
        payload.len() <= a.max_payload_len,
        rx.fits(b, payload.len() as int),
    ensures
        async_conversation::<E>(
            a,
            b,
            TransferView::fresh(a, payload),
            rx,
            payload.len() + 1,
        ) == Some(payload),
{
    let transfer = TransferView::fresh(a, payload);
    if payload.len() <= SINGLE_MAX {
        let pdu = PduView::SingleFrame { len: payload.len() as u8, data: payload };
        law_decode_encode(a.tx_id, pdu, a.padding);
        assert(payload.take(payload.len() as int) == payload);
    } else {
        let pdu = PduView::FirstFrame {
            len: payload.len() as u16,
            data: payload.take(FIRST_LEN as int),
        };
        law_decode_encode(a.tx_id, pdu, a.padding);
        let code = st_min_code(b.st_min@);
        lemma_flow_frame_judged(a, b, FlowStatus::ClearToSend, b.block_size, code);
        let reply = flow_frame(b, FlowStatus::ClearToSend, b.block_size, code);
        let frame = frame_of(a.tx_id, pdu, a.padding);
        let (rx2, effect) = reception::<E>(b, rx, frame.id, frame.data);
        assert(effect == ReceptionView::<E>::Reply(reply));
        let granted = transfer.sent().on_flow_frame::<E>(a, reply.id, reply.data).0;
        lemma_async_conversation::<E>(a, b, granted.session, rx2, payload.len());
    }
}

/// The frame bears the transmit identifier and holds at most eight bytes, exactly eight with
/// padding.
pub open spec fn fits_link(cfg: IsoTpConfig, frame: WireFrame) -> bool {
    &&& frame.id == cfg.tx_id
    &&& 1 <= frame.data.len() <= FRAME_LEN
    &&& cfg.padding is Some ==> frame.data.len() == FRAME_LEN
}

/// Every frame of a polling sender fits the link, whether it polls or has just got flow control.
pub proof fn law_polling_frames_fit<T, E>(
    cfg: IsoTpConfig,
    state: TxStateView<T>,
    payload: Seq<u8>,
    now: T,
    waited: int,
    since_frame: int,
    wait: FlowWaitView<T>,
    id: Id,
    data: Seq<u8>,
)
    requires
        cfg.valid(),
        state.wf(),
        wait.session.wf(),
    ensures
        poll_step::<T, E>(
            cfg,
            state,
            payload,
            now,
            waited,
            since_frame,
        ).0 matches SendStepView::Transmit { frame, .. } ==> fits_link(cfg, frame),
        flow_step::<T, E>(cfg, wait, id, data).0 matches SendStepView::Transmit { frame, .. }
            ==> fits_link(cfg, frame),
{
}

/// Every frame of an asynchronous sender fits the link.
pub proof fn law_async_frames_fit(cfg: IsoTpConfig, transfer: TransferView)
    requires
        transfer.wf(),
    ensures
        transfer.step(cfg) matches TransferStepView::Transmit(frame) ==> fits_link(cfg, frame),
{
}

/// Every answer of a receiver fits the link.
pub proof fn law_answers_fit<E>(cfg: IsoTpConfig, rx: RxView, id: Id, data: Seq<u8>)
    ensures
        reception::<E>(cfg, rx, id, data).1 matches ReceptionView::Reply(frame) ==> fits_link(
            cfg,
            frame,
        ),
        reception::<E>(cfg, rx, id, data).1 matches ReceptionView::Reject(frame) ==> fits_link(
            cfg,
            frame,
        ),
{
}

/// A payload that is too long for the receiver is turned down: the receiver answers its first frame
/// with an overflow frame and drops what it had, and that answer ends the transmission, polling or
/// asynchronous, with an overflow error.
pub proof fn law_overflow_refused<T, E>(
    a: IsoTpConfig,
    b: IsoTpConfig,
    payload: Seq<u8>,
    rx: RxView,
    now: T,
    since_frame: int,
)
    requires
        a.valid(),
        peers(a, b),
        SINGLE_MAX < payload.len() <= a.max_payload_len,
        !rx.fits(b, payload.len() as int),
    ensures
        start_step::<T, E>(a, payload, now) matches SendStepView::Transmit {
            frame,
            next: TxStateView::WaitingForFc { session, deadline, last_sent },
            ..
        } && {
            let answer = overflow_frame(b);
            let wait = FlowWaitView { session, deadline, last_sent, since_frame, now };
            &&& reception::<E>(b, rx, frame.id, frame.data) == (
                rx.at(RxProgress::Idle),
                ReceptionView::<E>::Reject(answer),
            )
            &&& flow_step::<T, E>(a, wait, answer.id, answer.data) == (
                SendStepView::<T, E>::Finished(Err(IsoTpError::Overflow)),
                TxStateView::<T>::Idle,
            )
            &&& (TransferView { session, stage: Stage::Unanswered }).on_flow_frame::<E>(
                a,
                answer.id,
                answer.data,
            ).1 == FlowTurn::<E>::Failed(IsoTpError::Overflow)
        },
{
    let pdu = PduView::FirstFrame {
        len: payload.len() as u16,
        data: payload.take(FIRST_LEN as int),
    };
    law_decode_encode(a.tx_id, pdu, a.padding);
    lemma_flow_frame_judged(a, b, FlowStatus::Overflow, 0, st_min_code(b.st_min@));
}

/// A frame for another node, or a flow control frame, changes nothing at a receiver, which also counts
/// on from its last frame for the time that it allows for the next one. A frame for another node, or
/// a well-formed one that is not flow control, changes nothing at a sender that waits for flow
/// control.
pub proof fn law_foreign_frames_ignored<T, E>(
    cfg: IsoTpConfig,
    rx: RxView,
    at: Option<T>,
    now: T,
    wait: FlowWaitView<T>,
    transfer: TransferView,
    id: Id,
    data: Seq<u8>,
)
    requires
        at is Some <==> rx.progress is Receiving,
    ensures
        id != cfg.rx_id || (decoded(data) is Some && decoded(data)->0 is FlowControl) ==> {
            &&& reception::<E>(cfg, rx, id, data) == (rx, ReceptionView::<E>::Ignored)
            &&& received_at(rx, ReceptionView::<E>::Ignored, at, now) == at
        },
        id != cfg.rx_id || (decoded(data) is Some && !(decoded(data)->0 is FlowControl)) ==> {
            &&& flow_step::<T, E>(cfg, wait, id, data).0 == SendStepView::<T, E>::Receive(wait)
            &&& transfer.on_flow_frame::<E>(cfg, id, data) == (transfer, FlowTurn::<E>::Wait)
        },
{
}

/// A consecutive frame out of turn ends the reception with a sequence error; nothing of the payload
/// is delivered.
pub proof fn law_wrong_sequence<E>(
    cfg: IsoTpConfig,
    rx: RxView,
    total: int,
    have: Seq<u8>,
    next_sn: u8,
    block_left: u8,
    data: Seq<u8>,
)
    requires
        rx.progress == (RxProgress::Receiving { total, data: have, next_sn, block_left }),
        decoded(data) matches Some(PduView::ConsecutiveFrame { sn, .. }) && sn != next_sn,
    ensures
        reception::<E>(cfg, rx, cfg.rx_id, data) == (
            rx.at(RxProgress::Idle),
            ReceptionView::<E>::Failed(IsoTpError::BadSequence),
        ),
        rx.at(RxProgress::Idle).completed() == Seq::<u8>::empty(),
{
}

/// A frame never makes a receiver overrun its buffer or deliver more than was announced.
pub proof fn law_reception_keeps_bounds<E>(cfg: IsoTpConfig, rx: RxView, id: Id, data: Seq<u8>)
    requires
        rx.wf(),
        rx.capacity <= usize::MAX,
    ensures
        reception::<E>(cfg, rx, id, data).0.wf(),
        reception::<E>(cfg, rx, id, data).0.capacity == rx.capacity,
        reception::<E>(cfg, rx, id, data).1 matches ReceptionView::Complete(len) ==> reception::<
            E,
        >(cfg, rx, id, data).0.completed().len() == len,
{
}

/// The transmission after the peer has asked `n` times in a row to wait.
pub open spec fn held_times(session: SessionView, n: nat) -> SessionView
    decreases n,
{
    if n == 0 {
        session
    } else {
        held_times(session, (n - 1) as nat).held()
    }
}

/// Of the requests to wait that come in a row, a sender accepts `wft_max`, and fails on the next
/// one.
pub proof fn law_wait_limit<T, E>(
    cfg: IsoTpConfig,
    wait: FlowWaitView<T>,
    session: SessionView,
    id: Id,
    data: Seq<u8>,
    n: nat,
)
    requires
        session.wait_count == 0,
        wait.session == held_times(session, n),
        flow_verdict(cfg, id, data) == FlowVerdict::Hold,
    ensures
        flow_step::<T, E>(cfg, wait, id, data).0 == SendStepView::<T, E>::Finished(
            if n < cfg.wft_max {
                Ok(Progress::WaitingForFlowControl)
            } else {
                Err(IsoTpError::Timeout(TimeoutKind::NBs))
            },
        ),
        (TransferView { session: held_times(session, n), stage: Stage::Unanswered }).on_flow_frame::<
            E,
        >(cfg, id, data).1 == (if n < cfg.wft_max {
            FlowTurn::<E>::Restart
        } else {
            FlowTurn::<E>::Failed(IsoTpError::Timeout(TimeoutKind::NBs))
        }),
{
    lemma_held_times(session, n);
}

proof fn lemma_held_times(session: SessionView, n: nat)
    requires
        session.wait_count == 0,
    ensures
        held_times(session, n).wait_count == (if n <= u16::MAX {
            n as int
        } else {
            u16::MAX as int
        }),
    decreases n,
{
    if n > 0 {
        lemma_held_times(session, (n - 1) as nat);
    }
}

/// A sender that fails on a request to wait has not lost its transmission yet, but the next poll
/// ends it.
pub proof fn law_refused_wait_ends<T, E>(
    cfg: IsoTpConfig,
    wait: FlowWaitView<T>,
    id: Id,
    data: Seq<u8>,
    payload: Seq<u8>,
    later: T,
    waited: int,
    since_frame: int,
)
    requires
        flow_verdict(cfg, id, data) == FlowVerdict::Hold,
        wait.session.wait_count + 1 > cfg.wft_max,
        payload.len() <= cfg.max_payload_len,
    ensures
        ({
            let (step, state) = flow_step::<T, E>(cfg, wait, id, data);
            let failed = SendStepView::<T, E>::Finished(
                Err(IsoTpError::Timeout(TimeoutKind::NBs)),
            );
            &&& step == failed
            &&& poll_step::<T, E>(cfg, state, payload, later, waited, since_frame) == (
                failed,
                TxStateView::<T>::Idle,
            )
        }),
{
}

/// A sender that gets no flow control within `n_bs` of its frame fails, and is idle again; an
/// asynchronous sender has no time left to wait from then on.
pub proof fn law_unanswered_times_out<T, E>(
    cfg: IsoTpConfig,
    session: SessionView,
    sent_at: T,
    payload: Seq<u8>,
    now: T,
    waited: int,
    since_frame: int,
    timeout: int,
    elapsed: int,
)
    requires
        payload.len() <= cfg.max_payload_len,
        waited >= cfg.n_bs@,
    ensures
        start_step::<T, E>(cfg, payload, sent_at) matches SendStepView::Transmit { next, .. } ==> (
        next is WaitingForFc ==> poll_step::<T, E>(cfg, next, payload, now, waited, since_frame) == (
            SendStepView::<T, E>::Finished(Err(IsoTpError::Timeout(TimeoutKind::NBs))),
            TxStateView::<T>::Idle,
        )),
        after_consecutive(cfg, session, sent_at).0 is WaitingForFc ==> poll_step::<T, E>(
            cfg,
            after_consecutive(cfg, session, sent_at).0,
            payload,
            now,
            waited,
            since_frame,
        ) == (
            SendStepView::<T, E>::Finished(Err(IsoTpError::Timeout(TimeoutKind::NBs))),
            TxStateView::<T>::Idle,
        ),
        flow_budget_of::<E>(cfg.n_bs@, waited, timeout, elapsed) == Err::<
            TimeLimit,
            IsoTpError<E>,
        >(IsoTpError::Timeout(TimeoutKind::NBs)),
{
}

/// The sending side after `n` consecutive frames in a row, each sent when it is due, with the first
/// of them taken from `session`.
pub open spec fn streamed<T>(cfg: IsoTpConfig, session: SessionView, now: T, n: nat) -> TxStateView<
    T,
>
    decreases n,
{
    if n == 0 {
        TxStateView::Sending { session, st_min_deadline: None, last_sent: now }
    } else {
        match streamed(cfg, session, now, (n - 1) as nat) {
            TxStateView::Sending { session: s, .. } => after_consecutive(cfg, s, now).0,
            other => other,
        }
    }
}

/// After a go-ahead for blocks of `block_size` frames the sender sends that many consecutive frames
/// and no more before it waits for flow control again, unless the payload ends first.
pub proof fn law_block_length<T>(cfg: IsoTpConfig, session: SessionView, now: T, n: nat)
    requires
        session.wf(),
        session.block_size > 0,
        session.block_remaining == session.block_size,
        n <= session.block_size,
        session.offset + CONSECUTIVE_MAX * n < session.payload.len(),
    ensures
        streamed::<T>(cfg, session, now, n) is WaitingForFc <==> n == session.block_size,
        n < session.block_size ==> streamed::<T>(cfg, session, now, n) is Sending,
{
    lemma_block_length(cfg, session, now, n);
}

proof fn lemma_block_length<T>(cfg: IsoTpConfig, session: SessionView, now: T, n: nat)
    requires
        session.wf(),
        session.block_size > 0,
        session.block_remaining == session.block_size,
        n <= session.block_size,
        session.offset + CONSECUTIVE_MAX * n < session.payload.len(),
    ensures
        match streamed::<T>(cfg, session, now, n) {
            TxStateView::Sending { session: s, .. } => {
                &&& n < session.block_size
                &&& s.payload == session.payload
                &&& s.offset == session.offset + CONSECUTIVE_MAX * n
                &&& s.block_size == session.block_size
                &&& s.block_remaining == session.block_size - n
            },
            TxStateView::WaitingForFc { .. } => n == session.block_size,
            TxStateView::Idle => false,
        },
    decreases n,
{
    if n > 0 {
        lemma_block_length(cfg, session, now, (n - 1) as nat);
    }
}

/// The number of bytes in all chunks together.
pub open spec fn total_len(chunks: Seq<Seq<u8>>) -> nat
    decreases chunks.len(),
{
    if chunks.len() == 0 {
        0
    } else {
        total_len(chunks.drop_last()) + chunks.last().len()
    }
}

/// The receiving side after consecutive frames with the given chunks, each in its turn, and what the
/// last of them calls for.
pub open spec fn absorbed(cfg: IsoTpConfig, rx: RxView, chunks: Seq<Seq<u8>>) -> (
    RxView,
    Result<RxOutcome, IsoTpError<()>>,
)
    decreases chunks.len(),
{
    if chunks.len() == 0 {
        (rx, Ok(RxOutcome::Pending))
    } else {
        let before = absorbed(cfg, rx, chunks.drop_last()).0;
        match before.progress {
            RxProgress::Receiving { next_sn, .. } => before.on_pdu(
                cfg,
                PduView::ConsecutiveFrame { sn: next_sn, data: chunks.last() },
            ),
            _ => (before, Ok(RxOutcome::Pending)),
        }
    }
}

/// A receiver asks for more after every `block_size` consecutive frames and at no other time, as
/// long as the payload is incomplete; without a block size it never does.
pub proof fn law_receiver_blocks(
    cfg: IsoTpConfig,
    rx: RxView,
    total: int,
    have: Seq<u8>,
    next_sn: u8,
    chunks: Seq<Seq<u8>>,
)
    requires
        rx.progress == (RxProgress::Receiving {
            total,
            data: have,
            next_sn,
            block_left: cfg.block_size,
        }),
        have.len() + total_len(chunks) < total,
        chunks.len() > 0,
    ensures
        absorbed(cfg, rx, chunks).1 == Ok::<RxOutcome, IsoTpError<()>>(
            if cfg.block_size > 0 && chunks.len() % (cfg.block_size as nat) == 0 {
                RxView::go_ahead(cfg)
            } else {
                RxOutcome::Pending
            },
        ),
{
    lemma_receiver_blocks(cfg, rx, total, have, next_sn, chunks);
}

proof fn lemma_receiver_blocks(
    cfg: IsoTpConfig,
    rx: RxView,
    total: int,
    have: Seq<u8>,
    next_sn: u8,
    chunks: Seq<Seq<u8>>,
)
    requires
        rx.progress == (RxProgress::Receiving {
            total,
            data: have,
            next_sn,
            block_left: cfg.block_size,
        }),
        have.len() + total_len(chunks) < total,
    ensures
        ({
            let (after, outcome) = absorbed(cfg, rx, chunks);
            let size = cfg.block_size as int;
            let count = chunks.len() as int;
            &&& after.progress matches RxProgress::Receiving { total: t, data, block_left, .. }
            &&& t == total
            &&& data.len() == have.len() + total_len(chunks)
            &&& if size > 0 {
                block_left == size - count % size
            } else {
                block_left == 0
            }
            &&& count > 0 ==> outcome == Ok::<RxOutcome, IsoTpError<()>>(
                if size > 0 && count % size == 0 {
                    RxView::go_ahead(cfg)
                } else {
                    RxOutcome::Pending
                },
            )
        }),
    decreases chunks.len(),
{
    if chunks.len() > 0 {
        lemma_receiver_blocks(cfg, rx, total, have, next_sn, chunks.drop_last());
        let size = cfg.block_size as int;
        let count = chunks.len() as int;
        if size > 0 {
            assert(count % size == (if (count - 1) % size == size - 1 {
                0
            } else {
                (count - 1) % size + 1
            })) by {
                lemma_next_mod(count - 1, size);
            }
        }
    }
}

proof fn lemma_next_mod(n: int, size: int)
    requires
        n >= 0,
        size > 0,
    ensures
        0 <= n % size < size,
        (n + 1) % size == (if n % size == size - 1 {
            0
        } else {
            n % size + 1
        }),
{
    lemma_fundamental_div_mod(n, size);
    lemma_mod_bound(n, size);
    if n % size == size - 1 {
        assert(n + 1 == (n / size + 1) * size) by (nonlinear_arith)
            requires
                n == size * (n / size) + n % size,
                n % size == size - 1,
        ;
        lemma_fundamental_div_mod_converse(n + 1, size, n / size + 1, 0);
    } else {
        assert(n + 1 == (n / size) * size + (n % size + 1)) by (nonlinear_arith)
            requires
                n == size * (n / size) + n % size,
        ;
        lemma_fundamental_div_mod_converse(n + 1, size, n / size, n % size + 1);
    }
}

/// The sending side knows that its last consecutive frame went out at `sent_at`, and holds the next
/// one back accordingly.
pub open spec fn spaced<T>(state: TxStateView<T>, sent_at: T) -> bool {
    match state {
        TxStateView::Idle => true,
        TxStateView::WaitingForFc { last_sent, .. } => last_sent == Some(sent_at),
        TxStateView::Sending { session, st_min_deadline, last_sent } => {
            &&& last_sent == sent_at
            &&& session.st_min@ > 0 ==> st_min_deadline == Some(
                Deadline { from: sent_at, wait: session.st_min },
            )
        },
    }
}

/// A sender keeps the separation time between any two consecutive frames, in a block and from one
/// block to the next: when a frame has gone out at `sent_at`, then a later poll, or a flow control
/// frame that it comes upon, calls for the next one only if the separation time in force has passed
/// since; otherwise the sender goes on holding it back. A poll that finds nothing on the link
/// leaves all as it was.
pub proof fn law_separation_kept<T, E>(
    cfg: IsoTpConfig,
    session: SessionView,
    sent_at: T,
    state: TxStateView<T>,
    payload: Seq<u8>,
    now: T,
    waited: int,
    since: int,
    id: Id,
    data: Seq<u8>,
)
    requires
        spaced(state, sent_at),
        !(state is Idle),
        state is Sending ==> waited == since,
        since >= 0,
    ensures
        spaced(after_consecutive(cfg, session, sent_at).0, sent_at),
        spaced(poll_step::<T, E>(cfg, state, payload, now, waited, since).1, sent_at),
        match poll_step::<T, E>(cfg, state, payload, now, waited, since).0 {
            SendStepView::Transmit { .. } => state matches TxStateView::Sending { session: s, .. }
                && s.st_min@ <= since < cfg.n_cs@,
            SendStepView::Receive(wait) => {
                &&& state == (TxStateView::WaitingForFc {
                    session: wait.session,
                    deadline: wait.deadline,
                    last_sent: wait.last_sent,
                })
                &&& flow_step::<T, E>(cfg, wait, id, data).0 is Transmit ==> (flow_verdict(
                    cfg,
                    id,
                    data,
                ) matches FlowVerdict::Proceed { st_min, .. } && since >= st_min@)
                &&& spaced(flow_step::<T, E>(cfg, wait, id, data).1, sent_at)
            },
            SendStepView::Finished(_) => true,
        },
{
}

/// A go-ahead that comes earlier than the separation time after the last consecutive frame is taken,
/// but calls for no frame yet: the next one waits until the separation time is over, and then goes
/// out. A go-ahead that comes later, or is the first one, calls for the next frame at once.
pub proof fn law_early_go_ahead<T, E>(
    cfg: IsoTpConfig,
    wait: FlowWaitView<T>,
    id: Id,
    data: Seq<u8>,
    payload: Seq<u8>,
    later: T,
    since: int,
)
    requires
        wait.session.wf(),
        flow_verdict(cfg, id, data) is Proceed,
        payload.len() <= cfg.max_payload_len,
    ensures
        ({
            let block_size = flow_verdict(cfg, id, data)->block_size;
            let st_min = flow_verdict(cfg, id, data)->st_min;
            let granted = wait.session.granted(block_size, st_min);
            let (step, state) = flow_step::<T, E>(cfg, wait, id, data);
            if wait.last_sent is Some && wait.since_frame < st_min@ {
                &&& step == SendStepView::<T, E>::Finished(Ok(Progress::WouldBlock))
                &&& state == (TxStateView::Sending {
                    session: granted,
                    st_min_deadline: Some(Deadline { from: wait.last_sent->0, wait: st_min }),
                    last_sent: wait.last_sent->0,
                })
                &&& st_min@ <= since < cfg.n_cs@ ==> poll_step::<T, E>(
                    cfg,
                    state,
                    payload,
                    later,
                    since,
                    since,
                ).0 == consecutive_step::<T, E>(cfg, granted, later)
            } else {
                &&& step == consecutive_step::<T, E>(cfg, granted, wait.now)
                &&& !granted.done() ==> step is Transmit
            }
        }),
{
}

/// A sender that waits for the separation time sends nothing and keeps its transmission and the
/// deadline until the deadline has come, however often it is polled, unless `n_cs` is over; from then
/// on it goes on as if there had been none.
pub proof fn law_separation_deadline<T, E>(
    cfg: IsoTpConfig,
    session: SessionView,
    deadline: Deadline<T>,
    last_sent: T,
    payload: Seq<u8>,
    now: T,
    waited: int,
    since_frame: int,
)
    requires
        payload.len() <= cfg.max_payload_len,
    ensures
        ({
            let state = TxStateView::Sending {
                session,
                st_min_deadline: Some(deadline),
                last_sent,
            };
            let free = TxStateView::Sending { session, st_min_deadline: None, last_sent };
            poll_step::<T, E>(cfg, state, payload, now, waited, since_frame) == (if waited
                < deadline.wait@ && since_frame < cfg.n_cs@ {
                (SendStepView::<T, E>::Finished(Ok(Progress::WouldBlock)), state)
            } else {
                poll_step::<T, E>(cfg, free, payload, now, waited, since_frame)
            })
        }),
{
}

/// A sender in the middle of a block fails, and is idle again, once `n_cs` has passed since its last
/// consecutive frame; before that it does not fail.
pub proof fn law_stalled_block_times_out<T, E>(
    cfg: IsoTpConfig,
    state: TxStateView<T>,
    payload: Seq<u8>,
    now: T,
    waited: int,
    since_frame: int,
)
    requires
        state is Sending,
        payload.len() <= cfg.max_payload_len,
    ensures
        if since_frame >= cfg.n_cs@ {
            poll_step::<T, E>(cfg, state, payload, now, waited, since_frame) == (
                SendStepView::<T, E>::Finished(Err(IsoTpError::Timeout(TimeoutKind::NCs))),
                TxStateView::<T>::Idle,
            )
        } else {
            !(poll_step::<T, E>(
                cfg,
                state,
                payload,
                now,
                waited,
                since_frame,
            ).0 matches SendStepView::Finished(Err(_)))
        },
{
}

/// A refused payload leaves the node as it was: nothing is sent, and a transmission under way can go
/// on.
pub proof fn law_refusal_changes_nothing<T, E>(
    cfg: IsoTpConfig,
    state: TxStateView<T>,
    payload: Seq<u8>,
    now: T,
    waited: int,
    since_frame: int,
)
    requires
        payload.len() > cfg.max_payload_len,
    ensures
        poll_step::<T, E>(cfg, state, payload, now, waited, since_frame) == (
            SendStepView::<T, E>::Finished(Err(IsoTpError::Overflow)),
            state,
        ),
{
}

} // verus!
