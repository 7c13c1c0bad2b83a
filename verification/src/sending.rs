//! What holds of a sender, byte by byte and call by call.

use crate::async_node::{FlowTurn, Stage, TransferStepView, TransferView};
use crate::config::IsoTpConfig;
use crate::errors::{IsoTpError, TimeoutKind};
use crate::flow::{flow_verdict, law_flow_control_bytes};
use crate::id::Id;
use crate::link::LinkReply;
use crate::node::{
    after_consecutive, after_transmit, consecutive_step, flow_step, poll_step, FlowWaitView,
    SendStepView,
};
use crate::pdu::{decoded, law_frame_layout, PduView};
use crate::runs::{planned, planned_pdu};
use crate::tx::{Deadline, Progress, SessionView, TxStateView};
use vstd::prelude::*;

verus! {

/// The separation time, in nanoseconds, that the third byte of a go-ahead asks of the sender `cfg`.
pub open spec fn asked_pace(cfg: IsoTpConfig, raw: u8) -> int {
    if raw <= 0x7F {
        raw * 1_000_000
    } else if 0xF1 <= raw <= 0xF9 {
        (raw - 0xF0) * 100_000
    } else {
        cfg.st_min@
    }
}

/// The bytes of the frames that a payload takes, all with the transmit identifier. Up to seven bytes
/// go in one frame behind their number. A longer payload takes a first frame, with the length in
/// twelve bits and six bytes, and as many further frames as it takes to hold the others seven by
/// seven; the first byte of the `k`-th of these is 20 plus `k` modulo sixteen.
pub proof fn law_bytes_on_the_link(cfg: IsoTpConfig, payload: Seq<u8>, k: int)
    requires
        payload.len() <= 4095,
        0 <= k < planned(cfg, payload).len(),
    ensures
        ({
            let all = planned(cfg, payload);
            let wire = all[k].data;
            &&& all[k].id == cfg.tx_id
            &&& cfg.padding is Some ==> wire.len() == 8
            &&& if payload.len() <= 7 {
                &&& all.len() == 1
                &&& wire[0] == payload.len()
                &&& cfg.padding is None ==> wire.len() == 1 + payload.len()
                &&& forall|i: int| 0 <= i < payload.len() ==> wire[1 + i] == #[trigger] payload[i]
            } else {
                &&& 7 * (all.len() - 2) < payload.len() - 6 <= 7 * (all.len() - 1)
                &&& if k == 0 {
                    &&& wire.len() == 8
                    &&& wire[0] / 16 == 1
                    &&& wire[0] % 16 * 256 + wire[1] == payload.len()
                    &&& forall|i: int| 0 <= i < 6 ==> wire[2 + i] == #[trigger] payload[i]
                } else {
                    &&& wire[0] == 0x20 + k % 16
                    &&& forall|i: int|
                        6 + 7 * (k - 1) <= i < 6 + 7 * k && i < payload.len() ==> wire[i - 5 - 7 * (k
                            - 1)] == #[trigger] payload[i]
                    &&& cfg.padding is None ==> wire.len() == (if k < all.len() - 1 {
                        8
                    } else {
                        1 + payload.len() - 6 - 7 * (k - 1)
                    })
                }
            }
        }),
{
    let pdu = planned_pdu(payload, k);
    assert(pdu.encodable());
    law_frame_layout(cfg.tx_id, pdu, cfg.padding);
    match pdu {
        PduView::SingleFrame { len, data } => {
            assert(forall|i: int| 0 <= i < payload.len() ==> data[i] == #[trigger] payload[i]);
        },
        PduView::FirstFrame { len, data } => {
            assert(forall|i: int| 0 <= i < 6 ==> data[i] == #[trigger] payload[i]);
        },
        PduView::ConsecutiveFrame { sn, data } => {
            assert(forall|i: int|
                6 + 7 * (k - 1) <= i < 6 + 7 * k && i < payload.len() ==> data[i - 6 - 7 * (k - 1)]
                    == #[trigger] payload[i]);
        },
        PduView::FlowControl { .. } => {},
    }
}

/// How a transmission begins: a payload of up to seven bytes is through with its frame, and a longer
/// one waits for flow control, from the time of its first frame on, with all but six bytes to go.
pub proof fn law_first_call<T, E>(
    cfg: IsoTpConfig,
    payload: Seq<u8>,
    now: T,
    waited: int,
    since_frame: int,
)
    requires
        payload.len() <= cfg.max_payload_len,
    ensures
        ({
            let (step, left) = poll_step::<T, E>(
                cfg,
                TxStateView::Idle,
                payload,
                now,
                waited,
                since_frame,
            );
            &&& left is Idle
            &&& step matches SendStepView::Transmit { frame, next, progress }
            &&& frame == planned(cfg, payload)[0]
            &&& if payload.len() <= 7 {
                next is Idle && progress == Progress::Completed
            } else {
                &&& progress == Progress::WaitingForFlowControl
                &&& next matches TxStateView::WaitingForFc { session, deadline, last_sent }
                &&& last_sent is None
                &&& deadline.from == now && deadline.wait@ == cfg.n_bs@
                &&& session.payload == payload && session.offset == 6 && session.next_sn == 1
                &&& session.wait_count == 0
            }
        }),
{
}

/// The state holds a sender that waits for flow control since the instant `from`: it takes a frame at
/// every poll less than `n_bs` later, and fails with a timeout at every other.
pub open spec fn waits_from<T, E>(
    cfg: IsoTpConfig,
    state: TxStateView<T>,
    from: T,
    payload: Seq<u8>,
    now: T,
    waited: int,
    since_frame: int,
) -> bool {
    let (step, left) = poll_step::<T, E>(cfg, state, payload, now, waited, since_frame);
    &&& state.deadline() matches Some(deadline) && deadline.from == from
    &&& if waited < cfg.n_bs@ {
        step matches SendStepView::Receive(wait) && wait.now == now && wait.since_frame
            == since_frame
    } else {
        step == SendStepView::<T, E>::Finished(Err(IsoTpError::Timeout(TimeoutKind::NBs)))
            && left is Idle
    }
}

/// A sender has `n_bs` for every wait for flow control, and no more: from its first frame on, from the
/// last frame of a block on, and again from every accepted request to wait on.
pub proof fn law_time_to_answer<T, E>(
    cfg: IsoTpConfig,
    payload: Seq<u8>,
    sent_at: T,
    session: SessionView,
    wait: FlowWaitView<T>,
    id: Id,
    data: Seq<u8>,
    now: T,
    waited: int,
    since_frame: int,
)
    requires
        payload.len() <= cfg.max_payload_len,
        session.wait_count <= cfg.wft_max,
        id == cfg.rx_id,
        3 <= data.len() <= 8,
        data[0] == 0x31,
        wait.session.wait_count + 1 <= cfg.wft_max,
    ensures
        poll_step::<T, E>(cfg, TxStateView::Idle, payload, sent_at, 0, 0).0
            matches SendStepView::Transmit { next, .. } ==> (payload.len() > 7 ==> waits_from::<
            T,
            E,
        >(cfg, next, sent_at, payload, now, waited, since_frame)),
        after_consecutive(cfg, session, sent_at).0 is WaitingForFc ==> waits_from::<T, E>(
            cfg,
            after_consecutive(cfg, session, sent_at).0,
            sent_at,
            payload,
            now,
            waited,
            since_frame,
        ),
        waits_from::<T, E>(
            cfg,
            flow_step::<T, E>(cfg, wait, id, data).1,
            wait.now,
            payload,
            now,
            waited,
            since_frame,
        ),
        flow_step::<T, E>(cfg, wait, id, data).0 == SendStepView::<T, E>::Finished(
            Ok(Progress::WaitingForFlowControl),
        ),
{
    law_flow_control_bytes(cfg, id, data);
}

/// A request to wait that is accepted costs the sender nothing but one of `wft_max`: the transmission
/// stands where it stood, and the peer has `n_bs` again, from the request on.
pub proof fn law_wait_request_renews<T, E>(
    cfg: IsoTpConfig,
    wait: FlowWaitView<T>,
    id: Id,
    data: Seq<u8>,
    payload: Seq<u8>,
    now: T,
    waited: int,
    since_frame: int,
)
    requires
        payload.len() <= cfg.max_payload_len,
        flow_verdict(cfg, id, data) is Hold,
        wait.session.wait_count + 1 <= cfg.wft_max,
    ensures
        ({
            let state = flow_step::<T, E>(cfg, wait, id, data).1;
            let (step, left) = poll_step::<T, E>(cfg, state, payload, now, waited, since_frame);
            &&& step is Receive <==> waited < cfg.n_bs@
            &&& waited >= cfg.n_bs@ ==> step == SendStepView::<T, E>::Finished(
                Err(IsoTpError::Timeout(TimeoutKind::NBs)),
            ) && left is Idle
            &&& state matches TxStateView::WaitingForFc { session, deadline, last_sent }
            &&& deadline.from == wait.now
            &&& last_sent == wait.last_sent
            &&& session.wait_count == wait.session.wait_count + 1
            &&& session.payload == wait.session.payload && session.offset == wait.session.offset
            &&& session.next_sn == wait.session.next_sn
        }),
{
}

/// A poll that finds nothing on the link changes nothing: the sender waits on, and not longer for it.
pub proof fn law_silent_poll<T, E>(
    cfg: IsoTpConfig,
    state: TxStateView<T>,
    payload: Seq<u8>,
    now: T,
    waited: int,
    since_frame: int,
)
    ensures
        poll_step::<T, E>(cfg, state, payload, now, waited, since_frame).0
            matches SendStepView::Receive(wait) ==> wait.unanswered::<E>() == (
            Ok::<Progress, IsoTpError<E>>(Progress::WaitingForFlowControl),
            state,
        ),
{
}

/// What a consecutive frame carries and what follows it. It bears the next sequence number and the next
/// seven bytes, or all that are left. With the last bytes the transmission is through. With the last
/// frame of a block the sender waits for flow control; otherwise it goes on, after the separation
/// time if there is one. The transmission itself moves on by the bytes and by one number.
pub proof fn law_consecutive_frame<T, E>(cfg: IsoTpConfig, session: SessionView, now: T)
    requires
        session.wf(),
        !session.done(),
    ensures
        ({
            let left = session.payload.len() - session.offset;
            let count = if left < 7 {
                left
            } else {
                7
            };
            &&& consecutive_step::<T, E>(cfg, session, now) matches SendStepView::Transmit {
                frame,
                next,
                progress,
            }
            &&& frame.id == cfg.tx_id
            &&& frame.data[0] == 0x20 + session.next_sn
            &&& forall|i: int|
                session.offset <= i < session.offset + count ==> frame.data[1 + i - session.offset]
                    == #[trigger] session.payload[i]
            &&& frame.data.len() == (if cfg.padding is Some {
                8
            } else {
                1 + count
            })
            &&& if left <= 7 {
                next is Idle && progress == Progress::Completed
            } else if session.block_size > 0 && session.block_remaining <= 1 {
                &&& progress == Progress::WaitingForFlowControl
                &&& next matches TxStateView::WaitingForFc { session: s, deadline, last_sent }
                &&& moved_on(session, s)
                &&& deadline.from == now && deadline.wait@ == cfg.n_bs@
                &&& last_sent == Some(now)
            } else {
                &&& progress == Progress::InFlight
                &&& next matches TxStateView::Sending { session: s, st_min_deadline, last_sent }
                &&& moved_on(session, s)
                &&& session.block_size > 0 ==> s.block_remaining == session.block_remaining - 1
                &&& last_sent == now
                &&& if session.st_min@ > 0 {
                    st_min_deadline matches Some(deadline) && deadline.from == now
                        && deadline.wait@ == session.st_min@
                } else {
                    st_min_deadline is None
                }
            }
        }),
{
    let pdu = session.next_pdu();
    assert(pdu.encodable());
    law_frame_layout(cfg.tx_id, pdu, cfg.padding);
    if let PduView::ConsecutiveFrame { sn, data } = pdu {
        assert(forall|i: int|
            session.offset <= i < session.next_end() ==> data[i - session.offset]
                == #[trigger] session.payload[i]);
    }
}

/// The transmission has gone from `before` to `after` by a consecutive frame of seven bytes.
pub open spec fn moved_on(before: SessionView, after: SessionView) -> bool {
    &&& after.payload == before.payload
    &&& after.offset == before.offset + 7
    &&& after.next_sn == (before.next_sn + 1) % 16
    &&& after.block_size == before.block_size
    &&& after.st_min == before.st_min
    &&& after.wait_count == before.wait_count
}

/// What a go-ahead with the bytes 30, block size and separation time does: the transmission goes on
/// where it stands, with that block size, that separation time and no requests to wait counted. The
/// next frame goes out at once, unless the last consecutive frame went out less than the separation
/// time ago: the sender then waits for the rest of it.
pub proof fn law_go_ahead<T, E>(
    cfg: IsoTpConfig,
    wait: FlowWaitView<T>,
    id: Id,
    data: Seq<u8>,
)
    requires
        wait.session.wf(),
        !wait.session.done(),
        id == cfg.rx_id,
        3 <= data.len() <= 8,
        data[0] == 0x30,
    ensures
        ({
            let session = granted_by(cfg, wait.session, data);
            let (step, state) = flow_step::<T, E>(cfg, wait, id, data);
            let pace = asked_pace(cfg, data[2]);
            &&& session.payload == wait.session.payload && session.offset == wait.session.offset
            &&& session.next_sn == wait.session.next_sn
            &&& session.wait_count == 0 && session.st_min@ == pace
            &&& session.block_size == session.block_remaining
            &&& session.block_size == (if data[1] > 0 {
                data[1]
            } else {
                cfg.block_size
            })
            &&& if wait.last_sent is Some && wait.since_frame < pace {
                &&& step == SendStepView::<T, E>::Finished(Ok(Progress::WouldBlock))
                &&& state matches TxStateView::Sending { session: s, st_min_deadline, last_sent }
                &&& s == session
                &&& Some(last_sent) == wait.last_sent
                &&& st_min_deadline matches Some(deadline) && deadline.from == last_sent
                    && deadline.wait@ == pace
            } else {
                &&& step is Transmit
                &&& step == consecutive_step::<T, E>(cfg, session, wait.now)
            }
        }),
{
    law_flow_control_bytes(cfg, id, data);
}

/// The transmission after the go-ahead with the given bytes.
pub open spec fn granted_by(cfg: IsoTpConfig, session: SessionView, data: Seq<u8>) -> SessionView {
    let verdict = flow_verdict(cfg, cfg.rx_id, data);
    session.granted(verdict->block_size, verdict->st_min)
}

/// The other answers: 32 ends the transmission with an overflow, and what is not well-formed ends it as
/// an invalid frame. A request to wait beyond `wft_max` fails as a timeout.
pub proof fn law_refusals<T, E>(
    cfg: IsoTpConfig,
    wait: FlowWaitView<T>,
    transfer: TransferView,
    data: Seq<u8>,
)
    ensures
        ({
            let (step, state) = flow_step::<T, E>(cfg, wait, cfg.rx_id, data);
            let (next, turn) = transfer.on_flow_frame::<E>(cfg, cfg.rx_id, data);
            &&& 3 <= data.len() <= 8 && data[0] == 0x32 ==> {
                &&& step == SendStepView::<T, E>::Finished(Err(IsoTpError::Overflow))
                &&& state is Idle
                &&& turn == FlowTurn::<E>::Failed(IsoTpError::Overflow)
            }
            &&& decoded(data) is None ==> {
                &&& step == SendStepView::<T, E>::Finished(Err(IsoTpError::InvalidFrame))
                &&& state is Idle
                &&& turn == FlowTurn::<E>::Failed(IsoTpError::InvalidFrame)
            }
            &&& 3 <= data.len() <= 8 && data[0] == 0x31 ==> {
                &&& wait.session.wait_count >= cfg.wft_max ==> step == SendStepView::<
                    T,
                    E,
                >::Finished(Err(IsoTpError::Timeout(TimeoutKind::NBs)))
                &&& if transfer.session.wait_count >= cfg.wft_max {
                    turn == FlowTurn::<E>::Failed(IsoTpError::Timeout(TimeoutKind::NBs))
                } else {
                    &&& turn == FlowTurn::<E>::Restart
                    &&& next.stage == transfer.stage
                    &&& next.session.wait_count == transfer.session.wait_count + 1
                    &&& next.session.payload == transfer.session.payload
                    &&& next.session.offset == transfer.session.offset
                    &&& next.session.next_sn == transfer.session.next_sn
                    &&& next.session.block_size == transfer.session.block_size
                    &&& next.session.block_remaining == transfer.session.block_remaining
                    &&& next.session.st_min == transfer.session.st_min
                }
            }
            &&& 3 <= data.len() <= 8 && data[0] == 0x30 ==> {
                &&& turn == FlowTurn::<E>::Granted
                &&& next.stage == Stage::Streaming
                &&& next.session.payload == transfer.session.payload
                &&& next.session.offset == transfer.session.offset
                &&& next.session.next_sn == transfer.session.next_sn
                &&& next.session.wait_count == 0
                &&& next.session.st_min@ == asked_pace(cfg, data[2])
                &&& next.session.block_remaining == next.session.block_size
                &&& next.session.block_size == (if data[1] > 0 {
                    data[1]
                } else {
                    cfg.block_size
                })
            }
        }),
{
    law_flow_control_bytes(cfg, cfg.rx_id, data);
}

/// A poll in the middle of a block sends the next frame exactly if the separation time is over and
/// `n_cs` is not; before the one it waits and changes nothing, and from the other on it has failed.
pub proof fn law_poll_in_a_block<T, E>(
    cfg: IsoTpConfig,
    session: SessionView,
    deadline: Option<Deadline<T>>,
    last_sent: T,
    payload: Seq<u8>,
    now: T,
    waited: int,
    since_frame: int,
)
    requires
        session.wf(),
        !session.done(),
        payload.len() <= cfg.max_payload_len,
    ensures
        ({
            let state = TxStateView::Sending { session, st_min_deadline: deadline, last_sent };
            let (step, left) = poll_step::<T, E>(cfg, state, payload, now, waited, since_frame);
            if since_frame >= cfg.n_cs@ {
                &&& step == SendStepView::<T, E>::Finished(
                    Err(IsoTpError::Timeout(TimeoutKind::NCs)),
                )
                &&& left is Idle
            } else if deadline matches Some(d) && waited < d.wait@ {
                &&& step == SendStepView::<T, E>::Finished(Ok(Progress::WouldBlock))
                &&& left == state
            } else {
                &&& step is Transmit
                &&& step == consecutive_step::<T, E>(cfg, session, now)
            }
        }),
{
}

/// What is sent is fixed when the transmission begins: the payload that a later poll hands in does not
/// matter, as long as it is not too long.
pub proof fn law_payload_is_fixed<T, E>(
    cfg: IsoTpConfig,
    state: TxStateView<T>,
    one: Seq<u8>,
    other: Seq<u8>,
    now: T,
    waited: int,
    since_frame: int,
)
    requires
        !(state is Idle),
        one.len() <= cfg.max_payload_len,
        other.len() <= cfg.max_payload_len,
    ensures
        poll_step::<T, E>(cfg, state, one, now, waited, since_frame) == poll_step::<T, E>(
            cfg,
            state,
            other,
            now,
            waited,
            since_frame,
        ),
{
}

/// A frame that the link takes moves the transmission on; one that it does not take ends it, with the
/// link's own error, or as an invalid frame if it could not even be built.
pub proof fn law_link_decides<T, E>(next: TxStateView<T>, progress: Progress, error: E)
    ensures
        after_transmit::<T, E>(next, progress, LinkReply::Sent.result()) == (
            Ok::<Progress, IsoTpError<E>>(progress),
            next,
        ),
        after_transmit::<T, E>(next, progress, LinkReply::Failed(error).result()) == (
            Err::<Progress, IsoTpError<E>>(IsoTpError::LinkError(error)),
            TxStateView::<T>::Idle,
        ),
        after_transmit::<T, E>(next, progress, LinkReply::Unframeable.result()) == (
            Err::<Progress, IsoTpError<E>>(IsoTpError::InvalidFrame),
            TxStateView::<T>::Idle,
        ),
{
}

/// The instants that the owner of a node measures from are those of the state: none for an idle sender,
/// the start of the wait, and the last consecutive frame.
pub proof fn law_instants<T>(
    session: SessionView,
    deadline: Deadline<T>,
    pause: Option<Deadline<T>>,
    last: Option<T>,
    sent_at: T,
)
    ensures
        TxStateView::<T>::Idle.deadline() is None && TxStateView::<T>::Idle.last_sent() is None,
        ({
            let waiting = TxStateView::WaitingForFc { session, deadline, last_sent: last };
            waiting.deadline() == Some(deadline) && waiting.last_sent() == last
        }),
        ({
            let sending = TxStateView::Sending {
                session,
                st_min_deadline: pause,
                last_sent: sent_at,
            };
            sending.deadline() == pause && sending.last_sent() == Some(sent_at)
        }),
{
}

/// An asynchronous transmission begins exactly with a payload that is not too long and while the
/// call's time is not over; it begins with nothing sent. A payload that is too long is refused as
/// such even when the time is over.
pub proof fn law_async_begin<E>(cfg: IsoTpConfig, payload: Seq<u8>, elapsed: int, timeout: int)
    ensures
        match TransferView::begun::<E>(cfg, payload, elapsed, timeout) {
            Ok(transfer) => {
                &&& payload.len() <= cfg.max_payload_len && elapsed < timeout
                &&& transfer.stage == Stage::Opening
                &&& transfer.session.payload == payload && transfer.session.offset == 0
                &&& transfer.session.next_sn == 1 && transfer.session.wait_count == 0
            },
            Err(error) => if payload.len() > cfg.max_payload_len {
                error == IsoTpError::<E>::Overflow
            } else {
                elapsed >= timeout && error == IsoTpError::<E>::Timeout(TimeoutKind::NAs)
            },
        },
{
}

/// The steps of an asynchronous transmission: it opens with the first planned frame; a single frame is
/// all, and after a first frame it waits for flow control. Once it streams, it sends consecutive
/// frames, waits again after the last one of a block, and is done with the last byte.
pub proof fn law_async_steps(cfg: IsoTpConfig, transfer: TransferView, payload: Seq<u8>)
    requires
        transfer.wf(),
    ensures
        ({
            let fresh = TransferView::fresh(cfg, payload);
            &&& fresh.step(cfg) == TransferStepView::Transmit(planned(cfg, payload)[0])
            &&& if payload.len() <= 7 {
                fresh.sent().step(cfg) is Done
            } else {
                &&& fresh.sent().step(cfg) is AwaitFlowControl
                &&& fresh.sent().session.offset == 6 && fresh.sent().session.next_sn == 1
                &&& fresh.sent().session.payload == payload
            }
        }),
        transfer.stage == Stage::Streaming ==> {
            let session = transfer.session;
            if session.offset == session.payload.len() {
                transfer.step(cfg) is Done
            } else if session.block_size > 0 && session.block_remaining == 0 {
                transfer.step(cfg) is AwaitFlowControl
            } else {
                &&& transfer.step(cfg) matches TransferStepView::Transmit(frame)
                &&& frame.data[0] == 0x20 + session.next_sn
                &&& transfer.sent().stage == Stage::Streaming
                &&& session.block_size > 0 ==> transfer.sent().session.block_remaining
                    == session.block_remaining - 1
                &&& session.payload.len() - session.offset > 7 ==> moved_on(
                    session,
                    transfer.sent().session,
                )
                &&& session.payload.len() - session.offset <= 7
                    ==> transfer.sent().session.offset == session.payload.len()
            }
        },
{
    if transfer.stage == Stage::Streaming && !transfer.session.done() {
        let pdu = transfer.session.next_pdu();
        assert(pdu.encodable());
        law_frame_layout(cfg.tx_id, pdu, cfg.padding);
    }
}

} // verus!
