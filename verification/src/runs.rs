//! What holds of whole transmissions and receptions, frame after frame.

use crate::async_node::{FlowTurn, Stage, TransferStepView, TransferView};
use crate::config::IsoTpConfig;
use crate::errors::{IsoTpError, TimeoutKind};
use crate::flow::{flow_verdict, FlowVerdict};
use crate::link::LinkReply;
use crate::node::{
    after_consecutive, after_transmit, consecutive_step, flow_step, poll_step, FlowWaitView,
    SendStepView,
};
use crate::pdu::{
    decoded, frame_of, PduView, WireFrame, CONSECUTIVE_MAX, FIRST_LEN, SINGLE_MAX,
};
use crate::reception::{received_at, reception, ReceptionView};
use crate::rx::{RxProgress, RxView};
use crate::timing::blocking_outcome;
use crate::tx::{Progress, SessionView, TxStateView};
use vstd::prelude::*;

verus! {

/// What a transmission, or a part of it, has come to: the frames that the link took, in order, and
/// the result if it has ended.
#[verifier::ext_equal]
pub struct Run<E> {
    pub sent: Seq<WireFrame>,
    pub end: Option<Result<(), IsoTpError<E>>>,
}

impl<E> Run<E> {
    /// Nothing has gone out, and nothing has ended.
    pub open spec fn open() -> Run<E> {
        Run { sent: Seq::empty(), end: None }
    }

    /// Nothing more goes out.
    pub open spec fn ended(end: Result<(), IsoTpError<E>>) -> Run<E> {
        Run { sent: Seq::empty(), end: Some(end) }
    }

    /// The same with the given frames in front.
    pub open spec fn after(self, frames: Seq<WireFrame>) -> Run<E> {
        Run { sent: frames + self.sent, end: self.end }
    }
}

/// The circumstances of one call of a polling sender: the current time, the spans that its owner
/// hands in, and what the link makes of a frame.
pub struct Poll<T, E> {
    pub now: T,
    pub waited: int,
    pub since_frame: int,
    pub reply: LinkReply<E>,
}

/// What one call of a polling sender comes to.
pub struct Polled<T, E> {
    /// The frame that the link took, if any, and the result if the transmission has ended.
    pub run: Run<E>,
    /// Where the sending side stands.
    pub state: TxStateView<T>,
    /// The frames that the link still has to offer.
    pub inbox: Seq<WireFrame>,
}

/// A sender that waits for flow control takes frames from the link until one of them tells it
/// something, or there are no more.
pub open spec fn answered<T, E>(
    cfg: IsoTpConfig,
    wait: FlowWaitView<T>,
    inbox: Seq<WireFrame>,
) -> (SendStepView<T, E>, TxStateView<T>, Seq<WireFrame>)
    decreases inbox.len(),
{
    if inbox.len() == 0 {
        let (result, state) = wait.unanswered::<E>();
        (SendStepView::Finished(result), state, inbox)
    } else {
        let (step, state) = flow_step::<T, E>(cfg, wait, inbox[0].id, inbox[0].data);
        match step {
            SendStepView::Receive(again) => answered(cfg, again, inbox.drop_first()),
            _ => (step, state, inbox.drop_first()),
        }
    }
}

/// One call of a polling sender, with the frames that the link has to offer.
pub open spec fn polled<T, E>(
    cfg: IsoTpConfig,
    state: TxStateView<T>,
    payload: Seq<u8>,
    poll: Poll<T, E>,
    inbox: Seq<WireFrame>,
) -> Polled<T, E> {
    let (first, left) = poll_step::<T, E>(
        cfg,
        state,
        payload,
        poll.now,
        poll.waited,
        poll.since_frame,
    );
    let (step, state, inbox) = match first {
        SendStepView::Receive(wait) => answered(cfg, wait, inbox),
        _ => (first, left, inbox),
    };
    match step {
        SendStepView::Transmit { frame, next, progress } => {
            let (result, state) = after_transmit::<T, E>(next, progress, poll.reply.result());
            Polled {
                run: Run {
                    sent: if poll.reply is Sent {
                        seq![frame]
                    } else {
                        Seq::empty()
                    },
                    end: blocking_outcome(result),
                },
                state,
                inbox,
            }
        },
        SendStepView::Finished(result) => Polled {
            run: Run { sent: Seq::empty(), end: blocking_outcome(result) },
            state,
            inbox,
        },
        SendStepView::Receive(_) => Polled { run: Run::open(), state, inbox },
    }
}

/// The transmission of a polling sender that is polled again and again until it ends, with the
/// frames that the link has to offer in the meantime.
pub open spec fn polling_run<T, E>(
    cfg: IsoTpConfig,
    state: TxStateView<T>,
    payload: Seq<u8>,
    polls: Seq<Poll<T, E>>,
    inbox: Seq<WireFrame>,
) -> Run<E>
    decreases polls.len(),
{
    if polls.len() == 0 {
        Run::open()
    } else {
        let first = polled(cfg, state, payload, polls[0], inbox);
        if first.run.end is Some {
            first.run
        } else {
            polling_run(cfg, first.state, payload, polls.drop_first(), first.inbox).after(
                first.run.sent,
            )
        }
    }
}

/// The first `turns` steps of an asynchronous transmission, with the frames that the link has to
/// offer. A timer or a failure of the link can end it after any of them.
pub open spec fn async_run<E>(
    cfg: IsoTpConfig,
    transfer: TransferView,
    inbox: Seq<WireFrame>,
    turns: nat,
) -> Run<E>
    decreases turns,
{
    if turns == 0 {
        Run::open()
    } else {
        let left = (turns - 1) as nat;
        match transfer.step(cfg) {
            TransferStepView::Done => Run::ended(Ok(())),
            TransferStepView::Transmit(frame) => async_run::<E>(
                cfg,
                transfer.sent(),
                inbox,
                left,
            ).after(seq![frame]),
            TransferStepView::AwaitFlowControl => if inbox.len() == 0 {
                Run::open()
            } else {
                match transfer.on_flow_frame::<E>(cfg, inbox[0].id, inbox[0].data) {
                    (_, FlowTurn::Failed(error)) => Run::ended(Err(error)),
                    (next, _) => async_run(cfg, next, inbox.drop_first(), left),
                }
            },
        }
    }
}

/// The number of consecutive frames that a payload of `len` bytes takes: what the first frame leaves
/// over, divided by seven and rounded up.
pub open spec fn consecutive_count(len: int) -> int {
    if len <= SINGLE_MAX {
        0
    } else {
        (len - FIRST_LEN + 6) / 7
    }
}

/// The bytes in the `k`-th consecutive frame of a payload, counted from one.
pub open spec fn chunk(payload: Seq<u8>, k: int) -> Seq<u8> {
    let from = FIRST_LEN + 7 * (k - 1);
    payload.subrange(
        from,
        if payload.len() <= from + 7 {
            payload.len() as int
        } else {
            from + 7
        },
    )
}

/// The unit in the `k`-th frame of a transmission, counted from zero: a single frame; or a first
/// frame, with the length and six bytes, and then consecutive frames, the `k`-th of which bears the
/// number `k` modulo sixteen.
pub open spec fn planned_pdu(payload: Seq<u8>, k: int) -> PduView {
    if payload.len() <= SINGLE_MAX {
        PduView::SingleFrame { len: payload.len() as u8, data: payload }
    } else if k == 0 {
        PduView::FirstFrame {
            len: payload.len() as u16,
            data: payload.take(FIRST_LEN as int),
        }
    } else {
        PduView::ConsecutiveFrame { sn: (k % 16) as u8, data: chunk(payload, k) }
    }
}

/// All that the sender `cfg` has to put on the link for a payload.
pub open spec fn planned(cfg: IsoTpConfig, payload: Seq<u8>) -> Seq<WireFrame> {
    Seq::new(
        (1 + consecutive_count(payload.len() as int)) as nat,
        |k: int| frame_of(cfg.tx_id, planned_pdu(payload, k), cfg.padding),
    )
}

/// The bytes of the first frame and of the first `k` consecutive frames, joined.
pub open spec fn joined(payload: Seq<u8>, k: nat) -> Seq<u8>
    decreases k,
{
    if k == 0 {
        payload.take(FIRST_LEN as int)
    } else {
        joined(payload, (k - 1) as nat) + chunk(payload, k as int)
    }
}

/// The bytes of the frames that are planned for a segmented payload, joined, are the payload; each
/// consecutive frame has seven of them but the last, which has the rest.
pub proof fn law_plan_carries_payload(payload: Seq<u8>)
    requires
        payload.len() > SINGLE_MAX,
    ensures
        joined(payload, consecutive_count(payload.len() as int) as nat) == payload,
        consecutive_count(payload.len() as int) >= 1,
        forall|k: int|
            1 <= k < consecutive_count(payload.len() as int) ==> (#[trigger] chunk(
                payload,
                k,
            )).len() == 7,
        1 <= chunk(payload, consecutive_count(payload.len() as int)).len() <= 7,
{
    let count = consecutive_count(payload.len() as int);
    lemma_joined(payload, (count - 1) as nat);
    assert(payload.take(FIRST_LEN + 7 * (count - 1)) + chunk(payload, count) == payload);
}

proof fn lemma_joined(payload: Seq<u8>, k: nat)
    requires
        FIRST_LEN + 7 * k <= payload.len(),
    ensures
        joined(payload, k) == payload.take(FIRST_LEN + 7 * k),
    decreases k,
{
    if k > 0 {
        lemma_joined(payload, (k - 1) as nat);
        assert(payload.take(FIRST_LEN + 7 * (k - 1)) + chunk(payload, k as int) == payload.take(
            FIRST_LEN + 7 * k,
        ));
    }
}

/// The transmission of `payload` has sent its first frame and `k` consecutive frames, and is not
/// done.
spec fn stands_at(session: SessionView, payload: Seq<u8>, k: int) -> bool {
    &&& session.payload == payload
    &&& SINGLE_MAX < payload.len()
    &&& 0 <= k
    &&& session.offset == FIRST_LEN + 7 * k
    &&& session.offset < payload.len()
    &&& session.next_sn == (k + 1) % 16
}

/// The next consecutive frame is the one that is planned.
proof fn lemma_next_planned(cfg: IsoTpConfig, session: SessionView, payload: Seq<u8>, k: int)
    requires
        stands_at(session, payload, k),
    ensures
        k + 1 < planned(cfg, payload).len(),
        frame_of(cfg.tx_id, session.next_pdu(), cfg.padding) == planned(cfg, payload)[k + 1],
        if session.advanced().done() {
            k + 2 == planned(cfg, payload).len()
        } else {
            stands_at(session.advanced(), payload, k + 1)
        },
{
    assert(session.next_pdu() == planned_pdu(payload, k + 1));
}

/// What the frames of a sender that waits for flow control can bring about.
proof fn lemma_answered<T, E>(
    cfg: IsoTpConfig,
    wait: FlowWaitView<T>,
    inbox: Seq<WireFrame>,
    payload: Seq<u8>,
    k: int,
)
    requires
        stands_at(wait.session, payload, k),
    ensures
        ({
            let (step, state, rest) = answered::<T, E>(cfg, wait, inbox);
            match step {
                SendStepView::Receive(_) => false,
                SendStepView::Transmit { .. } => exists|session: SessionView|
                    #![trigger consecutive_step::<T, E>(cfg, session, wait.now)]
                    stands_at(session, payload, k) && step == consecutive_step::<T, E>(
                        cfg,
                        session,
                        wait.now,
                    ),
                SendStepView::Finished(Ok(progress)) => progress != Progress::Completed
                    && match state {
                    TxStateView::Idle => false,
                    TxStateView::WaitingForFc { session, .. } => stands_at(session, payload, k),
                    TxStateView::Sending { session, .. } => stands_at(session, payload, k),
                },
                SendStepView::Finished(Err(_)) => true,
            }
        }),
    decreases inbox.len(),
{
    if inbox.len() > 0 {
        let (step, state) = flow_step::<T, E>(cfg, wait, inbox[0].id, inbox[0].data);
        match flow_verdict(cfg, inbox[0].id, inbox[0].data) {
            FlowVerdict::Ignore => {
                lemma_answered::<T, E>(cfg, wait, inbox.drop_first(), payload, k);
            },
            FlowVerdict::Proceed { block_size, st_min } => {
                let session = wait.session.granted(block_size, st_min);
                assert(stands_at(session, payload, k));
                if !wait.too_early(st_min) {
                    assert(step == consecutive_step::<T, E>(cfg, session, wait.now));
                }
            },
            _ => {},
        }
    }
}

/// A polling run from the middle of a transmission puts on the link what is planned next.
proof fn lemma_polling_plan<T, E>(
    cfg: IsoTpConfig,
    state: TxStateView<T>,
    session: SessionView,
    payload: Seq<u8>,
    polls: Seq<Poll<T, E>>,
    inbox: Seq<WireFrame>,
    k: int,
)
    requires
        stands_at(session, payload, k),
        state matches TxStateView::WaitingForFc { session: s, .. } ==> s == session,
        state matches TxStateView::Sending { session: s, .. } ==> s == session,
        !(state is Idle),
    ensures
        ({
            let run = polling_run(cfg, state, payload, polls, inbox);
            let all = planned(cfg, payload);
            &&& k + 1 + run.sent.len() <= all.len()
            &&& run.sent == all.subrange(k + 1, k + 1 + run.sent.len())
            &&& run.end == Some(Ok::<(), IsoTpError<E>>(())) <==> k + 1 + run.sent.len()
                == all.len()
        }),
    decreases polls.len(),
{
    let all = planned(cfg, payload);
    lemma_next_planned(cfg, session, payload, k);
    if polls.len() > 0 {
        let poll = polls[0];
        let (first, left) = poll_step::<T, E>(
            cfg,
            state,
            payload,
            poll.now,
            poll.waited,
            poll.since_frame,
        );
        let (step, next) = match first {
            SendStepView::Receive(wait) => {
                lemma_answered::<T, E>(cfg, wait, inbox, payload, k);
                let (s, n, _) = answered::<T, E>(cfg, wait, inbox);
                (s, n)
            },
            _ => (first, left),
        };
        let call = polled(cfg, state, payload, poll, inbox);
        let rest = polls.drop_first();
        if let SendStepView::Transmit { frame, next: after, progress } = step {
            let sending = choose|s: SessionView|
                #![trigger consecutive_step::<T, E>(cfg, s, poll.now)]
                stands_at(s, payload, k) && step == consecutive_step::<T, E>(cfg, s, poll.now);
            if state is Sending {
                assert(step == consecutive_step::<T, E>(cfg, session, poll.now));
            }
            assert(stands_at(sending, payload, k) && step == consecutive_step::<T, E>(
                cfg,
                sending,
                poll.now,
            ));
            lemma_next_planned(cfg, sending, payload, k);
            assert(seq![frame] == all.subrange(k + 1, k + 2));
            if call.run.end is None {
                match after {
                    TxStateView::WaitingForFc { session: s, .. } => {
                        lemma_polling_plan(cfg, after, s, payload, rest, call.inbox, k + 1);
                    },
                    TxStateView::Sending { session: s, .. } => {
                        lemma_polling_plan(cfg, after, s, payload, rest, call.inbox, k + 1);
                    },
                    TxStateView::Idle => {},
                }
                let run = polling_run(cfg, after, payload, rest, call.inbox);
                assert(seq![frame] + run.sent == all.subrange(k + 1, k + 2 + run.sent.len()));
            }
        } else if call.run.end is None {
            match next {
                TxStateView::WaitingForFc { session: s, .. } => {
                    lemma_polling_plan(cfg, next, s, payload, rest, call.inbox, k);
                },
                TxStateView::Sending { session: s, .. } => {
                    lemma_polling_plan(cfg, next, s, payload, rest, call.inbox, k);
                },
                TxStateView::Idle => {},
            }
        }
    }
}

/// However a polling sender is polled, and whatever the link offers it and makes of its frames, it
/// puts the frames on the link that are planned for the payload, in order, and no others: all of
/// them if and only if the transmission succeeds, and otherwise those in front.
pub proof fn law_polling_transmission<T, E>(
    cfg: IsoTpConfig,
    payload: Seq<u8>,
    polls: Seq<Poll<T, E>>,
    inbox: Seq<WireFrame>,
)
    ensures
        ({
            let run = polling_run(cfg, TxStateView::<T>::Idle, payload, polls, inbox);
            let all = planned(cfg, payload);
            &&& run.sent.len() <= all.len()
            &&& run.sent == all.take(run.sent.len() as int)
            &&& run.end == Some(Ok::<(), IsoTpError<E>>(())) <==> run.sent == all
        }),
{
    let all = planned(cfg, payload);
    let idle = TxStateView::<T>::Idle;
    assert(all.take(all.len() as int) == all);
    assert(all.len() >= 1);
    if polls.len() > 0 {
        let call = polled(cfg, idle, payload, polls[0], inbox);
        if call.run.sent.len() > 0 {
            assert(call.run.sent == all.take(1));
        }
        if call.run.end is None {
            if let TxStateView::WaitingForFc { session, .. } = call.state {
                let rest = polls.drop_first();
                lemma_polling_plan(cfg, call.state, session, payload, rest, call.inbox, 0);
                let run = polling_run(cfg, call.state, payload, rest, call.inbox);
                assert(call.run.sent + run.sent == all.take((1 + run.sent.len()) as int));
            }
        }
    }
}

/// An asynchronous run from the middle of a transmission puts on the link what is planned next.
proof fn lemma_async_plan<E>(
    cfg: IsoTpConfig,
    transfer: TransferView,
    payload: Seq<u8>,
    inbox: Seq<WireFrame>,
    turns: nat,
    k: int,
)
    requires
        stands_at(transfer.session, payload, k),
        transfer.stage == Stage::Unanswered || transfer.stage == Stage::Streaming,
    ensures
        ({
            let run = async_run::<E>(cfg, transfer, inbox, turns);
            let all = planned(cfg, payload);
            &&& k + 1 + run.sent.len() <= all.len()
            &&& run.sent == all.subrange(k + 1, k + 1 + run.sent.len())
            &&& run.end == Some(Ok::<(), IsoTpError<E>>(())) ==> k + 1 + run.sent.len()
                == all.len()
        }),
    decreases turns,
{
    let all = planned(cfg, payload);
    lemma_next_planned(cfg, transfer.session, payload, k);
    if turns > 0 {
        let left = (turns - 1) as nat;
        match transfer.step(cfg) {
            TransferStepView::Done => {},
            TransferStepView::Transmit(frame) => {
                let sent = transfer.sent();
                let run = async_run::<E>(cfg, sent, inbox, left);
                if !sent.session.done() {
                    lemma_async_plan::<E>(cfg, sent, payload, inbox, left, k + 1);
                }
                assert(seq![frame] + run.sent == all.subrange(k + 1, k + 2 + run.sent.len()));
            },
            TransferStepView::AwaitFlowControl => {
                if inbox.len() > 0 {
                    let next = transfer.on_flow_frame::<E>(cfg, inbox[0].id, inbox[0].data).0;
                    lemma_async_plan::<E>(cfg, next, payload, inbox.drop_first(), left, k);
                }
            },
        }
    }
}

/// However far an asynchronous sender comes, and whatever the link offers it, it puts the frames on
/// the link that are planned for the payload, in order, and no others: all of them if the
/// transmission succeeds, and otherwise those in front.
pub proof fn law_async_transmission<E>(
    cfg: IsoTpConfig,
    payload: Seq<u8>,
    inbox: Seq<WireFrame>,
    turns: nat,
)
    ensures
        ({
            let run = async_run::<E>(cfg, TransferView::fresh(cfg, payload), inbox, turns);
            let all = planned(cfg, payload);
            &&& run.sent.len() <= all.len()
            &&& run.sent == all.take(run.sent.len() as int)
            &&& run.end == Some(Ok::<(), IsoTpError<E>>(())) ==> run.sent == all
        }),
{
    let all = planned(cfg, payload);
    let transfer = TransferView::fresh(cfg, payload);
    assert(all.take(all.len() as int) == all);
    assert(all.len() >= 1);
    if turns > 0 {
        let left = (turns - 1) as nat;
        let sent = transfer.sent();
        let run = async_run::<E>(cfg, sent, inbox, left);
        if payload.len() > SINGLE_MAX {
            lemma_async_plan::<E>(cfg, sent, payload, inbox, left, 0);
        }
        assert(seq![all[0]] + run.sent == all.take((1 + run.sent.len()) as int));
    }
}

/// Where an asynchronous transmission stands after the steps of [`async_run`].
pub open spec fn async_state<E>(
    cfg: IsoTpConfig,
    transfer: TransferView,
    inbox: Seq<WireFrame>,
    turns: nat,
) -> TransferView
    decreases turns,
{
    if turns == 0 {
        transfer
    } else {
        let left = (turns - 1) as nat;
        match transfer.step(cfg) {
            TransferStepView::Done => transfer,
            TransferStepView::Transmit(_) => async_state::<E>(cfg, transfer.sent(), inbox, left),
            TransferStepView::AwaitFlowControl => if inbox.len() == 0 {
                transfer
            } else {
                match transfer.on_flow_frame::<E>(cfg, inbox[0].id, inbox[0].data) {
                    (next, FlowTurn::Failed(_)) => next,
                    (next, _) => async_state::<E>(cfg, next, inbox.drop_first(), left),
                }
            },
        }
    }
}

/// How far a transmission has come that has put the given number of frames on the link.
proof fn lemma_async_state<E>(
    cfg: IsoTpConfig,
    transfer: TransferView,
    payload: Seq<u8>,
    inbox: Seq<WireFrame>,
    turns: nat,
    k: int,
)
    requires
        stands_at(transfer.session, payload, k),
        transfer.stage == Stage::Unanswered || transfer.stage == Stage::Streaming,
        transfer.stage == Stage::Unanswered ==> k == 0,
    ensures
        ({
            let reached = async_state::<E>(cfg, transfer, inbox, turns);
            let count = k + async_run::<E>(cfg, transfer, inbox, turns).sent.len();
            &&& reached.stage == Stage::Unanswered || reached.stage == Stage::Streaming
            &&& reached.stage == Stage::Unanswered ==> count == 0
            &&& reached.session.done() || stands_at(reached.session, payload, count)
        }),
    decreases turns,
{
    if turns > 0 {
        let left = (turns - 1) as nat;
        match transfer.step(cfg) {
            TransferStepView::Done => {},
            TransferStepView::Transmit(frame) => {
                lemma_next_planned(cfg, transfer.session, payload, k);
                let sent = transfer.sent();
                if sent.session.done() {
                    reveal_with_fuel(async_state, 2);
                    reveal_with_fuel(async_run, 2);
                } else {
                    lemma_async_state::<E>(cfg, sent, payload, inbox, left, k + 1);
                }
            },
            TransferStepView::AwaitFlowControl => {
                if inbox.len() > 0 {
                    let next = transfer.on_flow_frame::<E>(cfg, inbox[0].id, inbox[0].data).0;
                    lemma_async_state::<E>(cfg, next, payload, inbox.drop_first(), left, k);
                }
            },
        }
    }
}

/// An asynchronous sender keeps the separation time before every consecutive frame but the first, and
/// before no other: of a transmission that calls for another frame, the next one waits for the rest
/// of the separation time exactly if at least two frames, the first frame and one more, are out.
/// Likewise it is bound by `n_cs` from then on, and by `n_as` and the call's time in any case.
pub proof fn law_async_pace<E>(
    cfg: IsoTpConfig,
    payload: Seq<u8>,
    inbox: Seq<WireFrame>,
    turns: nat,
    elapsed: int,
    timeout: int,
    called: int,
)
    ensures
        ({
            let fresh = TransferView::fresh(cfg, payload);
            let reached = async_state::<E>(cfg, fresh, inbox, turns);
            let out = async_run::<E>(cfg, fresh, inbox, turns).sent.len();
            let pace = reached.session.st_min@;
            reached.step(cfg) is Transmit ==> {
                &&& out >= 2 && elapsed < pace ==> reached.pause_of(elapsed) == Some(
                    pace - elapsed,
                )
                &&& out < 2 || elapsed >= pace ==> reached.pause_of(elapsed) is None
                &&& match reached.frame_limit_of::<E>(cfg, elapsed, timeout, called) {
                    Ok(limit) => {
                        &&& called <= timeout && called + limit.wait_for <= timeout
                        &&& limit.wait_for <= cfg.n_as@
                        &&& out >= 2 ==> elapsed < cfg.n_cs@ && elapsed + limit.wait_for
                            <= cfg.n_cs@
                        &&& if limit.expiry is NCs {
                            out >= 2 && elapsed + limit.wait_for == cfg.n_cs@
                        } else {
                            &&& limit.expiry is NAs
                            &&& limit.wait_for == cfg.n_as@ || called + limit.wait_for == timeout
                        }
                    },
                    Err(error) => if out >= 2 && elapsed >= cfg.n_cs@ {
                        error == IsoTpError::<E>::Timeout(TimeoutKind::NCs)
                    } else {
                        called > timeout && error == IsoTpError::<E>::Timeout(TimeoutKind::NAs)
                    },
                }
            }
        }),
{
    let fresh = TransferView::fresh(cfg, payload);
    if turns > 0 {
        let left = (turns - 1) as nat;
        if payload.len() > SINGLE_MAX {
            lemma_async_state::<E>(cfg, fresh.sent(), payload, inbox, left, 0);
        } else {
            reveal_with_fuel(async_state, 2);
            reveal_with_fuel(async_run, 2);
        }
    }
}

/// No timer of the sender has run out at the time of a call.
pub open spec fn in_time<T, E>(
    cfg: IsoTpConfig,
    state: TxStateView<T>,
    poll: Poll<T, E>,
) -> bool {
    match state {
        TxStateView::Idle => true,
        TxStateView::WaitingForFc { deadline, .. } => !deadline.due(poll.waited),
        TxStateView::Sending { .. } => poll.since_frame < cfg.n_cs@,
    }
}

/// The separation time, if there is one to wait for, is over at the time of a call.
pub open spec fn ripe<T, E>(state: TxStateView<T>, poll: Poll<T, E>) -> bool {
    match state {
        TxStateView::Sending { st_min_deadline: Some(deadline), .. } => deadline.due(poll.waited),
        _ => true,
    }
}

/// In all calls of a polling run, no timer has run out and the link takes the frames; with `eager`,
/// also no call comes too early for the next frame.
pub open spec fn undisturbed<T, E>(
    cfg: IsoTpConfig,
    state: TxStateView<T>,
    payload: Seq<u8>,
    polls: Seq<Poll<T, E>>,
    inbox: Seq<WireFrame>,
    eager: bool,
) -> bool
    decreases polls.len(),
{
    if polls.len() == 0 {
        true
    } else {
        let first = polled(cfg, state, payload, polls[0], inbox);
        &&& in_time(cfg, state, polls[0])
        &&& eager ==> ripe(state, polls[0])
        &&& polls[0].reply is Sent
        &&& first.run.end is None ==> undisturbed(
            cfg,
            first.state,
            payload,
            polls.drop_first(),
            first.inbox,
            eager,
        )
    }
}

/// How many steps an asynchronous transmission, or calls of a polling one, can take at most.
spec fn turns_needed(transfer: TransferView, inbox: Seq<WireFrame>) -> int {
    inbox.len() + transfer.session.payload.len() - transfer.session.offset + if transfer.stage
        == Stage::Opening {
        2int
    } else {
        1int
    }
}

/// The polling and the asynchronous sender stand at the same point of a transmission.
spec fn alike<T>(cfg: IsoTpConfig, state: TxStateView<T>, transfer: TransferView) -> bool {
    match state {
        TxStateView::Idle => false,
        TxStateView::WaitingForFc { session, .. } => {
            &&& session.wf()
            &&& !session.done()
            &&& session.wait_count <= cfg.wft_max
            &&& transfer.awaits_flow_control()
            &&& transfer.session == SessionView {
                block_remaining: transfer.session.block_remaining,
                ..session
            }
        },
        TxStateView::Sending { session, .. } => {
            &&& session.wf()
            &&& !session.done()
            &&& session.wait_count == 0
            &&& session.block_size > 0 ==> session.block_remaining > 0
            &&& transfer == TransferView { session, stage: Stage::Streaming }
        },
    }
}

/// `a` is what `b` has come to so far.
pub open spec fn begins<E>(a: Run<E>, b: Run<E>) -> bool {
    if a.end is Some {
        a == b
    } else {
        a.sent.len() <= b.sent.len() && a.sent == b.sent.take(a.sent.len() as int)
    }
}

/// A call of the polling sender that sends the next consecutive frame, and a step of the
/// asynchronous sender that does.
proof fn lemma_alike_after_frame<T, E>(cfg: IsoTpConfig, session: SessionView, now: T)
    requires
        session.wf(),
        !session.done(),
        session.wait_count == 0,
        session.block_size > 0 ==> session.block_remaining > 0,
    ensures
        ({
            let transfer = TransferView { session, stage: Stage::Streaming };
            let (next, progress) = after_consecutive::<T>(cfg, session, now);
            &&& transfer.step(cfg) == TransferStepView::Transmit(
                frame_of(cfg.tx_id, session.next_pdu(), cfg.padding),
            )
            &&& transfer.sent().session.payload == session.payload
            &&& transfer.sent().session.offset > session.offset
            &&& transfer.sent().stage == Stage::Streaming
            &&& if progress == Progress::Completed {
                transfer.sent().step(cfg) == TransferStepView::Done
            } else {
                alike(cfg, next, transfer.sent())
            }
        }),
{
}

/// Where the two senders stand after the frames that a polling sender takes in one call.
proof fn lemma_alike_answered<T, E>(
    cfg: IsoTpConfig,
    wait: FlowWaitView<T>,
    transfer: TransferView,
    inbox: Seq<WireFrame>,
    turns: nat,
) -> (r: (TransferView, nat))
    requires
        alike(
            cfg,
            TxStateView::WaitingForFc {
                session: wait.session,
                deadline: wait.deadline,
                last_sent: wait.last_sent,
            },
            transfer,
        ),
        turns >= turns_needed(transfer, inbox),
    ensures
        ({
            let (step, state, rest) = answered::<T, E>(cfg, wait, inbox);
            let run = async_run::<E>(cfg, transfer, inbox, turns);
            let (next, left) = r;
            &&& rest.len() <= inbox.len()
            &&& inbox.len() > 0 ==> rest.len() < inbox.len()
            &&& match step {
                SendStepView::Receive(_) => false,
                SendStepView::Finished(Err(error)) => run == Run::<E>::ended(Err(error)),
                SendStepView::Finished(Ok(progress)) => {
                    &&& progress != Progress::Completed
                    &&& alike(cfg, state, next)
                    &&& next.session.payload == transfer.session.payload
                    &&& next.session.offset == transfer.session.offset
                    &&& next.stage != Stage::Opening
                    &&& left >= turns_needed(next, rest)
                    &&& run == async_run::<E>(cfg, next, rest, left)
                    &&& inbox.len() == 0 ==> next == transfer && state is WaitingForFc
                },
                SendStepView::Transmit { .. } => {
                    let session = next.session;
                    &&& next == TransferView { session, stage: Stage::Streaming }
                    &&& session.wf()
                    &&& !session.done()
                    &&& session.wait_count == 0
                    &&& session.block_size > 0 ==> session.block_remaining > 0
                    &&& session.payload == transfer.session.payload
                    &&& session.offset == transfer.session.offset
                    &&& step == consecutive_step::<T, E>(cfg, session, wait.now)
                    &&& left >= turns_needed(next, rest)
                    &&& run == async_run::<E>(cfg, next, rest, left)
                },
            }
        }),
    decreases inbox.len(),
{
    if inbox.len() == 0 {
        (transfer, turns)
    } else {
        let rest = inbox.drop_first();
        let left = (turns - 1) as nat;
        let next = transfer.on_flow_frame::<E>(cfg, inbox[0].id, inbox[0].data).0;
        assert(transfer.step(cfg) == TransferStepView::AwaitFlowControl);
        match flow_verdict(cfg, inbox[0].id, inbox[0].data) {
            FlowVerdict::Ignore => lemma_alike_answered::<T, E>(cfg, wait, transfer, rest, left),
            _ => (next, left),
        }
    }
}

/// From the same point on, the two senders put the same frames on the link and end alike.
proof fn lemma_same_run<T, E>(
    cfg: IsoTpConfig,
    state: TxStateView<T>,
    transfer: TransferView,
    polls: Seq<Poll<T, E>>,
    inbox: Seq<WireFrame>,
    turns: nat,
    eager: bool,
)
    requires
        alike(cfg, state, transfer),
        transfer.stage != Stage::Opening,
        transfer.session.payload.len() <= cfg.max_payload_len,
        undisturbed(cfg, state, transfer.session.payload, polls, inbox, eager),
        turns >= turns_needed(transfer, inbox),
    ensures
        begins(
            polling_run(cfg, state, transfer.session.payload, polls, inbox),
            async_run::<E>(cfg, transfer, inbox, turns),
        ),
        eager && (polls.len() >= turns_needed(transfer, inbox) || (state is WaitingForFc
            && inbox.len() == 0)) ==> polling_run(
            cfg,
            state,
            transfer.session.payload,
            polls,
            inbox,
        ) == async_run::<E>(cfg, transfer, inbox, turns),
    decreases polls.len(), 1int,
{
    let payload = transfer.session.payload;
    let whole = async_run::<E>(cfg, transfer, inbox, turns);
    assert(whole.sent.take(0) == Seq::<WireFrame>::empty());
    if polls.len() > 0 {
        let poll = polls[0];
        let later = polls.drop_first();
        let call = polled(cfg, state, payload, poll, inbox);
        match poll_step::<T, E>(
            cfg,
            state,
            payload,
            poll.now,
            poll.waited,
            poll.since_frame,
        ).0 {
            SendStepView::Receive(wait) => {
                let (next, left) = lemma_alike_answered::<T, E>(cfg, wait, transfer, inbox, turns);
                let (step, after, rest) = answered::<T, E>(cfg, wait, inbox);
                match step {
                    SendStepView::Transmit { .. } => {
                        lemma_same_frame(cfg, next, polls, rest, left, call, eager);
                    },
                    SendStepView::Finished(Ok(_)) => {
                        lemma_same_run(cfg, after, next, later, rest, left, eager);
                        let run = polling_run(cfg, after, payload, later, rest);
                        assert(run.after(Seq::empty()) == run);
                    },
                    _ => {},
                }
            },
            SendStepView::Transmit { .. } => {
                lemma_same_frame(cfg, transfer, polls, inbox, turns, call, eager);
            },
            SendStepView::Finished(_) => {
                lemma_same_run(cfg, state, transfer, later, inbox, turns, eager);
                let run = polling_run(cfg, state, payload, later, inbox);
                assert(run.after(Seq::empty()) == run);
            },
        }
    }
}

/// The part of [`lemma_same_run`] in which a consecutive frame goes out.
proof fn lemma_same_frame<T, E>(
    cfg: IsoTpConfig,
    transfer: TransferView,
    polls: Seq<Poll<T, E>>,
    inbox: Seq<WireFrame>,
    turns: nat,
    call: Polled<T, E>,
    eager: bool,
)
    requires
        polls.len() > 0,
        transfer.stage == Stage::Streaming,
        transfer.session.wf(),
        !transfer.session.done(),
        transfer.session.wait_count == 0,
        transfer.session.block_size > 0 ==> transfer.session.block_remaining > 0,
        transfer.session.payload.len() <= cfg.max_payload_len,
        turns >= turns_needed(transfer, inbox),
        ({
            let (next, progress) = after_consecutive::<T>(cfg, transfer.session, polls[0].now);
            &&& call.run.sent == seq![
                frame_of(cfg.tx_id, transfer.session.next_pdu(), cfg.padding),
            ]
            &&& call.run.end == (if progress == Progress::Completed {
                Some(Ok::<(), IsoTpError<E>>(()))
            } else {
                None
            })
            &&& call.state == next
            &&& call.inbox == inbox
        }),
        call.run.end is None ==> undisturbed(
            cfg,
            call.state,
            transfer.session.payload,
            polls.drop_first(),
            inbox,
            eager,
        ),
    ensures
        ({
            let polling = if call.run.end is Some {
                call.run
            } else {
                polling_run(
                    cfg,
                    call.state,
                    transfer.session.payload,
                    polls.drop_first(),
                    inbox,
                ).after(call.run.sent)
            };
            let awaited = async_run::<E>(cfg, transfer, inbox, turns);
            &&& begins(polling, awaited)
            &&& eager && polls.len() >= turns_needed(transfer, inbox) ==> polling == awaited
        }),
    decreases polls.len(), 0int,
{
    lemma_alike_after_frame::<T, E>(cfg, transfer.session, polls[0].now);
    let sent = transfer.sent();
    let left = (turns - 1) as nat;
    let rest = async_run::<E>(cfg, sent, inbox, left);
    let frames = call.run.sent;
    assert(transfer == TransferView { session: transfer.session, stage: Stage::Streaming });
    if call.run.end is Some {
        assert(rest.after(frames) == call.run);
    } else {
        lemma_same_run(cfg, call.state, sent, polls.drop_first(), inbox, left, eager);
        let run = polling_run(
            cfg,
            call.state,
            transfer.session.payload,
            polls.drop_first(),
            inbox,
        );
        if run.end is None {
            assert(run.after(frames).sent == rest.after(frames).sent.take(
                run.after(frames).sent.len() as int,
            ));
        }
    }
}

/// The polling and the asynchronous sender agree: with the same payload and the same frames from the
/// link, as long as no timer runs out and the link takes what they send, they put the same frames on
/// the link in the same order and end with the same result. A polling sender that is not done is on
/// the way there, and one that is polled often enough, and not too early, gets as far as the
/// asynchronous one.
pub proof fn law_same_frames<T, E>(
    cfg: IsoTpConfig,
    payload: Seq<u8>,
    polls: Seq<Poll<T, E>>,
    inbox: Seq<WireFrame>,
    turns: nat,
    eager: bool,
)
    requires
        cfg.valid(),
        payload.len() <= cfg.max_payload_len,
        undisturbed(cfg, TxStateView::<T>::Idle, payload, polls, inbox, eager),
        turns >= payload.len() + inbox.len() + 2,
    ensures
        ({
            let polling = polling_run(cfg, TxStateView::<T>::Idle, payload, polls, inbox);
            let awaited = async_run::<E>(cfg, TransferView::fresh(cfg, payload), inbox, turns);
            &&& begins(polling, awaited)
            &&& eager && polls.len() >= payload.len() + inbox.len() + 2 ==> polling == awaited
        }),
{
    let transfer = TransferView::fresh(cfg, payload);
    let whole = async_run::<E>(cfg, transfer, inbox, turns);
    assert(whole.sent.take(0) == Seq::<WireFrame>::empty());
    if polls.len() > 0 {
        let idle = TxStateView::<T>::Idle;
        let call = polled(cfg, idle, payload, polls[0], inbox);
        let sent = transfer.sent();
        let left = (turns - 1) as nat;
        let rest = async_run::<E>(cfg, sent, inbox, left);
        let frames = call.run.sent;
        if call.run.end is Some {
            assert(rest.after(frames) == call.run);
        } else {
            let later = polls.drop_first();
            lemma_same_run(cfg, call.state, sent, later, inbox, left, eager);
            let run = polling_run(cfg, call.state, payload, later, inbox);
            if run.end is None {
                assert(run.after(frames).sent == rest.after(frames).sent.take(
                    run.after(frames).sent.len() as int,
                ));
            }
        }
    }
}

/// A frame that arrives at a receiver, and when.
pub struct Arrival<T> {
    pub frame: WireFrame,
    pub at: T,
}

/// What a receiver has come to.
#[verifier::ext_equal]
pub struct Heard<T, E> {
    /// Where the receiving side stands.
    pub rx: RxView,
    /// When the last frame of the reception under way arrived.
    pub at: Option<T>,
    /// What the frames that were not ignored called for.
    pub effects: Seq<ReceptionView<E>>,
    /// The payloads that were delivered.
    pub delivered: Seq<Seq<u8>>,
}

/// A receiver that takes up the given frames one after the other, and delivers each payload as soon
/// as it is complete.
pub open spec fn heard<T, E>(
    cfg: IsoTpConfig,
    rx: RxView,
    at: Option<T>,
    frames: Seq<Arrival<T>>,
) -> Heard<T, E>
    decreases frames.len(),
{
    if frames.len() == 0 {
        Heard { rx, at, effects: Seq::empty(), delivered: Seq::empty() }
    } else {
        let before = heard::<T, E>(cfg, rx, at, frames.drop_last());
        let last = frames.last();
        let (next, effect) = reception::<E>(cfg, before.rx, last.frame.id, last.frame.data);
        let at = received_at(next, effect, before.at, last.at);
        match effect {
            ReceptionView::Ignored => Heard { rx: next, at, ..before },
            ReceptionView::Complete(_) => Heard {
                rx: next.taken(),
                at,
                effects: before.effects.push(effect),
                delivered: before.delivered.push(next.completed()),
            },
            _ => Heard { rx: next, at, effects: before.effects.push(effect), ..before },
        }
    }
}

/// The frames that are meant for the receiver `cfg`: those with its identifier that are not flow
/// control.
pub open spec fn for_receiver<T>(cfg: IsoTpConfig) -> spec_fn(Arrival<T>) -> bool {
    |arrival: Arrival<T>|
        arrival.frame.id == cfg.rx_id && !(decoded(arrival.frame.data) matches Some(
            PduView::FlowControl { .. },
        ))
}

/// The frames that are meant for the sender `cfg`: those with its identifier, but for the well-formed
/// ones that are not flow control.
pub open spec fn for_sender(cfg: IsoTpConfig) -> spec_fn(WireFrame) -> bool {
    |frame: WireFrame|
        frame.id == cfg.rx_id && match decoded(frame.data) {
            None => true,
            Some(pdu) => pdu is FlowControl,
        }
}

/// Frames that are meant for someone else make no difference to a receiver, wherever they stand among
/// the others: it stands where it would without them, has called for the same, has delivered the
/// same payloads, and counts its time from the same frame.
pub proof fn law_receiver_hears_its_own<T, E>(
    cfg: IsoTpConfig,
    rx: RxView,
    at: Option<T>,
    frames: Seq<Arrival<T>>,
)
    requires
        at is Some <==> rx.progress is Receiving,
    ensures
        heard::<T, E>(cfg, rx, at, frames) == heard::<T, E>(
            cfg,
            rx,
            at,
            frames.filter(for_receiver(cfg)),
        ),
        heard::<T, E>(cfg, rx, at, frames).at is Some <==> heard::<T, E>(
            cfg,
            rx,
            at,
            frames,
        ).rx.progress is Receiving,
    decreases frames.len(),
{
    reveal(Seq::filter);
    if frames.len() > 0 {
        law_receiver_hears_its_own::<T, E>(cfg, rx, at, frames.drop_last());
        let kept = frames.drop_last().filter(for_receiver(cfg));
        assert(kept.push(frames.last()).drop_last() == kept);
    }
}

/// The first of the frames either is meant for the sender, or falls away.
proof fn lemma_filter_first(inbox: Seq<WireFrame>, cfg: IsoTpConfig)
    requires
        inbox.len() > 0,
    ensures
        ({
            let kept = inbox.filter(for_sender(cfg));
            let rest = inbox.drop_first().filter(for_sender(cfg));
            if for_sender(cfg)(inbox[0]) {
                kept.len() > 0 && kept[0] == inbox[0] && kept.drop_first() == rest
            } else {
                kept == rest
            }
        }),
{
    let front = seq![inbox[0]];
    let rest = inbox.drop_first();
    assert(front + rest == inbox);
    Seq::filter_distributes_over_add(front, rest, for_sender(cfg));
    reveal_with_fuel(Seq::filter, 2);
    assert(front.drop_last() == Seq::<WireFrame>::empty());
    assert(front.filter(for_sender(cfg)) == (if for_sender(cfg)(inbox[0]) {
        front
    } else {
        Seq::empty()
    }));
    assert((front + rest.filter(for_sender(cfg))).drop_first() == rest.filter(for_sender(cfg)));
    assert(Seq::<WireFrame>::empty() + rest.filter(for_sender(cfg)) == rest.filter(
        for_sender(cfg),
    ));
}

/// What a sender takes from the link in one call, with and without the frames for others.
proof fn lemma_answered_by_its_own<T, E>(
    cfg: IsoTpConfig,
    wait: FlowWaitView<T>,
    inbox: Seq<WireFrame>,
)
    ensures
        ({
            let (step, state, rest) = answered::<T, E>(cfg, wait, inbox);
            answered::<T, E>(cfg, wait, inbox.filter(for_sender(cfg))) == (
                step,
                state,
                rest.filter(for_sender(cfg)),
            )
        }),
    decreases inbox.len(),
{
    if inbox.len() == 0 {
        reveal(Seq::filter);
    } else {
        lemma_filter_first(inbox, cfg);
        if flow_verdict(cfg, inbox[0].id, inbox[0].data) == FlowVerdict::Ignore {
            lemma_answered_by_its_own::<T, E>(cfg, wait, inbox.drop_first());
        }
    }
}

proof fn lemma_polling_hears_its_own<T, E>(
    cfg: IsoTpConfig,
    state: TxStateView<T>,
    payload: Seq<u8>,
    polls: Seq<Poll<T, E>>,
    inbox: Seq<WireFrame>,
)
    ensures
        polling_run(cfg, state, payload, polls, inbox) == polling_run(
            cfg,
            state,
            payload,
            polls,
            inbox.filter(for_sender(cfg)),
        ),
    decreases polls.len(),
{
    if polls.len() > 0 {
        let poll = polls[0];
        if let SendStepView::Receive(wait) = poll_step::<T, E>(
            cfg,
            state,
            payload,
            poll.now,
            poll.waited,
            poll.since_frame,
        ).0 {
            lemma_answered_by_its_own::<T, E>(cfg, wait, inbox);
        }
        let call = polled(cfg, state, payload, poll, inbox);
        lemma_polling_hears_its_own(cfg, call.state, payload, polls.drop_first(), call.inbox);
    }
}

proof fn lemma_async_hears_its_own<E>(
    cfg: IsoTpConfig,
    transfer: TransferView,
    inbox: Seq<WireFrame>,
    turns: nat,
    fewer: nat,
)
    requires
        transfer.wf(),
        transfer.session.offset <= transfer.session.payload.len(),
        turns >= turns_needed(transfer, inbox),
        fewer >= turns_needed(transfer, inbox.filter(for_sender(cfg))),
    ensures
        async_run::<E>(cfg, transfer, inbox, turns) == async_run::<E>(
            cfg,
            transfer,
            inbox.filter(for_sender(cfg)),
            fewer,
        ),
    decreases turns,
{
    let left = (turns - 1) as nat;
    match transfer.step(cfg) {
        TransferStepView::Done => {},
        TransferStepView::Transmit(frame) => {
            lemma_async_hears_its_own::<E>(
                cfg,
                transfer.sent(),
                inbox,
                left,
                (fewer - 1) as nat,
            );
        },
        TransferStepView::AwaitFlowControl => {
            if inbox.len() == 0 {
                reveal(Seq::filter);
            } else {
                lemma_filter_first(inbox, cfg);
                let next = transfer.on_flow_frame::<E>(cfg, inbox[0].id, inbox[0].data).0;
                lemma_async_hears_its_own::<E>(
                    cfg,
                    next,
                    inbox.drop_first(),
                    left,
                    if for_sender(cfg)(inbox[0]) {
                        (fewer - 1) as nat
                    } else {
                        fewer
                    },
                );
            }
        },
    }
}

/// Frames that are meant for someone else make no difference to a sender, wherever they stand among
/// the others: polling or asynchronous, it puts the same frames on the link and ends alike.
pub proof fn law_sender_hears_its_own<T, E>(
    cfg: IsoTpConfig,
    state: TxStateView<T>,
    payload: Seq<u8>,
    polls: Seq<Poll<T, E>>,
    inbox: Seq<WireFrame>,
    turns: nat,
)
    requires
        cfg.valid(),
        payload.len() <= cfg.max_payload_len,
        turns >= payload.len() + inbox.len() + 2,
    ensures
        polling_run(cfg, state, payload, polls, inbox) == polling_run(
            cfg,
            state,
            payload,
            polls,
            inbox.filter(for_sender(cfg)),
        ),
        async_run::<E>(cfg, TransferView::fresh(cfg, payload), inbox, turns) == async_run::<E>(
            cfg,
            TransferView::fresh(cfg, payload),
            inbox.filter(for_sender(cfg)),
            turns,
        ),
{
    lemma_polling_hears_its_own(cfg, state, payload, polls, inbox);
    inbox.lemma_filter_len(for_sender(cfg));
    lemma_async_hears_its_own::<E>(cfg, TransferView::fresh(cfg, payload), inbox, turns, turns);
}

} // verus!
