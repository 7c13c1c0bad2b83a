//! Polling ISO-TP node.
//!
//! The node decides what happens next; its owner talks to the CAN link and to the clock, and tells
//! the node how that went. Each call answers with a step: a frame to transmit, a frame to wait
//! for, or the result.

use crate::config::IsoTpConfig;
use crate::errors::{IsoTpError, TimeoutKind};
use crate::flow::{flow_verdict, judge, FlowVerdict};
use crate::id::Id;
use crate::link::LinkReply;
use crate::pdu::{
    encode, frame_of, CanFrame, Pdu, PduView, WireFrame, CONSECUTIVE_MAX, FIRST_LEN, SINGLE_MAX,
};
use crate::reception::{accept, arrival, received_at, reception, Reception, ReceptionView};
use crate::rx::{build_buffer, RxBuffer, RxMachine, RxProgress, RxView};
use crate::time::Duration;
use crate::tx::{Deadline, Progress, SessionView, TxSession, TxState, TxStateView};
use vstd::prelude::*;
use vstd::slice::{slice_subrange, slice_to_vec};

verus! {

/// What becomes of a transmission once the link has taken the frame in question.
#[derive(Debug)]
pub struct AfterTransmit<T> {
    pub next: TxState<T>,
    pub progress: Progress,
}

/// A transmission that waits for flow control, while the link is asked for a frame.
#[derive(Debug)]
pub struct FlowWait<T> {
    pub session: TxSession,
    /// When the peer has to have answered.
    pub deadline: Deadline<T>,
    /// When the last consecutive frame went out, if there was one.
    pub last_sent: Option<T>,
    /// How long ago that was.
    pub since_frame: Duration,
    /// The current time.
    pub now: T,
}

/// What a [`FlowWait`] holds; `since_frame` is in nanoseconds.
pub struct FlowWaitView<T> {
    pub session: SessionView,
    pub deadline: Deadline<T>,
    pub last_sent: Option<T>,
    pub since_frame: int,
    pub now: T,
}

impl<T> View for FlowWait<T> {
    type V = FlowWaitView<T>;

    open spec fn view(&self) -> FlowWaitView<T> {
        FlowWaitView {
            session: self.session@,
            deadline: self.deadline,
            last_sent: self.last_sent,
            since_frame: self.since_frame@,
            now: self.now,
        }
    }
}

impl<T> FlowWaitView<T> {
    /// The separation time `st_min` from the last consecutive frame on has not passed.
    pub open spec fn too_early(self, st_min: Duration) -> bool {
        self.last_sent is Some && self.since_frame < st_min@
    }

    /// The result of a polling step in which no frame arrived, and the state it leaves behind.
    pub open spec fn unanswered<E>(self) -> (Result<Progress, IsoTpError<E>>, TxStateView<T>) {
        (
            Ok(Progress::WaitingForFlowControl),
            TxStateView::WaitingForFc {
                session: self.session,
                deadline: self.deadline,
                last_sent: self.last_sent,
            },
        )
    }
}

/// What sending calls for next.
#[derive(Debug)]
pub enum SendStep<T, E> {
    /// Transmit the frame, then report to [`IsoTpNode::transmitted`].
    Transmit { frame: CanFrame, after: AfterTransmit<T> },
    /// Ask the link for a frame, then report to [`IsoTpNode::flow_frame_arrived`] or
    /// [`IsoTpNode::no_flow_frame`].
    Receive(FlowWait<T>),
    /// The polling step is over.
    Finished(Result<Progress, IsoTpError<E>>),
}

/// What a [`SendStep`] holds.
pub enum SendStepView<T, E> {
    Transmit { frame: WireFrame, next: TxStateView<T>, progress: Progress },
    Receive(FlowWaitView<T>),
    Finished(Result<Progress, IsoTpError<E>>),
}

impl<T, E> View for SendStep<T, E> {
    type V = SendStepView<T, E>;

    open spec fn view(&self) -> SendStepView<T, E> {
        match *self {
            SendStep::Transmit { frame, after } => SendStepView::Transmit {
                frame: frame@,
                next: after.next@,
                progress: after.progress,
            },
            SendStep::Receive(wait) => SendStepView::Receive(wait@),
            SendStep::Finished(result) => SendStepView::Finished(result),
        }
    }
}

impl<T, E> SendStepView<T, E> {
    /// The transmission that the step carries along, if any, is well-formed.
    pub open spec fn wf(self) -> bool {
        match self {
            SendStepView::Transmit { next, .. } => next.wf(),
            SendStepView::Receive(wait) => wait.session.wf(),
            SendStepView::Finished(_) => true,
        }
    }
}

/// The first step of a new transmission: a single frame if the payload fits one, otherwise a first
/// frame, after which the peer has to answer within `n_bs`.
pub open spec fn start_step<T, E>(
    cfg: IsoTpConfig,
    payload: Seq<u8>,
    now: T,
) -> SendStepView<T, E> {
    if payload.len() <= SINGLE_MAX {
        SendStepView::Transmit {
            frame: frame_of(
                cfg.tx_id,
                PduView::SingleFrame { len: payload.len() as u8, data: payload },
                cfg.padding,
            ),
            next: TxStateView::Idle,
            progress: Progress::Completed,
        }
    } else {
        SendStepView::Transmit {
            frame: frame_of(
                cfg.tx_id,
                PduView::FirstFrame {
                    len: payload.len() as u16,
                    data: payload.take(FIRST_LEN as int),
                },
                cfg.padding,
            ),
            next: TxStateView::WaitingForFc {
                session: SessionView::opened(cfg, payload),
                deadline: Deadline { from: now, wait: cfg.n_bs },
                last_sent: None,
            },
            progress: Progress::WaitingForFlowControl,
        }
    }
}

/// What follows the consecutive frame of `session` once it has gone out: the end; or, when it
/// filled a block, the wait for flow control; or the next frame, after the separation time.
pub open spec fn after_consecutive<T>(cfg: IsoTpConfig, session: SessionView, now: T) -> (
    TxStateView<T>,
    Progress,
) {
    let sent = session.advanced();
    if sent.done() {
        (TxStateView::Idle, Progress::Completed)
    } else if sent.block_size > 0 && sent.block_remaining <= 1 {
        (
            TxStateView::WaitingForFc {
                session: SessionView { block_remaining: sent.block_size, ..sent },
                deadline: Deadline { from: now, wait: cfg.n_bs },
                last_sent: Some(now),
            },
            Progress::WaitingForFlowControl,
        )
    } else {
        (
            TxStateView::Sending {
                session: SessionView {
                    block_remaining: if sent.block_size > 0 {
                        (sent.block_remaining - 1) as u8
                    } else {
                        sent.block_remaining
                    },
                    ..sent
                },
                st_min_deadline: if sent.st_min@ > 0 {
                    Some(Deadline { from: now, wait: sent.st_min })
                } else {
                    None
                },
                last_sent: now,
            },
            Progress::InFlight,
        )
    }
}

/// The step that sends the next consecutive frame.
pub open spec fn consecutive_step<T, E>(
    cfg: IsoTpConfig,
    session: SessionView,
    now: T,
) -> SendStepView<T, E> {
    if session.done() {
        SendStepView::Finished(Ok(Progress::Completed))
    } else {
        let (next, progress) = after_consecutive(cfg, session, now);
        SendStepView::Transmit {
            frame: frame_of(cfg.tx_id, session.next_pdu(), cfg.padding),
            next,
            progress,
        }
    }
}

/// A polling step of the sending side in the given state, and the state it leaves behind, when
/// `waited` nanoseconds have passed since the start of the state's deadline, and `since_frame` since
/// the last consecutive frame. In a block, the next frame has to go out within `n_cs` of the last
/// one. The payload matters to its length limit and to an idle sender only.
pub open spec fn poll_step<T, E>(
    cfg: IsoTpConfig,
    state: TxStateView<T>,
    payload: Seq<u8>,
    now: T,
    waited: int,
    since_frame: int,
) -> (SendStepView<T, E>, TxStateView<T>) {
    if payload.len() > cfg.max_payload_len {
        (SendStepView::Finished(Err(IsoTpError::Overflow)), state)
    } else {
        match state {
            TxStateView::Idle => (start_step(cfg, payload, now), TxStateView::Idle),
            TxStateView::WaitingForFc { session, deadline, last_sent } => if session.wait_count
                > cfg.wft_max || deadline.due(waited) {
                (
                    SendStepView::Finished(Err(IsoTpError::Timeout(TimeoutKind::NBs))),
                    TxStateView::Idle,
                )
            } else {
                (
                    SendStepView::Receive(
                        FlowWaitView { session, deadline, last_sent, since_frame, now },
                    ),
                    TxStateView::Idle,
                )
            },
            TxStateView::Sending { session, st_min_deadline, .. } => if since_frame >= cfg.n_cs@ {
                (
                    SendStepView::Finished(Err(IsoTpError::Timeout(TimeoutKind::NCs))),
                    TxStateView::Idle,
                )
            } else {
                match st_min_deadline {
                    Some(deadline) if !deadline.due(waited) => (
                        SendStepView::Finished(Ok(Progress::WouldBlock)),
                        state,
                    ),
                    _ => (consecutive_step(cfg, session, now), TxStateView::Idle),
                }
            },
        }
    }
}

/// What a frame does to a sender that waits for flow control, and the state it leaves behind. A
/// go-ahead that comes before the separation time has passed is taken, but the frame has to wait.
pub open spec fn flow_step<T, E>(
    cfg: IsoTpConfig,
    wait: FlowWaitView<T>,
    id: Id,
    data: Seq<u8>,
) -> (SendStepView<T, E>, TxStateView<T>) {
    match flow_verdict(cfg, id, data) {
        FlowVerdict::Ignore => (SendStepView::Receive(wait), TxStateView::Idle),
        FlowVerdict::Invalid => (
            SendStepView::Finished(Err(IsoTpError::InvalidFrame)),
            TxStateView::Idle,
        ),
        FlowVerdict::Proceed { block_size, st_min } => {
            let session = wait.session.granted(block_size, st_min);
            if wait.too_early(st_min) {
                (
                    SendStepView::Finished(Ok(Progress::WouldBlock)),
                    TxStateView::Sending {
                        session,
                        st_min_deadline: Some(
                            Deadline { from: wait.last_sent->0, wait: st_min },
                        ),
                        last_sent: wait.last_sent->0,
                    },
                )
            } else {
                (consecutive_step(cfg, session, wait.now), TxStateView::Idle)
            }
        },
        FlowVerdict::Hold => (
            SendStepView::Finished(
                if wait.session.wait_count + 1 > cfg.wft_max {
                    Err(IsoTpError::Timeout(TimeoutKind::NBs))
                } else {
                    Ok(Progress::WaitingForFlowControl)
                },
            ),
            TxStateView::WaitingForFc {
                session: wait.session.held(),
                deadline: Deadline { from: wait.now, wait: cfg.n_bs },
                last_sent: wait.last_sent,
            },
        ),
        FlowVerdict::Abort => (
            SendStepView::Finished(Err(IsoTpError::Overflow)),
            TxStateView::Idle,
        ),
    }
}

/// The result of a polling step whose frame was handed to the link, and the state it leaves behind:
/// as planned if the link took the frame, and otherwise the link's error and no transmission.
pub open spec fn after_transmit<T, E>(
    next: TxStateView<T>,
    progress: Progress,
    taken: Result<(), IsoTpError<E>>,
) -> (Result<Progress, IsoTpError<E>>, TxStateView<T>) {
    match taken {
        Ok(()) => (Ok(progress), next),
        Err(error) => (Err(error), TxStateView::Idle),
    }
}

/// What receiving calls for next.
#[derive(Debug)]
pub enum RecvStep<E> {
    /// Ask the link for another frame, and poll again with it.
    Next,
    /// Transmit the frame, then report to [`replied`].
    Reply(CanFrame),
    /// Transmit the frame, then report to [`rejected`].
    Reject(CanFrame),
    /// Take the payload with [`IsoTpNode::take_completed`]; the polling step is over.
    Deliver,
    /// The polling step is over.
    Finished(Result<Progress, IsoTpError<E>>),
}

/// What a [`RecvStep`] holds.
pub enum RecvStepView<E> {
    Next,
    Reply(WireFrame),
    Reject(WireFrame),
    Deliver,
    Finished(Result<Progress, IsoTpError<E>>),
}

impl<E> View for RecvStep<E> {
    type V = RecvStepView<E>;

    open spec fn view(&self) -> RecvStepView<E> {
        match *self {
            RecvStep::Next => RecvStepView::Next,
            RecvStep::Reply(frame) => RecvStepView::Reply(frame@),
            RecvStep::Reject(frame) => RecvStepView::Reject(frame@),
            RecvStep::Deliver => RecvStepView::Deliver,
            RecvStep::Finished(result) => RecvStepView::Finished(result),
        }
    }
}

/// What polling makes of a frame's effect on the receiving side.
pub open spec fn recv_step<E>(effect: ReceptionView<E>) -> RecvStepView<E> {
    match effect {
        ReceptionView::Ignored => RecvStepView::Next,
        ReceptionView::Stored => RecvStepView::Finished(Ok(Progress::InFlight)),
        ReceptionView::Reply(frame) => RecvStepView::Reply(frame),
        ReceptionView::Reject(frame) => RecvStepView::Reject(frame),
        ReceptionView::Complete(_) => RecvStepView::Deliver,
        ReceptionView::Failed(error) => RecvStepView::Finished(Err(error)),
    }
}

/// The result of a polling step that answered with flow control.
pub open spec fn replied_result<E>(reply: LinkReply<E>) -> Result<Progress, IsoTpError<E>> {
    match reply.result() {
        Ok(()) => Ok(Progress::InFlight),
        Err(error) => Err(error),
    }
}

/// The result of a polling step that turned down a payload.
pub open spec fn rejected_result<E>(reply: LinkReply<E>) -> Result<Progress, IsoTpError<E>> {
    Err(IsoTpError::RxOverflow)
}

/// A receiving step without a frame, `since` nanoseconds after the last one of a reception, and where
/// it leaves the receiving side.
pub open spec fn silent_step<T, E>(
    cfg: IsoTpConfig,
    rx: RxView,
    at: Option<T>,
    since: int,
) -> (RecvStepView<E>, RxView, Option<T>) {
    if rx.overdue(cfg, since) {
        (
            RecvStepView::Finished(Err(IsoTpError::Timeout(TimeoutKind::NBr))),
            rx.at(RxProgress::Idle),
            None,
        )
    } else {
        (RecvStepView::Finished(Ok(Progress::WouldBlock)), rx, at)
    }
}

/// The result of a polling step whose flow control frame was handed to the link.
pub fn replied<E>(reply: LinkReply<E>) -> (r: Result<Progress, IsoTpError<E>>)
    ensures
        r == (match reply.result() {
            Ok(()) => Ok(Progress::InFlight),
            Err(error) => Err(error),
        }),
        r == replied_result(reply),
{
    match reply.into_result() {
        Ok(()) => Ok(Progress::InFlight),
        Err(error) => Err(error),
    }
}

/// The result of a polling step that turned down a payload, whatever the link made of the frame
/// that says so.
pub fn rejected<E>(reply: LinkReply<E>) -> (r: Result<Progress, IsoTpError<E>>)
    ensures
        r == Err::<Progress, IsoTpError<E>>(IsoTpError::RxOverflow),
        r == rejected_result(reply),
{
    Err(IsoTpError::RxOverflow)
}

/// ISO-TP endpoint with split transmit and receive halves and a clock, which it holds for its
/// owner; `T` is the clock's instant.
pub struct IsoTpNode<'a, Tx, Rx, C, T> {
    /// The transmit half of the link.
    pub tx: Tx,
    /// The receive half of the link.
    pub rx: Rx,
    /// The clock.
    pub clock: C,
    cfg: IsoTpConfig,
    tx_state: TxState<T>,
    rx_machine: RxMachine<'a>,
    rx_at: Option<T>,
}

impl<'a, Tx, Rx, C, T> IsoTpNode<'a, Tx, Rx, C, T> {
    /// The configuration.
    pub closed spec fn config(&self) -> IsoTpConfig {
        self.cfg
    }

    /// The sending side.
    pub closed spec fn sending(&self) -> TxStateView<T> {
        self.tx_state@
    }

    /// The receiving side.
    pub closed spec fn receiving(&self) -> RxView {
        self.rx_machine@
    }

    /// When the last frame of the reception under way arrived.
    pub closed spec fn received_at(&self) -> Option<T> {
        self.rx_at
    }

    /// The memory that payloads are received in.
    pub closed spec fn storage(&self) -> RxBuffer<'a> {
        self.rx_machine.storage()
    }

    /// The halves of the link, and the clock.
    pub closed spec fn handles(&self) -> (Tx, Rx, C) {
        (self.tx, self.rx, self.clock)
    }

    /// The configuration is valid, the receive buffer has the configured length, and both sides are
    /// well-formed.
    pub closed spec fn wf(&self) -> bool {
        &&& self.cfg.valid()
        &&& self.rx_machine@.capacity == self.cfg.rx_buffer_len
        &&& self.tx_state@.wf()
        &&& self.rx_machine.wf()
        &&& self.rx_at is Some <==> self.rx_machine@.progress is Receiving
    }

    /// At all times the configuration is valid, the receive buffer has the configured length, and
    /// what is under way is well-formed.
    pub proof fn law_invariant(&self)
        requires
            self.wf(),
        ensures
            self.config().valid(),
            self.receiving().capacity == self.config().rx_buffer_len,
            self.storage()@.len() == self.config().rx_buffer_len,
            self.sending().wf(),
            self.receiving().wf(),
            self.received_at() is Some <==> self.receiving().progress is Receiving,
    {
        self.rx_machine.lemma_wf();
    }

    /// Nothing has changed but the sending side.
    pub open spec fn differs_in_sending(&self, before: &Self) -> bool {
        &&& self.config() == before.config()
        &&& self.receiving() == before.receiving()
        &&& self.received_at() == before.received_at()
        &&& self.storage() == before.storage()
        &&& self.handles() == before.handles()
    }

    /// Nothing has changed but the receiving side.
    pub open spec fn differs_in_receiving(&self, before: &Self) -> bool {
        &&& self.config() == before.config()
        &&& self.sending() == before.sending()
        &&& self.handles() == before.handles()
    }

    /// Construct using a provided clock and optional caller buffer.
    pub fn with_clock(
        tx: Tx,
        rx: Rx,
        cfg: IsoTpConfig,
        clock: C,
        buffer: Option<&'a mut [u8]>,
    ) -> (r: Result<Self, IsoTpError<()>>)
        ensures
            match r {
                Ok(node) => {
                    &&& cfg.valid()
                    &&& cfg.accepts_buffer(
                        match buffer {
                            Some(buf) => Some(buf@.len()),
                            None => None,
                        },
                    )
                    &&& match buffer {
                        Some(buf) => {
                            &&& cfg.rx_buffer_len <= buf@.len()
                            &&& node.storage() matches RxBuffer::Borrowed(front)
                            &&& front@ == buf@.take(cfg.rx_buffer_len as int)
                            &&& final(buf)@ == final(front)@ + buf@.skip(cfg.rx_buffer_len as int)
                        },
                        None => {
                            &&& node.storage() matches RxBuffer::Owned(bytes)
                            &&& bytes@ == Seq::new(cfg.rx_buffer_len as nat, |i: int| 0u8)
                        },
                    }
                    &&& node.wf()
                    &&& node.handles() == (tx, rx, clock)
                    &&& node.config() == cfg
                    &&& node.sending() == TxStateView::<T>::Idle
                    &&& node.receiving() == (RxView {
                        capacity: cfg.rx_buffer_len as nat,
                        progress: RxProgress::Idle,
                    })
                },
                Err(error) => {
                    &&& error == IsoTpError::<()>::InvalidConfig
                    &&& !cfg.accepts_buffer(
                        match buffer {
                            Some(buf) => Some(buf@.len()),
                            None => None,
                        },
                    )
                    &&& !cfg.valid() || (buffer matches Some(buf) && buf@.len()
                        < cfg.rx_buffer_len)
                    &&& buffer matches Some(buf) ==> final(buf)@ == buf@
                },
            },
    {
        if cfg.validate().is_err() {
            return Err(IsoTpError::InvalidConfig);
        }
        let rx_buffer = match build_buffer(cfg.rx_buffer_len, buffer) {
            Ok(rx_buffer) => rx_buffer,
            Err(error) => return Err(error),
        };
        Ok(
            IsoTpNode {
                tx,
                rx,
                clock,
                cfg,
                tx_state: TxState::Idle,
                rx_machine: RxMachine::new(rx_buffer),
                rx_at: None,
            },
        )
    }
}

/// The first frame of a transmission, and what follows it.
fn start_send<T, E>(cfg: &IsoTpConfig, payload: &[u8], now: T) -> (r: SendStep<T, E>)
    requires
        cfg.valid(),
        payload@.len() <= cfg.max_payload_len,
    ensures
        r@ == start_step::<T, E>(*cfg, payload@, now),
        r@.wf(),
{
    if payload.len() <= SINGLE_MAX {
        let pdu = Pdu::SingleFrame { len: payload.len() as u8, data: payload };
        return match encode(cfg.tx_id, &pdu, cfg.padding) {
            Ok(frame) => SendStep::Transmit {
                frame,
                after: AfterTransmit { next: TxState::Idle, progress: Progress::Completed },
            },
            Err(()) => SendStep::Finished(Err(IsoTpError::InvalidFrame)),
        };
    }
    let mut session = TxSession::new(slice_to_vec(payload), cfg.block_size, cfg.st_min);
    let front = slice_subrange(payload, 0, FIRST_LEN);
    let pdu = Pdu::FirstFrame { len: payload.len() as u16, data: front };
    match encode(cfg.tx_id, &pdu, cfg.padding) {
        Ok(frame) => {
            session.offset = FIRST_LEN;
            let deadline = Deadline { from: now, wait: cfg.n_bs };
            SendStep::Transmit {
                frame,
                after: AfterTransmit {
                    next: TxState::WaitingForFc { session, deadline, last_sent: None },
                    progress: Progress::WaitingForFlowControl,
                },
            }
        },
        Err(()) => SendStep::Finished(Err(IsoTpError::InvalidFrame)),
    }
}

/// The next consecutive frame of a transmission, and what follows it.
fn continue_send<T: Copy, E>(cfg: &IsoTpConfig, session: TxSession, now: T) -> (r: SendStep<T, E>)
    requires
        session@.wf(),
    ensures
        r@ == consecutive_step::<T, E>(*cfg, session@, now),
        r@.wf(),
{
    let ghost before = session@;
    let mut session = session;
    if session.offset >= session.payload.len() {
        return SendStep::Finished(Ok(Progress::Completed));
    }
    let left: usize = session.payload.len() - session.offset;
    let chunk: usize = if left <= CONSECUTIVE_MAX {
        left
    } else {
        CONSECUTIVE_MAX
    };
    let data = slice_subrange(
        session.payload.as_slice(),
        session.offset,
        session.offset + chunk,
    );
    let pdu = Pdu::ConsecutiveFrame { sn: session.next_sn, data };
    assert(pdu@ == before.next_pdu());
    let frame = match encode(cfg.tx_id, &pdu, cfg.padding) {
        Ok(frame) => frame,
        Err(()) => return SendStep::Finished(Err(IsoTpError::InvalidFrame)),
    };
    session.offset += chunk;
    session.next_sn = (session.next_sn + 1) % 16;
    assert(session@ == before.advanced());
    if session.offset >= session.payload.len() {
        return SendStep::Transmit {
            frame,
            after: AfterTransmit { next: TxState::Idle, progress: Progress::Completed },
        };
    }
    if session.block_size > 0 {
        session.block_remaining = session.block_remaining.saturating_sub(1);
        if session.block_remaining == 0 {
            session.block_remaining = session.block_size;
            let deadline = Deadline { from: now, wait: cfg.n_bs };
            return SendStep::Transmit {
                frame,
                after: AfterTransmit {
                    next: TxState::WaitingForFc { session, deadline, last_sent: Some(now) },
                    progress: Progress::WaitingForFlowControl,
                },
            };
        }
    }
    let st_min_deadline = if session.st_min > Duration::from_millis(0) {
        Some(Deadline { from: now, wait: session.st_min })
    } else {
        None
    };
    SendStep::Transmit {
        frame,
        after: AfterTransmit {
            next: TxState::Sending { session, st_min_deadline, last_sent: now },
            progress: Progress::InFlight,
        },
    }
}

impl<'a, Tx, Rx, C, T: Copy> IsoTpNode<'a, Tx, Rx, C, T> {
    /// The deadline that sending waits for, if there is one.
    pub fn deadline(&self) -> (r: Option<Deadline<T>>)
        ensures
            r == self.sending().deadline(),
    {
        match &self.tx_state {
            TxState::Idle => None,
            TxState::WaitingForFc { deadline, .. } => Some(*deadline),
            TxState::Sending { st_min_deadline, .. } => *st_min_deadline,
        }
    }

    /// When the last consecutive frame of the transmission went out, if there was one.
    pub fn last_sent(&self) -> (r: Option<T>)
        ensures
            r == self.sending().last_sent(),
    {
        match &self.tx_state {
            TxState::Idle => None,
            TxState::WaitingForFc { last_sent, .. } => *last_sent,
            TxState::Sending { last_sent, .. } => Some(*last_sent),
        }
    }

    /// When the last frame of the reception under way arrived.
    pub fn last_received(&self) -> (r: Option<T>)
        ensures
            r == self.received_at(),
    {
        self.rx_at
    }

    /// Advance transmission once; the owner supplies the current time, the time that has passed
    /// since the start of the [`deadline`](Self::deadline), and since
    /// [`last_sent`](Self::last_sent). Where there is no such instant the span does not matter.
    pub fn poll_send<E>(
        &mut self,
        payload: &[u8],
        now: T,
        waited: Duration,
        since_frame: Duration,
    ) -> (r: SendStep<T, E>)
        requires
            old(self).wf(),
        ensures
            final(self).wf(),
            final(self).differs_in_sending(old(self)),
            (r@, final(self).sending()) == poll_step::<T, E>(
                old(self).config(),
                old(self).sending(),
                payload@,
                now,
                waited@,
                since_frame@,
            ),
            r@.wf(),
    {
        if payload.len() > self.cfg.max_payload_len {
            return SendStep::Finished(Err(IsoTpError::Overflow));
        }
        let mut state: TxState<T> = TxState::Idle;
        core::mem::swap(&mut state, &mut self.tx_state);
        match state {
            TxState::Idle => start_send(&self.cfg, payload, now),
            TxState::WaitingForFc { session, deadline, last_sent } => {
                if session.wait_count > self.cfg.wft_max as u16 || waited >= deadline.wait {
                    SendStep::Finished(Err(IsoTpError::Timeout(TimeoutKind::NBs)))
                } else {
                    SendStep::Receive(FlowWait { session, deadline, last_sent, since_frame, now })
                }
            },
            TxState::Sending { session, st_min_deadline, last_sent } => {
                if since_frame >= self.cfg.n_cs {
                    return SendStep::Finished(Err(IsoTpError::Timeout(TimeoutKind::NCs)));
                }
                if let Some(deadline) = st_min_deadline {
                    if waited < deadline.wait {
                        self.tx_state = TxState::Sending { session, st_min_deadline, last_sent };
                        return SendStep::Finished(Ok(Progress::WouldBlock));
                    }
                }
                continue_send(&self.cfg, session, now)
            },
        }
    }

    /// Go on after the link was handed the frame of [`SendStep::Transmit`]. If it did not take it,
    /// the transmission is over.
    pub fn transmitted<E>(
        &mut self,
        after: AfterTransmit<T>,
        reply: LinkReply<E>,
    ) -> (r: Result<Progress, IsoTpError<E>>)
        requires
            old(self).wf(),
            after.next@.wf(),
        ensures
            final(self).wf(),
            final(self).differs_in_sending(old(self)),
            match reply.result() {
                Ok(()) => r == Ok::<Progress, IsoTpError<E>>(after.progress)
                    && final(self).sending() == after.next@,
                Err(error) => r == Err::<Progress, IsoTpError<E>>(error) && final(self).sending()
                    == TxStateView::<T>::Idle,
            },
            (r, final(self).sending()) == after_transmit(
                after.next@,
                after.progress,
                reply.result(),
            ),
    {
        match reply.into_result() {
            Ok(()) => {
                self.tx_state = after.next;
                Ok(after.progress)
            },
            Err(error) => {
                self.tx_state = TxState::Idle;
                Err(error)
            },
        }
    }

    /// Go on with the frame that arrived after [`SendStep::Receive`].
    pub fn flow_frame_arrived<E>(
        &mut self,
        wait: FlowWait<T>,
        id: Id,
        data: &[u8],
    ) -> (r: SendStep<T, E>)
        requires
            old(self).wf(),
            wait.session@.wf(),
        ensures
            final(self).wf(),
            final(self).differs_in_sending(old(self)),
            (r@, final(self).sending()) == flow_step::<T, E>(
                old(self).config(),
                wait@,
                id,
                data@,
            ),
            r@.wf(),
    {
        self.tx_state = TxState::Idle;
        match judge(&self.cfg, id, data) {
            FlowVerdict::Ignore => SendStep::Receive(wait),
            FlowVerdict::Invalid => SendStep::Finished(Err(IsoTpError::InvalidFrame)),
            FlowVerdict::Proceed { block_size, st_min } => {
                let mut session = wait.session;
                session.wait_count = 0;
                session.block_size = block_size;
                session.block_remaining = block_size;
                session.st_min = st_min;
                if let Some(from) = wait.last_sent {
                    if wait.since_frame < st_min {
                        let deadline = Deadline { from, wait: st_min };
                        self.tx_state = TxState::Sending {
                            session,
                            st_min_deadline: Some(deadline),
                            last_sent: from,
                        };
                        return SendStep::Finished(Ok(Progress::WouldBlock));
                    }
                }
                continue_send(&self.cfg, session, wait.now)
            },
            FlowVerdict::Hold => {
                let mut session = wait.session;
                session.wait_count = session.wait_count.saturating_add(1);
                let refused = session.wait_count > self.cfg.wft_max as u16;
                let deadline = Deadline { from: wait.now, wait: self.cfg.n_bs };
                let last_sent = wait.last_sent;
                self.tx_state = TxState::WaitingForFc { session, deadline, last_sent };
                if refused {
                    SendStep::Finished(Err(IsoTpError::Timeout(TimeoutKind::NBs)))
                } else {
                    SendStep::Finished(Ok(Progress::WaitingForFlowControl))
                }
            },
            FlowVerdict::Abort => SendStep::Finished(Err(IsoTpError::Overflow)),
        }
    }

    /// Go on without a frame after [`SendStep::Receive`]: the transmission waits on.
    pub fn no_flow_frame<E>(&mut self, wait: FlowWait<T>) -> (r: Result<Progress, IsoTpError<E>>)
        requires
            old(self).wf(),
            wait.session@.wf(),
        ensures
            final(self).wf(),
            final(self).differs_in_sending(old(self)),
            r == Ok::<Progress, IsoTpError<E>>(Progress::WaitingForFlowControl),
            final(self).sending() == (TxStateView::WaitingForFc {
                session: wait.session@,
                deadline: wait.deadline,
                last_sent: wait.last_sent,
            }),
            (r, final(self).sending()) == wait@.unanswered::<E>(),
    {
        self.tx_state = TxState::WaitingForFc {
            session: wait.session,
            deadline: wait.deadline,
            last_sent: wait.last_sent,
        };
        Ok(Progress::WaitingForFlowControl)
    }

    /// Non-blocking receive step, with the frame that the link has, if it has one, the current time,
    /// and the time that has passed since [`last_received`](Self::last_received). A reception that
    /// has waited longer than `n_br` for its next frame, and does not get it now, is over.
    pub fn poll_recv<E>(
        &mut self,
        arrived: Option<(Id, &[u8])>,
        now: T,
        since: Duration,
    ) -> (r: RecvStep<E>)
        requires
            old(self).wf(),
        ensures
            final(self).wf(),
            final(self).differs_in_receiving(old(self)),
            arrived is None ==> (
                r@,
                final(self).receiving(),
                final(self).received_at(),
            ) == silent_step::<T, E>(
                old(self).config(),
                old(self).receiving(),
                old(self).received_at(),
                since@,
            ),
            match arrived {
                None => if old(self).receiving().overdue(old(self).config(), since@) {
                    &&& r@ == RecvStepView::<E>::Finished(
                        Err(IsoTpError::Timeout(TimeoutKind::NBr)),
                    )
                    &&& final(self).receiving() == old(self).receiving().at(RxProgress::Idle)
                    &&& final(self).received_at() is None
                } else {
                    &&& r@ == RecvStepView::<E>::Finished(Ok(Progress::WouldBlock))
                    &&& final(self).receiving() == old(self).receiving()
                    &&& final(self).received_at() == old(self).received_at()
                },
                Some((id, data)) => {
                    let (rx, effect) = reception::<E>(
                        old(self).config(),
                        old(self).receiving(),
                        id,
                        data@,
                    );
                    &&& r@ == recv_step(effect)
                    &&& final(self).receiving() == rx
                    &&& final(self).received_at() == received_at(
                        rx,
                        effect,
                        old(self).received_at(),
                        now,
                    )
                },
            },
            match (old(self).storage(), final(self).storage()) {
                (RxBuffer::Borrowed(before), RxBuffer::Borrowed(after)) => final(after)@
                    == final(before)@,
                (RxBuffer::Owned(_), RxBuffer::Owned(_)) => true,
                _ => false,
            },
    {
        match arrived {
            None => {
                if self.rx_machine.is_receiving() && since > self.cfg.n_br {
                    self.rx_machine.abandon();
                    self.rx_at = None;
                    RecvStep::Finished(Err(IsoTpError::Timeout(TimeoutKind::NBr)))
                } else {
                    RecvStep::Finished(Ok(Progress::WouldBlock))
                }
            },
            Some((id, data)) => {
                let effect = accept::<E>(&self.cfg, &mut self.rx_machine, id, data);
                self.rx_at = arrival(&self.rx_machine, &effect, self.rx_at, now);
                match effect {
                    Reception::Ignored => RecvStep::Next,
                    Reception::Stored => RecvStep::Finished(Ok(Progress::InFlight)),
                    Reception::Reply(frame) => RecvStep::Reply(frame),
                    Reception::Reject(frame) => RecvStep::Reject(frame),
                    Reception::Complete(_) => RecvStep::Deliver,
                    Reception::Failed(error) => RecvStep::Finished(Err(error)),
                }
            },
        }
    }

    /// Hand out the completed payload, and be ready for the next one.
    pub fn take_completed(&mut self) -> (r: &[u8])
        requires
            old(self).wf(),
        ensures
            r@ == old(self).receiving().completed(),
            r@ == old(self).storage()@.take(r@.len() as int),
            final(self).wf(),
            final(self).differs_in_receiving(old(self)),
            final(self).received_at() == old(self).received_at(),
            final(self).receiving() == (match old(self).receiving().progress {
                RxProgress::Ready { .. } => old(self).receiving().at(RxProgress::Idle),
                _ => old(self).receiving(),
            }),
            final(self).receiving() == old(self).receiving().taken(),
            final(self).storage() == old(self).storage(),
    {
        self.rx_machine.take_completed()
    }
}

} // verus!
