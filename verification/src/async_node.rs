//! ISO-TP node for asynchronous links.
//!
//! The node decides what happens next; its owner awaits the CAN link and the timers, and tells the
//! node how that went.

use crate::config::IsoTpConfig;
use crate::errors::{IsoTpError, TimeoutKind};
use crate::flow::{flow_verdict, judge, FlowVerdict};
use crate::id::Id;
use crate::pdu::{
    encode, frame_of, CanFrame, Pdu, PduView, WireFrame, CONSECUTIVE_MAX, FIRST_LEN, SINGLE_MAX,
};
use crate::reception::{accept, arrival, received_at, reception, Reception};
use crate::rx::{build_buffer, RxBuffer, RxMachine, RxProgress, RxView};
use crate::time::Duration;
use crate::timing::{
    check_timeout, consecutive_limit, consecutive_limit_of, flow_budget, flow_budget_of, lesser,
    pacing_delay, pacing_delay_of, reception_limit, reception_limit_of, recv_limit, recv_limit_of,
    send_limit, send_limit_of, viewed, LimitView, TimeLimit,
};
use crate::tx::SessionView;
use vstd::prelude::*;
use vstd::slice::slice_subrange;

verus! {

/// How far a transmission has come.
#[derive(Debug, Clone, Copy, PartialEq, Eq, Structural)]
pub enum Stage {
    /// Nothing has been sent.
    Opening,
    /// The first frame is out and has not been answered.
    Unanswered,
    /// The peer has given its go-ahead.
    Streaming,
    /// The payload went out in a single frame.
    Closed,
}

/// A transmission on an asynchronous link.
#[derive(Debug)]
pub struct Transfer<'p> {
    payload: &'p [u8],
    offset: usize,
    next_sn: u8,
    block_size: u8,
    block_remaining: u8,
    st_min: Duration,
    wait_count: u16,
    stage: Stage,
}

/// What a transmission calls for next.
#[derive(Debug)]
pub enum TransferStep {
    /// Transmit the frame, then report to [`Transfer::sent`].
    Transmit(CanFrame),
    /// Wait for flow control, then report to [`Transfer::flow_frame_arrived`].
    AwaitFlowControl,
    /// Nothing; the whole payload has been sent.
    Done,
}

/// What a [`TransferStep`] holds.
pub enum TransferStepView {
    Transmit(WireFrame),
    AwaitFlowControl,
    Done,
}

impl View for TransferStep {
    type V = TransferStepView;

    open spec fn view(&self) -> TransferStepView {
        match *self {
            TransferStep::Transmit(frame) => TransferStepView::Transmit(frame@),
            TransferStep::AwaitFlowControl => TransferStepView::AwaitFlowControl,
            TransferStep::Done => TransferStepView::Done,
        }
    }
}

/// What a [`Transfer`] holds.
pub struct TransferView {
    pub session: SessionView,
    pub stage: Stage,
}

impl<'p> View for Transfer<'p> {
    type V = TransferView;

    closed spec fn view(&self) -> TransferView {
        TransferView {
            session: SessionView {
                payload: self.payload@,
                offset: self.offset as int,
                next_sn: self.next_sn,
                block_size: self.block_size,
                block_remaining: self.block_remaining,
                st_min: self.st_min,
                wait_count: self.wait_count,
            },
            stage: self.stage,
        }
    }
}

impl TransferView {
    /// The payload fits the protocol, and a segmented transmission is well-formed.
    pub open spec fn wf(self) -> bool {
        &&& self.session.payload.len() <= 4095
        &&& match self.stage {
            Stage::Opening => self.session.offset == 0 && self.session.next_sn == 1,
            Stage::Unanswered => self.session.wf() && self.session.offset == FIRST_LEN,
            Stage::Streaming => self.session.wf(),
            Stage::Closed => self.session.done(),
        }
    }

    /// A transmission of which nothing has been sent.
    pub open spec fn fresh(cfg: IsoTpConfig, payload: Seq<u8>) -> TransferView {
        TransferView {
            session: SessionView::fresh(payload, cfg.block_size, cfg.st_min),
            stage: Stage::Opening,
        }
    }

    /// What the transmission calls for next: a single frame if the payload fits one; otherwise a
    /// first frame, then flow control, then consecutive frames, with flow control again after every
    /// full block.
    pub open spec fn step(self, cfg: IsoTpConfig) -> TransferStepView {
        let session = self.session;
        match self.stage {
            Stage::Opening => TransferStepView::Transmit(
                frame_of(
                    cfg.tx_id,
                    if session.payload.len() <= SINGLE_MAX {
                        PduView::SingleFrame {
                            len: session.payload.len() as u8,
                            data: session.payload,
                        }
                    } else {
                        PduView::FirstFrame {
                            len: session.payload.len() as u16,
                            data: session.payload.take(FIRST_LEN as int),
                        }
                    },
                    cfg.padding,
                ),
            ),
            Stage::Closed => TransferStepView::Done,
            Stage::Unanswered => TransferStepView::AwaitFlowControl,
            Stage::Streaming => if session.done() {
                TransferStepView::Done
            } else if self.awaits_flow_control() {
                TransferStepView::AwaitFlowControl
            } else {
                TransferStepView::Transmit(
                    frame_of(cfg.tx_id, session.next_pdu(), cfg.padding),
                )
            },
        }
    }

    /// The transmission after the frame that it called for has gone out.
    pub open spec fn sent(self) -> TransferView {
        let session = self.session;
        match self.stage {
            Stage::Opening => if session.payload.len() <= SINGLE_MAX {
                TransferView {
                    session: SessionView { offset: session.payload.len() as int, ..session },
                    stage: Stage::Closed,
                }
            } else {
                TransferView {
                    session: SessionView { offset: FIRST_LEN as int, ..session },
                    stage: Stage::Unanswered,
                }
            },
            Stage::Streaming => TransferView {
                session: SessionView {
                    block_remaining: if session.block_size > 0 && session.block_remaining > 0 {
                        (session.block_remaining - 1) as u8
                    } else {
                        session.block_remaining
                    },
                    ..session.advanced()
                },
                stage: Stage::Streaming,
            },
            _ => self,
        }
    }

    /// The transmission can go on only with the peer's answer.
    pub open spec fn awaits_flow_control(self) -> bool {
        match self.stage {
            Stage::Unanswered => true,
            Stage::Streaming => !self.session.done() && self.session.block_size > 0
                && self.session.block_remaining == 0,
            _ => false,
        }
    }

    /// What a frame does to a transmission that waits for flow control, and what it means to the
    /// wait.
    pub open spec fn on_flow_frame<E>(self, cfg: IsoTpConfig, id: Id, data: Seq<u8>) -> (
        TransferView,
        FlowTurn<E>,
    ) {
        match flow_verdict(cfg, id, data) {
            FlowVerdict::Ignore => (self, FlowTurn::Wait),
            FlowVerdict::Invalid => (self, FlowTurn::Failed(IsoTpError::InvalidFrame)),
            FlowVerdict::Proceed { block_size, st_min } => (
                TransferView {
                    session: self.session.granted(block_size, st_min),
                    stage: Stage::Streaming,
                },
                FlowTurn::Granted,
            ),
            FlowVerdict::Hold => (
                TransferView { session: self.session.held(), ..self },
                if self.session.wait_count + 1 > cfg.wft_max {
                    FlowTurn::Failed(IsoTpError::Timeout(TimeoutKind::NBs))
                } else {
                    FlowTurn::Restart
                },
            ),
            FlowVerdict::Abort => (self, FlowTurn::Failed(IsoTpError::Overflow)),
        }
    }

    /// A consecutive frame has gone out.
    pub open spec fn streamed(self) -> bool {
        self.stage == Stage::Streaming && self.session.offset > FIRST_LEN
    }

    /// How many nanoseconds the next frame still has to wait when the one before went out `elapsed`
    /// nanoseconds ago.
    pub open spec fn pause_of(self, elapsed: int) -> Option<int> {
        if self.streamed() {
            pacing_delay_of(self.session.st_min@, elapsed)
        } else {
            None
        }
    }

    /// A transmission that begins in a call that began `elapsed` nanoseconds ago.
    pub open spec fn begun<E>(
        cfg: IsoTpConfig,
        payload: Seq<u8>,
        elapsed: int,
        timeout: int,
    ) -> Result<TransferView, IsoTpError<E>> {
        if payload.len() > cfg.max_payload_len {
            Err(IsoTpError::Overflow)
        } else if elapsed >= timeout {
            Err(IsoTpError::Timeout(TimeoutKind::NAs))
        } else {
            Ok(TransferView::fresh(cfg, payload))
        }
    }

    /// How long the link may take for the next frame, in nanoseconds.
    pub open spec fn frame_limit_of<E>(
        self,
        cfg: IsoTpConfig,
        since_last: int,
        timeout: int,
        elapsed: int,
    ) -> Result<LimitView, IsoTpError<E>> {
        if !self.streamed() {
            send_limit_of(cfg, timeout, elapsed)
        } else {
            match (
                consecutive_limit_of::<E>(cfg, since_last, timeout, elapsed),
                send_limit_of::<E>(cfg, timeout, elapsed),
            ) {
                (Ok(next), Ok(frame)) => Ok(
                    if frame.wait_for <= next.wait_for {
                        frame
                    } else {
                        next
                    },
                ),
                (Err(error), _) => Err(error),
                (_, Err(error)) => Err(error),
            }
        }
    }
}

impl<'p> Transfer<'p> {
    /// Begin to send `payload`, in a call that began `elapsed` ago: refused if the payload is too
    /// long, or if the time is already up.
    pub fn begin<E>(
        cfg: &IsoTpConfig,
        payload: &'p [u8],
        elapsed: Duration,
        timeout: Duration,
    ) -> (r: Result<Transfer<'p>, IsoTpError<E>>)
        requires
            cfg.valid(),
        ensures
            match r {
                Ok(transfer) => TransferView::begun::<E>(*cfg, payload@, elapsed@, timeout@) == Ok::<
                    TransferView,
                    IsoTpError<E>,
                >(transfer@),
                Err(error) => TransferView::begun::<E>(*cfg, payload@, elapsed@, timeout@) == Err::<
                    TransferView,
                    IsoTpError<E>,
                >(error),
            },
            match r {
                Ok(transfer) => {
                    &&& payload@.len() <= cfg.max_payload_len
                    &&& elapsed@ < timeout@
                    &&& transfer@ == TransferView::fresh(*cfg, payload@)
                    &&& transfer@.wf()
                },
                Err(error) => {
                    ||| payload@.len() > cfg.max_payload_len && error == IsoTpError::<E>::Overflow
                    ||| payload@.len() <= cfg.max_payload_len && elapsed@ >= timeout@ && error
                        == IsoTpError::<E>::Timeout(TimeoutKind::NAs)
                },
            },
    {
        if payload.len() > cfg.max_payload_len {
            return Err(IsoTpError::Overflow);
        }
        match check_timeout::<E>(elapsed, timeout, TimeoutKind::NAs) {
            Err(error) => Err(error),
            Ok(()) => Ok(
                Transfer {
                    payload,
                    offset: 0,
                    next_sn: 1,
                    block_size: cfg.block_size,
                    block_remaining: cfg.block_size,
                    st_min: cfg.st_min,
                    wait_count: 0,
                    stage: Stage::Opening,
                },
            ),
        }
    }

    /// What the transmission calls for next.
    pub fn step<E>(&self, cfg: &IsoTpConfig) -> (r: Result<TransferStep, IsoTpError<E>>)
        requires
            self@.wf(),
        ensures
            r matches Ok(step) && step@ == self@.step(*cfg),
    {
        let pdu = match self.stage {
            Stage::Closed => return Ok(TransferStep::Done),
            Stage::Unanswered => return Ok(TransferStep::AwaitFlowControl),
            Stage::Opening => {
                if self.payload.len() <= SINGLE_MAX {
                    Pdu::SingleFrame { len: self.payload.len() as u8, data: self.payload }
                } else {
                    let front = slice_subrange(self.payload, 0, FIRST_LEN);
                    Pdu::FirstFrame { len: self.payload.len() as u16, data: front }
                }
            },
            Stage::Streaming => {
                if self.offset >= self.payload.len() {
                    return Ok(TransferStep::Done);
                }
                if self.block_size > 0 && self.block_remaining == 0 {
                    return Ok(TransferStep::AwaitFlowControl);
                }
                let chunk: usize = self.next_chunk();
                let data = slice_subrange(self.payload, self.offset, self.offset + chunk);
                Pdu::ConsecutiveFrame { sn: self.next_sn, data }
            },
        };
        match encode(cfg.tx_id, &pdu, cfg.padding) {
            Ok(frame) => Ok(TransferStep::Transmit(frame)),
            Err(()) => Err(IsoTpError::InvalidFrame),
        }
    }

    /// The length of the next consecutive frame.
    fn next_chunk(&self) -> (r: usize)
        requires
            self@.wf(),
            self@.stage == Stage::Streaming,
        ensures
            self@.session.offset + r == self@.session.next_end(),
            self@.session.next_end() <= self@.session.payload.len(),
    {
        let left: usize = self.payload.len() - self.offset;
        if left <= CONSECUTIVE_MAX {
            left
        } else {
            CONSECUTIVE_MAX
        }
    }

    /// Go on after the frame that the transmission called for has gone out.
    pub fn sent(&mut self)
        requires
            old(self)@.wf(),
        ensures
            final(self)@.wf(),
            final(self)@ == old(self)@.sent(),
    {
        match self.stage {
            Stage::Opening => {
                if self.payload.len() <= SINGLE_MAX {
                    self.offset = self.payload.len();
                    self.stage = Stage::Closed;
                } else {
                    self.offset = FIRST_LEN;
                    self.stage = Stage::Unanswered;
                }
            },
            Stage::Streaming => {
                let chunk: usize = self.next_chunk();
                self.offset += chunk;
                self.next_sn = (self.next_sn + 1) % 16;
                if self.block_size > 0 {
                    self.block_remaining = self.block_remaining.saturating_sub(1);
                }
            },
            Stage::Unanswered | Stage::Closed => {},
        }
    }

    /// Take up a frame that arrived while the transmission waits for flow control.
    pub fn flow_frame_arrived<E>(
        &mut self,
        cfg: &IsoTpConfig,
        id: Id,
        data: &[u8],
    ) -> (r: FlowTurn<E>)
        requires
            old(self)@.wf(),
            old(self)@.awaits_flow_control(),
        ensures
            final(self)@.wf(),
            (final(self)@, r) == old(self)@.on_flow_frame::<E>(*cfg, id, data@),
    {
        match judge(cfg, id, data) {
            FlowVerdict::Ignore => FlowTurn::Wait,
            FlowVerdict::Invalid => FlowTurn::Failed(IsoTpError::InvalidFrame),
            FlowVerdict::Proceed { block_size, st_min } => {
                self.block_size = block_size;
                self.block_remaining = block_size;
                self.st_min = st_min;
                self.wait_count = 0;
                self.stage = Stage::Streaming;
                FlowTurn::Granted
            },
            FlowVerdict::Hold => {
                self.wait_count = self.wait_count.saturating_add(1);
                if self.wait_count > cfg.wft_max as u16 {
                    FlowTurn::Failed(IsoTpError::Timeout(TimeoutKind::NBs))
                } else {
                    FlowTurn::Restart
                }
            },
            FlowVerdict::Abort => FlowTurn::Failed(IsoTpError::Overflow),
        }
    }

    /// Whether a consecutive frame has gone out.
    pub fn has_streamed(&self) -> (r: bool)
        ensures
            r == self@.streamed(),
    {
        matches!(self.stage, Stage::Streaming) && self.offset > FIRST_LEN
    }

    /// How long the next frame still has to wait when the one before went out `elapsed` ago:
    /// consecutive frames keep the separation time, the others do not wait.
    pub fn pause(&self, elapsed: Duration) -> (r: Option<Duration>)
        ensures
            match r {
                Some(delay) => self@.pause_of(elapsed@) == Some(delay@),
                None => self@.pause_of(elapsed@) is None,
            },
            match r {
                Some(delay) => self@.streamed() && elapsed@ < self@.session.st_min@ && delay@
                    == self@.session.st_min@ - elapsed@,
                None => !(self@.streamed() && elapsed@ < self@.session.st_min@),
            },
    {
        if self.has_streamed() {
            pacing_delay(self.st_min, elapsed)
        } else {
            None
        }
    }
}

/// What a frame means in a wait for flow control.
#[derive(Debug, Clone, Copy, PartialEq, Eq)]
pub enum FlowTurn<E> {
    /// Nothing; wait on.
    Wait,
    /// The peer asked to wait: the wait starts anew.
    Restart,
    /// The peer's go-ahead.
    Granted,
    /// The transmission has failed.
    Failed(IsoTpError<E>),
}

/// How long to wait for the next frame when receiving, in nanoseconds.
pub open spec fn arrival_limit_of<E>(
    cfg: IsoTpConfig,
    rx: RxView,
    since_last: int,
    timeout: int,
    elapsed: int,
) -> Result<LimitView, IsoTpError<E>> {
    if rx.progress is Receiving {
        reception_limit_of(cfg, since_last, timeout, elapsed)
    } else {
        recv_limit_of(cfg, timeout, elapsed)
    }
}

/// The error of a call in which no frame came before the given timer ran out, and where that leaves
/// the receiving side.
pub open spec fn after_silence<T, E>(rx: RxView, at: Option<T>, expiry: TimeoutKind) -> (
    IsoTpError<E>,
    RxView,
    Option<T>,
) {
    if expiry == TimeoutKind::NBr {
        (IsoTpError::Timeout(expiry), rx.at(RxProgress::Idle), None)
    } else {
        (IsoTpError::Timeout(expiry), rx, at)
    }
}

/// The result of a call that turned down a payload.
pub open spec fn refused_result<E>(sent: Result<(), IsoTpError<E>>) -> Result<(), IsoTpError<E>> {
    Err(IsoTpError::RxOverflow)
}

/// The result of a call that turned down a payload, whatever became of the frame that says so.
pub fn refused<E>(sent: Result<(), IsoTpError<E>>) -> (r: Result<(), IsoTpError<E>>)
    ensures
        r == Err::<(), IsoTpError<E>>(IsoTpError::RxOverflow),
        r == refused_result(sent),
{
    Err(IsoTpError::RxOverflow)
}

/// ISO-TP endpoint with asynchronous transmit and receive halves and a clock, which it holds for
/// its owner; `T` is the clock's instant.
pub struct IsoTpAsyncNode<'a, Tx, Rx, C, T> {
    /// The transmit half of the link.
    pub tx: Tx,
    /// The receive half of the link.
    pub rx: Rx,
    /// The clock.
    pub clock: C,
    cfg: IsoTpConfig,
    rx_machine: RxMachine<'a>,
    rx_at: Option<T>,
}

impl<'a, Tx, Rx, C, T> IsoTpAsyncNode<'a, Tx, Rx, C, T> {
    /// The configuration.
    pub closed spec fn config(&self) -> IsoTpConfig {
        self.cfg
    }

    /// The receiving side.
    pub closed spec fn receiving(&self) -> RxView {
        self.rx_machine@
    }

    /// When the last frame of the reception under way arrived.
    pub closed spec fn received_at(&self) -> Option<T> {
        self.rx_at
    }

    /// The memory that payloads are received in.
    pub closed spec fn storage(&self) -> RxBuffer<'a> {
        self.rx_machine.storage()
    }

    /// The halves of the link, and the clock.
    pub closed spec fn handles(&self) -> (Tx, Rx, C) {
        (self.tx, self.rx, self.clock)
    }

    /// The configuration is valid, the receive buffer has the configured length, and the receiving
    /// side is well-formed.
    pub closed spec fn wf(&self) -> bool {
        &&& self.cfg.valid()
        &&& self.rx_machine@.capacity == self.cfg.rx_buffer_len
        &&& self.rx_machine.wf()
        &&& self.rx_at is Some <==> self.rx_machine@.progress is Receiving
    }

    /// At all times the configuration is valid, the receive buffer has the configured length, and
    /// what is under way is well-formed.
    pub proof fn law_invariant(&self)
        requires
            self.wf(),
        ensures
            self.config().valid(),
            self.receiving().capacity == self.config().rx_buffer_len,
            self.storage()@.len() == self.config().rx_buffer_len,
            self.receiving().wf(),
            self.received_at() is Some <==> self.receiving().progress is Receiving,
    {
        self.rx_machine.lemma_wf();
    }

    /// Construct using a provided clock and optional caller buffer.
    pub fn with_clock(
        tx: Tx,
        rx: Rx,
        cfg: IsoTpConfig,
        clock: C,
        buffer: Option<&'a mut [u8]>,
    ) -> (r: Result<Self, IsoTpError<()>>)
        ensures
            match r {
                Ok(node) => {
                    &&& cfg.valid()
                    &&& cfg.accepts_buffer(
                        match buffer {
                            Some(buf) => Some(buf@.len()),
                            None => None,
                        },
                    )
                    &&& match buffer {
                        Some(buf) => {
                            &&& cfg.rx_buffer_len <= buf@.len()
                            &&& node.storage() matches RxBuffer::Borrowed(front)
                            &&& front@ == buf@.take(cfg.rx_buffer_len as int)
                            &&& final(buf)@ == final(front)@ + buf@.skip(cfg.rx_buffer_len as int)
                        },
                        None => {
                            &&& node.storage() matches RxBuffer::Owned(bytes)
                            &&& bytes@ == Seq::new(cfg.rx_buffer_len as nat, |i: int| 0u8)
                        },
                    }
                    &&& node.wf()
                    &&& node.handles() == (tx, rx, clock)
                    &&& node.config() == cfg
                    &&& node.receiving() == (RxView {
                        capacity: cfg.rx_buffer_len as nat,
                        progress: RxProgress::Idle,
                    })
                },
                Err(error) => {
                    &&& error == IsoTpError::<()>::InvalidConfig
                    &&& !cfg.accepts_buffer(
                        match buffer {
                            Some(buf) => Some(buf@.len()),
                            None => None,
                        },
                    )
                    &&& !cfg.valid() || (buffer matches Some(buf) && buf@.len()
                        < cfg.rx_buffer_len)
                    &&& buffer matches Some(buf) ==> final(buf)@ == buf@
                },
            },
    {
        if cfg.validate().is_err() {
            return Err(IsoTpError::InvalidConfig);
        }
        let rx_buffer = match build_buffer(cfg.rx_buffer_len, buffer) {
            Ok(rx_buffer) => rx_buffer,
            Err(error) => return Err(error),
        };
        Ok(
            IsoTpAsyncNode {
                tx,
                rx,
                clock,
                cfg,
                rx_machine: RxMachine::new(rx_buffer),
                rx_at: None,
            },
        )
    }

    /// Begin to send `payload`, in a call that began `elapsed` ago.
    pub fn send<'p, E>(
        &self,
        payload: &'p [u8],
        elapsed: Duration,
        timeout: Duration,
    ) -> (r: Result<Transfer<'p>, IsoTpError<E>>)
        requires
            self.wf(),
        ensures
            match r {
                Ok(transfer) => TransferView::begun::<E>(self.config(), payload@, elapsed@, timeout@) == Ok::<
                    TransferView,
                    IsoTpError<E>,
                >(transfer@),
                Err(error) => TransferView::begun::<E>(self.config(), payload@, elapsed@, timeout@) == Err::<
                    TransferView,
                    IsoTpError<E>,
                >(error),
            },
            match r {
                Ok(transfer) => {
                    &&& payload@.len() <= self.config().max_payload_len
                    &&& elapsed@ < timeout@
                    &&& transfer@ == TransferView::fresh(self.config(), payload@)
                    &&& transfer@.wf()
                },
                Err(error) => {
                    ||| payload@.len() > self.config().max_payload_len && error
                        == IsoTpError::<E>::Overflow
                    ||| payload@.len() <= self.config().max_payload_len && elapsed@
                        >= timeout@ && error == IsoTpError::<E>::Timeout(TimeoutKind::NAs)
                },
            },
    {
        Transfer::begin(&self.cfg, payload, elapsed, timeout)
    }

    /// What a transmission calls for next.
    pub fn next_step<E>(&self, transfer: &Transfer<'_>) -> (r: Result<TransferStep, IsoTpError<E>>)
        requires
            transfer@.wf(),
        ensures
            r matches Ok(step) && step@ == transfer@.step(self.config()),
    {
        transfer.step(&self.cfg)
    }

    /// How long the link may take for a frame, in a call that began `elapsed` ago.
    pub fn send_limit<E>(&self, timeout: Duration, elapsed: Duration) -> (r: Result<
        TimeLimit,
        IsoTpError<E>,
    >)
        ensures
            viewed(r) == send_limit_of::<E>(self.config(), timeout@, elapsed@),
            match r {
                Ok(limit) => {
                    &&& elapsed@ <= timeout@
                    &&& limit.wait_for@ == lesser(self.config().n_as@, timeout@ - elapsed@)
                    &&& limit.expiry == TimeoutKind::NAs
                },
                Err(error) => elapsed@ > timeout@ && error == IsoTpError::<E>::Timeout(
                    TimeoutKind::NAs,
                ),
            },
    {
        send_limit(&self.cfg, timeout, elapsed)
    }

    /// How long the link may take for the next frame of a transmission, in a call that began
    /// `elapsed` ago: a consecutive frame that follows another one, which went out `since_last` ago,
    /// has to be out within `n_cs` of it.
    pub fn frame_limit<E>(
        &self,
        transfer: &Transfer<'_>,
        since_last: Duration,
        timeout: Duration,
        elapsed: Duration,
    ) -> (r: Result<TimeLimit, IsoTpError<E>>)
        ensures
            viewed(r) == transfer@.frame_limit_of::<E>(
                self.config(),
                since_last@,
                timeout@,
                elapsed@,
            ),
            match r {
                Ok(limit) => {
                    let frame_left = lesser(self.config().n_as@, timeout@ - elapsed@);
                    let cs_left = self.config().n_cs@ - since_last@;
                    &&& elapsed@ <= timeout@
                    &&& if transfer@.streamed() {
                        &&& cs_left > 0
                        &&& limit.wait_for@ == lesser(frame_left, cs_left)
                        &&& limit.expiry == (if frame_left <= cs_left {
                            TimeoutKind::NAs
                        } else {
                            TimeoutKind::NCs
                        })
                    } else {
                        &&& limit.wait_for@ == frame_left
                        &&& limit.expiry == TimeoutKind::NAs
                    }
                },
                Err(error) => {
                    let late = transfer@.streamed() && since_last@ >= self.config().n_cs@;
                    ||| late && error == IsoTpError::<E>::Timeout(TimeoutKind::NCs)
                    ||| !late && elapsed@ > timeout@ && error == IsoTpError::<E>::Timeout(
                        TimeoutKind::NAs,
                    )
                },
            },
    {
        if !transfer.has_streamed() {
            return send_limit(&self.cfg, timeout, elapsed);
        }
        let next = match consecutive_limit::<E>(&self.cfg, since_last, timeout, elapsed) {
            Ok(next) => next,
            Err(error) => return Err(error),
        };
        match send_limit::<E>(&self.cfg, timeout, elapsed) {
            Err(error) => Err(error),
            Ok(frame) => Ok(if frame.wait_for <= next.wait_for {
                frame
            } else {
                next
            }),
        }
    }

    /// How long to wait for the next frame when receiving, in a call that began `elapsed` ago. While
    /// a reception is under way, whose last frame arrived `since_last` ago, its next frame has to
    /// come within `n_br`.
    pub fn recv_limit<E>(
        &self,
        since_last: Duration,
        timeout: Duration,
        elapsed: Duration,
    ) -> (r: Result<TimeLimit, IsoTpError<E>>)
        ensures
            viewed(r) == arrival_limit_of::<E>(
                self.config(),
                self.receiving(),
                since_last@,
                timeout@,
                elapsed@,
            ),
            match r {
                Ok(limit) => {
                    let frame_left = lesser(self.config().n_ar@, timeout@ - elapsed@);
                    let br_left = if since_last@ <= self.config().n_br@ {
                        self.config().n_br@ - since_last@
                    } else {
                        0
                    };
                    &&& elapsed@ <= timeout@
                    &&& if self.receiving().progress is Receiving && br_left <= frame_left {
                        &&& limit.wait_for@ == br_left
                        &&& limit.expiry == TimeoutKind::NBr
                    } else {
                        &&& limit.wait_for@ == frame_left
                        &&& limit.expiry == TimeoutKind::NAr
                    }
                },
                Err(error) => elapsed@ > timeout@ && error == IsoTpError::<E>::Timeout(
                    TimeoutKind::NAr,
                ),
            },
    {
        if self.rx_machine.is_receiving() {
            reception_limit(&self.cfg, since_last, timeout, elapsed)
        } else {
            recv_limit(&self.cfg, timeout, elapsed)
        }
    }

    /// How long to wait for the next frame in a wait for flow control that began `fc_elapsed` ago,
    /// in a call that began `elapsed` ago: until the first of the two timers runs out.
    pub fn flow_budget<E>(
        &self,
        fc_elapsed: Duration,
        timeout: Duration,
        elapsed: Duration,
    ) -> (r: Result<TimeLimit, IsoTpError<E>>)
        ensures
            r == flow_budget_of::<E>(self.config().n_bs@, fc_elapsed@, timeout@, elapsed@),
    {
        flow_budget(&self.cfg, fc_elapsed, timeout, elapsed)
    }

    /// Take up a frame that arrived while a transmission waits for flow control.
    pub fn wait_for_flow_control<E>(
        &self,
        transfer: &mut Transfer<'_>,
        id: Id,
        data: &[u8],
    ) -> (r: FlowTurn<E>)
        requires
            old(transfer)@.wf(),
            old(transfer)@.awaits_flow_control(),
        ensures
            final(transfer)@.wf(),
            (final(transfer)@, r) == old(transfer)@.on_flow_frame::<E>(self.config(), id, data@),
    {
        transfer.flow_frame_arrived(&self.cfg, id, data)
    }
}

impl<'a, Tx, Rx, C, T: Copy> IsoTpAsyncNode<'a, Tx, Rx, C, T> {
    /// When the last frame of the reception under way arrived.
    pub fn last_received(&self) -> (r: Option<T>)
        ensures
            r == self.received_at(),
    {
        self.rx_at
    }

    /// Take up a frame that arrived at the time `now`.
    pub fn recv<E>(&mut self, id: Id, data: &[u8], now: T) -> (r: Reception<E>)
        requires
            old(self).wf(),
        ensures
            final(self).wf(),
            final(self).config() == old(self).config(),
            final(self).handles() == old(self).handles(),
            (final(self).receiving(), r@) == reception::<E>(
                old(self).config(),
                old(self).receiving(),
                id,
                data@,
            ),
            final(self).received_at() == received_at(
                final(self).receiving(),
                r@,
                old(self).received_at(),
                now,
            ),
            match (old(self).storage(), final(self).storage()) {
                (RxBuffer::Borrowed(before), RxBuffer::Borrowed(after)) => final(after)@
                    == final(before)@,
                (RxBuffer::Owned(_), RxBuffer::Owned(_)) => true,
                _ => false,
            },
    {
        let effect = accept::<E>(&self.cfg, &mut self.rx_machine, id, data);
        self.rx_at = arrival(&self.rx_machine, &effect, self.rx_at, now);
        effect
    }

    /// Go on after no frame came within the limit: the call has failed, and a reception whose next
    /// frame did not come in time is over.
    pub fn no_frame<E>(&mut self, limit: TimeLimit) -> (r: IsoTpError<E>)
        requires
            old(self).wf(),
        ensures
            (r, final(self).receiving(), final(self).received_at()) == after_silence::<T, E>(
                old(self).receiving(),
                old(self).received_at(),
                limit.expiry,
            ),
            final(self).wf(),
            final(self).config() == old(self).config(),
            final(self).handles() == old(self).handles(),
            final(self).storage() == old(self).storage(),
            r == IsoTpError::<E>::Timeout(limit.expiry),
            if limit.expiry == TimeoutKind::NBr {
                &&& final(self).receiving() == old(self).receiving().at(RxProgress::Idle)
                &&& final(self).received_at() is None
            } else {
                &&& final(self).receiving() == old(self).receiving()
                &&& final(self).received_at() == old(self).received_at()
            },
    {
        if limit.expiry == TimeoutKind::NBr {
            self.rx_machine.abandon();
            self.rx_at = None;
        }
        IsoTpError::Timeout(limit.expiry)
    }

    /// Hand out the completed payload, and be ready for the next one.
    pub fn take_completed(&mut self) -> (r: &[u8])
        requires
            old(self).wf(),
        ensures
            r@ == old(self).receiving().completed(),
            r@ == old(self).storage()@.take(r@.len() as int),
            final(self).wf(),
            final(self).config() == old(self).config(),
            final(self).handles() == old(self).handles(),
            final(self).received_at() == old(self).received_at(),
            final(self).receiving() == (match old(self).receiving().progress {
                RxProgress::Ready { .. } => old(self).receiving().at(RxProgress::Idle),
                _ => old(self).receiving(),
            }),
            final(self).receiving() == old(self).receiving().taken(),
            final(self).storage() == old(self).storage(),
    {
        self.rx_machine.take_completed()
    }
}

} // verus!
