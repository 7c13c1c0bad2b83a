//! State of a segmented transmission.

use crate::config::{IsoTpConfig, MAX_PAYLOAD};
use crate::pdu::{PduView, CONSECUTIVE_MAX, FIRST_LEN, SINGLE_MAX};
use crate::time::Duration;
use vstd::prelude::*;

verus! {

/// What one polling step achieved.
#[derive(Debug, Clone, Copy, PartialEq, Eq, Structural)]
pub enum Progress {
    /// A frame went out or came in; there is more to do.
    InFlight,
    /// The transmission waits for the peer's flow control frame.
    WaitingForFlowControl,
    /// Nothing could be done yet.
    WouldBlock,
    /// The whole payload is through.
    Completed,
}

/// The point in time that lies `wait` after the instant `from`.
#[derive(Debug, Clone, Copy)]
pub struct Deadline<T> {
    pub from: T,
    pub wait: Duration,
}

impl<T> Deadline<T> {
    /// Whether the deadline has come when `since` nanoseconds have passed since its start.
    pub open spec fn due(self, since: int) -> bool {
        since >= self.wait@
    }
}

/// A segmented transmission under way.
#[derive(Debug)]
pub struct TxSession {
    /// The whole payload.
    pub payload: Vec<u8>,
    /// How many bytes of it have been sent.
    pub offset: usize,
    /// The sequence number of the next consecutive frame.
    pub next_sn: u8,
    /// The number of consecutive frames in a block (0 = unlimited).
    pub block_size: u8,
    /// How many of them are left in the current block.
    pub block_remaining: u8,
    /// The least time between two consecutive frames.
    pub st_min: Duration,
    /// How many times in a row the peer has asked to wait.
    pub wait_count: u16,
}

/// What a [`TxSession`] holds.
pub struct SessionView {
    pub payload: Seq<u8>,
    pub offset: int,
    pub next_sn: u8,
    pub block_size: u8,
    pub block_remaining: u8,
    pub st_min: Duration,
    pub wait_count: u16,
}

impl View for TxSession {
    type V = SessionView;

    open spec fn view(&self) -> SessionView {
        SessionView {
            payload: self.payload@,
            offset: self.offset as int,
            next_sn: self.next_sn,
            block_size: self.block_size,
            block_remaining: self.block_remaining,
            st_min: self.st_min,
            wait_count: self.wait_count,
        }
    }
}

impl SessionView {
    /// The payload is long enough to need segments and short enough for a first frame, the first
    /// frame has gone out, and the sequence number has four bits.
    pub open spec fn wf(self) -> bool {
        &&& SINGLE_MAX < self.payload.len() <= MAX_PAYLOAD
        &&& FIRST_LEN <= self.offset <= self.payload.len()
        &&& self.next_sn <= 15
    }

    /// A transmission of which nothing has been sent.
    pub open spec fn fresh(payload: Seq<u8>, block_size: u8, st_min: Duration) -> SessionView {
        SessionView {
            payload,
            offset: 0,
            next_sn: 1,
            block_size,
            block_remaining: block_size,
            st_min,
            wait_count: 0,
        }
    }

    /// The transmission after its first frame.
    pub open spec fn opened(cfg: IsoTpConfig, payload: Seq<u8>) -> SessionView {
        SessionView {
            offset: FIRST_LEN as int,
            ..SessionView::fresh(payload, cfg.block_size, cfg.st_min)
        }
    }

    /// The whole payload has been sent.
    pub open spec fn done(self) -> bool {
        self.offset >= self.payload.len()
    }

    /// Where the next consecutive frame ends.
    pub open spec fn next_end(self) -> int {
        if self.payload.len() - self.offset <= CONSECUTIVE_MAX {
            self.payload.len() as int
        } else {
            self.offset + CONSECUTIVE_MAX
        }
    }

    /// The next consecutive frame.
    pub open spec fn next_pdu(self) -> PduView {
        PduView::ConsecutiveFrame {
            sn: self.next_sn,
            data: self.payload.subrange(self.offset, self.next_end()),
        }
    }

    /// The transmission after its next consecutive frame.
    pub open spec fn advanced(self) -> SessionView {
        SessionView {
            offset: self.next_end(),
            next_sn: ((self.next_sn + 1) % 16) as u8,
            ..self
        }
    }

    /// The transmission after the peer's go-ahead.
    pub open spec fn granted(self, block_size: u8, st_min: Duration) -> SessionView {
        SessionView {
            block_size,
            block_remaining: block_size,
            st_min,
            wait_count: 0,
            ..self
        }
    }

    /// The transmission after the peer has asked to wait.
    pub open spec fn held(self) -> SessionView {
        SessionView {
            wait_count: if self.wait_count == u16::MAX {
                u16::MAX
            } else {
                (self.wait_count + 1) as u16
            },
            ..self
        }
    }
}

impl TxSession {
    /// A transmission of `payload` of which nothing has been sent.
    pub fn new(payload: Vec<u8>, block_size: u8, st_min: Duration) -> (r: TxSession)
        ensures
            r@ == SessionView::fresh(payload@, block_size, st_min),
    {
        TxSession {
            payload,
            offset: 0,
            next_sn: 1,
            block_size,
            block_remaining: block_size,
            st_min,
            wait_count: 0,
        }
    }
}

/// Where the sending side stands; `T` is the clock's instant.
#[derive(Debug)]
pub enum TxState<T> {
    /// No transmission.
    Idle,
    /// A first frame or a block is through; the peer has to answer before the deadline. After a
    /// block, `last_sent` says when its last frame went out.
    WaitingForFc { session: TxSession, deadline: Deadline<T>, last_sent: Option<T> },
    /// In the middle of a block, whose last frame went out at `last_sent`; the next frame has to wait
    /// for the deadline.
    Sending { session: TxSession, st_min_deadline: Option<Deadline<T>>, last_sent: T },
}

/// What a [`TxState`] holds.
pub enum TxStateView<T> {
    Idle,
    WaitingForFc { session: SessionView, deadline: Deadline<T>, last_sent: Option<T> },
    Sending { session: SessionView, st_min_deadline: Option<Deadline<T>>, last_sent: T },
}

impl<T> View for TxState<T> {
    type V = TxStateView<T>;

    open spec fn view(&self) -> TxStateView<T> {
        match self {
            TxState::Idle => TxStateView::Idle,
            TxState::WaitingForFc { session, deadline, last_sent } => TxStateView::WaitingForFc {
                session: session@,
                deadline: *deadline,
                last_sent: *last_sent,
            },
            TxState::Sending { session, st_min_deadline, last_sent } => TxStateView::Sending {
                session: session@,
                st_min_deadline: *st_min_deadline,
                last_sent: *last_sent,
            },
        }
    }
}

impl<T> TxStateView<T> {
    /// The transmission, if there is one, is well-formed.
    pub open spec fn wf(self) -> bool {
        match self {
            TxStateView::Idle => true,
            TxStateView::WaitingForFc { session, .. } => session.wf(),
            TxStateView::Sending { session, .. } => session.wf(),
        }
    }

    /// The deadline that the state waits for, if there is one.
    pub open spec fn deadline(self) -> Option<Deadline<T>> {
        match self {
            TxStateView::Idle => None,
            TxStateView::WaitingForFc { deadline, .. } => Some(deadline),
            TxStateView::Sending { st_min_deadline, .. } => st_min_deadline,
        }
    }

    /// When the last consecutive frame of the transmission went out, if there was one.
    pub open spec fn last_sent(self) -> Option<T> {
        match self {
            TxStateView::Idle => None,
            TxStateView::WaitingForFc { last_sent, .. } => last_sent,
            TxStateView::Sending { last_sent, .. } => Some(last_sent),
        }
    }
}

} // verus!
