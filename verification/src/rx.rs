//! Reassembly of received payloads.

use crate::config::IsoTpConfig;
use crate::errors::IsoTpError;
use crate::pdu::{duration_to_st_min, st_min_code, FlowStatus, Pdu, PduView};
use vstd::prelude::*;
use vstd::slice::slice_subrange;

verus! {

/// Storage for a payload that is being received.
pub enum RxBuffer<'a> {
    /// Memory that the caller provides.
    Borrowed(&'a mut [u8]),
    /// Memory of its own.
    Owned(Vec<u8>),
}

impl<'a> View for RxBuffer<'a> {
    type V = Seq<u8>;

    open spec fn view(&self) -> Seq<u8> {
        match self {
            RxBuffer::Borrowed(bytes) => bytes@,
            RxBuffer::Owned(bytes) => bytes@,
        }
    }
}

impl<'a> RxBuffer<'a> {
    /// The number of bytes it holds.
    pub fn len(&self) -> (r: usize)
        ensures
            r == self@.len(),
    {
        match self {
            RxBuffer::Borrowed(bytes) => bytes.len(),
            RxBuffer::Owned(bytes) => bytes.len(),
        }
    }

    /// Overwrite one byte.
    fn set(&mut self, index: usize, byte: u8)
        requires
            index < old(self)@.len(),
        ensures
            final(self)@ == old(self)@.update(index as int, byte),
            match (*old(self), *final(self)) {
                (RxBuffer::Borrowed(before), RxBuffer::Borrowed(after)) => final(after)@
                    == final(before)@,
                (RxBuffer::Owned(_), RxBuffer::Owned(_)) => true,
                _ => false,
            },
    {
        match self {
            RxBuffer::Borrowed(bytes) => {
                bytes[index] = byte;
            },
            RxBuffer::Owned(bytes) => {
                bytes[index] = byte;
            },
        }
    }

    /// Overwrite the bytes from `at` on with the first `count` bytes of `data`.
    fn write(&mut self, at: usize, data: &[u8], count: usize)
        requires
            count <= data@.len(),
            at + count <= old(self)@.len(),
        ensures
            final(self)@.len() == old(self)@.len(),
            final(self)@.take(at + count) == old(self)@.take(at as int) + data@.take(count as int),
            match (*old(self), *final(self)) {
                (RxBuffer::Borrowed(before), RxBuffer::Borrowed(after)) => final(after)@
                    == final(before)@,
                (RxBuffer::Owned(_), RxBuffer::Owned(_)) => true,
                _ => false,
            },
    {
        let room: usize = self.len();
        let mut i: usize = 0;
        while i < count
            invariant
                i <= count <= data@.len(),
                at + count <= room,
                room == self@.len(),
                room == old(self)@.len(),
                self@.take(at + i) == old(self)@.take(at as int) + data@.take(i as int),
                match (*old(self), *self) {
                    (RxBuffer::Borrowed(before), RxBuffer::Borrowed(after)) => final(after)@
                        == final(before)@,
                    (RxBuffer::Owned(_), RxBuffer::Owned(_)) => true,
                    _ => false,
                },
            decreases count - i,
        {
            let ghost before = self@;
            self.set(at + i, data[i]);
            i += 1;
            assert(self@.take(at + i) == before.take(at + i - 1).push(data@[i - 1]));
            assert(data@.take(i as int) == data@.take(i - 1).push(data@[i - 1]));
        }
    }

    /// The first `count` bytes.
    fn head(&self, count: usize) -> (r: &[u8])
        requires
            count <= self@.len(),
        ensures
            r@ == self@.take(count as int),
    {
        match self {
            RxBuffer::Borrowed(bytes) => {
                let bytes: &[u8] = bytes;
                slice_subrange(bytes, 0, count)
            },
            RxBuffer::Owned(bytes) => slice_subrange(bytes.as_slice(), 0, count),
        }
    }
}

/// A buffer of `len` bytes: the front of the caller's memory where there is some, which must be
/// long enough, and zeroed memory of its own otherwise.
pub fn build_buffer<'a>(
    len: usize,
    buffer: Option<&'a mut [u8]>,
) -> (r: Result<RxBuffer<'a>, IsoTpError<()>>)
    ensures
        match buffer {
            Some(buf) if buf@.len() < len => {
                &&& r == Err::<RxBuffer<'a>, IsoTpError<()>>(IsoTpError::InvalidConfig)
                &&& final(buf)@ == buf@
            },
            Some(buf) => {
                &&& r matches Ok(RxBuffer::Borrowed(front))
                &&& front@ == buf@.take(len as int)
                &&& final(buf)@ == final(front)@ + buf@.skip(len as int)
            },
            None => {
                &&& r matches Ok(RxBuffer::Owned(bytes))
                &&& bytes@ == Seq::new(len as nat, |i: int| 0u8)
            },
        },
{
    match buffer {
        Some(buf) => {
            if buf.len() < len {
                return Err(IsoTpError::InvalidConfig);
            }
            let (front, _) = buf.split_at_mut(len);
            Ok(RxBuffer::Borrowed(front))
        },
        None => {
            let mut bytes: Vec<u8> = Vec::new();
            bytes.resize(len, 0);
            Ok(RxBuffer::Owned(bytes))
        },
    }
}

/// What a received unit calls for.
#[derive(Debug, Clone, Copy, PartialEq, Eq, Structural)]
pub enum RxOutcome {
    /// Nothing; more is to come.
    Pending,
    /// An answer to the sender.
    SendFlowControl { status: FlowStatus, block_size: u8, st_min: u8 },
    /// A payload of this length is complete.
    Completed(usize),
}

/// Where the receiving side stands.
#[derive(Debug, Clone, Copy, PartialEq, Eq, Structural)]
enum RxPhase {
    Idle,
    Receiving { total: usize, received: usize, next_sn: u8, block_left: u8 },
    Ready { len: usize },
}

/// Puts a payload together from the units that arrive.
pub struct RxMachine<'a> {
    buffer: RxBuffer<'a>,
    phase: RxPhase,
}

/// What an [`RxMachine`] has received.
pub enum RxProgress {
    /// Nothing.
    Idle,
    /// The first bytes of a payload of `total` bytes.
    Receiving { total: int, data: Seq<u8>, next_sn: u8, block_left: u8 },
    /// A whole payload that has not been taken yet.
    Ready { data: Seq<u8> },
}

/// What an [`RxMachine`] holds: how much its buffer takes, and what it has received.
pub struct RxView {
    pub capacity: nat,
    pub progress: RxProgress,
}

impl<'a> View for RxMachine<'a> {
    type V = RxView;

    closed spec fn view(&self) -> RxView {
        RxView {
            capacity: self.buffer@.len(),
            progress: match self.phase {
                RxPhase::Idle => RxProgress::Idle,
                RxPhase::Receiving { total, received, next_sn, block_left } => {
                    RxProgress::Receiving {
                        total: total as int,
                        data: self.buffer@.take(received as int),
                        next_sn,
                        block_left,
                    }
                },
                RxPhase::Ready { len } => RxProgress::Ready {
                    data: self.buffer@.take(len as int),
                },
            },
        }
    }
}

impl RxView {
    /// A payload that is being received is incomplete and fits the buffer.
    pub open spec fn wf(self) -> bool {
        match self.progress {
            RxProgress::Idle => true,
            RxProgress::Receiving { total, data, next_sn, block_left } => data.len() < total
                <= self.capacity && next_sn <= 15,
            RxProgress::Ready { data } => data.len() <= self.capacity,
        }
    }

    /// The same buffer, with other progress.
    pub open spec fn at(self, progress: RxProgress) -> RxView {
        RxView { progress, ..self }
    }

    /// Whether a payload of `len` bytes is acceptable.
    pub open spec fn fits(self, cfg: IsoTpConfig, len: int) -> bool {
        len <= cfg.max_payload_len && len <= self.capacity
    }

    /// The go-ahead that the configuration calls for.
    pub open spec fn go_ahead(cfg: IsoTpConfig) -> RxOutcome {
        RxOutcome::SendFlowControl {
            status: FlowStatus::ClearToSend,
            block_size: cfg.block_size,
            st_min: st_min_code(cfg.st_min@),
        }
    }

    /// What a unit does to the receiving side, and what it calls for. A single frame or a first
    /// frame starts anew whatever was under way. A consecutive frame is taken up only in its turn,
    /// and only as many of its bytes as are missing. The sender gets a go-ahead after the first
    /// frame and after every full block.
    pub open spec fn on_pdu(self, cfg: IsoTpConfig, pdu: PduView) -> (
        RxView,
        Result<RxOutcome, IsoTpError<()>>,
    ) {
        match pdu {
            PduView::SingleFrame { len, data } => {
                if data.len() < len {
                    (self.at(RxProgress::Idle), Err(IsoTpError::InvalidFrame))
                } else if !self.fits(cfg, len as int) {
                    (self.at(RxProgress::Idle), Err(IsoTpError::Overflow))
                } else {
                    (
                        self.at(RxProgress::Ready { data: data.take(len as int) }),
                        Ok(RxOutcome::Completed(len as usize)),
                    )
                }
            },
            PduView::FirstFrame { len, data } => {
                if len <= data.len() {
                    (self.at(RxProgress::Idle), Err(IsoTpError::InvalidFrame))
                } else if !self.fits(cfg, len as int) {
                    (self.at(RxProgress::Idle), Err(IsoTpError::Overflow))
                } else {
                    (
                        self.at(
                            RxProgress::Receiving {
                                total: len as int,
                                data,
                                next_sn: 1,
                                block_left: cfg.block_size,
                            },
                        ),
                        Ok(RxView::go_ahead(cfg)),
                    )
                }
            },
            PduView::ConsecutiveFrame { sn, data } => match self.progress {
                RxProgress::Receiving { total, data: have, next_sn, block_left } => {
                    let missing = total - have.len();
                    if sn != next_sn {
                        (self.at(RxProgress::Idle), Err(IsoTpError::BadSequence))
                    } else if missing <= data.len() {
                        (
                            self.at(RxProgress::Ready { data: have + data.take(missing) }),
                            Ok(RxOutcome::Completed(total as usize)),
                        )
                    } else {
                        let block_full = cfg.block_size > 0 && block_left <= 1;
                        (
                            self.at(
                                RxProgress::Receiving {
                                    total,
                                    data: have + data,
                                    next_sn: ((next_sn + 1) % 16) as u8,
                                    block_left: if cfg.block_size == 0 {
                                        block_left
                                    } else if block_full {
                                        cfg.block_size
                                    } else {
                                        (block_left - 1) as u8
                                    },
                                },
                            ),
                            Ok(
                                if block_full {
                                    RxView::go_ahead(cfg)
                                } else {
                                    RxOutcome::Pending
                                },
                            ),
                        )
                    }
                },
                _ => (self, Err(IsoTpError::UnexpectedPdu)),
            },
            PduView::FlowControl { .. } => (self, Err(IsoTpError::UnexpectedPdu)),
        }
    }

    /// A reception is under way, and its last frame arrived more than `n_br` before, when `since`
    /// nanoseconds have passed.
    pub open spec fn overdue(self, cfg: IsoTpConfig, since: int) -> bool {
        self.progress is Receiving && since > cfg.n_br@
    }

    /// The receiving side after the completed payload, if there is one, has been taken.
    pub open spec fn taken(self) -> RxView {
        match self.progress {
            RxProgress::Ready { .. } => self.at(RxProgress::Idle),
            _ => self,
        }
    }

    /// The payload that can be taken: none unless one is complete.
    pub open spec fn completed(self) -> Seq<u8> {
        match self.progress {
            RxProgress::Ready { data } => data,
            _ => Seq::empty(),
        }
    }
}

impl<'a> RxMachine<'a> {
    /// What the machine has received fits its buffer.
    pub closed spec fn wf(&self) -> bool {
        match self.phase {
            RxPhase::Idle => true,
            RxPhase::Receiving { total, received, next_sn, block_left } => received < total
                <= self.buffer@.len() && next_sn <= 15,
            RxPhase::Ready { len } => len <= self.buffer@.len(),
        }
    }

    /// The memory that payloads are received in.
    pub closed spec fn storage(&self) -> RxBuffer<'a> {
        self.buffer
    }

    /// The invariant, seen from outside.
    pub proof fn lemma_wf(&self)
        requires
            self.wf(),
        ensures
            self@.wf(),
            self@.capacity == self.storage()@.len(),
    {
    }

    /// A machine that has received nothing.
    pub fn new(buffer: RxBuffer<'a>) -> (r: RxMachine<'a>)
        ensures
            r.wf(),
            r.storage() == buffer,
            r@ == (RxView { capacity: buffer@.len(), progress: RxProgress::Idle }),
    {
        RxMachine { buffer, phase: RxPhase::Idle }
    }

    /// Whether a segmented payload is being received.
    pub fn is_receiving(&self) -> (r: bool)
        ensures
            r == (self@.progress is Receiving),
    {
        matches!(self.phase, RxPhase::Receiving { .. })
    }

    /// Drop what has been received.
    pub fn abandon(&mut self)
        ensures
            final(self).wf(),
            final(self).storage() == old(self).storage(),
            final(self)@ == old(self)@.at(RxProgress::Idle),
    {
        self.phase = RxPhase::Idle;
    }

    /// Take up one unit.
    pub fn on_pdu(&mut self, cfg: &IsoTpConfig, pdu: Pdu<'_>) -> (r: Result<
        RxOutcome,
        IsoTpError<()>,
    >)
        requires
            old(self).wf(),
        ensures
            final(self).wf(),
            final(self)@ == old(self)@.on_pdu(*cfg, pdu@).0,
            r == old(self)@.on_pdu(*cfg, pdu@).1,
            match (old(self).storage(), final(self).storage()) {
                (RxBuffer::Borrowed(before), RxBuffer::Borrowed(after)) => final(after)@
                    == final(before)@,
                (RxBuffer::Owned(_), RxBuffer::Owned(_)) => true,
                _ => false,
            },
    {
        match pdu {
            Pdu::SingleFrame { len, data } => {
                let len: usize = len as usize;
                self.phase = RxPhase::Idle;
                if data.len() < len {
                    return Err(IsoTpError::InvalidFrame);
                }
                if len > cfg.max_payload_len || len > self.buffer.len() {
                    return Err(IsoTpError::Overflow);
                }
                self.buffer.write(0, data, len);
                self.phase = RxPhase::Ready { len };
                assert(self.buffer@.take(len as int) == data@.take(len as int));
                Ok(RxOutcome::Completed(len))
            },
            Pdu::FirstFrame { len, data } => {
                let total: usize = len as usize;
                self.phase = RxPhase::Idle;
                if total <= data.len() {
                    return Err(IsoTpError::InvalidFrame);
                }
                if total > cfg.max_payload_len || total > self.buffer.len() {
                    return Err(IsoTpError::Overflow);
                }
                self.buffer.write(0, data, data.len());
                self.phase = RxPhase::Receiving {
                    total,
                    received: data.len(),
                    next_sn: 1,
                    block_left: cfg.block_size,
                };
                assert(self.buffer@.take(data@.len() as int) == data@);
                Ok(go_ahead(cfg))
            },
            Pdu::ConsecutiveFrame { sn, data } => {
                if let RxPhase::Receiving { total, received, next_sn, block_left } = self.phase {
                    if sn != next_sn {
                        self.phase = RxPhase::Idle;
                        return Err(IsoTpError::BadSequence);
                    }
                    let missing: usize = total - received;
                    if missing <= data.len() {
                        self.buffer.write(received, data, missing);
                        self.phase = RxPhase::Ready { len: total };
                        return Ok(RxOutcome::Completed(total));
                    }
                    self.buffer.write(received, data, data.len());
                    assert(data@.take(data@.len() as int) == data@);
                    let block_full = cfg.block_size > 0 && block_left <= 1;
                    let left: u8 = if cfg.block_size == 0 {
                        block_left
                    } else if block_full {
                        cfg.block_size
                    } else {
                        block_left - 1
                    };
                    self.phase = RxPhase::Receiving {
                        total,
                        received: received + data.len(),
                        next_sn: (next_sn + 1) % 16,
                        block_left: left,
                    };
                    Ok(if block_full {
                        go_ahead(cfg)
                    } else {
                        RxOutcome::Pending
                    })
                } else {
                    Err(IsoTpError::UnexpectedPdu)
                }
            },
            Pdu::FlowControl { .. } => Err(IsoTpError::UnexpectedPdu),
        }
    }

    /// Hand out the completed payload, and be ready for the next one.
    pub fn take_completed(&mut self) -> (r: &[u8])
        requires
            old(self).wf(),
        ensures
            r@ == old(self)@.completed(),
            r@ == old(self).storage()@.take(r@.len() as int),
            final(self).wf(),
            final(self)@ == (match old(self)@.progress {
                RxProgress::Ready { .. } => old(self)@.at(RxProgress::Idle),
                _ => old(self)@,
            }),
            final(self).storage() == old(self).storage(),
    {
        let len: usize = match self.phase {
            RxPhase::Ready { len } => {
                self.phase = RxPhase::Idle;
                len
            },
            _ => 0,
        };
        let payload = self.buffer.head(len);
        assert(payload@ == old(self)@.completed());
        payload
    }
}

/// The go-ahead that the configuration calls for.
fn go_ahead(cfg: &IsoTpConfig) -> (r: RxOutcome)
    ensures
        r == RxView::go_ahead(*cfg),
{
    RxOutcome::SendFlowControl {
        status: FlowStatus::ClearToSend,
        block_size: cfg.block_size,
        st_min: duration_to_st_min(cfg.st_min),
    }
}

} // verus!
