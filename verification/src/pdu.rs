//! ISO-TP protocol data units and their layout in CAN frames.

use crate::id::Id;
use crate::time::Duration;
use vstd::prelude::*;
use vstd::slice::slice_subrange;

verus! {

/// The number of data bytes in a full CAN frame.
pub const FRAME_LEN: usize = 8;

/// The most bytes a single frame carries.
pub const SINGLE_MAX: usize = 7;

/// The number of payload bytes in a first frame.
pub const FIRST_LEN: usize = 6;

/// The most payload bytes in a consecutive frame.
pub const CONSECUTIVE_MAX: usize = 7;

/// A CAN data frame: an identifier and up to eight bytes.
#[derive(Debug, Clone, PartialEq, Eq)]
pub struct CanFrame {
    pub id: Id,
    pub data: Vec<u8>,
}

/// What a [`CanFrame`] holds.
pub struct WireFrame {
    pub id: Id,
    pub data: Seq<u8>,
}

impl View for CanFrame {
    type V = WireFrame;

    open spec fn view(&self) -> WireFrame {
        WireFrame { id: self.id, data: self.data@ }
    }
}

/// The receiver's answer in a flow control frame.
#[derive(Debug, Clone, Copy, PartialEq, Eq, Structural)]
pub enum FlowStatus {
    /// Go on sending.
    ClearToSend,
    /// Wait for another flow control frame.
    Wait,
    /// The payload is too long for the receiver.
    Overflow,
}

impl FlowStatus {
    /// The value of the low half of the first byte.
    pub open spec fn code(self) -> int {
        match self {
            FlowStatus::ClearToSend => 0,
            FlowStatus::Wait => 1,
            FlowStatus::Overflow => 2,
        }
    }
}

/// A protocol data unit; the payload bytes are borrowed.
#[derive(Debug, Clone, Copy, PartialEq, Eq)]
pub enum Pdu<'a> {
    /// A whole payload of `len` bytes.
    SingleFrame { len: u8, data: &'a [u8] },
    /// The start of a payload of `len` bytes.
    FirstFrame { len: u16, data: &'a [u8] },
    /// The next part of a payload.
    ConsecutiveFrame { sn: u8, data: &'a [u8] },
    /// The receiver's answer to a first frame or to a full block.
    FlowControl { status: FlowStatus, block_size: u8, st_min: u8 },
}

/// What a [`Pdu`] holds.
pub enum PduView {
    SingleFrame { len: u8, data: Seq<u8> },
    FirstFrame { len: u16, data: Seq<u8> },
    ConsecutiveFrame { sn: u8, data: Seq<u8> },
    FlowControl { status: FlowStatus, block_size: u8, st_min: u8 },
}

impl<'a> View for Pdu<'a> {
    type V = PduView;

    open spec fn view(&self) -> PduView {
        match *self {
            Pdu::SingleFrame { len, data } => PduView::SingleFrame { len, data: data@ },
            Pdu::FirstFrame { len, data } => PduView::FirstFrame { len, data: data@ },
            Pdu::ConsecutiveFrame { sn, data } => PduView::ConsecutiveFrame { sn, data: data@ },
            Pdu::FlowControl { status, block_size, st_min } => PduView::FlowControl {
                status,
                block_size,
                st_min,
            },
        }
    }
}

impl PduView {
    /// The unit fits the layout of a CAN frame.
    pub open spec fn encodable(self) -> bool {
        match self {
            PduView::SingleFrame { len, data } => data.len() == len && len <= SINGLE_MAX,
            PduView::FirstFrame { len, data } => SINGLE_MAX < len <= 4095 && data.len()
                == FIRST_LEN,
            PduView::ConsecutiveFrame { sn, data } => sn <= 15 && 1 <= data.len()
                <= CONSECUTIVE_MAX,
            PduView::FlowControl { .. } => true,
        }
    }

    /// The bytes of the unit: the kind in the high half of the first byte, the unit's own fields,
    /// then the payload bytes.
    pub open spec fn bytes(self) -> Seq<u8> {
        match self {
            PduView::SingleFrame { len, data } => seq![len] + data,
            PduView::FirstFrame { len, data } => seq![
                (0x10 + len / 256) as u8,
                (len % 256) as u8,
            ] + data,
            PduView::ConsecutiveFrame { sn, data } => seq![(0x20 + sn) as u8] + data,
            PduView::FlowControl { status, block_size, st_min } => seq![
                (0x30 + status.code()) as u8,
                block_size,
                st_min,
            ],
        }
    }
}

/// `bytes`, filled up with the padding byte to a full frame where there is one.
pub open spec fn padded(bytes: Seq<u8>, padding: Option<u8>) -> Seq<u8> {
    match padding {
        Some(fill) if bytes.len() < FRAME_LEN => bytes + Seq::new(
            (FRAME_LEN - bytes.len()) as nat,
            |i: int| fill,
        ),
        _ => bytes,
    }
}

/// The frame that carries the unit.
pub open spec fn frame_of(id: Id, pdu: PduView, padding: Option<u8>) -> WireFrame {
    WireFrame { id, data: padded(pdu.bytes(), padding) }
}

/// Append `data` to `out`.
fn append(out: &mut Vec<u8>, data: &[u8])
    requires
        old(out)@.len() + data@.len() <= usize::MAX,
    ensures
        final(out)@ == old(out)@ + data@,
{
    let mut i: usize = 0;
    while i < data.len()
        invariant
            i <= data@.len(),
            out@ == old(out)@ + data@.take(i as int),
        decreases data@.len() - i,
    {
        out.push(data[i]);
        i += 1;
        assert(data@.take(i as int) == data@.take(i - 1).push(data@[i - 1]));
    }
    assert(data@.take(i as int) == data@);
}

/// Lay out a unit in a frame, with padding where a padding byte is given. Units that do not fit
/// the layout are refused.
pub fn encode(id: Id, pdu: &Pdu<'_>, padding: Option<u8>) -> (r: Result<CanFrame, ()>)
    ensures
        r is Ok <==> pdu@.encodable(),
        r matches Ok(frame) ==> frame@ == frame_of(id, pdu@, padding),
{
    let mut data: Vec<u8> = Vec::new();
    match *pdu {
        Pdu::SingleFrame { len, data: body } => {
            if body.len() != len as usize || len as usize > SINGLE_MAX {
                return Err(());
            }
            data.push(len);
            append(&mut data, body);
        },
        Pdu::FirstFrame { len, data: body } => {
            if len as usize <= SINGLE_MAX || len > 4095 || body.len() != FIRST_LEN {
                return Err(());
            }
            data.push((0x10 + len / 256) as u8);
            data.push((len % 256) as u8);
            append(&mut data, body);
        },
        Pdu::ConsecutiveFrame { sn, data: body } => {
            if sn > 15 || body.len() == 0 || body.len() > CONSECUTIVE_MAX {
                return Err(());
            }
            data.push(0x20 + sn);
            append(&mut data, body);
        },
        Pdu::FlowControl { status, block_size, st_min } => {
            let code: u8 = match status {
                FlowStatus::ClearToSend => 0,
                FlowStatus::Wait => 1,
                FlowStatus::Overflow => 2,
            };
            data.push(0x30 + code);
            data.push(block_size);
            data.push(st_min);
        },
    }
    assert(data@ == pdu@.bytes());
    if let Some(fill) = padding {
        while data.len() < FRAME_LEN
            invariant
                pdu@.bytes().len() <= data@.len(),
                data@.len() <= FRAME_LEN,
                data@ == pdu@.bytes() + Seq::new(
                    (data@.len() - pdu@.bytes().len()) as nat,
                    |i: int| fill,
                ),
            decreases FRAME_LEN - data@.len(),
        {
            data.push(fill);
        }
    }
    assert(data@ == padded(pdu@.bytes(), padding));
    Ok(CanFrame { id, data })
}

/// The unit that the bytes of a frame hold, if they are well-formed.
pub open spec fn decoded(data: Seq<u8>) -> Option<PduView> {
    if data.len() == 0 || data.len() > FRAME_LEN {
        None
    } else {
        let kind = data[0] / 16;
        let low = data[0] % 16;
        if kind == 0 {
            if low <= SINGLE_MAX && low < data.len() {
                Some(PduView::SingleFrame { len: low, data: data.subrange(1, 1 + low) })
            } else {
                None
            }
        } else if kind == 1 {
            if data.len() == FRAME_LEN && low * 256 + data[1] > SINGLE_MAX {
                Some(
                    PduView::FirstFrame {
                        len: (low * 256 + data[1]) as u16,
                        data: data.subrange(2, FRAME_LEN as int),
                    },
                )
            } else {
                None
            }
        } else if kind == 2 {
            if data.len() >= 2 {
                Some(
                    PduView::ConsecutiveFrame {
                        sn: low,
                        data: data.subrange(1, data.len() as int),
                    },
                )
            } else {
                None
            }
        } else if kind == 3 {
            if data.len() < 3 {
                None
            } else if low == 0 {
                Some(
                    PduView::FlowControl {
                        status: FlowStatus::ClearToSend,
                        block_size: data[1],
                        st_min: data[2],
                    },
                )
            } else if low == 1 {
                Some(
                    PduView::FlowControl {
                        status: FlowStatus::Wait,
                        block_size: data[1],
                        st_min: data[2],
                    },
                )
            } else if low == 2 {
                Some(
                    PduView::FlowControl {
                        status: FlowStatus::Overflow,
                        block_size: data[1],
                        st_min: data[2],
                    },
                )
            } else {
                None
            }
        } else {
            None
        }
    }
}

/// Read the unit out of the bytes of a frame.
pub fn decode(data: &[u8]) -> (r: Result<Pdu<'_>, ()>)
    ensures
        match decoded(data@) {
            Some(pdu) => r matches Ok(p) && p@ == pdu,
            None => r is Err,
        },
{
    if data.len() == 0 || data.len() > FRAME_LEN {
        return Err(());
    }
    let kind: u8 = data[0] / 16;
    let low: u8 = data[0] % 16;
    if kind == 0 {
        if low as usize <= SINGLE_MAX && (low as usize) < data.len() {
            Ok(Pdu::SingleFrame { len: low, data: slice_subrange(data, 1, 1 + low as usize) })
        } else {
            Err(())
        }
    } else if kind == 1 {
        if data.len() != FRAME_LEN {
            return Err(());
        }
        let len: u16 = low as u16 * 256 + data[1] as u16;
        if len as usize > SINGLE_MAX {
            Ok(Pdu::FirstFrame { len, data: slice_subrange(data, 2, FRAME_LEN) })
        } else {
            Err(())
        }
    } else if kind == 2 {
        if data.len() >= 2 {
            Ok(Pdu::ConsecutiveFrame { sn: low, data: slice_subrange(data, 1, data.len()) })
        } else {
            Err(())
        }
    } else if kind == 3 {
        if data.len() < 3 {
            return Err(());
        }
        let status = if low == 0 {
            FlowStatus::ClearToSend
        } else if low == 1 {
            FlowStatus::Wait
        } else if low == 2 {
            FlowStatus::Overflow
        } else {
            return Err(());
        };
        Ok(Pdu::FlowControl { status, block_size: data[1], st_min: data[2] })
    } else {
        Err(())
    }
}

/// The separation time that a raw `st_min` byte stands for: milliseconds up to 127, hundreds of
/// microseconds from 0xF1 to 0xF9; the other values are reserved.
pub open spec fn st_min_span(raw: u8) -> Option<Duration> {
    if raw <= 0x7F {
        Some(Duration::of_millis(raw as int))
    } else if 0xF1 <= raw <= 0xF9 {
        Some(Duration::of_nanos((raw - 0xF0) * 100_000))
    } else {
        None
    }
}

/// Read a raw `st_min` byte; `None` for the reserved values.
pub fn st_min_to_duration(raw: u8) -> (r: Option<Duration>)
    ensures
        r == st_min_span(raw),
{
    if raw <= 0x7F {
        Some(Duration::from_millis(raw as u64))
    } else if 0xF1 <= raw && raw <= 0xF9 {
        Some(Duration::from_micros((raw - 0xF0) as u64 * 100))
    } else {
        None
    }
}

/// The raw `st_min` byte for a separation time of `nanos` nanoseconds: the shortest time that can
/// be written down and is no shorter, or the longest one.
pub open spec fn st_min_code(nanos: int) -> u8 {
    if nanos == 0 {
        0
    } else if nanos <= 900_000 {
        (0xF0 + (nanos + 99_999) / 100_000) as u8
    } else if nanos <= 127_000_000 {
        ((nanos + 999_999) / 1_000_000) as u8
    } else {
        0x7F
    }
}

/// Write a separation time as a raw `st_min` byte.
pub fn duration_to_st_min(duration: Duration) -> (r: u8)
    ensures
        r == st_min_code(duration@),
{
    let nanos: u128 = duration.as_nanos();
    if nanos == 0 {
        0
    } else if nanos <= 900_000 {
        (0xF0 + (nanos + 99_999) / 100_000) as u8
    } else if nanos <= 127_000_000 {
        ((nanos + 999_999) / 1_000_000) as u8
    } else {
        0x7F
    }
}

/// A unit that was laid out in a frame is read back from it, with any padding; only a consecutive
/// frame, which does not say how long it is, is read with the padding behind its payload bytes.
pub proof fn law_decode_encode(id: Id, pdu: PduView, padding: Option<u8>)
    requires
        pdu.encodable(),
    ensures
        frame_of(id, pdu, padding).data.len() <= FRAME_LEN,
        match pdu {
            PduView::ConsecutiveFrame { sn, data } => decoded(frame_of(id, pdu, padding).data)
                matches Some(PduView::ConsecutiveFrame { sn: sn2, data: data2 }) && sn2 == sn
                && data.len() <= data2.len() && data2.take(data.len() as int) == data && (
            padding is None ==> data2 == data),
            _ => decoded(frame_of(id, pdu, padding).data) == Some(pdu),
        },
{
    let bytes = pdu.bytes();
    let wire = frame_of(id, pdu, padding).data;
    assert(wire.len() <= FRAME_LEN);
    assert(wire.take(bytes.len() as int) == bytes);
    assert(forall|i: int| 0 <= i < bytes.len() ==> wire[i] == bytes[i]);
    match pdu {
        PduView::SingleFrame { len, data } => {
            assert(wire.subrange(1, 1 + len) == data);
        },
        PduView::FirstFrame { len, data } => {
            assert(wire.subrange(2, FRAME_LEN as int) == data);
        },
        PduView::ConsecutiveFrame { sn, data } => {
            assert(wire.subrange(1, wire.len() as int).take(data.len() as int) == data);
            if padding is None {
                assert(wire.subrange(1, wire.len() as int) == data);
            }
        },
        PduView::FlowControl { status, block_size, st_min } => {},
    }
}

/// What is read out of a frame can be laid out again, and gives the bytes that the frame starts
/// with.
pub proof fn law_encode_decode(id: Id, data: Seq<u8>)
    requires
        decoded(data) is Some,
    ensures
        ({
            let pdu = decoded(data)->0;
            &&& pdu.encodable()
            &&& pdu.bytes().len() <= data.len()
            &&& frame_of(id, pdu, None).data == data.take(pdu.bytes().len() as int)
        }),
{
    let pdu = decoded(data)->0;
    assert(pdu.bytes() == data.take(pdu.bytes().len() as int));
}

/// A separation time that is read from a raw byte is written as that byte again.
pub proof fn law_st_min_round_trip(raw: u8)
    requires
        st_min_span(raw) is Some,
    ensures
        st_min_code((st_min_span(raw)->0)@) == raw,
{
    broadcast use Duration::lemma_view_of_nanos;

    if raw > 0x7F {
        let nanos = (raw - 0xF0) * 100_000;
        assert((st_min_span(raw)->0)@ == nanos);
        assert((nanos + 99_999) / 100_000 == raw - 0xF0);
    }
}

/// The written separation time is never a reserved value, it is never shorter than the time asked
/// for up to 127 milliseconds, and no byte stands for a shorter time that would do.
pub proof fn law_st_min_no_shorter(nanos: int, other: u8)
    requires
        0 <= nanos <= 127_000_000,
        st_min_span(other) is Some,
        (st_min_span(other)->0)@ >= nanos,
    ensures
        st_min_span(st_min_code(nanos)) is Some,
        nanos <= (st_min_span(st_min_code(nanos))->0)@ <= (st_min_span(other)->0)@,
{
    broadcast use Duration::lemma_view_of_nanos;

}

/// The bytes of a frame: the identifier is kept; the high half of the first byte tells single, first
/// and consecutive frames and flow control apart as 0, 1, 2 and 3; the low half, and what follows,
/// hold the length (high part first), the sequence number, or status, block size and separation
/// time; then come the payload bytes. Padding, where there is some, fills the frame up to eight
/// bytes, and without it nothing follows.
pub proof fn law_frame_layout(id: Id, pdu: PduView, padding: Option<u8>)
    requires
        pdu.encodable(),
    ensures
        ({
            let frame = frame_of(id, pdu, padding);
            let wire = frame.data;
            let used: int = match pdu {
                PduView::SingleFrame { len, .. } => 1 + len,
                PduView::FirstFrame { .. } => 8,
                PduView::ConsecutiveFrame { data, .. } => 1 + data.len() as int,
                PduView::FlowControl { .. } => 3,
            };
            &&& frame.id == id
            &&& wire.len() == (if padding is Some {
                8
            } else {
                used
            })
            &&& forall|i: int| used <= i < wire.len() ==> Some(#[trigger] wire[i]) == padding
            &&& match pdu {
                PduView::SingleFrame { len, data } => {
                    &&& wire[0] == len
                    &&& forall|i: int| 0 <= i < len ==> #[trigger] data[i] == wire[1 + i]
                },
                PduView::FirstFrame { len, data } => {
                    &&& wire[0] / 16 == 1
                    &&& wire[0] % 16 * 256 + wire[1] == len
                    &&& forall|i: int| 0 <= i < 6 ==> #[trigger] data[i] == wire[2 + i]
                },
                PduView::ConsecutiveFrame { sn, data } => {
                    &&& wire[0] / 16 == 2
                    &&& wire[0] % 16 == sn
                    &&& forall|i: int| 0 <= i < data.len() ==> #[trigger] data[i] == wire[1 + i]
                },
                PduView::FlowControl { status, block_size, st_min } => {
                    &&& wire[0] == (match status {
                        FlowStatus::ClearToSend => 0x30,
                        FlowStatus::Wait => 0x31,
                        FlowStatus::Overflow => 0x32int,
                    })
                    &&& wire[1] == block_size
                    &&& wire[2] == st_min
                },
            }
        }),
{
}

/// What can be laid out in a frame: single frames of up to seven bytes, first frames of longer
/// payloads up to 4095 bytes with six of them, consecutive frames of one to seven bytes with a
/// four-bit number, and all flow control.
pub proof fn law_encodable(pdu: PduView)
    ensures
        pdu.encodable() <==> match pdu {
            PduView::SingleFrame { len, data } => len < 8 && data.len() == len,
            PduView::FirstFrame { len, data } => 8 <= len < 4096 && data.len() == 6,
            PduView::ConsecutiveFrame { sn, data } => sn < 16 && 0 < data.len() < 8,
            PduView::FlowControl { .. } => true,
        },
{
}

/// What is read out of the bytes of a frame, and when they are refused: without bytes or with more
/// than eight; a single frame longer than the frame; a first frame that is not full or announces a
/// payload that a single frame would hold; a consecutive frame without payload bytes; flow control
/// without all three bytes or with an unknown status; and all other kinds.
pub proof fn law_decoded(data: Seq<u8>)
    ensures
        ({
            let fits = 1 <= data.len() <= 8;
            let first = data[0] as int;
            match decoded(data) {
                Some(PduView::SingleFrame { len, data: body }) => {
                    &&& fits && first <= 7 && first < data.len()
                    &&& len == first
                    &&& body == data.subrange(1, 1 + first)
                },
                Some(PduView::FirstFrame { len, data: body }) => {
                    &&& data.len() == 8 && 0x10 <= first <= 0x1F
                    &&& len == (first - 0x10) * 256 + data[1]
                    &&& len >= 8
                    &&& body == data.subrange(2, 8)
                },
                Some(PduView::ConsecutiveFrame { sn, data: body }) => {
                    &&& fits && data.len() >= 2 && 0x20 <= first <= 0x2F
                    &&& sn == first - 0x20
                    &&& body == data.subrange(1, data.len() as int)
                },
                Some(PduView::FlowControl { status, block_size, st_min }) => {
                    &&& fits && data.len() >= 3
                    &&& first == (match status {
                        FlowStatus::ClearToSend => 0x30int,
                        FlowStatus::Wait => 0x31int,
                        FlowStatus::Overflow => 0x32int,
                    })
                    &&& block_size == data[1]
                    &&& st_min == data[2]
                },
                None => !(fits && ((first <= 7 && first < data.len()) || (data.len() == 8 && 0x10
                    <= first <= 0x1F && (first - 0x10) * 256 + data[1] >= 8) || (data.len() >= 2
                    && 0x20 <= first <= 0x2F) || (data.len() >= 3 && 0x30 <= first <= 0x32))),
            }
        }),
{
}

/// The separation times: a raw byte up to 127 counts milliseconds, one from 0xF1 to 0xF9 counts
/// hundreds of microseconds, and all others mean nothing. A time longer than 127 milliseconds is
/// written as 127 milliseconds, and none as zero.
pub proof fn law_st_min_values(raw: u8, nanos: int)
    ensures
        match st_min_span(raw) {
            Some(span) => (raw <= 127 && span@ == raw * 1_000_000) || (0xF1 <= raw <= 0xF9
                && span@ == (raw - 0xF0) * 100_000),
            None => 127 < raw < 0xF1 || raw > 0xF9,
        },
        nanos == 0 ==> st_min_code(nanos) == 0,
        nanos >= 127_000_000 ==> st_min_code(nanos) == 127,
{
    broadcast use Duration::lemma_view_of_nanos;

}

} // verus!
