//! What a sender makes of the frames that arrive while it waits for flow control.

use crate::config::IsoTpConfig;
use crate::id::{id_matches, Id};
use crate::pdu::{decode, decoded, st_min_span, st_min_to_duration, FlowStatus, Pdu, PduView};
use crate::time::Duration;
use vstd::prelude::*;

verus! {

/// What a frame means to a sender that waits for flow control.
#[derive(Debug, Clone, Copy, PartialEq, Eq, Structural)]
pub enum FlowVerdict {
    /// Not a flow control frame for this node.
    Ignore,
    /// For this node, but not well-formed.
    Invalid,
    /// Go on, with this block size and separation time.
    Proceed { block_size: u8, st_min: Duration },
    /// Wait for another one.
    Hold,
    /// The receiver cannot take the payload.
    Abort,
}

/// The meaning of a frame for the sender `cfg`. A block size of zero stands for the sender's own,
/// a reserved separation time too.
pub open spec fn flow_verdict(cfg: IsoTpConfig, id: Id, data: Seq<u8>) -> FlowVerdict {
    if id != cfg.rx_id {
        FlowVerdict::Ignore
    } else {
        match decoded(data) {
            None => FlowVerdict::Invalid,
            Some(PduView::FlowControl { status, block_size, st_min }) => match status {
                FlowStatus::ClearToSend => FlowVerdict::Proceed {
                    block_size: if block_size == 0 {
                        cfg.block_size
                    } else {
                        block_size
                    },
                    st_min: match st_min_span(st_min) {
                        Some(span) => span,
                        None => cfg.st_min,
                    },
                },
                FlowStatus::Wait => FlowVerdict::Hold,
                FlowStatus::Overflow => FlowVerdict::Abort,
            },
            Some(_) => FlowVerdict::Ignore,
        }
    }
}

/// Find out what a frame means to the sender `cfg`.
pub fn judge(cfg: &IsoTpConfig, id: Id, data: &[u8]) -> (r: FlowVerdict)
    ensures
        r == flow_verdict(*cfg, id, data@),
{
    if !id_matches(id, &cfg.rx_id) {
        return FlowVerdict::Ignore;
    }
    match decode(data) {
        Err(()) => FlowVerdict::Invalid,
        Ok(Pdu::FlowControl { status, block_size, st_min }) => match status {
            FlowStatus::ClearToSend => {
                let bs: u8 = if block_size == 0 {
                    cfg.block_size
                } else {
                    block_size
                };
                let span = match st_min_to_duration(st_min) {
                    Some(span) => span,
                    None => cfg.st_min,
                };
                FlowVerdict::Proceed { block_size: bs, st_min: span }
            },
            FlowStatus::Wait => FlowVerdict::Hold,
            FlowStatus::Overflow => FlowVerdict::Abort,
        },
        Ok(_) => FlowVerdict::Ignore,
    }
}

/// What the bytes of a frame tell a sender that waits for flow control. Of the frames with its
/// identifier, 30 is the go-ahead, with the block size in the second byte and the separation time in
/// the third, where zero and a reserved value leave it to the sender's own; 31 asks to wait and 32
/// turns the payload down. Other well-formed frames, and all with another identifier, tell it
/// nothing, and only those that are not well-formed are invalid.
pub proof fn law_flow_control_bytes(cfg: IsoTpConfig, id: Id, data: Seq<u8>)
    ensures
        id != cfg.rx_id ==> flow_verdict(cfg, id, data) == FlowVerdict::Ignore,
        id == cfg.rx_id && 3 <= data.len() <= 8 ==> {
            &&& data[0] == 0x31 ==> flow_verdict(cfg, id, data) == FlowVerdict::Hold
            &&& data[0] == 0x32 ==> flow_verdict(cfg, id, data) == FlowVerdict::Abort
            &&& data[0] == 0x30 ==> {
                &&& flow_verdict(cfg, id, data) matches FlowVerdict::Proceed { block_size, st_min }
                &&& block_size == (if data[1] > 0 {
                    data[1]
                } else {
                    cfg.block_size
                })
                &&& if data[2] <= 0x7F {
                    st_min@ == data[2] * 1_000_000
                } else if 0xF1 <= data[2] <= 0xF9 {
                    st_min@ == (data[2] - 0xF0) * 100_000
                } else {
                    st_min == cfg.st_min
                }
            }
        },
        id == cfg.rx_id ==> match flow_verdict(cfg, id, data) {
            FlowVerdict::Ignore => decoded(data) is Some && !(decoded(data)->0 is FlowControl),
            FlowVerdict::Invalid => decoded(data) is None,
            FlowVerdict::Proceed { .. } => 3 <= data.len() <= 8 && data[0] == 0x30,
            FlowVerdict::Hold => 3 <= data.len() <= 8 && data[0] == 0x31,
            FlowVerdict::Abort => 3 <= data.len() <= 8 && data[0] == 0x32,
        },
{
    broadcast use Duration::lemma_view_of_nanos;

}

} // verus!
