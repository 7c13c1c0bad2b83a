//! ISO-TP configuration container.

use crate::id::{Id, StandardId};
use crate::time::Duration;
use vstd::prelude::*;

verus! {

/// The longest payload that the 12-bit length field of a first frame can announce.
pub const MAX_PAYLOAD: usize = 4095;

/// Configuration for an ISO-TP node.
#[derive(Debug, Clone)]
pub struct IsoTpConfig {
    /// CAN identifier used when transmitting ISO-TP PDUs.
    pub tx_id: Id,
    /// CAN identifier expected when receiving ISO-TP PDUs.
    pub rx_id: Id,
    /// Address byte that extended and mixed addressing give to transmitted frames. A record of the
    /// addressing scheme: the nodes' own framing does not insert it.
    pub tx_addr: Option<u8>,
    /// Address byte that extended and mixed addressing give to received frames. A record of the
    /// addressing scheme: the nodes' own framing does not look for it.
    pub rx_addr: Option<u8>,
    /// Number of consecutive frames allowed before requesting a new flow control (0 = unlimited).
    pub block_size: u8,
    /// Minimum separation time enforced between consecutive frames.
    pub st_min: Duration,
    /// Maximum number of FlowControl::Wait responses accepted before failing.
    pub wft_max: u8,
    /// Optional padding byte for transmitted frames (None = no padding).
    pub padding: Option<u8>,
    /// Maximum application payload length accepted.
    pub max_payload_len: usize,
    /// Length of the receive buffer.
    pub rx_buffer_len: usize,
    /// Timeout waiting for transmit availability.
    pub n_as: Duration,
    /// Timeout waiting for receive availability.
    pub n_ar: Duration,
    /// Timeout waiting for flow control after First Frame.
    pub n_bs: Duration,
    /// Timeout waiting for Consecutive Frame while receiving.
    pub n_br: Duration,
    /// Timeout between consecutive frame transmissions.
    pub n_cs: Duration,
}

impl IsoTpConfig {
    /// The limits are usable and the two directions have different identifiers.
    pub open spec fn valid(&self) -> bool {
        &&& 1 <= self.max_payload_len <= MAX_PAYLOAD
        &&& self.max_payload_len <= self.rx_buffer_len
        &&& self.tx_id != self.rx_id
    }

    /// The baseline configuration with the given addressing.
    pub open spec fn baseline(
        tx_id: Id,
        rx_id: Id,
        tx_addr: Option<u8>,
        rx_addr: Option<u8>,
    ) -> IsoTpConfig {
        IsoTpConfig {
            tx_id,
            rx_id,
            tx_addr,
            rx_addr,
            block_size: 0,
            st_min: Duration::of_millis(0),
            wft_max: 0,
            padding: None,
            max_payload_len: 4095,
            rx_buffer_len: 4095,
            n_as: Duration::of_millis(1000),
            n_ar: Duration::of_millis(1000),
            n_bs: Duration::of_millis(1000),
            n_br: Duration::of_millis(1000),
            n_cs: Duration::of_millis(1000),
        }
    }

    /// A node can be made with this configuration and the given number of bytes from its caller, or
    /// with memory of its own.
    pub open spec fn accepts_buffer(&self, room: Option<nat>) -> bool {
        self.valid() && (room matches Some(len) ==> self.rx_buffer_len <= len)
    }

    /// The default configuration.
    pub open spec fn spec_default() -> IsoTpConfig {
        let zero = Id::Standard(StandardId::of(0));
        IsoTpConfig::baseline(zero, zero, None, None)
    }

    /// Reject invalid limits or mirrored IDs.
    pub fn validate(&self) -> (r: Result<(), ()>)
        ensures
            r == (if self.valid() { Ok::<(), ()>(()) } else { Err(()) }),
    {
        if self.max_payload_len == 0 || self.max_payload_len > 4095 {
            return Err(());
        }
        if self.rx_buffer_len < self.max_payload_len {
            return Err(());
        }
        if self.tx_id == self.rx_id {
            return Err(());
        }
        Ok(())
    }
}

impl Default for IsoTpConfig {
    /// Baseline config with zeroed IDs and 4 KB payload limits.
    fn default() -> (r: IsoTpConfig)
        ensures
            r == IsoTpConfig::baseline(
                Id::Standard(StandardId::of(0)),
                Id::Standard(StandardId::of(0)),
                None,
                None,
            ),
            r == IsoTpConfig::spec_default(),
    {
        let zero = StandardId::new(0).unwrap();
        IsoTpConfig {
            tx_id: Id::Standard(zero),
            rx_id: Id::Standard(zero),
            tx_addr: None,
            rx_addr: None,
            block_size: 0,
            st_min: Duration::from_millis(0),
            wft_max: 0,
            padding: None,
            max_payload_len: 4095,
            rx_buffer_len: 4095,
            n_as: Duration::from_millis(1000),
            n_ar: Duration::from_millis(1000),
            n_bs: Duration::from_millis(1000),
            n_br: Duration::from_millis(1000),
            n_cs: Duration::from_millis(1000),
        }
    }
}

/// A configuration is accepted exactly when some payload is allowed, the longest allowed payload can
/// be announced in a first frame and fits the receive buffer, and the node does not listen to its
/// own frames.
pub proof fn law_valid_config(cfg: IsoTpConfig)
    ensures
        cfg.valid() <==> cfg.max_payload_len > 0 && cfg.max_payload_len < 4096
            && cfg.max_payload_len <= cfg.rx_buffer_len && cfg.tx_id != cfg.rx_id,
{
}

/// The baseline values, whatever the addressing: both identifiers and address bytes as given, payloads
/// and a buffer of 4095 bytes, no blocks, no separation time, no waiting, no padding, and one second
/// for every timer. The default configuration has zero identifiers and is therefore not valid as it
/// is.
pub proof fn law_baseline(tx_id: Id, rx_id: Id, tx_addr: Option<u8>, rx_addr: Option<u8>)
    ensures
        ({
            let cfg = IsoTpConfig::baseline(tx_id, rx_id, tx_addr, rx_addr);
            &&& cfg.tx_id == tx_id && cfg.rx_id == rx_id
            &&& cfg.tx_addr == tx_addr && cfg.rx_addr == rx_addr
            &&& cfg.block_size == 0 && cfg.wft_max == 0 && cfg.padding is None
            &&& cfg.max_payload_len == 4095 && cfg.rx_buffer_len == 4095
            &&& cfg.st_min@ == 0
            &&& cfg.n_as@ == 1_000_000_000 && cfg.n_ar@ == 1_000_000_000
            &&& cfg.n_bs@ == 1_000_000_000 && cfg.n_br@ == 1_000_000_000
            &&& cfg.n_cs@ == 1_000_000_000
        }),
        ({
            let cfg = IsoTpConfig::spec_default();
            &&& cfg.tx_id == cfg.rx_id && !cfg.valid()
            &&& cfg.tx_id matches Id::Standard(id) && id@ == 0
            &&& cfg.tx_addr is None && cfg.rx_addr is None
        }),
{
    broadcast use Duration::lemma_view_of_nanos;
    broadcast use StandardId::lemma_of;

}

/// A node can be made exactly with a valid configuration and, where the caller provides the memory,
/// with at least as much as the configuration says: more never hurts, and with memory of its own
/// only the configuration matters.
pub proof fn law_accepted_buffers(cfg: IsoTpConfig, room: nat, more: nat)
    ensures
        cfg.accepts_buffer(Some(room)) <==> cfg.accepts_buffer(None) && room >= cfg.rx_buffer_len,
        cfg.accepts_buffer(None) <==> cfg.valid(),
        cfg.accepts_buffer(Some(room)) ==> cfg.accepts_buffer(Some(room + more)),
        cfg.accepts_buffer(Some(room)) ==> room >= cfg.max_payload_len,
{
}

} // verus!
