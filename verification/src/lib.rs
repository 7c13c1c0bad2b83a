//! ISO-TP transport for CAN.
//!
//! A payload of up to 4095 bytes is cut into CAN frames of at most eight bytes and put together
//! again, with flow control between the two ends. This crate holds the decisions: addressing,
//! frame layout, segmentation, reassembly, flow control and timing. It does no input or output.
//! Whoever drives a node talks to the CAN link and to the clock, and hands the node plain values.

pub mod address;
pub mod async_io;
pub mod async_node;
pub mod config;
pub mod errors;
pub mod flow;
pub mod id;
pub mod laws;
pub mod link;
pub mod node;
pub mod pdu;
pub mod receiving;
pub mod reception;
pub mod runs;
pub mod rx;
pub mod sending;
pub mod time;
pub mod timing;
pub mod tx;

pub use address::{AsymmetricAddress, IsoTpAddress, RxAddress, TargetAddressType, TxAddress};
pub use async_io::TimedOut;
pub use async_node::IsoTpAsyncNode;
pub use config::IsoTpConfig;
pub use errors::{IsoTpError, TimeoutKind};
pub use id::{CanId, ExtendedId, Id, StandardId};
pub use node::IsoTpNode;
pub use pdu::CanFrame;
pub use time::Duration;
pub use tx::Progress;
