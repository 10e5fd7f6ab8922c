//! Decoder for the telemetry stream of an EMU-2-class energy meter bridge.
//!
//! The device writes concatenated XML-like fragments over a serial link,
//! one fragment per metering event, with numeric fields encoded as
//! `0x`-prefixed hexadecimal text. This crate accumulates raw bytes into
//! batches, parses a batch into fragments, and decodes each fragment into
//! a typed event ready to be turned into a time-series point.

pub mod accumulator;
pub mod hex;
pub mod laws;
pub mod decode;
pub mod parse;
pub mod point;
pub mod text;
pub mod types;

pub use crate::accumulator::FrameAccumulator;
pub use crate::decode::decode;
pub use crate::decode::decode_text;
pub use crate::decode::DecodeError;
pub use crate::hex::from_hex;
pub use crate::hex::from_hex_bool;
pub use crate::hex::from_hex_string;
pub use crate::hex::to_hex;
pub use crate::point::to_point;
pub use crate::point::MeteringPoint;
pub use crate::types::Base;
pub use crate::types::InstantaneousDemand;
pub use crate::types::Message;
pub use crate::types::PriceCluster;
