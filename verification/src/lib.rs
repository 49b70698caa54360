//! On-vehicle fare-collection gateway core: the card-data and wire
//! codecs, the byte-stream frame reassembler, the caches, the fare
//! rules and the per-tap decision engine.
//!
//! Everything here is pure computation over plain values; the serial
//! port, the network and the clock live outside and hand values in.

pub mod api;
pub mod cache;
pub mod card_data;
pub mod fare;
pub mod frame;
pub mod model;
pub mod net;
pub mod serial;
pub mod serial_io;
pub mod state;
pub mod upload;
pub mod web;
pub mod strutil;
pub mod wire;
