//! Decision logic of an obfuscated RPC transport.
//!
//! The transport carries RPC envelopes over an encrypted stream or over
//! datagrams, shaped to look like something else. This library holds what the
//! transport decides: state machines that are told what happened and answer
//! what to do next, and the byte formats on the way. Sockets, timers, Noise
//! and shaping are the caller's.

pub mod bytes;
pub mod client;
pub mod envelope;
pub mod error;
pub mod framing;
pub mod gate;
pub mod handshake_io;
pub mod proxy;
pub mod random;
pub mod server;
pub mod table;
pub mod text;
pub mod udp;

pub use envelope::Envelope;
pub use error::ObfsError;
pub use gate::{AllowAll, KeyAllowList, TransportGate};
pub use udp::cookie_gate::{AlwaysOpen, AlwaysUnderLoad, LoadGate, Threshold};
