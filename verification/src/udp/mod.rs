//! Datagram substrate: handshake with retransmission and cookie gating,
//! sealed records, and the server's table of peers.

pub mod client;
pub mod cookie_gate;
pub mod cookie_jar;
pub mod dataplane;
pub mod exchange;
pub mod handshake;
pub mod initiator;
pub mod keys;
pub mod peer;
pub mod server;
pub mod wire_dgram;
