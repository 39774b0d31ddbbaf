//! The peer-to-peer layer: who a peer is, when it is admitted, scored, banned
//! or evicted, and how messages are framed on the wire.

pub mod ban_table;
pub mod config;
pub mod connectivity;
pub mod error;
pub mod eviction;
pub mod framing;
pub mod laws;
pub mod peer_address;
pub mod peer_events;
pub mod peer_manager;
pub mod peerdb;
pub mod sampling;
pub mod socket_address;
pub mod sync;
pub mod transport;
pub mod types;
