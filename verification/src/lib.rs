//! Verified core of a blockchain full node.
//!
//! The crate holds the rules of the node's peer-to-peer layer (addresses, ban
//! scores, admission, eviction, framing) together with a few small pieces of
//! node logic that the networking code shares types with.  Every executable
//! function carries a contract that Verus proves.

pub mod chainstate;
pub mod epoch_data;
pub mod feerate;
pub mod gui;
pub mod node_config;
pub mod p2p;
pub mod pos_accounting;
pub mod primitives;
pub mod rpc_description;
pub mod rpc_indentation;
pub mod strings;
pub mod tokens;
pub mod vrf_transcript;
pub mod wallet_types;
