//! The settings of the peer-to-peer layer.

use vstd::prelude::*;
use crate::p2p::eviction::EvictionConfig;
use crate::p2p::types::{MagicBytes, PeerRole, ProtocolVersion, Services};

verus! {

/// What the operator and the chain fix for the peer manager.
#[derive(Clone, Copy, Debug, PartialEq, Eq, Structural)]
pub struct P2pConfig {
    /// The network that this node belongs to.
    pub our_network: MagicBytes,
    /// The oldest protocol version that is still spoken.
    pub min_protocol_version: ProtocolVersion,
    /// The services that this node offers and understands.
    pub our_services: Services,
    /// The services that a peer must share with us before we keep an
    /// outbound connection to it.
    pub required_outbound_services: Services,
    /// How far, in seconds, a peer's clock may be from ours.
    pub max_clock_diff: u64,
    /// Number of slots for peers that connect to us.
    pub max_inbound_connections: usize,
    /// Number of outbound connections that the node tries to keep.
    pub outbound_target: usize,
    /// Score at which a peer is banned.
    pub ban_threshold: u32,
    /// Length of a ban, in seconds.
    pub ban_duration: u64,
    /// Score at which a peer is discouraged.
    pub discouragement_threshold: u32,
    /// Length of a discouragement, in seconds.
    pub discouragement_duration: u64,
    /// Time, in seconds, that a peer has to answer a ping.
    pub ping_timeout: u64,
    /// Largest number of addresses in one address message, sent or received.
    pub max_address_count: usize,
    /// Delay, in seconds, after the first failed attempt to connect.
    pub dial_backoff_base: u64,
    /// Longest delay, in seconds, between attempts to connect.
    pub dial_backoff_cap: u64,
    /// Quotas of the eviction policy.
    pub eviction: EvictionConfig,
}

impl P2pConfig {
    /// The services that a connection in the given role needs.  Outbound
    /// connections are made for the sake of the peer's services; peers that
    /// connect to us, and feelers, need none.
    pub open spec fn spec_needed_services(&self, role: PeerRole) -> Services {
        match role {
            PeerRole::Inbound => Services { bits: 0 },
            PeerRole::Feeler => Services { bits: 0 },
            _ => self.required_outbound_services,
        }
    }

    #[verifier::when_used_as_spec(spec_needed_services)]
    pub fn needed_services(&self, role: PeerRole) -> (needed: Services)
        ensures
            needed == self.spec_needed_services(role),
    {
        match role {
            PeerRole::Inbound => Services { bits: 0 },
            PeerRole::Feeler => Services { bits: 0 },
            _ => self.required_outbound_services,
        }
    }
}

} // verus!
