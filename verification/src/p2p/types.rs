//! Identity, role and capabilities of a connected peer.

use vstd::prelude::*;

verus! {

/// Handle of a live connection.  It is local to this process, names no
/// cryptographic identity, and is only a key into the tables of the node.
#[derive(Clone, Copy, Debug, PartialEq, Eq, PartialOrd, Ord, Hash, Structural)]
pub struct PeerId {
    pub id: u64,
}

impl PeerId {
    pub fn from_u64(id: u64) -> (peer: Self)
        ensures
            peer.id == id,
    {
        PeerId { id }
    }

    pub fn as_u64(&self) -> (id: u64)
        ensures
            id == self.id,
    {
        self.id
    }
}

/// Why a connection exists and which slots it counts against.
#[derive(Clone, Copy, Debug, PartialEq, Eq, Structural)]
pub enum PeerRole {
    /// The peer connected to us.
    Inbound,
    /// We connected to an address taken from the address book.
    Outbound,
    /// We connected to an address that the configuration reserves.
    OutboundReserved,
    /// We connected because the operator asked for it.
    OutboundManual,
    /// A short-lived connection that only tests whether an address is alive.
    Feeler,
}

impl PeerRole {
    /// Whether the peer connected to us.
    pub open spec fn spec_is_inbound(&self) -> bool {
        *self == PeerRole::Inbound
    }

    /// Whether the operator asked for this peer, by configuration or by hand.
    /// Such peers are never evicted or banned and have slots of their own.
    pub open spec fn spec_is_protected(&self) -> bool {
        *self == PeerRole::OutboundReserved || *self == PeerRole::OutboundManual
    }

    /// Whether the connection counts against the automatic outbound slots.
    pub open spec fn spec_is_automatic_outbound(&self) -> bool {
        *self == PeerRole::Outbound
    }

    #[verifier::when_used_as_spec(spec_is_inbound)]
    pub fn is_inbound(&self) -> (b: bool)
        ensures
            b == self.spec_is_inbound(),
    {
        match self {
            PeerRole::Inbound => true,
            _ => false,
        }
    }

    #[verifier::when_used_as_spec(spec_is_protected)]
    pub fn is_protected(&self) -> (b: bool)
        ensures
            b == self.spec_is_protected(),
    {
        match self {
            PeerRole::OutboundReserved => true,
            PeerRole::OutboundManual => true,
            _ => false,
        }
    }

    #[verifier::when_used_as_spec(spec_is_automatic_outbound)]
    pub fn is_automatic_outbound(&self) -> (b: bool)
        ensures
            b == self.spec_is_automatic_outbound(),
    {
        match self {
            PeerRole::Outbound => true,
            _ => false,
        }
    }
}

/// Version of the wire protocol that a peer speaks.
#[derive(Clone, Copy, Debug, PartialEq, Eq, PartialOrd, Ord, Structural)]
pub struct ProtocolVersion {
    pub version: u32,
}

impl ProtocolVersion {
    pub fn new(version: u32) -> (v: Self)
        ensures
            v.version == version,
    {
        ProtocolVersion { version }
    }
}

/// The four bytes that open every message of one network.
#[derive(Clone, Copy, Debug, PartialEq, Eq, Structural)]
pub struct MagicBytes {
    pub bytes: u32,
}

impl MagicBytes {
    pub fn new(bytes: u32) -> (m: Self)
        ensures
            m.bytes == bytes,
    {
        MagicBytes { bytes }
    }
}

/// A set of services, one bit for each.
#[derive(Clone, Copy, Debug, PartialEq, Eq, Structural)]
pub struct Services {
    pub bits: u64,
}

impl Services {
    /// The services that both sets hold.
    pub open spec fn spec_intersection(&self, other: &Services) -> Services {
        Services { bits: self.bits & other.bits }
    }

    /// Whether the set holds nothing.
    pub open spec fn spec_is_empty(&self) -> bool {
        self.bits == 0
    }

    /// Whether every service of `needed` is in this set.
    pub open spec fn spec_has_all(&self, needed: &Services) -> bool {
        self.bits & needed.bits == needed.bits
    }

    pub fn from_u64(bits: u64) -> (s: Self)
        ensures
            s.bits == bits,
    {
        Services { bits }
    }

    #[verifier::when_used_as_spec(spec_intersection)]
    pub fn intersection(&self, other: &Services) -> (common: Services)
        ensures
            common == self.spec_intersection(other),
    {
        Services { bits: self.bits & other.bits }
    }

    #[verifier::when_used_as_spec(spec_is_empty)]
    pub fn is_empty(&self) -> (b: bool)
        ensures
            b == self.spec_is_empty(),
    {
        self.bits == 0
    }

    #[verifier::when_used_as_spec(spec_has_all)]
    pub fn has_all(&self, needed: &Services) -> (b: bool)
        ensures
            b == self.spec_has_all(needed),
    {
        self.bits & needed.bits == needed.bits
    }
}

/// Version of the layout in which the peer database is stored.
#[derive(Clone, Copy, Debug, PartialEq, Eq, Structural)]
pub struct StorageVersion {
    pub version: u32,
}

} // verus!
