//! Network addresses of peers.
//!
//! A [`SocketAddress`] is an IP address with a port.  Bans and discouragement
//! are keyed by the [`BannableAddress`], which is the IP address alone: a peer
//! cannot escape a ban by connecting from another port.

use vstd::prelude::*;
use crate::p2p::peer_address::PeerAddress;

verus! {

/// An IPv4 or IPv6 address, as the number that its bytes spell in network order.
#[derive(Clone, Copy, Debug, PartialEq, Eq, PartialOrd, Ord, Hash, Structural)]
pub enum IpAddress {
    V4(u32),
    V6(u128),
}

/// The part of the network that an address lies in.  Peers of one group are
/// likely to be run by one party.
#[derive(Clone, Copy, Debug, PartialEq, Eq, PartialOrd, Ord, Hash, Structural)]
pub enum AddressGroup {
    /// The first two bytes of an IPv4 address.
    V4(u16),
    /// The first four bytes of an IPv6 address.
    V6(u32),
}

impl IpAddress {
    /// The group of this address: its leading 16 bits (IPv4) or 32 bits (IPv6).
    pub open spec fn spec_group(&self) -> AddressGroup {
        match *self {
            IpAddress::V4(ip) => AddressGroup::V4((ip / 0x1_0000) as u16),
            IpAddress::V6(ip) => AddressGroup::V6((ip / 0x1_0000_0000_0000_0000_0000_0000) as u32),
        }
    }

    #[verifier::when_used_as_spec(spec_group)]
    pub fn group(&self) -> (group: AddressGroup)
        ensures
            group == self.spec_group(),
    {
        match self {
            IpAddress::V4(ip) => {
                let top: u32 = *ip / 0x1_0000;
                AddressGroup::V4(top as u16)
            },
            IpAddress::V6(ip) => {
                let top: u128 = *ip / 0x1_0000_0000_0000_0000_0000_0000;
                AddressGroup::V6(top as u32)
            },
        }
    }
}

/// The key under which bans and discouragement are recorded: an IP address
/// without a port.
#[derive(Clone, Copy, Debug, PartialEq, Eq, PartialOrd, Ord, Hash, Structural)]
pub struct BannableAddress {
    pub ip: IpAddress,
}

impl BannableAddress {
    pub fn new(ip: IpAddress) -> (address: Self)
        ensures
            address.ip == ip,
    {
        BannableAddress { ip }
    }

    pub fn ip_addr(&self) -> (ip: IpAddress)
        ensures
            ip == self.ip,
    {
        self.ip
    }
}

/// An IP address and a port.
#[derive(Clone, Copy, Debug, PartialEq, Eq, PartialOrd, Ord, Hash, Structural)]
pub struct SocketAddress {
    pub ip: IpAddress,
    pub port: u16,
}

impl SocketAddress {
    /// The ban key of this address.
    pub open spec fn spec_as_bannable(&self) -> BannableAddress {
        BannableAddress { ip: self.ip }
    }

    /// The form in which this address is sent to other peers.
    pub open spec fn spec_as_peer_address(&self) -> PeerAddress {
        PeerAddress { ip: self.ip, port: self.port }
    }

    pub fn new(ip: IpAddress, port: u16) -> (address: Self)
        ensures
            address == (SocketAddress { ip, port }),
    {
        SocketAddress { ip, port }
    }

    /// The address and the port.
    pub fn socket_addr(&self) -> (pair: (IpAddress, u16))
        ensures
            pair == (self.ip, self.port),
    {
        (self.ip, self.port)
    }

    pub fn ip_addr(&self) -> (ip: IpAddress)
        ensures
            ip == self.ip,
    {
        self.ip
    }

    pub fn port(&self) -> (port: u16)
        ensures
            port == self.port,
    {
        self.port
    }

    #[verifier::when_used_as_spec(spec_as_bannable)]
    pub fn as_bannable(&self) -> (key: BannableAddress)
        ensures
            key == self.spec_as_bannable(),
    {
        BannableAddress::new(self.ip)
    }

    #[verifier::when_used_as_spec(spec_as_peer_address)]
    pub fn as_peer_address(&self) -> (address: PeerAddress)
        ensures
            address == self.spec_as_peer_address(),
    {
        PeerAddress { ip: self.ip, port: self.port }
    }
}

/// Two sockets on one IP address share one ban key, whatever their ports.
pub proof fn lemma_bannable_address_ignores_port(ip: IpAddress, port1: u16, port2: u16)
    ensures
        (SocketAddress { ip, port: port1 }).as_bannable() == (SocketAddress { ip, port: port2 }).as_bannable(),
{
}

/// The ban keys of two sockets are equal exactly when their IP addresses are.
pub proof fn lemma_bannable_address_is_the_ip(a: SocketAddress, b: SocketAddress)
    ensures
        (a.as_bannable() == b.as_bannable()) == (a.ip == b.ip),
{
}

} // verus!
