//! The wire form of a peer's address.
//!
//! On the wire an address is one tag byte (0 for IPv4, 1 for IPv6), the bytes
//! of the IP address and the two bytes of the port, integers in little-endian
//! order: 7 bytes for IPv4 and 19 for IPv6.

use vstd::prelude::*;
use vstd::bytes::*;
use vstd::slice::*;
use crate::p2p::socket_address::{IpAddress, SocketAddress};
use crate::primitives::DecodeError;

verus! {

/// An address as it is gossiped between peers.
#[derive(Clone, Copy, Debug, PartialEq, Eq, PartialOrd, Ord, Hash, Structural)]
pub struct PeerAddress {
    pub ip: IpAddress,
    pub port: u16,
}

/// Tag byte of an IPv4 address.
pub open spec fn tag_v4() -> u8 {
    0
}

/// Tag byte of an IPv6 address.
pub open spec fn tag_v6() -> u8 {
    1
}

/// The wire form of an IP address: the tag and the address bytes.
pub open spec fn ip_encoding(ip: IpAddress) -> Seq<u8> {
    match ip {
        IpAddress::V4(v) => seq![tag_v4()] + spec_u32_to_le_bytes(v),
        IpAddress::V6(v) => seq![tag_v6()] + spec_u128_to_le_bytes(v),
    }
}

/// Number of bytes that follow the tag of an IP address, if the tag is known.
pub open spec fn ip_payload_len(tag: u8) -> Option<nat> {
    if tag == tag_v4() {
        Some(4)
    } else if tag == tag_v6() {
        Some(16)
    } else {
        None
    }
}

/// Reads an IP address from a tag and the bytes that follow it.
pub open spec fn ip_decoding(tag: u8, payload: Seq<u8>) -> IpAddress
    recommends
        ip_payload_len(tag) == Some(payload.len()),
{
    if tag == tag_v4() {
        IpAddress::V4(spec_u32_from_le_bytes(payload))
    } else {
        IpAddress::V6(spec_u128_from_le_bytes(payload))
    }
}

impl PeerAddress {
    /// The socket address that this wire address names.
    pub open spec fn spec_socket_address(&self) -> SocketAddress {
        SocketAddress { ip: self.ip, port: self.port }
    }

    /// The wire form of this address.
    pub open spec fn encoding(self) -> Seq<u8> {
        ip_encoding(self.ip) + spec_u16_to_le_bytes(self.port)
    }

    /// What a sequence of bytes decodes to.
    pub open spec fn decoding(bytes: Seq<u8>) -> Result<PeerAddress, DecodeError> {
        if bytes.len() == 0 {
            Err(DecodeError::Empty)
        } else {
            match ip_payload_len(bytes[0]) {
                None => Err(DecodeError::UnknownTag(bytes[0])),
                Some(n) => {
                    if bytes.len() != 1 + n + 2 {
                        Err(DecodeError::WrongLength { expected: (1 + n + 2) as usize, actual: bytes.len() as usize })
                    } else {
                        Ok(
                            PeerAddress {
                                ip: ip_decoding(bytes[0], bytes.subrange(1, 1 + n as int)),
                                port: spec_u16_from_le_bytes(bytes.subrange(1 + n as int, 3 + n as int)),
                            },
                        )
                    }
                },
            }
        }
    }

    #[verifier::when_used_as_spec(spec_socket_address)]
    pub fn socket_address(&self) -> (address: SocketAddress)
        ensures
            address == self.spec_socket_address(),
    {
        SocketAddress::new(self.ip, self.port)
    }

    /// Serializes this address.
    pub fn encode(&self) -> (bytes: Vec<u8>)
        ensures
            bytes@ == self.encoding(),
    {
        let mut bytes: Vec<u8> = Vec::new();
        match self.ip {
            IpAddress::V4(v) => {
                bytes.push(0u8);
                let mut ip = u32_to_le_bytes(v);
                bytes.append(&mut ip);
            },
            IpAddress::V6(v) => {
                bytes.push(1u8);
                let mut ip = u128_to_le_bytes(v);
                bytes.append(&mut ip);
            },
        }
        assert(bytes@ =~= ip_encoding(self.ip));
        let mut port = u16_to_le_bytes(self.port);
        bytes.append(&mut port);
        bytes
    }

    /// Reads an address from its wire form.  The input must hold the address
    /// and nothing else.
    pub fn decode(bytes: &[u8]) -> (result: Result<PeerAddress, DecodeError>)
        ensures
            result == Self::decoding(bytes@),
    {
        if bytes.len() == 0 {
            return Err(DecodeError::Empty);
        }
        let tag = bytes[0];
        if tag == 0u8 {
            if bytes.len() != 7 {
                return Err(DecodeError::WrongLength { expected: 7, actual: bytes.len() });
            }
            let ip = u32_from_le_bytes(slice_subrange(bytes, 1, 5));
            let port = u16_from_le_bytes(slice_subrange(bytes, 5, 7));
            Ok(PeerAddress { ip: IpAddress::V4(ip), port })
        } else if tag == 1u8 {
            if bytes.len() != 19 {
                return Err(DecodeError::WrongLength { expected: 19, actual: bytes.len() });
            }
            let ip = u128_from_le_bytes(slice_subrange(bytes, 1, 17));
            let port = u16_from_le_bytes(slice_subrange(bytes, 17, 19));
            Ok(PeerAddress { ip: IpAddress::V6(ip), port })
        } else {
            Err(DecodeError::UnknownTag(tag))
        }
    }
}

/// Decoding the wire form of an address gives the address back.
pub proof fn lemma_peer_address_roundtrip(address: PeerAddress)
    ensures
        PeerAddress::decoding(address.encoding()) == Ok::<PeerAddress, DecodeError>(address),
{
    lemma_auto_spec_u16_to_from_le_bytes();
    lemma_auto_spec_u32_to_from_le_bytes();
    lemma_auto_spec_u128_to_from_le_bytes();
    let bytes = address.encoding();
    match address.ip {
        IpAddress::V4(v) => {
            assert(bytes.subrange(1, 5) =~= spec_u32_to_le_bytes(v));
            assert(bytes.subrange(5, 7) =~= spec_u16_to_le_bytes(address.port));
        },
        IpAddress::V6(v) => {
            assert(bytes.subrange(1, 17) =~= spec_u128_to_le_bytes(v));
            assert(bytes.subrange(17, 19) =~= spec_u16_to_le_bytes(address.port));
        },
    }
}

/// Whatever decodes to an address is the wire form of that address: no two
/// byte sequences stand for one address.
pub proof fn lemma_peer_address_decoding_is_exact(bytes: Seq<u8>)
    ensures
        match PeerAddress::decoding(bytes) {
            Ok(address) => address.encoding() == bytes,
            Err(_) => forall|address: PeerAddress| address.encoding() != bytes,
        },
{
    lemma_auto_spec_u16_to_from_le_bytes();
    lemma_auto_spec_u32_to_from_le_bytes();
    lemma_auto_spec_u128_to_from_le_bytes();
    match PeerAddress::decoding(bytes) {
        Ok(address) => {
            let n = ip_payload_len(bytes[0])->0 as int;
            let payload = bytes.subrange(1, 1 + n);
            let port = bytes.subrange(1 + n, 3 + n);
            assert(address.encoding() =~= seq![bytes[0]] + payload + port);
            assert(bytes =~= seq![bytes[0]] + payload + port);
        },
        Err(_) => {
            assert forall|address: PeerAddress| address.encoding() != bytes by {
                if address.encoding() == bytes {
                    lemma_peer_address_roundtrip(address);
                }
            }
        },
    }
}

/// A socket address survives the trip through its wire form.
pub proof fn lemma_socket_address_roundtrip(address: SocketAddress)
    ensures
        PeerAddress::decoding(address.as_peer_address().encoding()) matches Ok(decoded)
            && decoded.socket_address() == address,
{
    lemma_peer_address_roundtrip(address.as_peer_address());
}

} // verus!
