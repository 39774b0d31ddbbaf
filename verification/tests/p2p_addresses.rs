use node_core::p2p::ban_table::{BanRecord, BanTable};
use node_core::p2p::peer_address::PeerAddress;
use node_core::p2p::socket_address::{AddressGroup, BannableAddress, IpAddress, SocketAddress};
use node_core::primitives::{DecodeError, Time};

fn v4(a: u8, b: u8, c: u8, d: u8) -> IpAddress {
    IpAddress::V4(u32::from_be_bytes([a, b, c, d]))
}

#[test]
fn bannable_address_ignores_the_port() {
    let a = SocketAddress::new(v4(10, 0, 0, 1), 3031);
    let b = SocketAddress::new(v4(10, 0, 0, 1), 40000);
    let c = SocketAddress::new(v4(10, 0, 0, 2), 3031);
    assert_eq!(a.as_bannable(), b.as_bannable());
    assert_ne!(a.as_bannable(), c.as_bannable());
    assert_eq!(a.as_bannable(), BannableAddress::new(v4(10, 0, 0, 1)));
    assert_eq!(a.as_bannable().ip_addr(), a.ip_addr());
}

#[test]
fn socket_address_parts() {
    let a = SocketAddress::new(v4(192, 168, 1, 2), 8080);
    assert_eq!(a.socket_addr(), (v4(192, 168, 1, 2), 8080));
    assert_eq!(a.ip_addr(), v4(192, 168, 1, 2));
    assert_eq!(a.port(), 8080);
    assert_eq!(a.as_peer_address(), PeerAddress { ip: v4(192, 168, 1, 2), port: 8080 });
    assert_eq!(a.as_peer_address().socket_address(), a);
}

#[test]
fn address_groups() {
    assert_eq!(v4(192, 168, 1, 2).group(), AddressGroup::V4(0xc0a8));
    assert_eq!(v4(192, 168, 200, 9).group(), AddressGroup::V4(0xc0a8));
    assert_ne!(v4(192, 169, 1, 2).group(), v4(192, 168, 1, 2).group());
    let v6 = IpAddress::V6(0x2001_0db8_0000_0000_0000_0000_0000_0001);
    assert_eq!(v6.group(), AddressGroup::V6(0x2001_0db8));
}

#[test]
fn peer_address_wire_form_v4() {
    let a = PeerAddress { ip: v4(1, 2, 3, 4), port: 0x0506 };
    let bytes = a.encode();
    assert_eq!(bytes, vec![0, 4, 3, 2, 1, 6, 5]);
    assert_eq!(PeerAddress::decode(&bytes), Ok(a));
}

#[test]
fn peer_address_wire_form_v6() {
    let a = PeerAddress { ip: IpAddress::V6(1), port: 65535 };
    let bytes = a.encode();
    assert_eq!(bytes.len(), 19);
    assert_eq!(bytes[0], 1);
    assert_eq!(bytes[1], 1);
    assert_eq!(&bytes[17..], &[255, 255]);
    assert_eq!(PeerAddress::decode(&bytes), Ok(a));
}

#[test]
fn peer_address_roundtrip() {
    let samples = [
        PeerAddress { ip: v4(0, 0, 0, 0), port: 0 },
        PeerAddress { ip: v4(255, 255, 255, 255), port: 65535 },
        PeerAddress { ip: v4(127, 0, 0, 1), port: 13031 },
        PeerAddress { ip: IpAddress::V6(0), port: 1 },
        PeerAddress { ip: IpAddress::V6(u128::MAX), port: 2 },
        PeerAddress { ip: IpAddress::V6(0x2001_0db8_85a3_0000_0000_8a2e_0370_7334), port: 443 },
    ];
    for a in samples {
        assert_eq!(PeerAddress::decode(&a.encode()), Ok(a));
        assert_eq!(a.socket_address().as_peer_address(), a);
    }
}

#[test]
fn peer_address_decode_errors() {
    assert_eq!(PeerAddress::decode(&[]), Err(DecodeError::Empty));
    assert_eq!(PeerAddress::decode(&[2, 0, 0, 0, 0, 0, 0]), Err(DecodeError::UnknownTag(2)));
    assert_eq!(
        PeerAddress::decode(&[0, 1, 2, 3, 4, 5]),
        Err(DecodeError::WrongLength { expected: 7, actual: 6 })
    );
    assert_eq!(
        PeerAddress::decode(&[0, 1, 2, 3, 4, 5, 6, 7]),
        Err(DecodeError::WrongLength { expected: 7, actual: 8 })
    );
    assert_eq!(PeerAddress::decode(&[1, 0]), Err(DecodeError::WrongLength { expected: 19, actual: 2 }));
}

#[test]
fn ban_record_roundtrip() {
    let records = [
        BanRecord { address: BannableAddress::new(v4(1, 2, 3, 4)), until: Time::from_secs(0x0102030405060708) },
        BanRecord { address: BannableAddress::new(IpAddress::V6(77)), until: Time::from_secs(u64::MAX) },
        BanRecord { address: BannableAddress::new(v4(0, 0, 0, 0)), until: Time::from_secs(0) },
    ];
    for r in records {
        assert_eq!(BanRecord::decode(&r.encode()), Ok(r));
    }
    assert_eq!(records[0].encode(), vec![0, 4, 3, 2, 1, 8, 7, 6, 5, 4, 3, 2, 1]);
    assert_eq!(BanRecord::decode(&[]), Err(DecodeError::Empty));
    assert_eq!(BanRecord::decode(&[9]), Err(DecodeError::UnknownTag(9)));
    assert_eq!(BanRecord::decode(&[0, 1]), Err(DecodeError::WrongLength { expected: 13, actual: 2 }));
    assert_eq!(BanRecord::decode(&[1, 1]), Err(DecodeError::WrongLength { expected: 25, actual: 2 }));
}

#[test]
fn ban_table_is_a_map() {
    let a = BannableAddress::new(v4(1, 1, 1, 1));
    let b = BannableAddress::new(v4(2, 2, 2, 2));
    let mut table = BanTable::new();
    assert_eq!(table.len(), 0);
    assert_eq!(table.get(a), None);
    table.set(a, Time::from_secs(100));
    table.set(b, Time::from_secs(200));
    table.set(a, Time::from_secs(150));
    assert_eq!(table.len(), 2);
    assert_eq!(table.get(a), Some(Time::from_secs(150)));
    assert!(table.is_marked(a, Time::from_secs(149)));
    assert!(!table.is_marked(a, Time::from_secs(150)));
    assert!(table.is_marked(b, Time::from_secs(150)));
    assert!(table.remove(a));
    assert!(!table.remove(a));
    assert_eq!(table.get(a), None);
    assert_eq!(table.records(), vec![BanRecord { address: b, until: Time::from_secs(200) }]);
}
