use node_core::p2p::config::P2pConfig;
use node_core::p2p::error::{ConnectionValidationError, DialError, P2pError, PeerError, ProtocolError};
use node_core::p2p::eviction::EvictionConfig;
use node_core::p2p::connectivity::Command;
use node_core::p2p::peer_events::{Message, PingRequest, PingResponse, PongOutcome};
use node_core::p2p::peer_manager::{ConnectionInfo, PeerManager, ScoreOutcome};
use node_core::p2p::peerdb::PeerDb;
use node_core::p2p::socket_address::{IpAddress, SocketAddress};
use node_core::p2p::sync::{check_locator_size, SyncConfig};
use node_core::p2p::types::{MagicBytes, PeerId, PeerRole, ProtocolVersion, Services};
use node_core::primitives::{Time, TimeRange};

const MAGIC: u32 = 0xb0075fa0;

fn config() -> P2pConfig {
    P2pConfig {
        our_network: MagicBytes::new(MAGIC),
        min_protocol_version: ProtocolVersion::new(2),
        our_services: Services::from_u64(0b111),
        required_outbound_services: Services::from_u64(0b011),
        max_clock_diff: 10,
        max_inbound_connections: 2,
        outbound_target: 2,
        ban_threshold: 100,
        ban_duration: 3600,
        discouragement_threshold: 50,
        discouragement_duration: 600,
        ping_timeout: 150,
        max_address_count: 3,
        dial_backoff_base: 10,
        dial_backoff_cap: 1000,
        eviction: EvictionConfig { preserved_by_address_group: 0, preserved_by_age: 0, preserved_by_ping: 0 },
    }
}

fn addr(net: u8, last: u8, port: u16) -> SocketAddress {
    SocketAddress::new(IpAddress::V4(u32::from_be_bytes([10, net, 0, last])), port)
}

fn t(secs: u64) -> Time {
    Time::from_secs(secs)
}

fn info(id: u64, address: SocketAddress, role: PeerRole, now: u64) -> ConnectionInfo {
    ConnectionInfo {
        peer_id: PeerId::from_u64(id),
        address,
        role,
        handshake_nonce: 1000 + id,
        network: MagicBytes::new(MAGIC),
        remote_time: t(now),
        protocol_version: ProtocolVersion::new(3),
        services: Services::from_u64(0b011),
    }
}

fn manager_with(config: P2pConfig, reserved: Vec<SocketAddress>) -> PeerManager {
    PeerManager::new(config, PeerDb::new(reserved))
}

fn cvf(err: ConnectionValidationError) -> P2pError {
    P2pError::ConnectionValidationFailed(err)
}

#[test]
fn two_nodes_connect() {
    let address_a = addr(1, 1, 50000);
    let address_b = addr(2, 1, 3031);
    let mut a = manager_with(config(), vec![]);
    let mut b = manager_with(config(), vec![]);
    // A dials B
    a.handshake_started(77);
    let seen_by_b = ConnectionInfo { handshake_nonce: 77, ..info(1, address_a, PeerRole::Inbound, 100) };
    let seen_by_a = info(1, address_b, PeerRole::Outbound, 100);
    assert_eq!(b.accept_connection(&seen_by_b, t(100)), Ok(None));
    assert_eq!(a.accept_connection(&seen_by_a, t(100)), Ok(None));
    assert_eq!(a.peer_count(), 1);
    assert_eq!(b.peer_count(), 1);
    assert_eq!(a.connected_peers()[0].role, PeerRole::Outbound);
    assert_eq!(a.connected_peers()[0].address, address_b);
    assert_eq!(b.connected_peers()[0].role, PeerRole::Inbound);
    assert_eq!(b.connected_peers()[0].address, address_a);
    assert_eq!(b.connected_peers()[0].connected_since, t(100));
    assert_eq!(b.connected_peers()[0].score, 0);
    assert_eq!(b.connected_peers()[0].services, Services::from_u64(0b011));
    assert_eq!(a.count_automatic_outbound(), 1);
    assert_eq!(b.count_inbound(), 1);
}

#[test]
fn validation_checks_come_in_order() {
    let mut m = manager_with(config(), vec![]);
    m.handshake_started(555);
    let good = info(1, addr(1, 1, 1), PeerRole::Inbound, 100);
    assert_eq!(m.accept_connection(&good, t(100)), Ok(None));

    // everything is wrong with this one: the first check decides
    let bad = ConnectionInfo {
        peer_id: PeerId::from_u64(1),
        address: addr(1, 1, 1),
        role: PeerRole::Outbound,
        handshake_nonce: 555,
        network: MagicBytes::new(1),
        remote_time: t(0),
        protocol_version: ProtocolVersion::new(1),
        services: Services::from_u64(0),
    };
    assert_eq!(
        m.validate_connection(&bad, t(100)),
        Err(P2pError::PeerError(PeerError::PeerAlreadyExists(PeerId::from_u64(1))))
    );
    let bad = ConnectionInfo { peer_id: PeerId::from_u64(2), ..bad };
    assert_eq!(
        m.validate_connection(&bad, t(100)),
        Err(P2pError::PeerError(PeerError::AlreadyConnected {
            existing_peer_addr: addr(1, 1, 1),
            existing_peer_role: PeerRole::Inbound,
            new_peer_addr: addr(1, 1, 1),
            new_peer_role: PeerRole::Outbound,
        }))
    );
    let bad = ConnectionInfo { address: addr(5, 5, 5), ..bad };
    assert_eq!(m.validate_connection(&bad, t(100)), Err(P2pError::DialError(DialError::AttemptToDialSelf)));
    let bad = ConnectionInfo { handshake_nonce: 556, ..bad };
    assert_eq!(
        m.validate_connection(&bad, t(100)),
        Err(cvf(ConnectionValidationError::DifferentNetwork {
            our_network: MagicBytes::new(MAGIC),
            their_network: MagicBytes::new(1),
        }))
    );
    let bad = ConnectionInfo { network: MagicBytes::new(MAGIC), ..bad };
    assert_eq!(
        m.validate_connection(&bad, t(100)),
        Err(cvf(ConnectionValidationError::TimeDiff {
            remote_time: t(0),
            accepted_peer_time: TimeRange { start: t(90), end: t(110) },
        }))
    );
    let bad = ConnectionInfo { remote_time: t(110), ..bad };
    assert_eq!(
        m.validate_connection(&bad, t(100)),
        Err(cvf(ConnectionValidationError::UnsupportedProtocol { peer_protocol_version: ProtocolVersion::new(1) }))
    );
    let bad = ConnectionInfo { protocol_version: ProtocolVersion::new(2), ..bad };
    assert_eq!(m.validate_connection(&bad, t(100)), Err(cvf(ConnectionValidationError::NoCommonServices)));
    let bad = ConnectionInfo { services: Services::from_u64(0b101), ..bad };
    assert_eq!(
        m.validate_connection(&bad, t(100)),
        Err(cvf(ConnectionValidationError::InsufficientServices {
            needed_services: Services::from_u64(0b011),
            available_services: Services::from_u64(0b101),
        }))
    );
    // an inbound peer needs no particular services
    let inbound = ConnectionInfo { role: PeerRole::Inbound, ..bad };
    assert_eq!(m.validate_connection(&inbound, t(100)), Ok(None));
    let ok = ConnectionInfo { services: Services::from_u64(0b1011), ..bad };
    assert_eq!(m.validate_connection(&ok, t(100)), Ok(None));
    // nothing of this changed the table
    assert_eq!(m.peer_count(), 1);
}

#[test]
fn clock_difference_bounds() {
    let m = manager_with(config(), vec![]);
    let base = info(1, addr(1, 1, 1), PeerRole::Inbound, 100);
    for (remote, ok) in [(89, false), (90, true), (100, true), (110, true), (111, false)] {
        let result = m.validate_connection(&ConnectionInfo { remote_time: t(remote), ..base }, t(100));
        assert_eq!(result.is_ok(), ok, "remote time {remote}");
    }
    // near the start of time the range is cut off at zero
    let result = m.validate_connection(&ConnectionInfo { remote_time: t(0), ..base }, t(5));
    assert_eq!(result, Ok(None));
}

#[test]
fn banned_address_is_refused_on_every_port() {
    let mut m = manager_with(config(), vec![]);
    let closed = m.ban(addr(1, 1, 0).as_bannable(), t(100));
    assert!(closed.is_empty());
    for port in [1u16, 3031, 65535] {
        for role in [PeerRole::Inbound, PeerRole::Outbound, PeerRole::Feeler] {
            let i = info(1, addr(1, 1, port), role, 200);
            assert_eq!(
                m.accept_connection(&i, t(200)),
                Err(cvf(ConnectionValidationError::AddressBanned { address: addr(1, 1, 0).as_bannable() }))
            );
        }
    }
    assert_eq!(m.peer_count(), 0);
    // the operator's own connections are exempt
    assert_eq!(m.accept_connection(&info(1, addr(1, 1, 9), PeerRole::OutboundManual, 200), t(200)), Ok(None));
    assert_eq!(m.accept_connection(&info(2, addr(1, 1, 8), PeerRole::OutboundReserved, 200), t(200)), Ok(None));
    // another address is not touched
    assert_eq!(m.accept_connection(&info(3, addr(1, 2, 1), PeerRole::Inbound, 200), t(200)), Ok(None));
}

#[test]
fn violations_add_up_to_a_ban_that_expires() {
    let mut m = manager_with(config(), vec![]);
    let address = addr(1, 1, 4000);
    let peer = PeerId::from_u64(1);
    assert_eq!(m.accept_connection(&info(1, address, PeerRole::Inbound, 1000), t(1000)), Ok(None));
    let err = P2pError::ProtocolError(ProtocolError::DisconnectedHeaders);
    assert_eq!(m.handle_misbehaviour(peer, &err, t(1001)), (ScoreOutcome::Kept { total: 20 }, vec![]));
    assert_eq!(m.handle_misbehaviour(peer, &err, t(1002)), (ScoreOutcome::Kept { total: 40 }, vec![]));
    assert_eq!(
        m.handle_misbehaviour(peer, &err, t(1003)),
        (ScoreOutcome::Discouraged { total: 60, until: t(1603) }, vec![])
    );
    assert!(m.peerdb().is_address_discouraged(address.as_bannable(), t(1100)));
    assert_eq!(m.peer(peer).unwrap().score, 60);
    assert_eq!(
        m.handle_misbehaviour(peer, &err, t(1004)),
        (ScoreOutcome::Discouraged { total: 80, until: t(1604) }, vec![])
    );
    assert_eq!(m.peer_count(), 1);
    assert_eq!(
        m.handle_misbehaviour(peer, &err, t(1005)),
        (ScoreOutcome::Banned { address: address.as_bannable(), until: t(4605) }, vec![peer])
    );
    assert_eq!(m.peer_count(), 0);
    assert_eq!(m.peer(peer), None);
    assert_eq!(m.peerdb().banned_until(address.as_bannable()), Some(t(4605)));
    assert_eq!(m.handle_misbehaviour(peer, &err, t(1006)), (ScoreOutcome::UnknownPeer, vec![]));

    // before the ban ends nothing from that address gets in, on any port
    let again = info(2, addr(1, 1, 4001), PeerRole::Inbound, 4604);
    assert_eq!(
        m.accept_connection(&again, t(4604)),
        Err(cvf(ConnectionValidationError::AddressBanned { address: address.as_bannable() }))
    );
    let dialled = info(2, address, PeerRole::Outbound, 2000);
    assert!(m.accept_connection(&dialled, t(2000)).is_err());
    // when it has ended the peer is admitted again
    let later = info(2, addr(1, 1, 4001), PeerRole::Inbound, 4605);
    assert_eq!(m.accept_connection(&later, t(4605)), Ok(None));
    assert_eq!(m.peer_count(), 1);
}

#[test]
fn one_severe_violation_bans_at_once() {
    let mut m = manager_with(config(), vec![]);
    let address = addr(1, 1, 4000);
    m.accept_connection(&info(1, address, PeerRole::Inbound, 0), t(0)).unwrap();
    m.accept_connection(&info(2, addr(1, 1, 4001), PeerRole::Inbound, 0), t(0)).unwrap();
    m.accept_connection(&info(3, addr(1, 2, 4001), PeerRole::Outbound, 0), t(0)).unwrap();
    let err = P2pError::ProtocolError(ProtocolError::HandshakeExpected);
    let (outcome, closed) = m.handle_misbehaviour(PeerId::from_u64(2), &err, t(5));
    assert_eq!(outcome, ScoreOutcome::Banned { address: address.as_bannable(), until: t(3605) });
    // both connections from the banned address are closed, the other stays
    assert_eq!(closed, vec![PeerId::from_u64(1), PeerId::from_u64(2)]);
    assert_eq!(m.peer_count(), 1);
    assert_eq!(m.connected_peers()[0].peer_id, PeerId::from_u64(3));
}

#[test]
fn score_saturates() {
    let mut m = manager_with(P2pConfig { ban_threshold: u32::MAX, discouragement_threshold: u32::MAX, ..config() }, vec![]);
    m.accept_connection(&info(1, addr(1, 1, 1), PeerRole::Inbound, 0), t(0)).unwrap();
    assert_eq!(m.adjust_peer_score(PeerId::from_u64(1), u32::MAX - 1, t(1)).0, ScoreOutcome::Kept { total: u32::MAX - 1 });
    assert!(matches!(m.adjust_peer_score(PeerId::from_u64(1), 5, t(2)).0, ScoreOutcome::Banned { .. }));
}

#[test]
fn blameless_errors_cost_nothing() {
    let mut m = manager_with(config(), vec![]);
    m.accept_connection(&info(1, addr(1, 1, 1), PeerRole::Inbound, 0), t(0)).unwrap();
    for _ in 0..10 {
        let err = P2pError::DialError(DialError::ConnectionRefusedOrTimedOut);
        assert_eq!(m.handle_misbehaviour(PeerId::from_u64(1), &err, t(1)).0, ScoreOutcome::Kept { total: 0 });
    }
    assert_eq!(m.peer_count(), 1);
}

#[test]
fn the_operators_peers_are_never_banned() {
    let reserved = addr(9, 9, 9);
    let mut m = manager_with(config(), vec![reserved]);
    m.accept_connection(&info(1, reserved, PeerRole::Inbound, 0), t(0)).unwrap();
    m.accept_connection(&info(2, addr(1, 1, 1), PeerRole::OutboundManual, 0), t(0)).unwrap();
    assert!(m.is_whitelisted(reserved, PeerRole::Inbound));
    assert!(m.is_whitelisted(addr(1, 1, 1), PeerRole::OutboundManual));
    assert!(!m.is_whitelisted(addr(1, 1, 1), PeerRole::Inbound));
    for id in [1, 2] {
        assert_eq!(m.adjust_peer_score(PeerId::from_u64(id), 1000, t(1)), (ScoreOutcome::Ignored, vec![]));
    }
    assert_eq!(m.peer_count(), 2);
    assert!(!m.peerdb().is_address_banned(reserved.as_bannable(), t(2)));
    // a ban by the operator does not close them either
    assert_eq!(m.ban(reserved.as_bannable(), t(3)), vec![]);
    assert_eq!(m.peer_count(), 2);
}

#[test]
fn full_table_of_protected_peers_cannot_make_room() {
    let reserved = vec![addr(9, 1, 1), addr(9, 2, 1)];
    let mut m = manager_with(config(), reserved.clone());
    m.accept_connection(&info(1, reserved[0], PeerRole::Inbound, 0), t(0)).unwrap();
    m.accept_connection(&info(2, reserved[1], PeerRole::Inbound, 0), t(0)).unwrap();
    m.accept_connection(&info(3, addr(3, 3, 3), PeerRole::OutboundManual, 0), t(0)).unwrap();
    assert_eq!(m.count_inbound(), 2);
    let before = m.connected_peers();
    let newcomer = info(4, addr(4, 4, 4), PeerRole::Inbound, 10);
    assert_eq!(
        m.accept_connection(&newcomer, t(10)),
        Err(cvf(ConnectionValidationError::TooManyInboundPeersAndCannotEvictAnyone))
    );
    assert_eq!(m.peer_count(), 3);
    assert_eq!(m.connected_peers(), before);
    // outbound connections do not need an inbound slot
    assert_eq!(m.accept_connection(&info(5, addr(5, 5, 5), PeerRole::Outbound, 10), t(10)), Ok(None));
}

#[test]
fn no_inbound_slots_at_all() {
    let mut m = manager_with(P2pConfig { max_inbound_connections: 0, ..config() }, vec![]);
    assert_eq!(
        m.accept_connection(&info(1, addr(1, 1, 1), PeerRole::Inbound, 0), t(0)),
        Err(cvf(ConnectionValidationError::TooManyInboundPeersAndCannotEvictAnyone))
    );
}

#[test]
fn newcomer_evicts_the_latest_unprotected_peer() {
    let mut m = manager_with(config(), vec![]);
    m.accept_connection(&info(1, addr(1, 1, 1), PeerRole::Inbound, 10), t(10)).unwrap();
    m.accept_connection(&info(2, addr(2, 1, 1), PeerRole::Inbound, 20), t(20)).unwrap();
    let newcomer = info(3, addr(3, 1, 1), PeerRole::Inbound, 30);
    assert_eq!(m.validate_connection(&newcomer, t(30)), Ok(Some(PeerId::from_u64(2))));
    assert_eq!(m.validate_connection(&newcomer, t(30)), Ok(Some(PeerId::from_u64(2))));
    assert_eq!(m.accept_connection(&newcomer, t(30)), Ok(Some(PeerId::from_u64(2))));
    let ids: Vec<u64> = m.connected_peers().iter().map(|p| p.peer_id.as_u64()).collect();
    assert_eq!(ids, vec![1, 3]);
    assert_eq!(m.count_inbound(), 2);
}

#[test]
fn protected_candidates_cannot_be_evicted() {
    let eviction = EvictionConfig { preserved_by_address_group: 0, preserved_by_age: 8, preserved_by_ping: 0 };
    let mut m = manager_with(P2pConfig { eviction, ..config() }, vec![]);
    m.accept_connection(&info(1, addr(1, 1, 1), PeerRole::Inbound, 10), t(10)).unwrap();
    m.accept_connection(&info(2, addr(2, 1, 1), PeerRole::Inbound, 20), t(20)).unwrap();
    let newcomer = info(3, addr(3, 1, 1), PeerRole::Inbound, 30);
    assert_eq!(
        m.accept_connection(&newcomer, t(30)),
        Err(cvf(ConnectionValidationError::TooManyInboundPeersAndCannotEvictAnyone))
    );
    // when every peer that could be evicted is discouraged, the refusal says so
    m.adjust_peer_score(PeerId::from_u64(1), 60, t(31));
    m.adjust_peer_score(PeerId::from_u64(2), 60, t(31));
    assert_eq!(
        m.accept_connection(&newcomer, t(32)),
        Err(cvf(ConnectionValidationError::TooManyInboundPeersAndThisOneIsDiscouraged))
    );
    assert_eq!(m.peer_count(), 2);
}

#[test]
fn discouraged_address_needs_a_spare_slot() {
    let mut m = manager_with(config(), vec![]);
    m.accept_connection(&info(1, addr(1, 1, 1), PeerRole::Inbound, 0), t(0)).unwrap();
    m.adjust_peer_score(PeerId::from_u64(1), 60, t(1));
    assert!(m.connection_closed(PeerId::from_u64(1)));
    assert!(!m.connection_closed(PeerId::from_u64(1)));
    // with a free slot the discouraged peer may come back
    assert_eq!(m.accept_connection(&info(2, addr(1, 1, 2), PeerRole::Inbound, 2), t(2)), Ok(None));
    m.accept_connection(&info(3, addr(2, 1, 1), PeerRole::Inbound, 3), t(3)).unwrap();
    // with all slots taken it may not
    assert_eq!(
        m.accept_connection(&info(4, addr(1, 1, 3), PeerRole::Inbound, 4), t(4)),
        Err(cvf(ConnectionValidationError::AddressDiscouraged { address: addr(1, 1, 0).as_bannable() }))
    );
    // after the discouragement has run out it is a peer like any other
    assert_eq!(m.accept_connection(&info(4, addr(1, 1, 3), PeerRole::Inbound, 700), t(700)).is_ok(), true);
}

#[test]
fn ping_is_answered_with_its_nonce() {
    assert_eq!(PingRequest { nonce: 42 }.response(), PingResponse { nonce: 42 });
    assert_eq!(PingRequest { nonce: u64::MAX }.response().nonce, u64::MAX);
}

#[test]
fn answered_ping_keeps_the_peer() {
    let mut a = manager_with(config(), vec![]);
    let b = PeerId::from_u64(1);
    a.accept_connection(&info(1, addr(2, 1, 1), PeerRole::Outbound, 0), t(0)).unwrap();
    assert_eq!(a.send_ping(b, 42, t(1000)), Some(PingRequest { nonce: 42 }));
    // no second ping while the first is waiting
    assert_eq!(a.send_ping(b, 43, t(1001)), None);
    assert_eq!(a.check_ping(b, t(1149)), None);
    // a pong with another nonce does not count
    assert_eq!(a.handle_ping_response(b, 41, t(1100)), PongOutcome::Unexpected);
    let response = PingRequest { nonce: 42 }.response();
    assert_eq!(a.handle_ping_response(b, response.nonce, t(1100)), PongOutcome::Accepted { round_trip: 100 });
    assert_eq!(a.handle_ping_response(b, 42, t(1101)), PongOutcome::Unexpected);
    assert_eq!(a.check_ping(b, t(5000)), None);
    assert_eq!(a.peer(b).unwrap().ping_min, Some(100));
    assert_eq!(a.peer(b).unwrap().sent_ping, None);
    // the best time is kept
    a.send_ping(b, 1, t(2000));
    assert_eq!(a.handle_ping_response(b, 1, t(2300)), PongOutcome::Accepted { round_trip: 300 });
    assert_eq!(a.peer(b).unwrap().ping_min, Some(100));
    a.send_ping(b, 2, t(3000));
    assert_eq!(a.handle_ping_response(b, 2, t(3007)), PongOutcome::Accepted { round_trip: 7 });
    assert_eq!(a.peer(b).unwrap().ping_min, Some(7));
    assert_eq!(a.handle_ping_response(PeerId::from_u64(9), 2, t(3007)), PongOutcome::UnknownPeer);
    assert_eq!(a.send_ping(PeerId::from_u64(9), 2, t(3007)), None);
}

#[test]
fn unanswered_ping_disconnects_the_peer() {
    let mut a = manager_with(config(), vec![]);
    let b = PeerId::from_u64(1);
    let address_b = addr(2, 1, 1);
    a.accept_connection(&info(1, address_b, PeerRole::Outbound, 0), t(0)).unwrap();
    assert_eq!(a.send_ping(b, 42, t(1000)), Some(PingRequest { nonce: 42 }));
    assert_eq!(a.check_ping(b, t(1149)), None);
    assert_eq!(ProtocolError::Unresponsive.ban_score(), 100);
    let result = a.check_ping(b, t(1150));
    assert_eq!(result, Some((ScoreOutcome::Banned { address: address_b.as_bannable(), until: t(4750) }, vec![b])));
    assert_eq!(a.peer_count(), 0);
    assert_eq!(a.check_ping(b, t(1151)), None);
}

#[test]
fn unanswered_ping_disconnects_even_without_a_ban() {
    let mut a = manager_with(P2pConfig { ban_threshold: 500, discouragement_threshold: 400, ..config() }, vec![]);
    let b = PeerId::from_u64(1);
    a.accept_connection(&info(1, addr(2, 1, 1), PeerRole::Outbound, 0), t(0)).unwrap();
    a.send_ping(b, 42, t(1000));
    assert_eq!(a.check_ping(b, t(2000)), Some((ScoreOutcome::Kept { total: 100 }, vec![])));
    assert_eq!(a.peer_count(), 0);
    assert!(!a.peerdb().is_address_banned(addr(2, 1, 1).as_bannable(), t(2001)));
}

#[test]
fn oversized_locator_is_scored_but_not_banned() {
    let sync = SyncConfig {
        max_locator_size: 101,
        max_message_headers_count: 2000,
        max_request_blocks_count: 500,
        max_peer_tx_announcements: 5000,
    };
    let mut m = manager_with(config(), vec![]);
    let peer = PeerId::from_u64(1);
    let address = addr(1, 1, 1);
    m.accept_connection(&info(1, address, PeerRole::Inbound, 0), t(0)).unwrap();
    assert_eq!(check_locator_size(101, &sync), Ok(()));
    let err = check_locator_size(102, &sync).unwrap_err();
    assert_eq!(err, ProtocolError::LocatorSizeExceeded(102, 101));
    assert_eq!(err.ban_score(), 20);
    let (outcome, closed) = m.handle_misbehaviour(peer, &P2pError::ProtocolError(err), t(1));
    assert_eq!(outcome, ScoreOutcome::Kept { total: 20 });
    assert!(closed.is_empty());
    assert!(!m.peerdb().is_address_banned(address.as_bannable(), t(2)));
    // together with other violations it does lead to a ban
    m.adjust_peer_score(peer, 20, t(3));
    m.adjust_peer_score(peer, 20, t(3));
    m.adjust_peer_score(peer, 20, t(3));
    let err = check_locator_size(1000, &sync).unwrap_err();
    let (outcome, _) = m.handle_misbehaviour(peer, &P2pError::ProtocolError(err), t(4));
    assert_eq!(outcome, ScoreOutcome::Banned { address: address.as_bannable(), until: t(3604) });
}

#[test]
fn address_gossip_through_the_manager() {
    let mut m = manager_with(config(), vec![]);
    let told: Vec<_> = (1..=3).map(|i| addr(1, i, 3031).as_peer_address()).collect();
    assert_eq!(m.handle_address_list(&told, t(0)), Ok(3));
    assert_eq!(m.handle_address_list(&told, t(1)), Ok(0));
    let too_many: Vec<_> = (1..=4).map(|i| addr(2, i, 3031).as_peer_address()).collect();
    let err = m.handle_address_list(&too_many, t(2)).unwrap_err();
    assert_eq!(err, ProtocolError::AddressListLimitExceeded);
    assert_eq!(err.ban_score(), 100);
    assert_eq!(m.peerdb().known_count(), 3);
    assert!(m.discover(addr(3, 1, 1), t(3)));
    assert_eq!(m.peerdb().known_count(), 4);
    m.ban(addr(1, 2, 0).as_bannable(), t(4));
    for seed in 0..20u64 {
        let picked = m.handle_address_request(t(5), &vec![seed, seed + 1, seed + 2]);
        assert_eq!(picked.len(), 3);
        assert!(!picked.contains(&addr(1, 2, 3031).as_peer_address()));
    }
}

#[test]
fn outbound_schedule() {
    let mut m = manager_with(config(), vec![]);
    assert_eq!(m.next_outbound_attempt(t(0)), None);
    m.discover(addr(1, 1, 1), t(0));
    m.discover(addr(1, 2, 1), t(0));
    m.discover(addr(1, 3, 1), t(0));
    assert_eq!(m.next_outbound_attempt(t(0)), Some(addr(1, 1, 1)));
    assert!(m.outbound_failed(addr(1, 1, 1), t(0)));
    assert!(!m.outbound_failed(addr(7, 7, 7), t(0)));
    assert_eq!(m.next_outbound_attempt(t(1)), Some(addr(1, 2, 1)));
    m.accept_connection(&info(1, addr(1, 2, 1), PeerRole::Outbound, 1), t(1)).unwrap();
    assert_eq!(m.next_outbound_attempt(t(2)), Some(addr(1, 3, 1)));
    m.accept_connection(&info(2, addr(1, 3, 1), PeerRole::Outbound, 2), t(2)).unwrap();
    // the target is reached
    assert_eq!(m.next_outbound_attempt(t(100)), None);
    m.connection_closed(PeerId::from_u64(2));
    // the address that has waited longest comes first
    assert_eq!(m.next_outbound_attempt(t(100)), Some(addr(1, 3, 1)));
    m.connection_closed(PeerId::from_u64(1));
    m.accept_connection(&info(3, addr(1, 3, 1), PeerRole::Outbound, 100), t(100)).unwrap();
    assert_eq!(m.next_outbound_attempt(t(100)), Some(addr(1, 2, 1)));
    assert_eq!(m.config().outbound_target, 2);
}

#[test]
fn operator_ban_closes_connections_and_can_be_lifted() {
    let mut m = manager_with(config(), vec![]);
    m.accept_connection(&info(1, addr(1, 1, 1), PeerRole::Inbound, 0), t(0)).unwrap();
    m.accept_connection(&info(2, addr(2, 1, 1), PeerRole::Inbound, 0), t(0)).unwrap();
    assert_eq!(m.ban(addr(2, 1, 0).as_bannable(), t(10)), vec![PeerId::from_u64(2)]);
    assert_eq!(m.peer_count(), 1);
    assert!(m.peerdb().is_address_banned(addr(2, 1, 0).as_bannable(), t(3609)));
    assert!(!m.peerdb().is_address_banned(addr(2, 1, 0).as_bannable(), t(3610)));
    assert!(m.unban(addr(2, 1, 0).as_bannable()));
    assert!(!m.unban(addr(2, 1, 0).as_bannable()));
    assert_eq!(m.accept_connection(&info(2, addr(2, 1, 1), PeerRole::Inbound, 11), t(11)), Ok(None));
}

#[test]
fn eviction_table_mirrors_the_peers() {
    let reserved = addr(9, 9, 9);
    let mut m = manager_with(config(), vec![reserved]);
    m.accept_connection(&info(1, reserved, PeerRole::Inbound, 5), t(5)).unwrap();
    m.accept_connection(&info(2, addr(1, 1, 1), PeerRole::Outbound, 6), t(6)).unwrap();
    m.adjust_peer_score(PeerId::from_u64(2), 60, t(7));
    let table = m.eviction_table(t(8));
    assert_eq!(table.len(), 2);
    assert!(table[0].reserved && !table[0].eligible());
    assert_eq!(table[0].connected_since, t(5));
    assert!(!table[1].reserved && table[1].discouraged && !table[1].eligible());
    assert_eq!(table[1].ban_score, 60);
    assert_eq!(table[1].address_group, addr(1, 1, 1).ip_addr().group());
}

#[test]
fn ping_request_is_answered_to_the_peer_that_asked() {
    let mut b = manager_with(config(), vec![]);
    let a = PeerId::from_u64(1);
    b.accept_connection(&info(1, addr(1, 1, 1), PeerRole::Inbound, 0), t(0)).unwrap();
    b.accept_connection(&info(2, addr(1, 2, 1), PeerRole::Inbound, 0), t(0)).unwrap();
    let before = b.connected_peers();
    assert_eq!(
        b.handle_ping_request(a, PingRequest { nonce: 42 }),
        Some(Command::SendMessage(a, Message::PingResponse(PingResponse { nonce: 42 })))
    );
    // the exchange costs the peer nothing and changes nothing
    assert_eq!(b.connected_peers(), before);
    assert_eq!(b.peer(a).unwrap().score, 0);
    assert_eq!(b.handle_ping_request(PeerId::from_u64(9), PingRequest { nonce: 42 }), None);
}

#[test]
fn address_request_is_answered_to_the_peer_that_asked() {
    let mut m = manager_with(config(), vec![]);
    let peer = PeerId::from_u64(1);
    m.accept_connection(&info(1, addr(1, 1, 1), PeerRole::Inbound, 0), t(0)).unwrap();
    m.discover(addr(5, 1, 1), t(0));
    m.discover(addr(5, 2, 1), t(0));
    m.ban(addr(5, 2, 0).as_bannable(), t(1));
    assert_eq!(
        m.handle_address_list_request(peer, t(2), &vec![7]),
        Some(Command::SendMessage(peer, Message::AddrListResponse(vec![addr(5, 1, 1).as_peer_address()])))
    );
    assert_eq!(m.handle_address_list_request(PeerId::from_u64(9), t(2), &vec![7]), None);
}

#[test]
fn a_ping_goes_round_between_two_nodes() {
    let mut a = manager_with(config(), vec![]);
    let mut b = manager_with(config(), vec![]);
    let b_at_a = PeerId::from_u64(1);
    let a_at_b = PeerId::from_u64(7);
    a.accept_connection(&info(1, addr(2, 1, 1), PeerRole::Outbound, 0), t(0)).unwrap();
    b.accept_connection(&info(7, addr(3, 1, 1), PeerRole::Inbound, 0), t(0)).unwrap();
    let request = a.send_ping(b_at_a, 42, t(10)).unwrap();
    let reply = b.handle_ping_request(a_at_b, request);
    let response = match reply {
        Some(Command::SendMessage(to, Message::PingResponse(response))) => {
            assert_eq!(to, a_at_b);
            response
        }
        other => panic!("no answer to the ping: {:?}", other),
    };
    assert_eq!(response, PingResponse { nonce: 42 });
    assert_eq!(a.handle_ping_response(b_at_a, response.nonce, t(12)), PongOutcome::Accepted { round_trip: 2 });
    assert_eq!(a.peer(b_at_a).unwrap().score, 0);
    assert_eq!(b.peer(a_at_b).unwrap().score, 0);
    assert_eq!(a.connected_peers().len(), 1);
    assert_eq!(b.connected_peers().len(), 1);
    assert_eq!(a.check_ping(b_at_a, t(100_000)), None);
}
