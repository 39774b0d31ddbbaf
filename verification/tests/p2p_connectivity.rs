use node_core::p2p::connectivity::{Command, ConnectionState, ConnectionStep, Connectivity};
use node_core::p2p::error::PeerError;
use node_core::p2p::socket_address::{IpAddress, SocketAddress};
use node_core::p2p::types::{PeerId, PeerRole};

fn addr(last: u8) -> SocketAddress {
    SocketAddress::new(IpAddress::V4(u32::from_be_bytes([10, 0, 0, last])), 3031)
}

const ALL_STATES: [ConnectionState; 6] = [
    ConnectionState::Connecting,
    ConnectionState::Handshaking,
    ConnectionState::Validated,
    ConnectionState::Active,
    ConnectionState::Disconnecting,
    ConnectionState::Closed,
];

const ALL_STEPS: [ConnectionStep; 5] = [
    ConnectionStep::StreamOpened,
    ConnectionStep::HandshakeCompleted,
    ConnectionStep::Admitted,
    ConnectionStep::DisconnectRequested,
    ConnectionStep::StreamClosed,
];

#[test]
fn a_connection_runs_through_its_stages() {
    let mut state = ConnectionState::Connecting;
    for (step, expected) in [
        (ConnectionStep::StreamOpened, ConnectionState::Handshaking),
        (ConnectionStep::HandshakeCompleted, ConnectionState::Validated),
        (ConnectionStep::Admitted, ConnectionState::Active),
        (ConnectionStep::DisconnectRequested, ConnectionState::Disconnecting),
        (ConnectionStep::StreamClosed, ConnectionState::Closed),
    ] {
        state = state.after(step).unwrap();
        assert_eq!(state, expected);
    }
    assert!(state.is_terminal());
}

#[test]
fn closed_is_terminal_and_always_in_reach() {
    for state in ALL_STATES {
        for step in ALL_STEPS {
            if state == ConnectionState::Closed {
                assert_eq!(state.after(step), None);
            }
            assert_ne!(state.after(step), Some(ConnectionState::Connecting));
        }
        if state != ConnectionState::Closed {
            assert!(!state.is_terminal());
            assert_eq!(state.after(ConnectionStep::StreamClosed), Some(ConnectionState::Closed));
        }
    }
    // steps out of turn are not taken
    assert_eq!(ConnectionState::Connecting.after(ConnectionStep::Admitted), None);
    assert_eq!(ConnectionState::Active.after(ConnectionStep::StreamOpened), None);
    assert_eq!(ConnectionState::Disconnecting.after(ConnectionStep::DisconnectRequested), None);
    assert_eq!(ConnectionState::Disconnecting.after(ConnectionStep::Admitted), None);
}

#[test]
fn an_address_is_dialed_once_at_a_time() {
    let mut service = Connectivity::new();
    assert_eq!(service.connect(addr(1)), Ok(Command::Connect(addr(1))));
    assert_eq!(service.connect(addr(1)), Err(PeerError::Pending(addr(1))));
    assert_eq!(service.connect(addr(2)), Ok(Command::Connect(addr(2))));
    assert!(service.dial_failed(addr(1)));
    assert!(!service.dial_failed(addr(1)));
    assert_eq!(service.connect(addr(1)), Ok(Command::Connect(addr(1))));
    let peer = service.opened(addr(1), PeerRole::Outbound).unwrap();
    // connected: still no second dial
    assert_eq!(service.connect(addr(1)), Err(PeerError::Pending(addr(1))));
    assert!(service.connection_closed(peer));
    assert_eq!(service.connect(addr(1)), Ok(Command::Connect(addr(1))));
    // inbound connections from an address do not stand in the way of a dial
    service.opened(addr(3), PeerRole::Inbound).unwrap();
    assert_eq!(service.connect(addr(3)), Ok(Command::Connect(addr(3))));
}

#[test]
fn every_connection_gets_a_fresh_id() {
    let mut service = Connectivity::new();
    let a = service.opened(addr(1), PeerRole::Inbound).unwrap();
    let b = service.opened(addr(1), PeerRole::Inbound).unwrap();
    assert_eq!(a, PeerId::from_u64(1));
    assert_eq!(b, PeerId::from_u64(2));
    assert!(service.connection_closed(a));
    let c = service.opened(addr(1), PeerRole::Inbound).unwrap();
    assert_eq!(c, PeerId::from_u64(3));
    assert_eq!(service.connection_count(), 2);
    assert_eq!(service.state_of(c), Some(ConnectionState::Handshaking));
    assert_eq!(service.state_of(a), None);
}

#[test]
fn closure_is_reported_exactly_once() {
    let mut service = Connectivity::new();
    let peer = service.opened(addr(1), PeerRole::Inbound).unwrap();
    assert_eq!(service.step(peer, ConnectionStep::HandshakeCompleted), Some(ConnectionState::Validated));
    assert_eq!(service.step(peer, ConnectionStep::Admitted), Some(ConnectionState::Active));
    assert_eq!(service.step(peer, ConnectionStep::Admitted), None);
    assert_eq!(service.disconnect(peer), Some(Command::Disconnect(peer)));
    assert_eq!(service.disconnect(peer), None);
    assert_eq!(service.state_of(peer), Some(ConnectionState::Disconnecting));
    assert!(service.connection_closed(peer));
    assert!(!service.connection_closed(peer));
    assert_eq!(service.disconnect(peer), None);
    assert_eq!(service.state_of(peer), None);
    assert_eq!(service.connection_count(), 0);
    // a stream that breaks without a request is reported once as well
    let other = service.opened(addr(2), PeerRole::Outbound).unwrap();
    assert!(service.connection_closed(other));
    assert!(!service.connection_closed(other));
    assert!(!service.connection_closed(PeerId::from_u64(99)));
}

#[test]
fn closing_and_opening_leave_other_dials_and_connections_alone() {
    let mut service = Connectivity::new();
    service.connect(addr(1)).unwrap();
    service.connect(addr(2)).unwrap();
    let a = service.opened(addr(3), PeerRole::Inbound).unwrap();
    let b = service.opened(addr(1), PeerRole::Outbound).unwrap();
    // the dial to the second address is still under way
    assert_eq!(service.connect(addr(2)), Err(PeerError::Pending(addr(2))));
    assert_eq!(service.disconnect(a), Some(Command::Disconnect(a)));
    assert_eq!(service.state_of(b), Some(ConnectionState::Handshaking));
    assert!(service.connection_closed(a));
    assert_eq!(service.state_of(b), Some(ConnectionState::Handshaking));
    assert_eq!(service.connection_count(), 1);
    assert_eq!(service.connect(addr(2)), Err(PeerError::Pending(addr(2))));
    assert!(service.dial_failed(addr(2)));
}
