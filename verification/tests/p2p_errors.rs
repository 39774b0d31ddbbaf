use node_core::p2p::error::{
    ChainstateError, ConnectionValidationError, DialError, MempoolError, NetworkingError, P2pError, PeerError,
    ProtocolError, StorageError, SyncError,
};
use node_core::p2p::socket_address::{IpAddress, SocketAddress};
use node_core::p2p::types::{PeerId, PeerRole, Services, StorageVersion};
use node_core::primitives::{BlockId, TransactionId, H256};

fn block() -> BlockId {
    BlockId::new(H256::zero())
}

fn all_protocol_errors() -> Vec<(ProtocolError, u32)> {
    vec![
        (ProtocolError::Unresponsive, 100),
        (ProtocolError::LocatorSizeExceeded(102, 101), 20),
        (ProtocolError::BlocksRequestLimitExceeded(501, 500), 20),
        (ProtocolError::HeadersLimitExceeded(2001, 2000), 20),
        (ProtocolError::UnknownBlockRequested(block()), 20),
        (ProtocolError::DuplicatedBlockRequest(block()), 20),
        (ProtocolError::DisconnectedHeaders, 20),
        (ProtocolError::UnexpectedMessage("hello".to_string()), 20),
        (ProtocolError::UnsolicitedBlockReceived(block()), 20),
        (ProtocolError::BlocksReceivedInWrongOrder { expected_block_id: block(), actual_block_id: block() }, 20),
        (ProtocolError::ZeroBlocksInRequest, 20),
        (ProtocolError::HandshakeExpected, 100),
        (ProtocolError::AddressListLimitExceeded, 100),
        (ProtocolError::DuplicatedTransactionAnnouncement(TransactionId::new(H256::zero())), 20),
        (ProtocolError::TransactionAnnouncementLimitExceeded(10), 20),
    ]
}

#[test]
fn protocol_error_scores() {
    for (err, score) in all_protocol_errors() {
        assert_eq!(err.ban_score(), score, "{err:?}");
        assert_eq!(P2pError::ProtocolError(err).ban_score(), score);
    }
}

#[test]
fn only_misbehaviour_is_scored() {
    let storage = StorageError { message: "disk".to_string() };
    let free = vec![
        P2pError::NetworkingError(NetworkingError::IoError("reset".to_string())),
        P2pError::DialError(DialError::AttemptToDialSelf),
        P2pError::DialError(DialError::ConnectionRefusedOrTimedOut),
        P2pError::ChannelClosed,
        P2pError::PeerError(PeerError::PeerDoesntExist),
        P2pError::PeerError(PeerError::PeerAlreadyExists(PeerId::from_u64(1))),
        P2pError::PeerError(PeerError::Pending(SocketAddress::new(IpAddress::V4(0x01020304), 5))),
        P2pError::PeerError(PeerError::PeerWillDisconnect),
        P2pError::SubsystemFailure,
        P2pError::StorageFailure(storage.clone()),
        P2pError::NoiseHandshakeError("timeout".to_string()),
        P2pError::InvalidConfigurationValue("x".to_string()),
        P2pError::InvalidStorageState("y".to_string()),
        P2pError::PeerDbStorageVersionMismatch {
            expected_version: StorageVersion { version: 2 },
            actual_version: StorageVersion { version: 1 },
        },
        P2pError::ConnectionValidationFailed(ConnectionValidationError::NoCommonServices),
        P2pError::ConnectionValidationFailed(ConnectionValidationError::NetworkingDisabled),
        P2pError::ConnectionValidationFailed(ConnectionValidationError::TooManyInboundPeersAndCannotEvictAnyone),
        P2pError::SyncError(SyncError::BlockDataMissingInSendBlock(block())),
        P2pError::SyncError(SyncError::BlockIndexMissingInSendBlock(block())),
    ];
    for err in free {
        assert_eq!(err.ban_score(), 0, "{err:?}");
    }
    assert_eq!(SyncError::BlockDataMissingInSendBlock(block()).ban_score(), 0);
}

#[test]
fn chainstate_and_mempool_set_their_own_scores() {
    let chainstate = ChainstateError { message: "bad block".to_string(), ban_score: 77 };
    let mempool = MempoolError { message: "bad tx".to_string(), ban_score: 5 };
    assert_eq!(chainstate.ban_score(), 77);
    assert_eq!(mempool.mempool_ban_score(), 5);
    assert_eq!(P2pError::ChainstateError(chainstate).ban_score(), 77);
    assert_eq!(P2pError::MempoolError(mempool).ban_score(), 5);
}

#[test]
fn storage_failure_can_be_looked_into() {
    let storage = StorageError { message: "disk".to_string() };
    assert_eq!(P2pError::StorageFailure(storage.clone()).try_as_ref(), Some(&storage));
    assert_eq!(P2pError::ChannelClosed.try_as_ref(), None);
    assert_eq!(P2pError::ProtocolError(ProtocolError::Unresponsive).try_as_ref(), None);
    assert_eq!(P2pError::SyncError(SyncError::BlockDataMissingInSendBlock(block())).try_as_ref(), None);
}

#[test]
fn fatal_errors() {
    assert!(P2pError::ChannelClosed.is_fatal());
    assert!(P2pError::SubsystemFailure.is_fatal());
    assert!(!P2pError::ProtocolError(ProtocolError::Unresponsive).is_fatal());
    assert!(!P2pError::DialError(DialError::AttemptToDialSelf).is_fatal());
    assert_eq!(P2pError::channel_closed(), P2pError::ChannelClosed);
}

#[test]
fn errors_convert_into_the_common_error() {
    assert_eq!(P2pError::from(DialError::AttemptToDialSelf), P2pError::DialError(DialError::AttemptToDialSelf));
    let sync = SyncError::BlockIndexMissingInSendBlock(block());
    assert_eq!(P2pError::from(sync.clone()), P2pError::SyncError(sync));
    let validation = ConnectionValidationError::InsufficientServices {
        needed_services: Services::from_u64(3),
        available_services: Services::from_u64(1),
    };
    assert_eq!(P2pError::from(validation.clone()), P2pError::ConnectionValidationFailed(validation));
    let storage = StorageError { message: "m".to_string() };
    assert_eq!(P2pError::from(storage.clone()), P2pError::StorageFailure(storage));
    let net = NetworkingError::MessageCodecError("m".to_string());
    assert_eq!(P2pError::from(net.clone()), P2pError::NetworkingError(net));
    let chainstate = ChainstateError { message: "m".to_string(), ban_score: 1 };
    assert_eq!(P2pError::from(chainstate.clone()), P2pError::ChainstateError(chainstate));
    let mempool = MempoolError { message: "m".to_string(), ban_score: 1 };
    let converted: P2pError = mempool.clone().into();
    assert_eq!(converted, P2pError::MempoolError(mempool));
}

#[test]
fn roles_and_services() {
    assert!(PeerRole::Inbound.is_inbound());
    assert!(!PeerRole::Outbound.is_inbound());
    assert!(PeerRole::OutboundManual.is_protected());
    assert!(PeerRole::OutboundReserved.is_protected());
    assert!(!PeerRole::Outbound.is_protected() && !PeerRole::Feeler.is_protected() && !PeerRole::Inbound.is_protected());
    assert!(PeerRole::Outbound.is_automatic_outbound());
    assert!(!PeerRole::Feeler.is_automatic_outbound() && !PeerRole::OutboundManual.is_automatic_outbound());
    let a = Services::from_u64(0b1100);
    let b = Services::from_u64(0b0110);
    assert_eq!(a.intersection(&b), Services::from_u64(0b0100));
    assert!(a.has_all(&Services::from_u64(0b0100)));
    assert!(!a.has_all(&b));
    assert!(a.has_all(&Services::from_u64(0)));
    assert!(Services::from_u64(0).is_empty());
    assert!(!a.is_empty());
    assert_eq!(PeerId::from_u64(5).as_u64(), 5);
}
