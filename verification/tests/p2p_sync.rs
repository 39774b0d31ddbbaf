use node_core::p2p::error::ProtocolError;
use node_core::p2p::sync::{check_headers, check_locator_size, HeaderLink, PeerSyncState, SyncConfig};
use node_core::primitives::{BlockId, TransactionId, H256};

fn config() -> SyncConfig {
    SyncConfig {
        max_locator_size: 4,
        max_message_headers_count: 3,
        max_request_blocks_count: 3,
        max_peer_tx_announcements: 2,
    }
}

fn block(n: u8) -> BlockId {
    let mut bytes = [0u8; 32];
    bytes[31] = n;
    BlockId::new(H256::new(bytes))
}

fn tx(n: u8) -> TransactionId {
    let mut bytes = [0u8; 32];
    bytes[0] = n;
    TransactionId::new(H256::new(bytes))
}

fn link(n: u8, prev: u8) -> HeaderLink {
    HeaderLink { block_id: block(n), prev_block_id: block(prev) }
}

#[test]
fn locator_size_limit() {
    assert_eq!(check_locator_size(0, &config()), Ok(()));
    assert_eq!(check_locator_size(4, &config()), Ok(()));
    assert_eq!(check_locator_size(5, &config()), Err(ProtocolError::LocatorSizeExceeded(5, 4)));
    assert_eq!(
        check_locator_size(usize::MAX, &config()),
        Err(ProtocolError::LocatorSizeExceeded(usize::MAX, 4))
    );
}

#[test]
fn headers_must_be_few_and_connected() {
    let c = config();
    assert_eq!(check_headers(&vec![], true, &c), Ok(()));
    assert_eq!(check_headers(&vec![], false, &c), Ok(()));
    assert_eq!(check_headers(&vec![link(2, 1)], true, &c), Ok(()));
    assert_eq!(check_headers(&vec![link(2, 1), link(3, 2), link(4, 3)], true, &c), Ok(()));
    assert_eq!(check_headers(&vec![link(2, 1)], false, &c), Err(ProtocolError::DisconnectedHeaders));
    assert_eq!(
        check_headers(&vec![link(2, 1), link(4, 3)], true, &c),
        Err(ProtocolError::DisconnectedHeaders)
    );
    assert_eq!(
        check_headers(&vec![link(2, 1), link(3, 2), link(5, 4)], true, &c),
        Err(ProtocolError::DisconnectedHeaders)
    );
    // the limit is checked before the chain
    assert_eq!(
        check_headers(&vec![link(2, 1), link(9, 9), link(4, 3), link(5, 4)], false, &c),
        Err(ProtocolError::HeadersLimitExceeded(4, 3))
    );
}

#[test]
fn blocks_must_arrive_in_the_order_asked() {
    let mut s = PeerSyncState::new();
    assert_eq!(s.handle_block_response(block(1)), Err(ProtocolError::UnsolicitedBlockReceived(block(1))));
    s.block_requested(block(1));
    s.block_requested(block(2));
    s.block_requested(block(3));
    assert_eq!(s.awaited_count(), 3);
    assert_eq!(
        s.handle_block_response(block(2)),
        Err(ProtocolError::BlocksReceivedInWrongOrder { expected_block_id: block(1), actual_block_id: block(2) })
    );
    assert_eq!(s.handle_block_response(block(9)), Err(ProtocolError::UnsolicitedBlockReceived(block(9))));
    assert_eq!(s.awaited_count(), 3);
    assert_eq!(s.handle_block_response(block(1)), Ok(()));
    assert_eq!(s.handle_block_response(block(1)), Err(ProtocolError::UnsolicitedBlockReceived(block(1))));
    assert_eq!(s.handle_block_response(block(2)), Ok(()));
    assert_eq!(s.handle_block_response(block(3)), Ok(()));
    assert_eq!(s.awaited_count(), 0);
}

#[test]
fn block_requests_are_bounded_and_not_repeated() {
    let c = config();
    let mut s = PeerSyncState::new();
    assert_eq!(s.handle_block_request(&vec![], &c), Err(ProtocolError::ZeroBlocksInRequest));
    assert_eq!(
        s.handle_block_request(&vec![block(1), block(2), block(3), block(4)], &c),
        Err(ProtocolError::BlocksRequestLimitExceeded(4, 3))
    );
    assert_eq!(
        s.handle_block_request(&vec![block(1), block(2), block(1)], &c),
        Err(ProtocolError::DuplicatedBlockRequest(block(1)))
    );
    assert_eq!(s.owed_count(), 0);
    assert_eq!(s.handle_block_request(&vec![block(1), block(2)], &c), Ok(()));
    assert_eq!(s.owed_count(), 2);
    assert_eq!(s.handle_block_request(&vec![block(2)], &c), Err(ProtocolError::DuplicatedBlockRequest(block(2))));
    assert_eq!(
        s.handle_block_request(&vec![block(3), block(4)], &c),
        Err(ProtocolError::BlocksRequestLimitExceeded(4, 3))
    );
    assert!(s.block_sent(block(1)));
    assert!(!s.block_sent(block(1)));
    assert_eq!(s.handle_block_request(&vec![block(3), block(4)], &c), Ok(()));
    assert_eq!(s.owed_count(), 3);
    // a block that was sent may be asked for again
    assert!(s.block_sent(block(3)));
    assert_eq!(s.handle_block_request(&vec![block(1)], &c), Ok(()));
}

#[test]
fn transactions_are_announced_once() {
    let c = config();
    let mut s = PeerSyncState::new();
    assert_eq!(s.handle_transaction_announcement(tx(1), &c), Ok(()));
    assert_eq!(
        s.handle_transaction_announcement(tx(1), &c),
        Err(ProtocolError::DuplicatedTransactionAnnouncement(tx(1)))
    );
    assert_eq!(s.handle_transaction_announcement(tx(2), &c), Ok(()));
    assert_eq!(
        s.handle_transaction_announcement(tx(3), &c),
        Err(ProtocolError::TransactionAnnouncementLimitExceeded(2))
    );
    // a duplicate is told as such even when the limit is reached
    assert_eq!(
        s.handle_transaction_announcement(tx(2), &c),
        Err(ProtocolError::DuplicatedTransactionAnnouncement(tx(2)))
    );
    assert!(s.transaction_processed(tx(1)));
    assert!(!s.transaction_processed(tx(1)));
    assert_eq!(s.handle_transaction_announcement(tx(3), &c), Ok(()));
}

#[test]
fn ids_compare_by_their_bytes() {
    assert!(block(1).same_as(&block(1)));
    assert!(!block(1).same_as(&block(2)));
    assert!(tx(1).same_as(&tx(1)));
    assert!(!tx(1).same_as(&tx(3)));
    assert!(H256::zero().same_as(&H256::new([0u8; 32])));
    assert_eq!(H256::from_bytes(&block(5).hash.to_bytes()), Some(block(5).hash));
    assert_eq!(H256::from_bytes(&[0u8; 31]), None);
    assert_eq!(H256::from_bytes(&[0u8; 33]), None);
}
