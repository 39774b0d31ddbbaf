//! The rules of block and transaction exchange with one peer.
//!
//! For every connected peer the node keeps what it has asked of the peer and
//! what the peer has asked or announced.  Every message of the peer is held
//! against that state.  A message that breaks a rule yields a
//! [`ProtocolError`], which the peer manager counts against the peer; the
//! state is then left as it was.

use vstd::prelude::*;
use crate::p2p::error::ProtocolError;
use crate::primitives::{BlockId, TransactionId};

verus! {

/// The limits on the messages of the exchange.
#[derive(Clone, Copy, Debug, PartialEq, Eq, Structural)]
pub struct SyncConfig {
    /// Largest number of block ids in a locator.
    pub max_locator_size: usize,
    /// Largest number of headers in one message.
    pub max_message_headers_count: usize,
    /// Largest number of blocks that a peer may have asked for and not
    /// received yet.
    pub max_request_blocks_count: usize,
    /// Largest number of announced transactions that are remembered for a peer.
    pub max_peer_tx_announcements: usize,
}

/// What a header says about its place in the chain.
#[derive(Clone, Copy, Debug, PartialEq, Eq)]
pub struct HeaderLink {
    /// The block that the header belongs to.
    pub block_id: BlockId,
    /// The block before it.
    pub prev_block_id: BlockId,
}

/// Whether every header but the first names the header before it as its
/// predecessor.
pub open spec fn chained(headers: Seq<HeaderLink>) -> bool {
    forall|i: int| 0 < i < headers.len() ==> (#[trigger] headers[i]).prev_block_id == headers[i - 1].block_id
}

/// What is wrong with a locator of the given size, if anything.
pub open spec fn locator_objection(size: usize, config: SyncConfig) -> Option<ProtocolError> {
    if size > config.max_locator_size {
        Some(ProtocolError::LocatorSizeExceeded(size, config.max_locator_size))
    } else {
        None
    }
}

/// What is wrong with a message of headers, if anything.  `parent_known`
/// tells whether the node knows the predecessor of the first header.
pub open spec fn headers_objection(headers: Seq<HeaderLink>, parent_known: bool, config: SyncConfig) -> Option<
    ProtocolError,
> {
    if headers.len() > config.max_message_headers_count {
        Some(ProtocolError::HeadersLimitExceeded(headers.len() as usize, config.max_message_headers_count))
    } else if headers.len() > 0 && (!parent_known || !chained(headers)) {
        Some(ProtocolError::DisconnectedHeaders)
    } else {
        None
    }
}

/// Checks the size of a locator that a peer sent.
pub fn check_locator_size(size: usize, config: &SyncConfig) -> (result: Result<(), ProtocolError>)
    ensures
        result == match locator_objection(size, *config) {
            Some(err) => Err::<(), ProtocolError>(err),
            None => Ok(()),
        },
{
    if size > config.max_locator_size {
        Err(ProtocolError::LocatorSizeExceeded(size, config.max_locator_size))
    } else {
        Ok(())
    }
}

/// Checks a message of headers that a peer sent: it must not be too long,
/// and the headers must form a chain that starts at a block we know.
pub fn check_headers(headers: &Vec<HeaderLink>, parent_known: bool, config: &SyncConfig) -> (result: Result<
    (),
    ProtocolError,
>)
    ensures
        result == match headers_objection(headers@, parent_known, *config) {
            Some(err) => Err::<(), ProtocolError>(err),
            None => Ok(()),
        },
{
    if headers.len() > config.max_message_headers_count {
        return Err(ProtocolError::HeadersLimitExceeded(headers.len(), config.max_message_headers_count));
    }
    if headers.len() == 0 {
        return Ok(());
    }
    if !parent_known {
        return Err(ProtocolError::DisconnectedHeaders);
    }
    let mut i: usize = 1;
    while i < headers.len()
        invariant
            1 <= i <= headers.len(),
            headers@.len() <= config.max_message_headers_count,
            parent_known,
            forall|k: int| 0 < k < i ==> (#[trigger] headers@[k]).prev_block_id == headers@[k - 1].block_id,
        decreases headers.len() - i,
    {
        if !headers[i].prev_block_id.same_as(&headers[i - 1].block_id) {
            assert(!chained(headers@));
            return Err(ProtocolError::DisconnectedHeaders);
        }
        i += 1;
    }
    Ok(())
}

/// The items without the first occurrence of `item`.
pub open spec fn without_first<T>(items: Seq<T>, item: T) -> Seq<T>
    decreases items.len(),
{
    if items.len() == 0 {
        items
    } else if items[0] == item {
        items.drop_first()
    } else {
        seq![items[0]] + without_first(items.drop_first(), item)
    }
}

/// What the exchange with one peer holds, as mathematics.
pub struct PeerSyncView {
    /// The blocks that we asked the peer for and have not received, in the
    /// order in which we asked.
    pub awaited: Seq<BlockId>,
    /// The blocks that the peer asked us for and has not been sent.
    pub owed: Seq<BlockId>,
    /// The transactions that the peer has announced.
    pub announced: Seq<TransactionId>,
}

impl PeerSyncView {
    /// What is wrong with a block that the peer sent, if anything.
    pub open spec fn block_objection(self, block_id: BlockId) -> Option<ProtocolError> {
        if !self.awaited.contains(block_id) {
            Some(ProtocolError::UnsolicitedBlockReceived(block_id))
        } else if self.awaited[0] != block_id {
            Some(
                ProtocolError::BlocksReceivedInWrongOrder {
                    expected_block_id: self.awaited[0],
                    actual_block_id: block_id,
                },
            )
        } else {
            None
        }
    }

    /// The first id of `ids` that the peer is owed already or that stands
    /// in `ids` at an earlier place as well.
    pub open spec fn first_repeated(self, ids: Seq<BlockId>) -> Option<BlockId>
        decreases ids.len(),
    {
        if ids.len() == 0 {
            None
        } else {
            match self.first_repeated(ids.drop_last()) {
                Some(id) => Some(id),
                None => if self.owed.contains(ids.last()) || ids.drop_last().contains(ids.last()) {
                    Some(ids.last())
                } else {
                    None
                },
            }
        }
    }

    /// What is wrong with a request for blocks, if anything.
    pub open spec fn request_objection(self, ids: Seq<BlockId>, config: SyncConfig) -> Option<ProtocolError> {
        if ids.len() == 0 {
            Some(ProtocolError::ZeroBlocksInRequest)
        } else if self.owed.len() + ids.len() > config.max_request_blocks_count {
            Some(
                ProtocolError::BlocksRequestLimitExceeded(
                    if self.owed.len() + ids.len() > usize::MAX {
                        usize::MAX
                    } else {
                        (self.owed.len() + ids.len()) as usize
                    },
                    config.max_request_blocks_count,
                ),
            )
        } else {
            match self.first_repeated(ids) {
                Some(id) => Some(ProtocolError::DuplicatedBlockRequest(id)),
                None => None,
            }
        }
    }

    /// What is wrong with the announcement of a transaction, if anything.
    pub open spec fn announcement_objection(self, tx: TransactionId, config: SyncConfig) -> Option<ProtocolError> {
        if self.announced.contains(tx) {
            Some(ProtocolError::DuplicatedTransactionAnnouncement(tx))
        } else if self.announced.len() >= config.max_peer_tx_announcements {
            Some(ProtocolError::TransactionAnnouncementLimitExceeded(config.max_peer_tx_announcements))
        } else {
            None
        }
    }
}

/// The state of the exchange with one peer.
pub struct PeerSyncState {
    awaited: Vec<BlockId>,
    owed: Vec<BlockId>,
    announced: Vec<TransactionId>,
}

impl View for PeerSyncState {
    type V = PeerSyncView;

    closed spec fn view(&self) -> PeerSyncView {
        PeerSyncView { awaited: self.awaited@, owed: self.owed@, announced: self.announced@ }
    }
}

/// Tells whether `ids` holds `id`.
fn holds_block(ids: &Vec<BlockId>, upto: usize, id: &BlockId) -> (found: bool)
    requires
        upto <= ids@.len(),
    ensures
        found == ids@.subrange(0, upto as int).contains(*id),
{
    let mut i: usize = 0;
    while i < upto
        invariant
            i <= upto <= ids@.len(),
            forall|k: int| 0 <= k < i ==> ids@[k] != *id,
        decreases upto - i,
    {
        if ids[i].same_as(id) {
            assert(ids@.subrange(0, upto as int)[i as int] == *id);
            return true;
        }
        i += 1;
    }
    assert forall|k: int| 0 <= k < upto implies ids@.subrange(0, upto as int)[k] != *id by {
        assert(ids@.subrange(0, upto as int)[k] == ids@[k]);
    }
    false
}

impl PeerSyncState {
    /// The state at the start of a connection: nothing asked, nothing owed,
    /// nothing announced.
    pub fn new() -> (state: Self)
        ensures
            state@ == (PeerSyncView { awaited: Seq::empty(), owed: Seq::empty(), announced: Seq::empty() }),
    {
        PeerSyncState { awaited: Vec::new(), owed: Vec::new(), announced: Vec::new() }
    }

    /// Number of blocks that we wait for.
    pub fn awaited_count(&self) -> (n: usize)
        ensures
            n == self@.awaited.len(),
    {
        self.awaited.len()
    }

    /// Number of blocks that the peer waits for.
    pub fn owed_count(&self) -> (n: usize)
        ensures
            n == self@.owed.len(),
    {
        self.owed.len()
    }

    /// Records that we asked the peer for a block.
    pub fn block_requested(&mut self, block_id: BlockId)
        ensures
            final(self)@ == (PeerSyncView { awaited: old(self)@.awaited.push(block_id), ..old(self)@ }),
    {
        self.awaited.push(block_id);
    }

    /// Takes note of a block that the peer sent.  The block must be the one
    /// that we have waited for longest.
    pub fn handle_block_response(&mut self, block_id: BlockId) -> (result: Result<(), ProtocolError>)
        ensures
            result == match old(self)@.block_objection(block_id) {
                Some(err) => Err::<(), ProtocolError>(err),
                None => Ok(()),
            },
            final(self)@ == if result.is_ok() {
                PeerSyncView { awaited: old(self)@.awaited.drop_first(), ..old(self)@ }
            } else {
                old(self)@
            },
    {
        assert(self.awaited@.subrange(0, self.awaited@.len() as int) =~= self.awaited@);
        if !holds_block(&self.awaited, self.awaited.len(), &block_id) {
            return Err(ProtocolError::UnsolicitedBlockReceived(block_id));
        }
        if !self.awaited[0].same_as(&block_id) {
            return Err(
                ProtocolError::BlocksReceivedInWrongOrder {
                    expected_block_id: self.awaited[0],
                    actual_block_id: block_id,
                },
            );
        }
        self.awaited.remove(0);
        assert(self.awaited@ =~= old(self)@.awaited.drop_first());
        Ok(())
    }

    /// Finds the first id of `ids` that the peer is owed already or that
    /// occurs in `ids` before.
    fn find_repeated(&self, ids: &Vec<BlockId>) -> (repeated: Option<BlockId>)
        ensures
            repeated == self@.first_repeated(ids@),
    {
        let mut i: usize = 0;
        assert(ids@.subrange(0, 0) =~= Seq::empty());
        while i < ids.len()
            invariant
                i <= ids.len(),
                self@.first_repeated(ids@.subrange(0, i as int)).is_none(),
            decreases ids.len() - i,
        {
            let ghost next = ids@.subrange(0, i as int + 1);
            assert(next.drop_last() =~= ids@.subrange(0, i as int));
            assert(next.last() == ids@[i as int]);
            assert(self.owed@.subrange(0, self.owed@.len() as int) =~= self.owed@);
            if holds_block(&self.owed, self.owed.len(), &ids[i]) || holds_block(ids, i, &ids[i]) {
                proof {
                    lemma_first_repeated_prefix(self@, ids@, i as int + 1);
                }
                return Some(ids[i]);
            }
            i += 1;
        }
        assert(ids@.subrange(0, ids@.len() as int) =~= ids@);
        None
    }

    /// Takes note of the peer's request for blocks.  The request must name
    /// at least one block, must not take the peer beyond the number of blocks
    /// it may be owed, and must name no block twice, nor one that it is owed
    /// already.
    pub fn handle_block_request(&mut self, ids: &Vec<BlockId>, config: &SyncConfig) -> (result: Result<
        (),
        ProtocolError,
    >)
        ensures
            result == match old(self)@.request_objection(ids@, *config) {
                Some(err) => Err::<(), ProtocolError>(err),
                None => Ok(()),
            },
            final(self)@ == if result.is_ok() {
                PeerSyncView { owed: old(self)@.owed + ids@, ..old(self)@ }
            } else {
                old(self)@
            },
    {
        if ids.len() == 0 {
            return Err(ProtocolError::ZeroBlocksInRequest);
        }
        if ids.len() > config.max_request_blocks_count || self.owed.len() > config.max_request_blocks_count
            - ids.len() {
            let total = if self.owed.len() > usize::MAX - ids.len() {
                usize::MAX
            } else {
                self.owed.len() + ids.len()
            };
            return Err(ProtocolError::BlocksRequestLimitExceeded(total, config.max_request_blocks_count));
        }
        match self.find_repeated(ids) {
            Some(id) => {
                return Err(ProtocolError::DuplicatedBlockRequest(id));
            },
            None => {},
        }
        let mut i: usize = 0;
        while i < ids.len()
            invariant
                i <= ids.len(),
                self@ == (PeerSyncView { owed: old(self)@.owed + ids@.subrange(0, i as int), ..old(self)@ }),
            decreases ids.len() - i,
        {
            self.owed.push(ids[i]);
            assert(self.owed@ =~= old(self)@.owed + ids@.subrange(0, i as int + 1));
            i += 1;
        }
        assert(ids@.subrange(0, ids@.len() as int) =~= ids@);
        Ok(())
    }

    /// Records that a block was sent to the peer.  Tells whether the peer
    /// was owed the block.
    pub fn block_sent(&mut self, block_id: BlockId) -> (was_owed: bool)
        ensures
            was_owed == old(self)@.owed.contains(block_id),
            final(self)@ == if was_owed {
                PeerSyncView { owed: without_first(old(self)@.owed, block_id), ..old(self)@ }
            } else {
                old(self)@
            },
    {
        let mut i: usize = 0;
        while i < self.owed.len()
            invariant
                i <= self.owed.len(),
                *self == *old(self),
                forall|k: int| 0 <= k < i ==> self.owed@[k] != block_id,
            decreases self.owed.len() - i,
        {
            if self.owed[i].same_as(&block_id) {
                proof {
                    assert(self.owed@[i as int] == block_id);
                    lemma_without_first(self.owed@, block_id, i as int);
                }
                self.owed.remove(i);
                return true;
            }
            i += 1;
        }
        false
    }

    /// Takes note of a transaction that the peer announced.  A transaction
    /// may be announced once, and no more transactions than the limit are
    /// remembered.
    pub fn handle_transaction_announcement(&mut self, tx: TransactionId, config: &SyncConfig) -> (result: Result<
        (),
        ProtocolError,
    >)
        ensures
            result == match old(self)@.announcement_objection(tx, *config) {
                Some(err) => Err::<(), ProtocolError>(err),
                None => Ok(()),
            },
            final(self)@ == if result.is_ok() {
                PeerSyncView { announced: old(self)@.announced.push(tx), ..old(self)@ }
            } else {
                old(self)@
            },
    {
        let mut i: usize = 0;
        while i < self.announced.len()
            invariant
                i <= self.announced.len(),
                *self == *old(self),
                forall|k: int| 0 <= k < i ==> self.announced@[k] != tx,
            decreases self.announced.len() - i,
        {
            if self.announced[i].same_as(&tx) {
                assert(self.announced@[i as int] == tx);
                return Err(ProtocolError::DuplicatedTransactionAnnouncement(tx));
            }
            i += 1;
        }
        if self.announced.len() >= config.max_peer_tx_announcements {
            return Err(ProtocolError::TransactionAnnouncementLimitExceeded(config.max_peer_tx_announcements));
        }
        self.announced.push(tx);
        Ok(())
    }

    /// Forgets a transaction that the peer announced, because it was
    /// processed.  Tells whether it was remembered.
    pub fn transaction_processed(&mut self, tx: TransactionId) -> (was_announced: bool)
        ensures
            was_announced == old(self)@.announced.contains(tx),
            final(self)@ == if was_announced {
                PeerSyncView { announced: without_first(old(self)@.announced, tx), ..old(self)@ }
            } else {
                old(self)@
            },
    {
        let mut i: usize = 0;
        while i < self.announced.len()
            invariant
                i <= self.announced.len(),
                *self == *old(self),
                forall|k: int| 0 <= k < i ==> self.announced@[k] != tx,
            decreases self.announced.len() - i,
        {
            if self.announced[i].same_as(&tx) {
                proof {
                    assert(self.announced@[i as int] == tx);
                    lemma_without_first(self.announced@, tx, i as int);
                }
                self.announced.remove(i);
                return true;
            }
            i += 1;
        }
        false
    }
}

/// Taking out the first occurrence of an item is taking out the item at the
/// first place at which it stands.
pub proof fn lemma_without_first<T>(items: Seq<T>, item: T, i: int)
    requires
        0 <= i < items.len(),
        items[i] == item,
        forall|k: int| 0 <= k < i ==> items[k] != item,
    ensures
        without_first(items, item) == items.remove(i),
    decreases items.len(),
{
    if i == 0 {
        assert(items.remove(0) =~= items.drop_first());
    } else {
        let rest = items.drop_first();
        assert forall|k: int| 0 <= k < i - 1 implies rest[k] != item by {
            assert(rest[k] == items[k + 1]);
        }
        lemma_without_first(rest, item, i - 1);
        assert(items.remove(i) =~= seq![items[0]] + rest.remove(i - 1));
    }
}

/// An id that is repeated within the first `n` ids is repeated within all of
/// them, and it is the same id that is found first.
pub proof fn lemma_first_repeated_prefix(state: PeerSyncView, ids: Seq<BlockId>, n: int)
    requires
        0 <= n <= ids.len(),
        state.first_repeated(ids.subrange(0, n)).is_some(),
    ensures
        state.first_repeated(ids) == state.first_repeated(ids.subrange(0, n)),
    decreases ids.len() - n,
{
    if n < ids.len() {
        assert(ids.subrange(0, n + 1).drop_last() =~= ids.subrange(0, n));
        lemma_first_repeated_prefix(state, ids, n + 1);
    } else {
        assert(ids.subrange(0, n) =~= ids);
    }
}

} // verus!
