//! The errors of the peer-to-peer layer and what each costs a peer.
//!
//! Every error has a ban score.  Errors that only a misbehaving peer can cause
//! score above zero; errors that may be our own fault, or the network's, score
//! zero.  The scores are summed per peer by the peer manager.

use vstd::prelude::*;
use crate::p2p::socket_address::{BannableAddress, SocketAddress};
use crate::p2p::types::{MagicBytes, PeerId, PeerRole, ProtocolVersion, Services, StorageVersion};
use crate::primitives::{BlockId, Time, TimeRange, TransactionId};

verus! {

/// Score of a violation that a peer may commit by accident.
pub open spec fn minor_violation_score() -> u32 {
    20
}

/// Score of a violation after which a peer is of no use.
pub open spec fn severe_violation_score() -> u32 {
    100
}

/// A peer broke the protocol.
#[derive(Debug, Clone, PartialEq, Eq)]
pub enum ProtocolError {
    /// The peer did not answer a ping in time.
    Unresponsive,
    /// A locator with too many entries: the size, then the limit.
    LocatorSizeExceeded(usize, usize),
    /// A request for too many blocks: the count, then the limit.
    BlocksRequestLimitExceeded(usize, usize),
    /// A message with too many headers: the count, then the limit.
    HeadersLimitExceeded(usize, usize),
    UnknownBlockRequested(BlockId),
    DuplicatedBlockRequest(BlockId),
    /// The headers do not connect to a block we know.
    DisconnectedHeaders,
    /// A message that does not fit the state of the conversation.
    UnexpectedMessage(String),
    UnsolicitedBlockReceived(BlockId),
    BlocksReceivedInWrongOrder { expected_block_id: BlockId, actual_block_id: BlockId },
    ZeroBlocksInRequest,
    HandshakeExpected,
    AddressListLimitExceeded,
    DuplicatedTransactionAnnouncement(TransactionId),
    /// Too many transactions announced: the limit.
    TransactionAnnouncementLimitExceeded(usize),
}

/// A conflict in our own bookkeeping of peers.
#[derive(Debug, Clone, PartialEq, Eq)]
pub enum PeerError {
    PeerDoesntExist,
    PeerAlreadyExists(PeerId),
    AlreadyConnected {
        existing_peer_addr: SocketAddress,
        existing_peer_role: PeerRole,
        new_peer_addr: SocketAddress,
        new_peer_role: PeerRole,
    },
    /// A connection to this address is already being made.
    Pending(SocketAddress),
    /// The peer told us that it is about to disconnect.
    PeerWillDisconnect,
}

/// An attempt to connect failed.
#[derive(Debug, Clone, Copy, PartialEq, Eq, Structural)]
pub enum DialError {
    AttemptToDialSelf,
    ConnectionRefusedOrTimedOut,
}

/// A connection was not admitted.  Such a peer need not be malicious.
#[derive(Debug, Clone, PartialEq, Eq)]
pub enum ConnectionValidationError {
    UnsupportedProtocol { peer_protocol_version: ProtocolVersion },
    /// The peer's clock is outside the range that we accept, bounds included.
    TimeDiff { remote_time: Time, accepted_peer_time: TimeRange },
    DifferentNetwork { our_network: MagicBytes, their_network: MagicBytes },
    TooManyInboundPeersAndThisOneIsDiscouraged,
    TooManyInboundPeersAndCannotEvictAnyone,
    AddressBanned { address: BannableAddress },
    AddressDiscouraged { address: BannableAddress },
    NoCommonServices,
    InsufficientServices { needed_services: Services, available_services: Services },
    NetworkingDisabled,
}

/// We could not serve a request for want of our own data.
#[derive(Debug, Clone, PartialEq, Eq)]
pub enum SyncError {
    BlockDataMissingInSendBlock(BlockId),
    BlockIndexMissingInSendBlock(BlockId),
}

/// A failure of the transport below the peer-to-peer layer.
#[derive(Debug, Clone, PartialEq, Eq)]
pub enum NetworkingError {
    /// An input or output operation failed; the text says how.
    IoError(String),
    /// A message could not be sent or decoded.
    MessageCodecError(String),
    /// The transport's own handshake failed.
    HandshakeError(String),
}

/// A block or header was refused by the chainstate.  The chainstate has
/// already decided what the refusal costs the peer that sent the block.
#[derive(Debug, Clone, PartialEq, Eq)]
pub struct ChainstateError {
    pub message: String,
    pub ban_score: u32,
}

/// A transaction was refused by the mempool, which has decided what the
/// refusal costs the peer that sent it.
#[derive(Debug, Clone, PartialEq, Eq)]
pub struct MempoolError {
    pub message: String,
    pub ban_score: u32,
}

/// The storage engine failed.
#[derive(Debug, Clone, PartialEq, Eq)]
pub struct StorageError {
    pub message: String,
}

/// Any error of the peer-to-peer layer.
#[derive(Debug, Clone, PartialEq, Eq)]
pub enum P2pError {
    NetworkingError(NetworkingError),
    ProtocolError(ProtocolError),
    DialError(DialError),
    /// A task that we depend on has gone.
    ChannelClosed,
    PeerError(PeerError),
    SubsystemFailure,
    ChainstateError(ChainstateError),
    StorageFailure(StorageError),
    NoiseHandshakeError(String),
    InvalidConfigurationValue(String),
    InvalidStorageState(String),
    PeerDbStorageVersionMismatch { expected_version: StorageVersion, actual_version: StorageVersion },
    MempoolError(MempoolError),
    ConnectionValidationFailed(ConnectionValidationError),
    SyncError(SyncError),
}

impl ProtocolError {
    /// What the violation costs the peer.
    pub open spec fn spec_ban_score(&self) -> u32 {
        match self {
            ProtocolError::Unresponsive => severe_violation_score(),
            ProtocolError::HandshakeExpected => severe_violation_score(),
            ProtocolError::AddressListLimitExceeded => severe_violation_score(),
            _ => minor_violation_score(),
        }
    }

    #[verifier::when_used_as_spec(spec_ban_score)]
    pub fn ban_score(&self) -> (score: u32)
        ensures
            score == self.spec_ban_score(),
            score == 20 || score == 100,
    {
        match self {
            ProtocolError::Unresponsive => 100,
            ProtocolError::LocatorSizeExceeded(_, _) => 20,
            ProtocolError::BlocksRequestLimitExceeded(_, _) => 20,
            ProtocolError::HeadersLimitExceeded(_, _) => 20,
            ProtocolError::UnknownBlockRequested(_) => 20,
            ProtocolError::DuplicatedBlockRequest(_) => 20,
            ProtocolError::DisconnectedHeaders => 20,
            ProtocolError::UnexpectedMessage(_) => 20,
            ProtocolError::UnsolicitedBlockReceived(_) => 20,
            ProtocolError::BlocksReceivedInWrongOrder { expected_block_id: _, actual_block_id: _ } => 20,
            ProtocolError::ZeroBlocksInRequest => 20,
            ProtocolError::HandshakeExpected => 100,
            ProtocolError::AddressListLimitExceeded => 100,
            ProtocolError::DuplicatedTransactionAnnouncement(_) => 20,
            ProtocolError::TransactionAnnouncementLimitExceeded(_) => 20,
        }
    }
}

impl SyncError {
    /// Missing data of our own is never the peer's fault.
    pub open spec fn spec_ban_score(&self) -> u32 {
        0
    }

    #[verifier::when_used_as_spec(spec_ban_score)]
    pub fn ban_score(&self) -> (score: u32)
        ensures
            score == self.spec_ban_score(),
    {
        match self {
            SyncError::BlockDataMissingInSendBlock(_) => 0,
            SyncError::BlockIndexMissingInSendBlock(_) => 0,
        }
    }
}

impl ChainstateError {
    pub open spec fn spec_ban_score(&self) -> u32 {
        self.ban_score
    }

    #[verifier::when_used_as_spec(spec_ban_score)]
    pub fn ban_score(&self) -> (score: u32)
        ensures
            score == self.spec_ban_score(),
    {
        self.ban_score
    }
}

impl MempoolError {
    pub open spec fn spec_mempool_ban_score(&self) -> u32 {
        self.ban_score
    }

    #[verifier::when_used_as_spec(spec_mempool_ban_score)]
    pub fn mempool_ban_score(&self) -> (score: u32)
        ensures
            score == self.spec_mempool_ban_score(),
    {
        self.ban_score
    }
}

impl P2pError {
    /// What the error costs the peer that caused it.  Only protocol
    /// violations and refusals by the chainstate or the mempool cost anything.
    pub open spec fn spec_ban_score(&self) -> u32 {
        match self {
            P2pError::ProtocolError(err) => err.spec_ban_score(),
            P2pError::ChainstateError(err) => err.spec_ban_score(),
            P2pError::MempoolError(err) => err.spec_mempool_ban_score(),
            P2pError::SyncError(err) => err.spec_ban_score(),
            _ => 0,
        }
    }

    /// The storage failure behind this error, if that is what it is.
    pub open spec fn spec_try_as_ref(&self) -> Option<&StorageError> {
        match self {
            P2pError::StorageFailure(err) => Some(err),
            _ => None,
        }
    }

    /// Whether the error ends the peer manager itself, not just one
    /// connection: a task it depends on is gone.
    pub open spec fn spec_is_fatal(&self) -> bool {
        *self == P2pError::ChannelClosed || *self == P2pError::SubsystemFailure
    }

    #[verifier::when_used_as_spec(spec_ban_score)]
    pub fn ban_score(&self) -> (score: u32)
        ensures
            score == self.spec_ban_score(),
    {
        match self {
            P2pError::NetworkingError(_) => 0,
            P2pError::ProtocolError(err) => err.ban_score(),
            P2pError::DialError(_) => 0,
            P2pError::ChannelClosed => 0,
            P2pError::PeerError(_) => 0,
            P2pError::SubsystemFailure => 0,
            P2pError::ChainstateError(err) => err.ban_score(),
            P2pError::StorageFailure(_) => 0,
            // May be a violation of the noise protocol, but also a network
            // failure: the peer is not blamed.
            P2pError::NoiseHandshakeError(_) => 0,
            P2pError::InvalidConfigurationValue(_) => 0,
            P2pError::InvalidStorageState(_) => 0,
            P2pError::PeerDbStorageVersionMismatch { expected_version: _, actual_version: _ } => 0,
            P2pError::MempoolError(err) => err.mempool_ban_score(),
            P2pError::ConnectionValidationFailed(_) => 0,
            P2pError::SyncError(err) => err.ban_score(),
        }
    }

    #[verifier::when_used_as_spec(spec_try_as_ref)]
    pub fn try_as_ref(&self) -> (storage_error: Option<&StorageError>)
        ensures
            storage_error == self.spec_try_as_ref(),
    {
        match self {
            P2pError::NetworkingError(_)
            | P2pError::ProtocolError(_)
            | P2pError::DialError(_)
            | P2pError::ChannelClosed
            | P2pError::PeerError(_)
            | P2pError::SubsystemFailure
            | P2pError::ChainstateError(_)
            | P2pError::NoiseHandshakeError(_)
            | P2pError::InvalidConfigurationValue(_)
            | P2pError::InvalidStorageState(_)
            | P2pError::PeerDbStorageVersionMismatch { expected_version: _, actual_version: _ }
            | P2pError::MempoolError(_)
            | P2pError::ConnectionValidationFailed(_)
            | P2pError::SyncError(_) => None,
            P2pError::StorageFailure(err) => Some(err),
        }
    }

    #[verifier::when_used_as_spec(spec_is_fatal)]
    pub fn is_fatal(&self) -> (fatal: bool)
        ensures
            fatal == self.spec_is_fatal(),
    {
        match self {
            P2pError::ChannelClosed => true,
            P2pError::SubsystemFailure => true,
            _ => false,
        }
    }

    /// The error that stands for a closed channel to another task, whatever
    /// the channel was.
    pub fn channel_closed() -> (err: P2pError)
        ensures
            err == P2pError::ChannelClosed,
    {
        P2pError::ChannelClosed
    }
}

/// Every protocol violation costs the peer at least the minor score.
pub proof fn lemma_protocol_errors_are_scored(err: ProtocolError)
    ensures
        err.ban_score() >= minor_violation_score(),
        P2pError::ProtocolError(err).ban_score() == err.ban_score(),
{
}

/// Errors that are not the peer's doing cost it nothing: a refused
/// admission, a failed dial, a bookkeeping conflict, missing local data, or a
/// failure of the transport, the storage or another task.
pub proof fn lemma_blameless_errors_are_free(err: P2pError)
    requires
        !(err is ProtocolError),
        !(err is ChainstateError),
        !(err is MempoolError),
    ensures
        err.ban_score() == 0,
{
}

impl From<NetworkingError> for P2pError {
    fn from(e: NetworkingError) -> (err: P2pError) {
        P2pError::NetworkingError(e)
    }
}

impl vstd::std_specs::convert::FromSpecImpl<NetworkingError> for P2pError {
    open spec fn obeys_from_spec() -> bool {
        true
    }

    open spec fn from_spec(e: NetworkingError) -> P2pError {
        P2pError::NetworkingError(e)
    }
}

impl From<DialError> for P2pError {
    fn from(e: DialError) -> (err: P2pError) {
        P2pError::DialError(e)
    }
}

impl vstd::std_specs::convert::FromSpecImpl<DialError> for P2pError {
    open spec fn obeys_from_spec() -> bool {
        true
    }

    open spec fn from_spec(e: DialError) -> P2pError {
        P2pError::DialError(e)
    }
}

impl From<ChainstateError> for P2pError {
    fn from(e: ChainstateError) -> (err: P2pError) {
        P2pError::ChainstateError(e)
    }
}

impl vstd::std_specs::convert::FromSpecImpl<ChainstateError> for P2pError {
    open spec fn obeys_from_spec() -> bool {
        true
    }

    open spec fn from_spec(e: ChainstateError) -> P2pError {
        P2pError::ChainstateError(e)
    }
}

impl From<StorageError> for P2pError {
    fn from(e: StorageError) -> (err: P2pError) {
        P2pError::StorageFailure(e)
    }
}

impl vstd::std_specs::convert::FromSpecImpl<StorageError> for P2pError {
    open spec fn obeys_from_spec() -> bool {
        true
    }

    open spec fn from_spec(e: StorageError) -> P2pError {
        P2pError::StorageFailure(e)
    }
}

impl From<MempoolError> for P2pError {
    fn from(e: MempoolError) -> (err: P2pError) {
        P2pError::MempoolError(e)
    }
}

impl vstd::std_specs::convert::FromSpecImpl<MempoolError> for P2pError {
    open spec fn obeys_from_spec() -> bool {
        true
    }

    open spec fn from_spec(e: MempoolError) -> P2pError {
        P2pError::MempoolError(e)
    }
}

impl From<ConnectionValidationError> for P2pError {
    fn from(e: ConnectionValidationError) -> (err: P2pError) {
        P2pError::ConnectionValidationFailed(e)
    }
}

impl vstd::std_specs::convert::FromSpecImpl<ConnectionValidationError> for P2pError {
    open spec fn obeys_from_spec() -> bool {
        true
    }

    open spec fn from_spec(e: ConnectionValidationError) -> P2pError {
        P2pError::ConnectionValidationFailed(e)
    }
}

impl From<SyncError> for P2pError {
    fn from(e: SyncError) -> (err: P2pError) {
        P2pError::SyncError(e)
    }
}

impl vstd::std_specs::convert::FromSpecImpl<SyncError> for P2pError {
    open spec fn obeys_from_spec() -> bool {
        true
    }

    open spec fn from_spec(e: SyncError) -> P2pError {
        P2pError::SyncError(e)
    }
}

} // verus!
