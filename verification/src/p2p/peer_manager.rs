//! The peer manager: the table of live connections and the rules by which
//! peers are admitted, scored, banned and disconnected.
//!
//! The manager owns all of its state; it is driven by events (a handshake was
//! completed, a peer misbehaved, a pong arrived) and answers each with a
//! decision.  It performs no input or output itself.  Time and randomness are
//! arguments: the same state and the same event always give the same result.
//!
//! What the manager holds is described by [`PeerManagerView`], and every rule
//! is a spec function on that view; the executable functions are proved to
//! follow them.

use vstd::prelude::*;
use crate::p2p::config::P2pConfig;
use crate::p2p::error::{ConnectionValidationError, DialError, P2pError, PeerError};
use crate::p2p::eviction::{
    distinct_peer_ids, is_evictable, is_victim, lemma_victim_is_unique, select_for_eviction, EvictionCandidate,
};
use crate::p2p::peerdb::{
    backoff_delay, distinct_known, saturating_increment, KnownAddress, PeerDb, PeerDbView,
};
use crate::p2p::socket_address::{BannableAddress, SocketAddress};
use crate::p2p::types::{MagicBytes, PeerId, PeerRole, ProtocolVersion, Services};
use crate::primitives::{Time, TimeRange};

verus! {

/// A ping that has not been answered yet.
#[derive(Clone, Copy, Debug, PartialEq, Eq, Structural)]
pub struct SentPing {
    pub nonce: u64,
    pub sent_at: Time,
}

/// What the manager keeps for each live connection.
#[derive(Clone, Copy, Debug, PartialEq, Eq, Structural)]
pub struct PeerContext {
    pub peer_id: PeerId,
    pub address: SocketAddress,
    pub role: PeerRole,
    pub protocol_version: ProtocolVersion,
    /// The services that the peer and this node have in common.
    pub services: Services,
    /// When the handshake was completed.
    pub connected_since: Time,
    /// Sum of the ban scores of the peer's violations.
    pub score: u32,
    pub sent_ping: Option<SentPing>,
    /// Shortest time, in seconds, that the peer took to answer a ping.
    pub ping_min: Option<u64>,
}

/// What a completed handshake tells about a new connection.
#[derive(Clone, Copy, Debug, PartialEq, Eq, Structural)]
pub struct ConnectionInfo {
    pub peer_id: PeerId,
    pub address: SocketAddress,
    pub role: PeerRole,
    /// The number that the peer chose for this handshake.
    pub handshake_nonce: u64,
    pub network: MagicBytes,
    /// What the peer's clock showed.
    pub remote_time: Time,
    pub protocol_version: ProtocolVersion,
    pub services: Services,
}

/// What the manager holds, as mathematics.
pub struct PeerManagerView {
    pub config: P2pConfig,
    /// The live connections, in the order in which they were admitted.
    pub peers: Seq<PeerContext>,
    pub db: PeerDbView,
    /// The numbers that this node chose for handshakes that it started and
    /// that are not completed yet.
    pub pending_nonces: Seq<u64>,
}

/// Number of peers that connected to us.
pub open spec fn inbound_count(peers: Seq<PeerContext>) -> nat
    decreases peers.len(),
{
    if peers.len() == 0 {
        0
    } else {
        inbound_count(peers.drop_last()) + if peers.last().role == PeerRole::Inbound {
            1nat
        } else {
            0nat
        }
    }
}

/// Number of outbound connections that count against the target.
pub open spec fn automatic_outbound_count(peers: Seq<PeerContext>) -> nat
    decreases peers.len(),
{
    if peers.len() == 0 {
        0
    } else {
        automatic_outbound_count(peers.drop_last()) + if peers.last().role == PeerRole::Outbound {
            1nat
        } else {
            0nat
        }
    }
}

/// Whether no two connections have the same id or the same address.
pub open spec fn distinct_peers(peers: Seq<PeerContext>) -> bool {
    forall|i: int, j: int|
        0 <= i < peers.len() && 0 <= j < peers.len() && i != j ==> peers[i].peer_id != peers[j].peer_id
            && peers[i].address != peers[j].address
}

impl PeerManagerView {
    /// Whether the table has a connection with the given id.
    pub open spec fn has_peer(self, peer_id: PeerId) -> bool {
        exists|i: int| 0 <= i < self.peers.len() && #[trigger] self.peers[i].peer_id == peer_id
    }

    /// Whether the table has a connection to the given address.
    pub open spec fn is_connected_to(self, address: SocketAddress) -> bool {
        exists|i: int| 0 <= i < self.peers.len() && #[trigger] self.peers[i].address == address
    }

    /// Position of the connection with the given id.
    pub open spec fn position_of(self, peer_id: PeerId) -> int {
        choose|i: int| 0 <= i < self.peers.len() && #[trigger] self.peers[i].peer_id == peer_id
    }

    /// Position of the connection to the given address.
    pub open spec fn position_of_address(self, address: SocketAddress) -> int {
        choose|i: int| 0 <= i < self.peers.len() && #[trigger] self.peers[i].address == address
    }

    /// Whether the operator asked for a connection in this role or to this
    /// address.  Such connections are not subject to bans or discouragement.
    pub open spec fn is_whitelisted(self, address: SocketAddress, role: PeerRole) -> bool {
        role.is_protected() || self.db.is_reserved(address)
    }

    /// Whether all inbound slots are taken.
    pub open spec fn inbound_full(self) -> bool {
        inbound_count(self.peers) >= self.config.max_inbound_connections
    }

    /// What the eviction policy reads of a connection at `now`.
    pub open spec fn candidate_of(self, peer: PeerContext, now: Time) -> EvictionCandidate {
        EvictionCandidate {
            peer_id: peer.peer_id,
            address_group: peer.address.ip.spec_group(),
            role: peer.role,
            reserved: self.db.is_reserved(peer.address),
            discouraged: self.db.is_discouraged(peer.address.as_bannable(), now),
            connected_since: peer.connected_since,
            ping_min: peer.ping_min,
            ban_score: peer.score,
        }
    }

    /// The table as the eviction policy sees it at `now`.
    pub open spec fn eviction_table(self, now: Time) -> Seq<EvictionCandidate> {
        Seq::new(self.peers.len(), |i: int| self.candidate_of(self.peers[i], now))
    }

    /// The services that the peer of `info` and this node have in common.
    pub open spec fn common_services(self, info: ConnectionInfo) -> Services {
        Services { bits: self.config.our_services.bits & info.services.bits }
    }

    /// The checks that do not depend on free slots, in the order in which
    /// they are made; `None` if the connection passes them all.
    pub open spec fn first_objection(self, info: ConnectionInfo, now: Time) -> Option<P2pError> {
        let accepted = TimeRange::spec_around(now, self.config.max_clock_diff);
        let key = info.address.as_bannable();
        let common = self.common_services(info);
        let needed = self.config.spec_needed_services(info.role);
        if self.has_peer(info.peer_id) {
            Some(P2pError::PeerError(PeerError::PeerAlreadyExists(info.peer_id)))
        } else if self.is_connected_to(info.address) {
            let existing = self.peers[self.position_of_address(info.address)];
            Some(
                P2pError::PeerError(
                    PeerError::AlreadyConnected {
                        existing_peer_addr: existing.address,
                        existing_peer_role: existing.role,
                        new_peer_addr: info.address,
                        new_peer_role: info.role,
                    },
                ),
            )
        } else if self.pending_nonces.contains(info.handshake_nonce) {
            Some(P2pError::DialError(DialError::AttemptToDialSelf))
        } else if info.network != self.config.our_network {
            Some(
                P2pError::ConnectionValidationFailed(
                    ConnectionValidationError::DifferentNetwork {
                        our_network: self.config.our_network,
                        their_network: info.network,
                    },
                ),
            )
        } else if !accepted.spec_contains(info.remote_time) {
            Some(
                P2pError::ConnectionValidationFailed(
                    ConnectionValidationError::TimeDiff {
                        remote_time: info.remote_time,
                        accepted_peer_time: accepted,
                    },
                ),
            )
        } else if !self.is_whitelisted(info.address, info.role) && self.db.is_banned(key, now) {
            Some(P2pError::ConnectionValidationFailed(ConnectionValidationError::AddressBanned { address: key }))
        } else if !self.is_whitelisted(info.address, info.role) && self.db.is_discouraged(key, now)
            && self.inbound_full() {
            Some(P2pError::ConnectionValidationFailed(ConnectionValidationError::AddressDiscouraged { address: key }))
        } else if info.protocol_version.version < self.config.min_protocol_version.version {
            Some(
                P2pError::ConnectionValidationFailed(
                    ConnectionValidationError::UnsupportedProtocol { peer_protocol_version: info.protocol_version },
                ),
            )
        } else if common.bits == 0 {
            Some(P2pError::ConnectionValidationFailed(ConnectionValidationError::NoCommonServices))
        } else if !common.spec_has_all(&needed) {
            Some(
                P2pError::ConnectionValidationFailed(
                    ConnectionValidationError::InsufficientServices {
                        needed_services: needed,
                        available_services: common,
                    },
                ),
            )
        } else {
            None
        }
    }

    /// Whether some connection may be evicted at all, and every such
    /// connection is discouraged.
    pub open spec fn only_discouraged_candidates(self, now: Time) -> bool {
        let table = self.eviction_table(now);
        &&& exists|i: int| 0 <= i < table.len() && (#[trigger] table[i]).eligible()
        &&& forall|i: int| 0 <= i < table.len() && (#[trigger] table[i]).eligible() ==> table[i].discouraged
    }

    /// Whether a slot must be freed before the connection of `info` can be
    /// admitted: it is inbound and all inbound slots are taken.
    pub open spec fn needs_eviction(self, info: ConnectionInfo) -> bool {
        info.role == PeerRole::Inbound && self.inbound_full()
    }

    /// The decision on a new connection: the error with which it is
    /// refused, or the peer that is evicted to make room for it, if any.
    pub open spec fn admission(self, info: ConnectionInfo, now: Time) -> Result<Option<PeerId>, P2pError> {
        match self.first_objection(info, now) {
            Some(err) => Err(err),
            None => {
                if !self.needs_eviction(info) {
                    Ok(None)
                } else {
                    let table = self.eviction_table(now);
                    if exists|i: int| is_victim(table, self.config.eviction, i) {
                        let i = choose|i: int| is_victim(table, self.config.eviction, i);
                        Ok(Some(table[i].peer_id))
                    } else if self.only_discouraged_candidates(now) {
                        Err(
                            P2pError::ConnectionValidationFailed(
                                ConnectionValidationError::TooManyInboundPeersAndThisOneIsDiscouraged,
                            ),
                        )
                    } else {
                        Err(
                            P2pError::ConnectionValidationFailed(
                                ConnectionValidationError::TooManyInboundPeersAndCannotEvictAnyone,
                            ),
                        )
                    }
                }
            },
        }
    }

    /// The entry that a newly admitted connection gets.
    pub open spec fn new_context(self, info: ConnectionInfo, now: Time) -> PeerContext {
        PeerContext {
            peer_id: info.peer_id,
            address: info.address,
            role: info.role,
            protocol_version: info.protocol_version,
            services: self.common_services(info),
            connected_since: now,
            score: 0,
            sent_ping: None,
            ping_min: None,
        }
    }

    /// The table without the connection with the given id.
    pub open spec fn without_peer(self, peer_id: PeerId) -> Seq<PeerContext> {
        if self.has_peer(peer_id) {
            self.peers.remove(self.position_of(peer_id))
        } else {
            self.peers
        }
    }

    /// The state after the decision on a new connection: unchanged if the
    /// connection is refused; otherwise the evicted peer is gone and the new
    /// one stands at the end of the table.
    pub open spec fn after_admission(self, info: ConnectionInfo, now: Time) -> PeerManagerView {
        match self.admission(info, now) {
            Err(_) => self,
            Ok(None) => PeerManagerView { peers: self.peers.push(self.new_context(info, now)), ..self },
            Ok(Some(evicted)) => PeerManagerView {
                peers: self.without_peer(evicted).push(self.new_context(info, now)),
                ..self
            },
        }
    }
}

/// Taking one connection out of a table keeps the rest distinct.
pub proof fn lemma_remove_keeps_distinct(peers: Seq<PeerContext>, i: int)
    requires
        distinct_peers(peers),
        0 <= i < peers.len(),
    ensures
        distinct_peers(peers.remove(i)),
        forall|k: int| 0 <= k < peers.remove(i).len() ==> peers.contains(#[trigger] peers.remove(i)[k]),
{
    let rest = peers.remove(i);
    assert forall|a: int, b: int| 0 <= a < rest.len() && 0 <= b < rest.len() && a != b implies rest[a].peer_id
        != rest[b].peer_id && rest[a].address != rest[b].address by {
        let a0 = if a < i { a } else { a + 1 };
        let b0 = if b < i { b } else { b + 1 };
        assert(rest[a] == peers[a0]);
        assert(rest[b] == peers[b0]);
    }
    assert forall|k: int| 0 <= k < rest.len() implies peers.contains(#[trigger] rest[k]) by {
        let k0 = if k < i { k } else { k + 1 };
        assert(rest[k] == peers[k0]);
    }
}

/// The count of inbound peers after one more peer joined the table.
pub proof fn lemma_inbound_count_push(peers: Seq<PeerContext>, peer: PeerContext)
    ensures
        inbound_count(peers.push(peer)) == inbound_count(peers) + if peer.role == PeerRole::Inbound {
            1nat
        } else {
            0nat
        },
{
    assert(peers.push(peer).drop_last() =~= peers);
}

/// The count of inbound peers after one peer left the table.
pub proof fn lemma_inbound_count_remove(peers: Seq<PeerContext>, i: int)
    requires
        0 <= i < peers.len(),
    ensures
        inbound_count(peers.remove(i)) + (if peers[i].role == PeerRole::Inbound {
            1nat
        } else {
            0nat
        }) == inbound_count(peers),
    decreases peers.len(),
{
    if i == peers.len() - 1 {
        assert(peers.remove(i) =~= peers.drop_last());
    } else {
        lemma_inbound_count_remove(peers.drop_last(), i);
        assert(peers.remove(i).drop_last() =~= peers.drop_last().remove(i));
        assert(peers.remove(i).last() == peers.last());
    }
}

/// The peer manager.
pub struct PeerManager {
    config: P2pConfig,
    peers: Vec<PeerContext>,
    peerdb: PeerDb,
    pending_nonces: Vec<u64>,
}

impl View for PeerManager {
    type V = PeerManagerView;

    closed spec fn view(&self) -> PeerManagerView {
        PeerManagerView {
            config: self.config,
            peers: self.peers@,
            db: self.peerdb@,
            pending_nonces: self.pending_nonces@,
        }
    }
}

impl PeerManager {
    /// The database is well formed and no connection is in the table twice.
    pub closed spec fn wf(&self) -> bool {
        &&& self.peerdb.wf()
        &&& distinct_peers(self.peers@)
    }

    /// What well-formedness means for the view.
    pub proof fn lemma_wf_view(&self)
        requires
            self.wf(),
        ensures
            distinct_peers(self@.peers),
            distinct_known(self@.db.known),
    {
        self.peerdb.lemma_wf_view();
    }

    /// A manager without connections.
    pub fn new(config: P2pConfig, peerdb: PeerDb) -> (manager: Self)
        requires
            peerdb.wf(),
        ensures
            manager.wf(),
            manager@ == (PeerManagerView {
                config,
                peers: Seq::empty(),
                db: peerdb@,
                pending_nonces: Seq::empty(),
            }),
    {
        PeerManager { config, peers: Vec::new(), peerdb, pending_nonces: Vec::new() }
    }

    /// The settings of the manager.
    pub fn config(&self) -> (config: &P2pConfig)
        ensures
            *config == self@.config,
    {
        &self.config
    }

    /// The database of the manager.
    pub fn peerdb(&self) -> (db: &PeerDb)
        ensures
            db@ == self@.db,
            self.wf() ==> db.wf(),
    {
        &self.peerdb
    }

    /// Number of live connections.
    pub fn peer_count(&self) -> (n: usize)
        ensures
            n == self@.peers.len(),
    {
        self.peers.len()
    }

    /// The entries of all live connections.
    pub fn connected_peers(&self) -> (peers: Vec<PeerContext>)
        ensures
            peers@ == self@.peers,
    {
        let mut peers: Vec<PeerContext> = Vec::new();
        let mut i: usize = 0;
        while i < self.peers.len()
            invariant
                i <= self.peers.len(),
                peers@ == self.peers@.subrange(0, i as int),
            decreases self.peers.len() - i,
        {
            peers.push(self.peers[i]);
            assert(peers@ =~= self.peers@.subrange(0, i as int + 1));
            i += 1;
        }
        assert(peers@ =~= self.peers@);
        peers
    }

    /// Position of the connection with the given id.
    fn find_peer(&self, peer_id: PeerId) -> (found: Option<usize>)
        requires
            self.wf(),
        ensures
            found.is_some() == self@.has_peer(peer_id),
            found matches Some(i) ==> i < self@.peers.len() && self@.peers[i as int].peer_id == peer_id && i
                == self@.position_of(peer_id),
    {
        let mut i: usize = 0;
        while i < self.peers.len()
            invariant
                i <= self.peers.len(),
                self.wf(),
                forall|j: int| 0 <= j < i ==> self.peers@[j].peer_id != peer_id,
            decreases self.peers.len() - i,
        {
            if self.peers[i].peer_id == peer_id {
                assert(self@.peers[i as int].peer_id == peer_id);
                return Some(i);
            }
            i += 1;
        }
        None
    }

    /// Position of the connection to the given address.
    fn find_address(&self, address: SocketAddress) -> (found: Option<usize>)
        requires
            self.wf(),
        ensures
            found.is_some() == self@.is_connected_to(address),
            found matches Some(i) ==> i < self@.peers.len() && self@.peers[i as int].address == address && i
                == self@.position_of_address(address),
    {
        let mut i: usize = 0;
        while i < self.peers.len()
            invariant
                i <= self.peers.len(),
                self.wf(),
                forall|j: int| 0 <= j < i ==> self.peers@[j].address != address,
            decreases self.peers.len() - i,
        {
            if self.peers[i].address == address {
                assert(self@.peers[i as int].address == address);
                return Some(i);
            }
            i += 1;
        }
        None
    }

    /// The entry of the connection with the given id.
    pub fn peer(&self, peer_id: PeerId) -> (entry: Option<PeerContext>)
        requires
            self.wf(),
        ensures
            entry == if self@.has_peer(peer_id) {
                Some(self@.peers[self@.position_of(peer_id)])
            } else {
                None
            },
    {
        match self.find_peer(peer_id) {
            Some(i) => Some(self.peers[i]),
            None => None,
        }
    }

    /// Counts the peers that connected to us.
    pub fn count_inbound(&self) -> (n: usize)
        ensures
            n == inbound_count(self@.peers),
    {
        let mut n: usize = 0;
        let mut i: usize = 0;
        assert(self.peers@.subrange(0, 0) =~= Seq::empty());
        while i < self.peers.len()
            invariant
                i <= self.peers.len(),
                n <= i,
                n == inbound_count(self.peers@.subrange(0, i as int)),
            decreases self.peers.len() - i,
        {
            assert(self.peers@.subrange(0, i as int + 1).drop_last() =~= self.peers@.subrange(0, i as int));
            if self.peers[i].role.is_inbound() {
                n += 1;
            }
            i += 1;
        }
        assert(self.peers@.subrange(0, self.peers@.len() as int) =~= self.peers@);
        n
    }

    /// Counts the outbound connections that count against the target.
    pub fn count_automatic_outbound(&self) -> (n: usize)
        ensures
            n == automatic_outbound_count(self@.peers),
    {
        let mut n: usize = 0;
        let mut i: usize = 0;
        assert(self.peers@.subrange(0, 0) =~= Seq::empty());
        while i < self.peers.len()
            invariant
                i <= self.peers.len(),
                n <= i,
                n == automatic_outbound_count(self.peers@.subrange(0, i as int)),
            decreases self.peers.len() - i,
        {
            assert(self.peers@.subrange(0, i as int + 1).drop_last() =~= self.peers@.subrange(0, i as int));
            if self.peers[i].role.is_automatic_outbound() {
                n += 1;
            }
            i += 1;
        }
        assert(self.peers@.subrange(0, self.peers@.len() as int) =~= self.peers@);
        n
    }

    /// Whether the operator asked for a connection in this role or to this
    /// address.
    pub fn is_whitelisted(&self, address: SocketAddress, role: PeerRole) -> (whitelisted: bool)
        ensures
            whitelisted == self@.is_whitelisted(address, role),
    {
        role.is_protected() || self.peerdb.is_reserved(address)
    }

    /// Whether `nonce` belongs to a handshake that this node started.
    fn is_own_nonce(&self, nonce: u64) -> (own: bool)
        ensures
            own == self@.pending_nonces.contains(nonce),
    {
        let mut i: usize = 0;
        while i < self.pending_nonces.len()
            invariant
                i <= self.pending_nonces.len(),
                forall|j: int| 0 <= j < i ==> self.pending_nonces@[j] != nonce,
            decreases self.pending_nonces.len() - i,
        {
            if self.pending_nonces[i] == nonce {
                assert(self.pending_nonces@[i as int] == nonce);
                return true;
            }
            i += 1;
        }
        false
    }

    /// Records the number that this node chose for a handshake it starts.
    pub fn handshake_started(&mut self, nonce: u64)
        requires
            old(self).wf(),
        ensures
            final(self).wf(),
            final(self)@ == (PeerManagerView {
                pending_nonces: old(self)@.pending_nonces.push(nonce),
                ..old(self)@
            }),
    {
        self.pending_nonces.push(nonce);
    }

    /// The table as the eviction policy sees it at `now`.
    pub fn eviction_table(&self, now: Time) -> (table: Vec<EvictionCandidate>)
        requires
            self.wf(),
        ensures
            table@ == self@.eviction_table(now),
            distinct_peer_ids(table@),
    {
        let mut table: Vec<EvictionCandidate> = Vec::new();
        let mut i: usize = 0;
        while i < self.peers.len()
            invariant
                i <= self.peers.len(),
                self.wf(),
                table@.len() == i,
                forall|k: int| 0 <= k < i ==> table@[k] == self@.candidate_of(self@.peers[k], now),
            decreases self.peers.len() - i,
        {
            let peer = self.peers[i];
            table.push(
                EvictionCandidate {
                    peer_id: peer.peer_id,
                    address_group: peer.address.ip.group(),
                    role: peer.role,
                    reserved: self.peerdb.is_reserved(peer.address),
                    discouraged: self.peerdb.is_address_discouraged(peer.address.as_bannable(), now),
                    connected_since: peer.connected_since,
                    ping_min: peer.ping_min,
                    ban_score: peer.score,
                },
            );
            i += 1;
        }
        assert(table@ =~= self@.eviction_table(now));
        table
    }
}


impl PeerManager {
    /// Makes the checks that do not depend on free slots.
    fn check_first_objection(&self, info: &ConnectionInfo, now: Time) -> (objection: Option<P2pError>)
        requires
            self.wf(),
        ensures
            objection == self@.first_objection(*info, now),
    {
        if self.find_peer(info.peer_id).is_some() {
            return Some(P2pError::PeerError(PeerError::PeerAlreadyExists(info.peer_id)));
        }
        match self.find_address(info.address) {
            Some(i) => {
                let existing = self.peers[i];
                return Some(
                    P2pError::PeerError(
                        PeerError::AlreadyConnected {
                            existing_peer_addr: existing.address,
                            existing_peer_role: existing.role,
                            new_peer_addr: info.address,
                            new_peer_role: info.role,
                        },
                    ),
                );
            },
            None => {},
        }
        if self.is_own_nonce(info.handshake_nonce) {
            return Some(P2pError::DialError(DialError::AttemptToDialSelf));
        }
        if info.network != self.config.our_network {
            return Some(
                P2pError::ConnectionValidationFailed(
                    ConnectionValidationError::DifferentNetwork {
                        our_network: self.config.our_network,
                        their_network: info.network,
                    },
                ),
            );
        }
        let accepted = TimeRange::around(now, self.config.max_clock_diff);
        if !accepted.contains(info.remote_time) {
            return Some(
                P2pError::ConnectionValidationFailed(
                    ConnectionValidationError::TimeDiff { remote_time: info.remote_time, accepted_peer_time: accepted },
                ),
            );
        }
        let key = info.address.as_bannable();
        let whitelisted = self.is_whitelisted(info.address, info.role);
        if !whitelisted && self.peerdb.is_address_banned(key, now) {
            return Some(
                P2pError::ConnectionValidationFailed(ConnectionValidationError::AddressBanned { address: key }),
            );
        }
        if !whitelisted && self.peerdb.is_address_discouraged(key, now) && self.count_inbound()
            >= self.config.max_inbound_connections {
            return Some(
                P2pError::ConnectionValidationFailed(ConnectionValidationError::AddressDiscouraged { address: key }),
            );
        }
        if info.protocol_version.version < self.config.min_protocol_version.version {
            return Some(
                P2pError::ConnectionValidationFailed(
                    ConnectionValidationError::UnsupportedProtocol { peer_protocol_version: info.protocol_version },
                ),
            );
        }
        let common = self.config.our_services.intersection(&info.services);
        if common.is_empty() {
            return Some(P2pError::ConnectionValidationFailed(ConnectionValidationError::NoCommonServices));
        }
        let needed = self.config.needed_services(info.role);
        if !common.has_all(&needed) {
            return Some(
                P2pError::ConnectionValidationFailed(
                    ConnectionValidationError::InsufficientServices {
                        needed_services: needed,
                        available_services: common,
                    },
                ),
            );
        }
        None
    }

    /// Tells whether some entry of the table may be evicted at all and every
    /// such entry is discouraged.
    fn check_only_discouraged(table: &Vec<EvictionCandidate>) -> (only: bool)
        ensures
            only == ((exists|i: int| 0 <= i < table@.len() && (#[trigger] table@[i]).eligible()) && (forall|i: int|
                0 <= i < table@.len() && (#[trigger] table@[i]).eligible() ==> table@[i].discouraged)),
    {
        let mut any_eligible = false;
        let mut i: usize = 0;
        while i < table.len()
            invariant
                i <= table.len(),
                any_eligible == (exists|k: int| 0 <= k < i && (#[trigger] table@[k]).eligible()),
                forall|k: int| 0 <= k < i && (#[trigger] table@[k]).eligible() ==> table@[k].discouraged,
            decreases table.len() - i,
        {
            if table[i].eligible() {
                if !table[i].discouraged {
                    return false;
                }
                any_eligible = true;
            }
            i += 1;
        }
        any_eligible
    }

    /// Decides whether a new connection is admitted, without changing anything.
    ///
    /// The result is the error with which the connection is refused, or the
    /// peer that has to be evicted to make room for it, if any.
    pub fn validate_connection(&self, info: &ConnectionInfo, now: Time) -> (decision: Result<Option<PeerId>, P2pError>)
        requires
            self.wf(),
        ensures
            decision == self@.admission(*info, now),
    {
        match self.check_first_objection(info, now) {
            Some(err) => {
                return Err(err);
            },
            None => {},
        }
        if !(info.role.is_inbound() && self.count_inbound() >= self.config.max_inbound_connections) {
            return Ok(None);
        }
        let table = self.eviction_table(now);
        match select_for_eviction(&table, &self.config.eviction) {
            Some(i) => {
                proof {
                    let chosen = choose|k: int| is_victim(table@, self@.config.eviction, k);
                    lemma_victim_is_unique(table@, self@.config.eviction, i as int, chosen);
                }
                Ok(Some(table[i].peer_id))
            },
            None => {
                proof {
                    assert forall|k: int| !is_victim(table@, self@.config.eviction, k) by {
                        assert(!is_evictable(table@, self@.config.eviction, k));
                    }
                }
                if Self::check_only_discouraged(&table) {
                    Err(
                        P2pError::ConnectionValidationFailed(
                            ConnectionValidationError::TooManyInboundPeersAndThisOneIsDiscouraged,
                        ),
                    )
                } else {
                    Err(
                        P2pError::ConnectionValidationFailed(
                            ConnectionValidationError::TooManyInboundPeersAndCannotEvictAnyone,
                        ),
                    )
                }
            },
        }
    }

    /// Decides on a new connection and, if it is admitted, enters it into the
    /// table, after the peer that has to make room for it has been taken out.
    ///
    /// A refusal changes nothing.  The caller disconnects the evicted peer.
    pub fn accept_connection(&mut self, info: &ConnectionInfo, now: Time) -> (decision: Result<Option<PeerId>, P2pError>)
        requires
            old(self).wf(),
        ensures
            final(self).wf(),
            decision == old(self)@.admission(*info, now),
            final(self)@ == old(self)@.after_admission(*info, now),
    {
        let decision = self.validate_connection(info, now);
        let context = PeerContext {
            peer_id: info.peer_id,
            address: info.address,
            role: info.role,
            protocol_version: info.protocol_version,
            services: self.config.our_services.intersection(&info.services),
            connected_since: now,
            score: 0,
            sent_ping: None,
            ping_min: None,
        };
        match &decision {
            Err(_) => {},
            Ok(evicted) => {
                assert(!old(self)@.has_peer(info.peer_id));
                assert(!old(self)@.is_connected_to(info.address));
                match evicted {
                    Some(peer_id) => {
                        proof {
                            let table = old(self)@.eviction_table(now);
                            let chosen = choose|k: int| is_victim(table, old(self)@.config.eviction, k);
                            assert(is_evictable(table, old(self)@.config.eviction, chosen));
                            assert(old(self)@.peers[chosen].peer_id == *peer_id);
                        }
                        match self.find_peer(*peer_id) {
                            Some(i) => {
                                proof {
                                    lemma_remove_keeps_distinct(self.peers@, i as int);
                                }
                                self.peers.remove(i);
                            },
                            None => {},
                        }
                    },
                    None => {},
                }
                proof {
                    let rest = self.peers@;
                    assert forall|a: int, b: int|
                        0 <= a < rest.push(context).len() && 0 <= b < rest.push(context).len() && a != b implies rest.push(
                        context,
                    )[a].peer_id != rest.push(context)[b].peer_id && rest.push(context)[a].address != rest.push(
                        context,
                    )[b].address by {
                        if a < rest.len() {
                            assert(old(self)@.peers.contains(rest[a]));
                        }
                        if b < rest.len() {
                            assert(old(self)@.peers.contains(rest[b]));
                        }
                    }
                }
                self.peers.push(context);
            },
        }
        decision
    }

    /// Takes a connection out of the table because it was closed.  Tells
    /// whether the table held it.
    pub fn connection_closed(&mut self, peer_id: PeerId) -> (was_connected: bool)
        requires
            old(self).wf(),
        ensures
            final(self).wf(),
            was_connected == old(self)@.has_peer(peer_id),
            final(self)@ == (PeerManagerView { peers: old(self)@.without_peer(peer_id), ..old(self)@ }),
    {
        match self.find_peer(peer_id) {
            Some(i) => {
                proof {
                    lemma_remove_keeps_distinct(self.peers@, i as int);
                }
                self.peers.remove(i);
                true
            },
            None => false,
        }
    }
}


/// What became of a peer after a violation was counted against it.
#[derive(Clone, Copy, Debug, PartialEq, Eq, Structural)]
pub enum ScoreOutcome {
    /// The table holds no such peer.  Nothing was changed.
    UnknownPeer,
    /// The operator asked for the peer; its violations are not counted.
    Ignored,
    /// The score was added.  The peer stays as it is.
    Kept { total: u32 },
    /// The score reached the discouragement threshold: the peer's address is
    /// discouraged until the given time.  The peer stays connected.
    Discouraged { total: u32, until: Time },
    /// The score reached the ban threshold: the peer's address is banned
    /// until the given time, and all connections from it are taken out of the
    /// table.
    Banned { address: BannableAddress, until: Time },
}

/// `a + b`, or the largest number where that is too large.
pub open spec fn saturating_sum(a: u32, b: u32) -> u32 {
    if a + b > u32::MAX {
        u32::MAX
    } else {
        (a + b) as u32
    }
}

impl PeerManagerView {
    /// Whether a ban of `key` closes the connection `peer`: the connection
    /// comes from that address and the operator has not asked for it.
    pub open spec fn hit_by_ban(self, peer: PeerContext, key: BannableAddress) -> bool {
        peer.address.as_bannable() == key && !self.is_whitelisted(peer.address, peer.role)
    }

    /// The connections that a ban of `key` leaves in the table.
    pub open spec fn survivors_of_ban(self, key: BannableAddress) -> Seq<PeerContext> {
        self.peers.filter(|peer: PeerContext| !self.hit_by_ban(peer, key))
    }

    /// The ids of the connections that a ban of `key` closes.
    pub open spec fn closed_by_ban(self, key: BannableAddress) -> Seq<PeerId> {
        self.peers.filter(|peer: PeerContext| self.hit_by_ban(peer, key)).map_values(|peer: PeerContext| peer.peer_id)
    }

    /// What becomes of a peer when a violation with the given score is
    /// counted against it at `now`.
    pub open spec fn score_outcome(self, peer_id: PeerId, score: u32, now: Time) -> ScoreOutcome {
        if !self.has_peer(peer_id) {
            ScoreOutcome::UnknownPeer
        } else {
            let peer = self.peers[self.position_of(peer_id)];
            let total = saturating_sum(peer.score, score);
            if self.is_whitelisted(peer.address, peer.role) {
                ScoreOutcome::Ignored
            } else if total >= self.config.ban_threshold {
                ScoreOutcome::Banned {
                    address: peer.address.as_bannable(),
                    until: now.spec_saturating_add_secs(self.config.ban_duration),
                }
            } else if total >= self.config.discouragement_threshold {
                ScoreOutcome::Discouraged {
                    total,
                    until: now.spec_saturating_add_secs(self.config.discouragement_duration),
                }
            } else {
                ScoreOutcome::Kept { total }
            }
        }
    }

    /// The state after a violation with the given score was counted
    /// against a peer at `now`.
    pub open spec fn after_score(self, peer_id: PeerId, score: u32, now: Time) -> PeerManagerView {
        match self.score_outcome(peer_id, score, now) {
            ScoreOutcome::UnknownPeer => self,
            ScoreOutcome::Ignored => self,
            ScoreOutcome::Kept { total } => {
                let i = self.position_of(peer_id);
                PeerManagerView { peers: self.peers.update(i, PeerContext { score: total, ..self.peers[i] }), ..self }
            },
            ScoreOutcome::Discouraged { total, until } => {
                let i = self.position_of(peer_id);
                PeerManagerView {
                    peers: self.peers.update(i, PeerContext { score: total, ..self.peers[i] }),
                    db: PeerDbView {
                        discouragements: self.db.discouragements.insert(self.peers[i].address.as_bannable(), until),
                        ..self.db
                    },
                    ..self
                }
            },
            ScoreOutcome::Banned { address, until } => PeerManagerView {
                peers: self.survivors_of_ban(address),
                db: PeerDbView { bans: self.db.bans.insert(address, until), ..self.db },
                ..self
            },
        }
    }
}

/// Changing an entry without touching its id or address keeps the table
/// distinct.
pub proof fn lemma_update_keeps_distinct(peers: Seq<PeerContext>, i: int, entry: PeerContext)
    requires
        distinct_peers(peers),
        0 <= i < peers.len(),
        entry.peer_id == peers[i].peer_id,
        entry.address == peers[i].address,
    ensures
        distinct_peers(peers.update(i, entry)),
{
    let updated = peers.update(i, entry);
    assert forall|a: int, b: int| 0 <= a < updated.len() && 0 <= b < updated.len() && a != b implies updated[a].peer_id
        != updated[b].peer_id && updated[a].address != updated[b].address by {
        assert(updated[a].peer_id == peers[a].peer_id && updated[a].address == peers[a].address);
        assert(updated[b].peer_id == peers[b].peer_id && updated[b].address == peers[b].address);
    }
}

/// Every entry of a filtered table stands in the table, and the entries keep
/// their order: the entry at a later place of the filtered table stands at a
/// later place of the table.
pub proof fn lemma_filter_positions(peers: Seq<PeerContext>, keep: spec_fn(PeerContext) -> bool, a: int) -> (a0: int)
    requires
        0 <= a < peers.filter(keep).len(),
    ensures
        0 <= a0 < peers.len(),
        peers[a0] == peers.filter(keep)[a],
        keep(peers[a0]),
        forall|b: int| a < b < peers.filter(keep).len() ==> exists|b0: int| a0 < b0 < peers.len() && peers[b0] == #[trigger] peers.filter(keep)[b],
    decreases peers.len(),
{
    reveal(Seq::filter);
    let init = peers.drop_last();
    let kept_init = init.filter(keep);
    if keep(peers.last()) {
        assert(peers.filter(keep) =~= kept_init.push(peers.last()));
        if a < kept_init.len() {
            let a0 = lemma_filter_positions(init, keep, a);
            assert(peers[a0] == init[a0]);
            assert forall|b: int| a < b < peers.filter(keep).len() implies exists|b0: int|
                a0 < b0 < peers.len() && peers[b0] == #[trigger] peers.filter(keep)[b] by {
                if b < kept_init.len() {
                    let b0 = choose|b0: int| a0 < b0 < init.len() && init[b0] == kept_init[b];
                    assert(peers[b0] == init[b0]);
                } else {
                    assert(peers[peers.len() - 1] == peers.filter(keep)[b]);
                }
            }
            a0
        } else {
            peers.len() - 1
        }
    } else {
        assert(peers.filter(keep) =~= kept_init);
        let a0 = lemma_filter_positions(init, keep, a);
        assert(peers[a0] == init[a0]);
        assert forall|b: int| a < b < peers.filter(keep).len() implies exists|b0: int|
            a0 < b0 < peers.len() && peers[b0] == #[trigger] peers.filter(keep)[b] by {
            let b0 = choose|b0: int| a0 < b0 < init.len() && init[b0] == kept_init[b];
            assert(peers[b0] == init[b0]);
        }
        a0
    }
}

/// Filtering a table keeps it distinct.
pub proof fn lemma_filter_keeps_distinct_peers(peers: Seq<PeerContext>, keep: spec_fn(PeerContext) -> bool)
    requires
        distinct_peers(peers),
    ensures
        distinct_peers(peers.filter(keep)),
{
    let kept = peers.filter(keep);
    assert forall|a: int, b: int| 0 <= a < kept.len() && 0 <= b < kept.len() && a != b implies kept[a].peer_id
        != kept[b].peer_id && kept[a].address != kept[b].address by {
        let lo = if a < b { a } else { b };
        let hi = if a < b { b } else { a };
        let lo0 = lemma_filter_positions(peers, keep, lo);
        let hi0 = choose|hi0: int| lo0 < hi0 < peers.len() && peers[hi0] == kept[hi];
        assert(peers[lo0] == kept[lo]);
    }
}

impl PeerManager {
    /// Splits the table by a ban of `key`: the connections that stay and the
    /// ids of those that are closed.
    fn split_by_ban(&self, key: BannableAddress) -> (split: (Vec<PeerContext>, Vec<PeerId>))
        requires
            self.wf(),
        ensures
            split.0@ == self@.survivors_of_ban(key),
            split.1@ == self@.closed_by_ban(key),
    {
        let ghost stays = |peer: PeerContext| !self@.hit_by_ban(peer, key);
        let ghost goes = |peer: PeerContext| self@.hit_by_ban(peer, key);
        let ghost id_of = |peer: PeerContext| peer.peer_id;
        let mut kept: Vec<PeerContext> = Vec::new();
        let mut closed: Vec<PeerId> = Vec::new();
        let mut i: usize = 0;
        proof {
            assert(self.peers@.subrange(0, 0) =~= Seq::empty());
            assert(self.peers@.subrange(0, 0).filter(stays) =~= Seq::empty());
            assert(self.peers@.subrange(0, 0).filter(goes).map_values(id_of) =~= Seq::empty());
        }
        while i < self.peers.len()
            invariant
                i <= self.peers.len(),
                self.wf(),
                stays == (|peer: PeerContext| !self@.hit_by_ban(peer, key)),
                goes == (|peer: PeerContext| self@.hit_by_ban(peer, key)),
                id_of == (|peer: PeerContext| peer.peer_id),
                kept@ == self.peers@.subrange(0, i as int).filter(stays),
                closed@ == self.peers@.subrange(0, i as int).filter(goes).map_values(id_of),
            decreases self.peers.len() - i,
        {
            let peer = self.peers[i];
            let ghost prefix = self.peers@.subrange(0, i as int);
            let ghost next = self.peers@.subrange(0, i as int + 1);
            proof {
                assert(next.drop_last() =~= prefix);
                assert(next.last() == peer);
                reveal(Seq::filter);
            }
            if peer.address.as_bannable() == key && !self.is_whitelisted(peer.address, peer.role) {
                closed.push(peer.peer_id);
                assert(next.filter(goes) =~= prefix.filter(goes).push(peer));
                assert(next.filter(stays) =~= prefix.filter(stays));
                assert(closed@ =~= next.filter(goes).map_values(id_of));
            } else {
                kept.push(peer);
                assert(next.filter(stays) =~= prefix.filter(stays).push(peer));
                assert(next.filter(goes) =~= prefix.filter(goes));
            }
            i += 1;
        }
        assert(self.peers@.subrange(0, self.peers@.len() as int) =~= self.peers@);
        (kept, closed)
    }

    /// Counts a violation with the given score against a peer.
    ///
    /// Returns what became of the peer, and the ids of the connections that
    /// were taken out of the table because their address is now banned; the
    /// caller disconnects them.
    pub fn adjust_peer_score(&mut self, peer_id: PeerId, score: u32, now: Time) -> (result: (ScoreOutcome, Vec<PeerId>))
        requires
            old(self).wf(),
        ensures
            final(self).wf(),
            result.0 == old(self)@.score_outcome(peer_id, score, now),
            final(self)@ == old(self)@.after_score(peer_id, score, now),
            result.1@ == match result.0 {
                ScoreOutcome::Banned { address, until } => old(self)@.closed_by_ban(address),
                _ => Seq::<PeerId>::empty(),
            },
    {
        let i = match self.find_peer(peer_id) {
            Some(i) => i,
            None => {
                return (ScoreOutcome::UnknownPeer, Vec::new());
            },
        };
        let peer = self.peers[i];
        if self.is_whitelisted(peer.address, peer.role) {
            return (ScoreOutcome::Ignored, Vec::new());
        }
        let total = if score > u32::MAX - peer.score {
            u32::MAX
        } else {
            peer.score + score
        };
        let key = peer.address.as_bannable();
        if total >= self.config.ban_threshold {
            let until = now.saturating_add_secs(self.config.ban_duration);
            let (kept, closed) = self.split_by_ban(key);
            proof {
                lemma_filter_keeps_distinct_peers(self.peers@, |peer: PeerContext| !self@.hit_by_ban(peer, key));
            }
            self.peers = kept;
            self.peerdb.ban(key, now, self.config.ban_duration);
            (ScoreOutcome::Banned { address: key, until }, closed)
        } else {
            let updated = PeerContext { score: total, ..peer };
            proof {
                lemma_update_keeps_distinct(self.peers@, i as int, updated);
            }
            self.peers.set(i, updated);
            if total >= self.config.discouragement_threshold {
                let until = now.saturating_add_secs(self.config.discouragement_duration);
                self.peerdb.discourage(key, now, self.config.discouragement_duration);
                (ScoreOutcome::Discouraged { total, until }, Vec::new())
            } else {
                (ScoreOutcome::Kept { total }, Vec::new())
            }
        }
    }

    /// Counts the ban score of an error against the peer that caused it.
    pub fn handle_misbehaviour(&mut self, peer_id: PeerId, error: &P2pError, now: Time) -> (result: (
        ScoreOutcome,
        Vec<PeerId>,
    ))
        requires
            old(self).wf(),
        ensures
            final(self).wf(),
            result.0 == old(self)@.score_outcome(peer_id, error.spec_ban_score(), now),
            final(self)@ == old(self)@.after_score(peer_id, error.spec_ban_score(), now),
            result.1@ == match result.0 {
                ScoreOutcome::Banned { address, until } => old(self)@.closed_by_ban(address),
                _ => Seq::<PeerId>::empty(),
            },
    {
        self.adjust_peer_score(peer_id, error.ban_score(), now)
    }
}


impl PeerManager {
    /// Puts `entry` in the place of the entry with the same id.
    pub(crate) fn replace_peer(&mut self, entry: PeerContext)
        requires
            old(self).wf(),
            old(self)@.has_peer(entry.peer_id),
            old(self)@.peers[old(self)@.position_of(entry.peer_id)].address == entry.address,
        ensures
            final(self).wf(),
            final(self)@ == (PeerManagerView {
                peers: old(self)@.peers.update(old(self)@.position_of(entry.peer_id), entry),
                ..old(self)@
            }),
    {
        match self.find_peer(entry.peer_id) {
            Some(i) => {
                proof {
                    lemma_update_keeps_distinct(self.peers@, i as int, entry);
                }
                self.peers.set(i, entry);
            },
            None => {},
        }
    }

    /// Enters an address that we have heard of at `now` into the address
    /// book, if it is news.  Tells whether it was.
    pub fn discover(&mut self, address: SocketAddress, now: Time) -> (added: bool)
        requires
            old(self).wf(),
        ensures
            final(self).wf(),
            added == old(self)@.db.is_news(address, now),
            final(self)@ == (PeerManagerView { db: old(self)@.db.with_discovered(address, now), ..old(self)@ }),
    {
        self.peerdb.peer_discovered(address, now)
    }

    /// Records that an attempt to connect to `address` failed at `now`, so
    /// that the next attempt is put off.  Tells whether the address book
    /// holds the address.
    pub fn outbound_failed(&mut self, address: SocketAddress, now: Time) -> (known: bool)
        requires
            old(self).wf(),
        ensures
            final(self).wf(),
            known == old(self)@.db.knows(address),
            final(self)@.peers == old(self)@.peers,
            final(self)@.config == old(self)@.config,
            final(self)@.pending_nonces == old(self)@.pending_nonces,
            final(self)@.db.bans == old(self)@.db.bans,
            final(self)@.db.discouragements == old(self)@.db.discouragements,
            final(self)@.db.reserved == old(self)@.db.reserved,
            match known {
                true => exists|i: int|
                    {
                        &&& 0 <= i < old(self)@.db.known.len()
                        &&& #[trigger] old(self)@.db.known[i].address == address
                        &&& final(self)@.db.known == old(self)@.db.known.update(
                            i,
                            KnownAddress {
                                fail_count: saturating_increment(old(self)@.db.known[i].fail_count),
                                next_attempt: now.spec_saturating_add_secs(
                                    backoff_delay(
                                        saturating_increment(
                                            old(self)@.db.known[i].fail_count,
                                        ) as nat,
                                        old(self)@.config.dial_backoff_base,
                                        old(self)@.config.dial_backoff_cap,
                                    ),
                                ),
                                ..old(self)@.db.known[i]
                            },
                        )
                    },
                false => final(self)@.db.known == old(self)@.db.known,
            },
    {
        self.peerdb.report_dial_failure(address, now, self.config.dial_backoff_base, self.config.dial_backoff_cap)
    }

    /// Bans `address` at `now` for the configured time, on the operator's
    /// word, and takes the connections from it out of the table.  Returns
    /// the ids of those connections; the caller disconnects them.
    pub fn ban(&mut self, address: BannableAddress, now: Time) -> (closed: Vec<PeerId>)
        requires
            old(self).wf(),
        ensures
            final(self).wf(),
            closed@ == old(self)@.closed_by_ban(address),
            final(self)@ == (PeerManagerView {
                peers: old(self)@.survivors_of_ban(address),
                db: PeerDbView {
                    bans: old(self)@.db.bans.insert(address, now.spec_saturating_add_secs(old(self)@.config.ban_duration)),
                    ..old(self)@.db
                },
                ..old(self)@
            }),
    {
        let (kept, closed) = self.split_by_ban(address);
        proof {
            lemma_filter_keeps_distinct_peers(self.peers@, |peer: PeerContext| !self@.hit_by_ban(peer, address));
        }
        self.peers = kept;
        self.peerdb.ban(address, now, self.config.ban_duration);
        closed
    }

    /// Lifts the ban of `address`, on the operator's word.  Tells whether
    /// the address had one.
    pub fn unban(&mut self, address: BannableAddress) -> (was_banned: bool)
        requires
            old(self).wf(),
        ensures
            final(self).wf(),
            was_banned == old(self)@.db.bans.contains_key(address),
            final(self)@ == (PeerManagerView {
                db: PeerDbView { bans: old(self)@.db.bans.remove(address), ..old(self)@.db },
                ..old(self)@
            }),
    {
        self.peerdb.unban(address)
    }
}

} // verus!
