//! What the peer manager does on pings, address messages and the schedule of
//! outbound connections.

use vstd::prelude::*;
use crate::p2p::connectivity::Command;
use crate::p2p::error::{severe_violation_score, ProtocolError};
use crate::p2p::peer_address::PeerAddress;
use crate::p2p::peer_manager::{
    automatic_outbound_count, PeerContext, PeerManager, PeerManagerView, ScoreOutcome, SentPing,
};
use crate::p2p::sampling::sample;
use crate::p2p::socket_address::SocketAddress;
use crate::p2p::types::PeerId;
use crate::primitives::Time;

verus! {

/// A request to prove liveness.
#[derive(Clone, Copy, Debug, PartialEq, Eq, Structural)]
pub struct PingRequest {
    pub nonce: u64,
}

/// The answer to a ping: it carries the nonce of the request.
#[derive(Clone, Copy, Debug, PartialEq, Eq, Structural)]
pub struct PingResponse {
    pub nonce: u64,
}

impl PingRequest {
    /// The answer that this request calls for.
    pub open spec fn spec_response(&self) -> PingResponse {
        PingResponse { nonce: self.nonce }
    }

    #[verifier::when_used_as_spec(spec_response)]
    pub fn response(&self) -> (response: PingResponse)
        ensures
            response == self.spec_response(),
    {
        PingResponse { nonce: self.nonce }
    }
}

/// What peers send each other on behalf of their peer managers.
#[derive(Clone, Debug, PartialEq, Eq)]
pub enum Message {
    PingRequest(PingRequest),
    PingResponse(PingResponse),
    /// A request for addresses of other peers.
    AddrListRequest,
    /// Addresses of other peers.
    AddrListResponse(Vec<PeerAddress>),
}

/// What a pong meant to the manager.
#[derive(Clone, Copy, Debug, PartialEq, Eq, Structural)]
pub enum PongOutcome {
    /// The table holds no such peer.
    UnknownPeer,
    /// No ping with this nonce is waiting for an answer.  The pong is ignored.
    Unexpected,
    /// The pong answers the ping that was waiting; the peer took the given
    /// number of seconds.
    Accepted { round_trip: u64 },
}

/// The shorter of a known shortest time and a new one.
pub open spec fn shortest(known: Option<u64>, new: u64) -> u64 {
    match known {
        Some(old) => if old <= new {
            old
        } else {
            new
        },
        None => new,
    }
}

impl PeerManagerView {
    /// What is sent on a ping request of the peer: the answer with the nonce
    /// of the request, to the peer that asked, if it is connected.
    pub open spec fn ping_reply(self, peer_id: PeerId, request: PingRequest) -> Option<Command> {
        if self.has_peer(peer_id) {
            Some(Command::SendMessage(peer_id, Message::PingResponse(request.spec_response())))
        } else {
            None
        }
    }

    /// Whether a ping can be sent to the peer: it is connected and no ping
    /// to it is waiting for an answer.
    pub open spec fn can_ping(self, peer_id: PeerId) -> bool {
        self.has_peer(peer_id) && self.peers[self.position_of(peer_id)].sent_ping.is_none()
    }

    /// The state after a ping with `nonce` was sent to the peer at `now`.
    pub open spec fn after_ping_sent(self, peer_id: PeerId, nonce: u64, now: Time) -> PeerManagerView {
        if self.can_ping(peer_id) {
            let i = self.position_of(peer_id);
            PeerManagerView {
                peers: self.peers.update(
                    i,
                    PeerContext { sent_ping: Some(SentPing { nonce, sent_at: now }), ..self.peers[i] },
                ),
                ..self
            }
        } else {
            self
        }
    }

    /// What a pong with `nonce` from the peer means at `now`.
    pub open spec fn pong_outcome(self, peer_id: PeerId, nonce: u64, now: Time) -> PongOutcome {
        if !self.has_peer(peer_id) {
            PongOutcome::UnknownPeer
        } else {
            match self.peers[self.position_of(peer_id)].sent_ping {
                Some(ping) => if ping.nonce == nonce {
                    PongOutcome::Accepted {
                        round_trip: if now.secs >= ping.sent_at.secs {
                            (now.secs - ping.sent_at.secs) as u64
                        } else {
                            0
                        },
                    }
                } else {
                    PongOutcome::Unexpected
                },
                None => PongOutcome::Unexpected,
            }
        }
    }

    /// The state after a pong with `nonce` arrived from the peer at `now`.
    pub open spec fn after_pong(self, peer_id: PeerId, nonce: u64, now: Time) -> PeerManagerView {
        match self.pong_outcome(peer_id, nonce, now) {
            PongOutcome::Accepted { round_trip } => {
                let i = self.position_of(peer_id);
                PeerManagerView {
                    peers: self.peers.update(
                        i,
                        PeerContext {
                            sent_ping: None,
                            ping_min: Some(shortest(self.peers[i].ping_min, round_trip)),
                            ..self.peers[i]
                        },
                    ),
                    ..self
                }
            },
            _ => self,
        }
    }

    /// Whether the peer has left a ping unanswered for the whole timeout.
    pub open spec fn ping_overdue(self, peer_id: PeerId, now: Time) -> bool {
        &&& self.has_peer(peer_id)
        &&& self.peers[self.position_of(peer_id)].sent_ping matches Some(ping)
        &&& now.secs >= ping.sent_at.secs
        &&& now.secs - ping.sent_at.secs >= self.config.ping_timeout
    }

    /// The state after the ping of the peer was checked at `now`: if the
    /// ping is overdue, the score of an unresponsive peer is counted against
    /// the peer and its connection is taken out of the table.
    pub open spec fn after_ping_check(self, peer_id: PeerId, now: Time) -> PeerManagerView {
        if self.ping_overdue(peer_id, now) {
            let scored = self.after_score(peer_id, severe_violation_score(), now);
            PeerManagerView { peers: scored.without_peer(peer_id), ..scored }
        } else {
            self
        }
    }

    /// The addresses of all connections.
    pub open spec fn connected_addresses(self) -> Seq<SocketAddress> {
        self.peers.map_values(|peer: PeerContext| peer.address)
    }

    /// Whether the node wants another outbound connection.
    pub open spec fn wants_outbound(self) -> bool {
        automatic_outbound_count(self.peers) < self.config.outbound_target
    }
}

impl PeerManager {
    /// Answers a ping of a connected peer: the answer goes to the peer that
    /// asked and carries the nonce of the request.  Nothing is counted against
    /// the peer, and nothing is sent to a peer that is not connected.
    pub fn handle_ping_request(&self, peer_id: PeerId, request: PingRequest) -> (reply: Option<Command>)
        requires
            self.wf(),
        ensures
            reply == self@.ping_reply(peer_id, request),
    {
        match self.peer(peer_id) {
            Some(_) => Some(Command::SendMessage(peer_id, Message::PingResponse(request.response()))),
            None => None,
        }
    }

    /// Answers a request for addresses of a connected peer at `now` with a
    /// part of the addresses that may be told to other peers, selected by
    /// `draws`.  Nothing is sent to a peer that is not connected.
    pub fn handle_address_list_request(&self, peer_id: PeerId, now: Time, draws: &Vec<u64>) -> (reply: Option<
        Command,
    >)
        requires
            self.wf(),
        ensures
            reply.is_some() == self@.has_peer(peer_id),
            reply matches Some(command) ==> command matches Command::SendMessage(to, Message::AddrListResponse(told))
                && to == peer_id && told@ == sample(
                self@.db.good_addresses(now),
                draws@,
                0,
                self@.config.max_address_count as nat,
            ),
    {
        match self.peer(peer_id) {
            Some(_) => {
                let told = self.handle_address_request(now, draws);
                Some(Command::SendMessage(peer_id, Message::AddrListResponse(told)))
            },
            None => None,
        }
    }

    /// Records that a ping with `nonce` is sent to the peer at `now`.
    ///
    /// Returns the request to send, or `None` if the peer is not connected or
    /// still owes the answer to an earlier ping.
    pub fn send_ping(&mut self, peer_id: PeerId, nonce: u64, now: Time) -> (request: Option<PingRequest>)
        requires
            old(self).wf(),
        ensures
            final(self).wf(),
            request == if old(self)@.can_ping(peer_id) {
                Some(PingRequest { nonce })
            } else {
                None
            },
            final(self)@ == old(self)@.after_ping_sent(peer_id, nonce, now),
    {
        match self.peer(peer_id) {
            Some(peer) => {
                if peer.sent_ping.is_some() {
                    return None;
                }
                let updated = PeerContext { sent_ping: Some(SentPing { nonce, sent_at: now }), ..peer };
                self.replace_peer(updated);
                Some(PingRequest { nonce })
            },
            None => None,
        }
    }

    /// Takes note of a pong with `nonce` that arrived from the peer at `now`.
    pub fn handle_ping_response(&mut self, peer_id: PeerId, nonce: u64, now: Time) -> (outcome: PongOutcome)
        requires
            old(self).wf(),
        ensures
            final(self).wf(),
            outcome == old(self)@.pong_outcome(peer_id, nonce, now),
            final(self)@ == old(self)@.after_pong(peer_id, nonce, now),
    {
        let peer = match self.peer(peer_id) {
            Some(peer) => peer,
            None => {
                return PongOutcome::UnknownPeer;
            },
        };
        match peer.sent_ping {
            Some(ping) => {
                if ping.nonce != nonce {
                    return PongOutcome::Unexpected;
                }
                let round_trip: u64 = if now.secs >= ping.sent_at.secs {
                    now.secs - ping.sent_at.secs
                } else {
                    0
                };
                let best: u64 = match peer.ping_min {
                    Some(old) => if old <= round_trip {
                        old
                    } else {
                        round_trip
                    },
                    None => round_trip,
                };
                let updated = PeerContext { sent_ping: None, ping_min: Some(best), ..peer };
                self.replace_peer(updated);
                PongOutcome::Accepted { round_trip }
            },
            None => PongOutcome::Unexpected,
        }
    }

    /// Checks at `now` whether the peer has answered its ping in time.
    ///
    /// If the ping is overdue, the peer is scored as unresponsive and its
    /// connection is taken out of the table; the result then tells what the
    /// score did and which other connections were closed by a ban.  The
    /// caller disconnects the peer and those connections.
    pub fn check_ping(&mut self, peer_id: PeerId, now: Time) -> (result: Option<(ScoreOutcome, Vec<PeerId>)>)
        requires
            old(self).wf(),
        ensures
            final(self).wf(),
            result.is_some() == old(self)@.ping_overdue(peer_id, now),
            final(self)@ == old(self)@.after_ping_check(peer_id, now),
            result matches Some(scored) ==> scored.0 == old(self)@.score_outcome(
                peer_id,
                severe_violation_score(),
                now,
            ),
            result matches Some(scored) ==> scored.1@ == match scored.0 {
                ScoreOutcome::Banned { address, until } => old(self)@.closed_by_ban(address),
                _ => Seq::<PeerId>::empty(),
            },
    {
        let peer = match self.peer(peer_id) {
            Some(peer) => peer,
            None => {
                return None;
            },
        };
        match peer.sent_ping {
            Some(ping) => {
                if now.secs >= ping.sent_at.secs && now.secs - ping.sent_at.secs >= self.config().ping_timeout {
                    let score = ProtocolError::Unresponsive.ban_score();
                    let scored = self.adjust_peer_score(peer_id, score, now);
                    self.connection_closed(peer_id);
                    Some(scored)
                } else {
                    None
                }
            },
            None => None,
        }
    }

    /// Answers a request for addresses at `now`: a part of the addresses
    /// that may be told to other peers, selected by `draws`, no larger than
    /// an address message may be.
    pub fn handle_address_request(&self, now: Time, draws: &Vec<u64>) -> (addresses: Vec<PeerAddress>)
        requires
            self.wf(),
        ensures
            addresses@ == sample(self@.db.good_addresses(now), draws@, 0, self@.config.max_address_count as nat),
    {
        self.peerdb().addresses_for_gossip(now, self.config().max_address_count, draws)
    }

    /// Takes note of the addresses that a peer told us at `now`.
    ///
    /// A message with more addresses than an address message may hold is a
    /// violation of the protocol, and nothing of it is kept.  Otherwise every
    /// address that is news is entered into the address book, and the number
    /// of those addresses is returned.
    pub fn handle_address_list(&mut self, addresses: &Vec<PeerAddress>, now: Time) -> (result: Result<
        usize,
        ProtocolError,
    >)
        requires
            old(self).wf(),
        ensures
            final(self).wf(),
            match result {
                Ok(added) => {
                    &&& addresses@.len() <= old(self)@.config.max_address_count
                    &&& final(self)@ == (PeerManagerView {
                        db: old(self)@.db.with_all_discovered(addresses@, now),
                        ..old(self)@
                    })
                    &&& added == final(self)@.db.known.len() - old(self)@.db.known.len()
                },
                Err(err) => {
                    &&& addresses@.len() > old(self)@.config.max_address_count
                    &&& err == ProtocolError::AddressListLimitExceeded
                    &&& final(self)@ == old(self)@
                },
            },
    {
        if addresses.len() > self.config().max_address_count {
            return Err(ProtocolError::AddressListLimitExceeded);
        }
        let mut added: usize = 0;
        let mut i: usize = 0;
        assert(addresses@.subrange(0, 0) =~= Seq::empty());
        while i < addresses.len()
            invariant
                i <= addresses.len(),
                added <= i,
                self.wf(),
                self@ == (PeerManagerView {
                    db: old(self)@.db.with_all_discovered(addresses@.subrange(0, i as int), now),
                    ..old(self)@
                }),
                added == self@.db.known.len() - old(self)@.db.known.len(),
            decreases addresses.len() - i,
        {
            assert(addresses@.subrange(0, i as int + 1).drop_last() =~= addresses@.subrange(0, i as int));
            if self.discover(addresses[i].socket_address(), now) {
                added += 1;
            }
            i += 1;
        }
        assert(addresses@.subrange(0, addresses@.len() as int) =~= addresses@);
        Ok(added)
    }

    /// The address to which the next outbound connection is to be made at
    /// `now`, if the node wants one and the address book has one to offer.
    pub fn next_outbound_attempt(&self, now: Time) -> (candidate: Option<SocketAddress>)
        requires
            self.wf(),
        ensures
            match candidate {
                Some(address) => self@.wants_outbound() && exists|i: int|
                    #[trigger] self@.db.is_next_to_dial(i, now, self@.connected_addresses()) && self@.db.known[i].address
                        == address,
                None => !self@.wants_outbound() || forall|i: int|
                    !self@.db.may_dial(i, now, self@.connected_addresses()),
            },
    {
        if self.count_automatic_outbound() >= self.config().outbound_target {
            return None;
        }
        let peers = self.connected_peers();
        let mut connected: Vec<SocketAddress> = Vec::new();
        let mut i: usize = 0;
        while i < peers.len()
            invariant
                i <= peers.len(),
                peers@ == self@.peers,
                connected@.len() == i,
                forall|k: int| 0 <= k < i ==> connected@[k] == peers@[k].address,
            decreases peers.len() - i,
        {
            connected.push(peers[i].address);
            i += 1;
        }
        assert(connected@ =~= self@.connected_addresses());
        self.peerdb().select_dial_candidate(now, &connected)
    }
}

} // verus!
