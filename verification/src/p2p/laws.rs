//! What holds of the peer manager whatever the events are.
//!
//! The statements here relate several rules of the manager to each other.
//! They are about the mathematical state of the manager; the executable
//! functions are tied to that state by their own contracts.

use vstd::prelude::*;
use crate::p2p::ban_table::holds_at;
use crate::p2p::connectivity::Command;
use crate::p2p::error::{ConnectionValidationError, P2pError};
use crate::p2p::eviction::{is_evictable, is_victim};
use crate::p2p::peer_events::{Message, PingRequest, PingResponse};
use crate::p2p::peer_manager::{
    distinct_peers, inbound_count, lemma_filter_keeps_distinct_peers, lemma_filter_positions, lemma_inbound_count_push,
    lemma_inbound_count_remove, lemma_update_keeps_distinct, ConnectionInfo, PeerContext, PeerManagerView,
    ScoreOutcome,
};
use crate::p2p::peerdb::PeerDbView;
use crate::p2p::socket_address::SocketAddress;
use crate::p2p::types::{PeerId, PeerRole};
use crate::primitives::{Time, TimeRange};

verus! {

/// A connection from a banned address is refused, unless the operator asked
/// for it.
pub proof fn lemma_banned_address_is_refused(state: PeerManagerView, info: ConnectionInfo, now: Time)
    requires
        state.db.is_banned(info.address.as_bannable(), now),
        !state.is_whitelisted(info.address, info.role),
    ensures
        state.admission(info, now) is Err,
{
}

/// A ban covers every port of the banned address: while one socket of an IP
/// address is banned, connections from all sockets of that IP address are
/// refused.
pub proof fn lemma_ban_covers_all_ports(
    state: PeerManagerView,
    banned: SocketAddress,
    info: ConnectionInfo,
    now: Time,
)
    requires
        state.db.is_banned(banned.as_bannable(), now),
        info.address.ip == banned.ip,
        !state.is_whitelisted(info.address, info.role),
    ensures
        state.admission(info, now) is Err,
{
    assert(info.address.as_bannable() == banned.as_bannable());
}

/// A ban that has run out is as good as no ban: the decision on a new
/// connection is the same as if the address had never been banned.
pub proof fn lemma_expired_ban_is_forgotten(state: PeerManagerView, info: ConnectionInfo, now: Time)
    requires
        state.db.bans.contains_key(info.address.as_bannable()),
        !holds_at(state.db.bans[info.address.as_bannable()], now),
    ensures
        state.admission(info, now) == (PeerManagerView {
            db: PeerDbView { bans: state.db.bans.remove(info.address.as_bannable()), ..state.db },
            ..state
        }).admission(info, now),
{
    let cleared = PeerManagerView {
        db: PeerDbView { bans: state.db.bans.remove(info.address.as_bannable()), ..state.db },
        ..state
    };
    assert(cleared.eviction_table(now) =~= state.eviction_table(now));
    assert(cleared.first_objection(info, now) == state.first_objection(info, now));
}

/// The first handshake: on a manager without connections, a connection
/// that passes the checks of network, clock, ban, protocol version and
/// services, and that finds a slot, is admitted without an eviction.  The
/// manager then has exactly one connection, in the role and to the address
/// of the handshake.
pub proof fn lemma_first_handshake_is_admitted(state: PeerManagerView, info: ConnectionInfo, now: Time)
    requires
        state.peers.len() == 0,
        !state.pending_nonces.contains(info.handshake_nonce),
        info.network == state.config.our_network,
        TimeRange::spec_around(now, state.config.max_clock_diff).spec_contains(info.remote_time),
        state.is_whitelisted(info.address, info.role) || (!state.db.is_banned(info.address.as_bannable(), now)
            && !state.db.is_discouraged(info.address.as_bannable(), now)),
        info.protocol_version.version >= state.config.min_protocol_version.version,
        state.common_services(info).bits != 0,
        state.common_services(info).spec_has_all(&state.config.spec_needed_services(info.role)),
        info.role == PeerRole::Inbound ==> state.config.max_inbound_connections > 0,
    ensures
        state.admission(info, now) == Ok::<Option<PeerId>, P2pError>(None),
        state.after_admission(info, now).peers.len() == 1,
        state.after_admission(info, now).peers[0].peer_id == info.peer_id,
        state.after_admission(info, now).peers[0].role == info.role,
        state.after_admission(info, now).peers[0].address == info.address,
        state.after_admission(info, now).peers[0].score == 0,
{
    assert(!state.has_peer(info.peer_id));
    assert(!state.is_connected_to(info.address));
    assert(state.first_objection(info, now).is_none());
    assert(inbound_count(state.peers) == 0);
}

/// A violation that does not take a peer to the ban threshold leaves the
/// peer connected: scores add up within a session, and only a ban ends it.
pub proof fn lemma_scored_peer_stays_until_banned(state: PeerManagerView, i: int, score: u32, now: Time)
    requires
        distinct_peers(state.peers),
        0 <= i < state.peers.len(),
        !(state.score_outcome(state.peers[i].peer_id, score, now) is Banned),
    ensures
        state.after_score(state.peers[i].peer_id, score, now).has_peer(state.peers[i].peer_id),
        state.after_score(state.peers[i].peer_id, score, now).peers.len() == state.peers.len(),
        state.after_score(state.peers[i].peer_id, score, now).db.bans == state.db.bans,
{
    lemma_position_of(state, i);
    let after = state.after_score(state.peers[i].peer_id, score, now);
    assert(after.peers[i].peer_id == state.peers[i].peer_id);
}

/// A refused connection leaves the manager as it was.
pub proof fn lemma_refusal_changes_nothing(state: PeerManagerView, info: ConnectionInfo, now: Time)
    requires
        state.admission(info, now) is Err,
    ensures
        state.after_admission(info, now) == state,
{
}

/// Where all inbound slots are taken and the operator asked for every
/// connection in the table, a new inbound connection that is otherwise
/// acceptable is refused because nobody can be evicted, and the table stays
/// as it was.
pub proof fn lemma_nobody_to_evict(state: PeerManagerView, info: ConnectionInfo, now: Time)
    requires
        info.role == PeerRole::Inbound,
        state.inbound_full(),
        forall|i: int|
            0 <= i < state.peers.len() ==> (#[trigger] state.peers[i]).role.is_protected() || state.db.is_reserved(
                state.peers[i].address,
            ),
        state.first_objection(info, now).is_none(),
    ensures
        state.admission(info, now) == Err::<Option<PeerId>, P2pError>(
            P2pError::ConnectionValidationFailed(ConnectionValidationError::TooManyInboundPeersAndCannotEvictAnyone),
        ),
        state.after_admission(info, now) == state,
        state.after_admission(info, now).peers.len() == state.peers.len(),
{
    let table = state.eviction_table(now);
    assert forall|i: int| 0 <= i < table.len() implies !(#[trigger] table[i]).eligible() by {
        assert(state.peers[i].role.is_protected() || state.db.is_reserved(state.peers[i].address));
    }
    assert forall|i: int| !is_victim(table, state.config.eviction, i) by {
        assert(!is_evictable(table, state.config.eviction, i));
    }
}

/// The inbound slots are never exceeded: if no more peers than there are
/// slots have connected to us, that is still so after the decision on a new
/// connection.
pub proof fn lemma_inbound_slots_are_kept(state: PeerManagerView, info: ConnectionInfo, now: Time)
    requires
        distinct_peers(state.peers),
        inbound_count(state.peers) <= state.config.max_inbound_connections,
    ensures
        inbound_count(state.after_admission(info, now).peers) <= state.config.max_inbound_connections,
{
    let entry = state.new_context(info, now);
    match state.admission(info, now) {
        Err(_) => {},
        Ok(None) => {
            lemma_inbound_count_push(state.peers, entry);
        },
        Ok(Some(evicted)) => {
            let table = state.eviction_table(now);
            let i = choose|i: int| is_victim(table, state.config.eviction, i);
            assert(is_evictable(table, state.config.eviction, i));
            assert(table[i] == state.candidate_of(state.peers[i], now));
            lemma_position_of(state, i);
            lemma_inbound_count_remove(state.peers, i);
            lemma_inbound_count_push(state.peers.remove(i), entry);
        },
    }
}

/// A peer that is evicted for a newcomer connected to us and was not
/// reserved by the operator.
pub proof fn lemma_evicted_peer_is_unprotected(state: PeerManagerView, info: ConnectionInfo, now: Time)
    requires
        state.admission(info, now) matches Ok(Some(_)),
    ensures
        exists|i: int|
            0 <= i < state.peers.len() && Ok::<Option<PeerId>, P2pError>(Some((#[trigger] state.peers[i]).peer_id))
                == state.admission(info, now) && state.peers[i].role == PeerRole::Inbound && !state.db.is_reserved(
                state.peers[i].address,
            ),
{
    let table = state.eviction_table(now);
    let i = choose|i: int| is_victim(table, state.config.eviction, i);
    assert(is_evictable(table, state.config.eviction, i));
    assert(table[i] == state.candidate_of(state.peers[i], now));
    assert(state.peers[i].peer_id == table[i].peer_id);
}

/// A violation that is counted against a peer: its score and the time at
/// which it is counted.
pub struct Violation {
    pub score: u32,
    pub at: Time,
}

/// The sum of the scores of a sequence of violations.
pub open spec fn total_score(violations: Seq<Violation>) -> nat
    decreases violations.len(),
{
    if violations.len() == 0 {
        0
    } else {
        violations.first().score as nat + total_score(violations.drop_first())
    }
}

/// The place of the violation with which a peer that starts at `score`
/// reaches `threshold`; the number of violations if it never does.
pub open spec fn crossing(score: nat, violations: Seq<Violation>, threshold: nat) -> int
    decreases violations.len(),
{
    if violations.len() == 0 || score + violations.first().score >= threshold {
        0
    } else {
        1 + crossing((score + violations.first().score) as nat, violations.drop_first(), threshold)
    }
}

/// The state after a sequence of violations was counted against one peer,
/// one after the other.
pub open spec fn after_violations(state: PeerManagerView, peer_id: PeerId, violations: Seq<Violation>) -> PeerManagerView
    decreases violations.len(),
{
    if violations.len() == 0 {
        state
    } else {
        after_violations(
            state.after_score(peer_id, violations.first().score, violations.first().at),
            peer_id,
            violations.drop_first(),
        )
    }
}

/// Violations counted against a peer that is not in the table change nothing.
pub proof fn lemma_unknown_peer_is_not_scored(state: PeerManagerView, peer_id: PeerId, violations: Seq<Violation>)
    requires
        !state.has_peer(peer_id),
    ensures
        after_violations(state, peer_id, violations) == state,
    decreases violations.len(),
{
    if violations.len() > 0 {
        lemma_unknown_peer_is_not_scored(state, peer_id, violations.drop_first());
    }
}

/// Where the ids of a table are distinct, the position of an id is the place
/// at which it stands.
pub proof fn lemma_position_of(state: PeerManagerView, i: int)
    requires
        distinct_peers(state.peers),
        0 <= i < state.peers.len(),
    ensures
        state.has_peer(state.peers[i].peer_id),
        state.position_of(state.peers[i].peer_id) == i,
{
    assert(state.peers[i].peer_id == state.peers[i].peer_id);
}

/// After a ban, no connection from the banned address is left in the table,
/// but for those that the operator asked for; in particular the peer whose
/// violations led to the ban is gone.
pub proof fn lemma_ban_disconnects(state: PeerManagerView, peer_id: PeerId, score: u32, now: Time)
    requires
        distinct_peers(state.peers),
        state.score_outcome(peer_id, score, now) is Banned,
    ensures
        !state.after_score(peer_id, score, now).has_peer(peer_id),
        distinct_peers(state.after_score(peer_id, score, now).peers),
        forall|k: int|
            0 <= k < state.after_score(peer_id, score, now).peers.len() ==> !state.hit_by_ban(
                #[trigger] state.after_score(peer_id, score, now).peers[k],
                state.peers[state.position_of(peer_id)].address.as_bannable(),
            ),
{
    let i = state.position_of(peer_id);
    let key = state.peers[i].address.as_bannable();
    let keep = |peer: PeerContext| !state.hit_by_ban(peer, key);
    let after = state.after_score(peer_id, score, now);
    assert(after.peers == state.peers.filter(keep));
    lemma_filter_keeps_distinct_peers(state.peers, keep);
    assert forall|k: int| 0 <= k < after.peers.len() implies !state.hit_by_ban(#[trigger] after.peers[k], key) by {
        let k0 = lemma_filter_positions(state.peers, keep, k);
    }
    if after.has_peer(peer_id) {
        let k = choose|k: int| 0 <= k < after.peers.len() && #[trigger] after.peers[k].peer_id == peer_id;
        let k0 = lemma_filter_positions(state.peers, keep, k);
        assert(state.peers[k0].peer_id == state.peers[i].peer_id);
        assert(k0 == i);
        assert(state.hit_by_ban(state.peers[i], key));
    }
}

/// A ban lasts exactly as long as the configuration says: from the moment of
/// the ban the address is banned at every time before the end, and at no
/// time from the end on.
pub proof fn lemma_ban_lasts_as_configured(state: PeerManagerView, peer_id: PeerId, score: u32, now: Time, at: Time)
    requires
        state.score_outcome(peer_id, score, now) is Banned,
    ensures
        state.score_outcome(peer_id, score, now)->Banned_until == now.spec_saturating_add_secs(state.config.ban_duration),
        state.after_score(peer_id, score, now).db.is_banned(
            state.score_outcome(peer_id, score, now)->Banned_address,
            at,
        ) == (at.secs < now.spec_saturating_add_secs(state.config.ban_duration).secs),
{
}

/// Violations add up: when the scores of the violations of a connected
/// peer, together with the score it had, reach the ban threshold, the peer is
/// gone from the table, and its address is banned for the configured time
/// from the moment of the violation with which the threshold was reached.
/// The operator's own peers are exempt.
pub proof fn lemma_violations_lead_to_ban(state: PeerManagerView, i: int, violations: Seq<Violation>)
    requires
        distinct_peers(state.peers),
        0 <= i < state.peers.len(),
        !state.is_whitelisted(state.peers[i].address, state.peers[i].role),
        state.peers[i].score + total_score(violations) >= state.config.ban_threshold,
        state.peers[i].score < state.config.ban_threshold,
    ensures
        0 <= crossing(state.peers[i].score as nat, violations, state.config.ban_threshold as nat) < violations.len(),
        !after_violations(state, state.peers[i].peer_id, violations).has_peer(state.peers[i].peer_id),
        after_violations(state, state.peers[i].peer_id, violations).db.bans.contains_key(
            state.peers[i].address.as_bannable(),
        ),
        after_violations(state, state.peers[i].peer_id, violations).db.bans[state.peers[i].address.as_bannable()]
            == violations[crossing(
            state.peers[i].score as nat,
            violations,
            state.config.ban_threshold as nat,
        )].at.spec_saturating_add_secs(state.config.ban_duration),
        after_violations(state, state.peers[i].peer_id, violations).config == state.config,
        after_violations(state, state.peers[i].peer_id, violations).db.reserved == state.db.reserved,
    decreases violations.len(),
{
    let peer = state.peers[i];
    let peer_id = peer.peer_id;
    lemma_position_of(state, i);
    if violations.len() == 0 {
        assert(total_score(violations) == 0);
    } else {
        let first = violations.first();
        let rest = violations.drop_first();
        let next = state.after_score(peer_id, first.score, first.at);
        match state.score_outcome(peer_id, first.score, first.at) {
            ScoreOutcome::Banned { address, until } => {
                lemma_ban_disconnects(state, peer_id, first.score, first.at);
                lemma_unknown_peer_is_not_scored(next, peer_id, rest);
            },
            ScoreOutcome::Kept { total } => {
                let updated = PeerContext { score: total, ..peer };
                lemma_update_keeps_distinct(state.peers, i, updated);
                assert(next.peers[i] == updated);
                lemma_violations_lead_to_ban(next, i, rest);
                assert(violations[1 + crossing(total as nat, rest, state.config.ban_threshold as nat)] == rest[crossing(
                    total as nat,
                    rest,
                    state.config.ban_threshold as nat,
                )]);
            },
            ScoreOutcome::Discouraged { total, until } => {
                let updated = PeerContext { score: total, ..peer };
                lemma_update_keeps_distinct(state.peers, i, updated);
                assert(next.peers[i] == updated);
                lemma_violations_lead_to_ban(next, i, rest);
                assert(violations[1 + crossing(total as nat, rest, state.config.ban_threshold as nat)] == rest[crossing(
                    total as nat,
                    rest,
                    state.config.ban_threshold as nat,
                )]);
            },
            _ => {},
        }
    }
}

/// While a ban that followed from violations holds, no connection from the
/// banned address is admitted, whatever its port.
pub proof fn lemma_banned_peer_cannot_return(
    state: PeerManagerView,
    i: int,
    violations: Seq<Violation>,
    info: ConnectionInfo,
    at: Time,
)
    requires
        distinct_peers(state.peers),
        0 <= i < state.peers.len(),
        !state.is_whitelisted(state.peers[i].address, state.peers[i].role),
        state.peers[i].score + total_score(violations) >= state.config.ban_threshold,
        state.peers[i].score < state.config.ban_threshold,
        info.address.ip == state.peers[i].address.ip,
        !state.is_whitelisted(info.address, info.role),
        at.secs < violations[crossing(
            state.peers[i].score as nat,
            violations,
            state.config.ban_threshold as nat,
        )].at.spec_saturating_add_secs(state.config.ban_duration).secs,
    ensures
        after_violations(state, state.peers[i].peer_id, violations).admission(info, at) is Err,
{
    lemma_violations_lead_to_ban(state, i, violations);
    let end = after_violations(state, state.peers[i].peer_id, violations);
    assert(info.address.as_bannable() == state.peers[i].address.as_bannable());
    assert(end.db.is_banned(info.address.as_bannable(), at));
}

/// An answered ping costs nothing.  The node that is asked answers the peer
/// that asked, with the nonce of the request; the node that asked accepts
/// that answer, and afterwards has the same connections with the same scores
/// and waits for no answer from the peer any more.
pub proof fn lemma_answered_ping_costs_nothing(
    asked: PeerManagerView,
    from: PeerId,
    asking: PeerManagerView,
    i: int,
    nonce: u64,
    sent: Time,
    now: Time,
)
    requires
        asked.has_peer(from),
        distinct_peers(asking.peers),
        0 <= i < asking.peers.len(),
        asking.can_ping(asking.peers[i].peer_id),
    ensures
        asked.ping_reply(from, PingRequest { nonce }) == Some(
            Command::SendMessage(from, Message::PingResponse(PingResponse { nonce })),
        ),
        ({
            let to = asking.peers[i].peer_id;
            let waiting = asking.after_ping_sent(to, nonce, sent);
            let done = waiting.after_pong(to, nonce, now);
            &&& waiting.pong_outcome(to, nonce, now) is Accepted
            &&& done.peers.len() == asking.peers.len()
            &&& done.db == asking.db
            &&& done.peers[i].sent_ping.is_none()
            &&& forall|j: int|
                0 <= j < asking.peers.len() ==> (#[trigger] done.peers[j]).peer_id == asking.peers[j].peer_id
                    && done.peers[j].score == asking.peers[j].score
        }),
{
    let to = asking.peers[i].peer_id;
    lemma_position_of(asking, i);
    let waiting = asking.after_ping_sent(to, nonce, sent);
    lemma_update_keeps_distinct(asking.peers, i, waiting.peers[i]);
    lemma_position_of(waiting, i);
}

} // verus!
