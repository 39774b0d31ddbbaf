//! The bookkeeping of the connectivity service.
//!
//! The service dials, accepts and closes connections on behalf of the peer
//! manager.  The sockets are the caller's; what is kept here is which dials
//! are under way and in which state each connection is.  Two things are
//! guaranteed: the service never dials an address to which it has a dial
//! under way or an outbound connection, and every connection is reported
//! closed exactly once.

use vstd::prelude::*;
use crate::p2p::error::PeerError;
use crate::p2p::peer_events::Message;
use crate::p2p::socket_address::SocketAddress;
use crate::p2p::types::{PeerId, PeerRole};

verus! {

/// The stages of a connection.
#[derive(Clone, Copy, Debug, PartialEq, Eq, Structural)]
pub enum ConnectionState {
    /// The transport is being set up.
    Connecting,
    /// The stream is open; the handshake has not been completed.
    Handshaking,
    /// The handshake was completed; the peer manager has not decided yet.
    Validated,
    /// The peer manager admitted the connection.
    Active,
    /// The connection is being closed on our side.
    Disconnecting,
    /// The connection is gone.
    Closed,
}

/// What can happen to a connection.
#[derive(Clone, Copy, Debug, PartialEq, Eq, Structural)]
pub enum ConnectionStep {
    StreamOpened,
    HandshakeCompleted,
    Admitted,
    DisconnectRequested,
    StreamClosed,
}

impl ConnectionState {
    /// Whether nothing can happen to the connection any more.
    pub open spec fn spec_is_terminal(&self) -> bool {
        *self == ConnectionState::Closed
    }

    /// The stage after a step, or `None` if the step cannot be taken at
    /// this stage.
    pub open spec fn spec_after(&self, step: ConnectionStep) -> Option<ConnectionState> {
        match (*self, step) {
            (ConnectionState::Closed, _) => None,
            (_, ConnectionStep::StreamClosed) => Some(ConnectionState::Closed),
            (ConnectionState::Disconnecting, _) => None,
            (_, ConnectionStep::DisconnectRequested) => Some(ConnectionState::Disconnecting),
            (ConnectionState::Connecting, ConnectionStep::StreamOpened) => Some(ConnectionState::Handshaking),
            (ConnectionState::Handshaking, ConnectionStep::HandshakeCompleted) => Some(ConnectionState::Validated),
            (ConnectionState::Validated, ConnectionStep::Admitted) => Some(ConnectionState::Active),
            _ => None,
        }
    }

    #[verifier::when_used_as_spec(spec_is_terminal)]
    pub fn is_terminal(&self) -> (terminal: bool)
        ensures
            terminal == self.spec_is_terminal(),
    {
        match self {
            ConnectionState::Closed => true,
            _ => false,
        }
    }

    #[verifier::when_used_as_spec(spec_after)]
    pub fn after(&self, step: ConnectionStep) -> (next: Option<ConnectionState>)
        ensures
            next == self.spec_after(step),
    {
        match self {
            ConnectionState::Closed => None,
            ConnectionState::Disconnecting => match step {
                ConnectionStep::StreamClosed => Some(ConnectionState::Closed),
                _ => None,
            },
            ConnectionState::Connecting => match step {
                ConnectionStep::StreamClosed => Some(ConnectionState::Closed),
                ConnectionStep::DisconnectRequested => Some(ConnectionState::Disconnecting),
                ConnectionStep::StreamOpened => Some(ConnectionState::Handshaking),
                _ => None,
            },
            ConnectionState::Handshaking => match step {
                ConnectionStep::StreamClosed => Some(ConnectionState::Closed),
                ConnectionStep::DisconnectRequested => Some(ConnectionState::Disconnecting),
                ConnectionStep::HandshakeCompleted => Some(ConnectionState::Validated),
                _ => None,
            },
            ConnectionState::Validated => match step {
                ConnectionStep::StreamClosed => Some(ConnectionState::Closed),
                ConnectionStep::DisconnectRequested => Some(ConnectionState::Disconnecting),
                ConnectionStep::Admitted => Some(ConnectionState::Active),
                _ => None,
            },
            ConnectionState::Active => match step {
                ConnectionStep::StreamClosed => Some(ConnectionState::Closed),
                ConnectionStep::DisconnectRequested => Some(ConnectionState::Disconnecting),
                _ => None,
            },
        }
    }
}

/// A closed connection stays closed, and every other connection can be
/// closed in one step.
pub proof fn lemma_closed_is_terminal_and_reachable(state: ConnectionState, step: ConnectionStep)
    ensures
        ConnectionState::Closed.spec_after(step).is_none(),
        !state.spec_is_terminal() ==> state.spec_after(ConnectionStep::StreamClosed) == Some(ConnectionState::Closed),
        state.spec_after(step) matches Some(next) ==> next != ConnectionState::Connecting,
{
}

/// What the service is told to do.
#[derive(Clone, Debug, PartialEq, Eq)]
pub enum Command {
    Connect(SocketAddress),
    Disconnect(PeerId),
    SendMessage(PeerId, Message),
}

/// A connection as the service knows it.
#[derive(Clone, Copy, Debug, PartialEq, Eq, Structural)]
pub struct Connection {
    pub peer_id: PeerId,
    pub address: SocketAddress,
    pub role: PeerRole,
    pub state: ConnectionState,
}

/// What the service holds, as mathematics.
pub struct ConnectivityView {
    /// The addresses that are being dialed.
    pub dialing: Seq<SocketAddress>,
    /// The connections that are not closed.
    pub connections: Seq<Connection>,
    /// The id that the next connection gets.
    pub next_peer_id: u64,
}

impl ConnectivityView {
    /// Whether the service has a connection with the given id.
    pub open spec fn has(self, peer_id: PeerId) -> bool {
        exists|i: int| 0 <= i < self.connections.len() && #[trigger] self.connections[i].peer_id == peer_id
    }

    /// Position of the connection with the given id.
    pub open spec fn position_of(self, peer_id: PeerId) -> int {
        choose|i: int| 0 <= i < self.connections.len() && #[trigger] self.connections[i].peer_id == peer_id
    }

    /// Whether the service itself has connected to the address.
    pub open spec fn has_dialed(self, address: SocketAddress) -> bool {
        exists|i: int|
            0 <= i < self.connections.len() && (#[trigger] self.connections[i]).address == address
                && self.connections[i].role != PeerRole::Inbound
    }

    /// Every id in use is below the next id, no id is in use twice, no
    /// address is dialed twice, and no connection is closed.
    pub open spec fn wf(self) -> bool {
        &&& forall|i: int| 0 <= i < self.connections.len() ==> (#[trigger] self.connections[i]).peer_id.id < self.next_peer_id
        &&& forall|i: int, j: int|
            0 <= i < self.connections.len() && 0 <= j < self.connections.len() && i != j ==> self.connections[i].peer_id
                != self.connections[j].peer_id
        &&& self.dialing.no_duplicates()
        &&& forall|i: int| 0 <= i < self.connections.len() ==> (#[trigger] self.connections[i]).state != ConnectionState::Closed
    }
}

/// The bookkeeping of the connectivity service.
pub struct Connectivity {
    dialing: Vec<SocketAddress>,
    connections: Vec<Connection>,
    next_peer_id: u64,
}

impl View for Connectivity {
    type V = ConnectivityView;

    closed spec fn view(&self) -> ConnectivityView {
        ConnectivityView { dialing: self.dialing@, connections: self.connections@, next_peer_id: self.next_peer_id }
    }
}

impl Connectivity {
    /// A service without dials and connections.
    pub fn new() -> (service: Self)
        ensures
            service@.wf(),
            service@ == (ConnectivityView { dialing: Seq::empty(), connections: Seq::empty(), next_peer_id: 1 }),
    {
        Connectivity { dialing: Vec::new(), connections: Vec::new(), next_peer_id: 1 }
    }

    /// Number of connections that are not closed.
    pub fn connection_count(&self) -> (n: usize)
        ensures
            n == self@.connections.len(),
    {
        self.connections.len()
    }

    fn find(&self, peer_id: PeerId) -> (found: Option<usize>)
        requires
            self@.wf(),
        ensures
            found.is_some() == self@.has(peer_id),
            found matches Some(i) ==> i < self@.connections.len() && self@.connections[i as int].peer_id == peer_id
                && i == self@.position_of(peer_id),
    {
        let mut i: usize = 0;
        while i < self.connections.len()
            invariant
                i <= self.connections.len(),
                self@.wf(),
                forall|k: int| 0 <= k < i ==> self.connections@[k].peer_id != peer_id,
            decreases self.connections.len() - i,
        {
            if self.connections[i].peer_id == peer_id {
                assert(self@.connections[i as int].peer_id == peer_id);
                return Some(i);
            }
            i += 1;
        }
        None
    }

    fn dial_position(&self, address: SocketAddress) -> (found: Option<usize>)
        ensures
            found.is_some() == self@.dialing.contains(address),
            found matches Some(i) ==> i < self@.dialing.len() && self@.dialing[i as int] == address,
    {
        let mut i: usize = 0;
        while i < self.dialing.len()
            invariant
                i <= self.dialing.len(),
                forall|k: int| 0 <= k < i ==> self.dialing@[k] != address,
            decreases self.dialing.len() - i,
        {
            if self.dialing[i] == address {
                assert(self@.dialing[i as int] == address);
                return Some(i);
            }
            i += 1;
        }
        None
    }

    fn check_has_dialed(&self, address: SocketAddress) -> (dialed: bool)
        ensures
            dialed == self@.has_dialed(address),
    {
        let mut i: usize = 0;
        while i < self.connections.len()
            invariant
                i <= self.connections.len(),
                forall|k: int|
                    0 <= k < i ==> !((#[trigger] self.connections@[k]).address == address && self.connections@[k].role
                        != PeerRole::Inbound),
            decreases self.connections.len() - i,
        {
            if self.connections[i].address == address && !self.connections[i].role.is_inbound() {
                assert(self@.connections[i as int].address == address);
                return true;
            }
            i += 1;
        }
        false
    }

    /// The state of a connection, if the service has it.
    pub fn state_of(&self, peer_id: PeerId) -> (state: Option<ConnectionState>)
        requires
            self@.wf(),
        ensures
            state == if self@.has(peer_id) {
                Some(self@.connections[self@.position_of(peer_id)].state)
            } else {
                None
            },
    {
        match self.find(peer_id) {
            Some(i) => Some(self.connections[i].state),
            None => None,
        }
    }

    /// Starts a dial, unless a dial to the address is under way or the
    /// service has connected to the address already.
    pub fn connect(&mut self, address: SocketAddress) -> (result: Result<Command, PeerError>)
        requires
            old(self)@.wf(),
        ensures
            final(self)@.wf(),
            match result {
                Ok(command) => {
                    &&& !old(self)@.dialing.contains(address)
                    &&& !old(self)@.has_dialed(address)
                    &&& command == Command::Connect(address)
                    &&& final(self)@ == (ConnectivityView { dialing: old(self)@.dialing.push(address), ..old(self)@ })
                },
                Err(err) => {
                    &&& (old(self)@.dialing.contains(address) || old(self)@.has_dialed(address))
                    &&& err == PeerError::Pending(address)
                    &&& final(self)@ == old(self)@
                },
            },
    {
        if self.dial_position(address).is_some() || self.check_has_dialed(address) {
            return Err(PeerError::Pending(address));
        }
        self.dialing.push(address);
        Ok(Command::Connect(address))
    }

    /// Takes note that a dial has failed.  Tells whether the dial was under way.
    pub fn dial_failed(&mut self, address: SocketAddress) -> (was_dialing: bool)
        requires
            old(self)@.wf(),
        ensures
            final(self)@.wf(),
            was_dialing == old(self)@.dialing.contains(address),
            !final(self)@.dialing.contains(address),
            final(self)@.connections == old(self)@.connections,
            final(self)@.next_peer_id == old(self)@.next_peer_id,
            forall|other: SocketAddress|
                other != address ==> final(self)@.dialing.contains(other) == old(self)@.dialing.contains(other),
    {
        match self.dial_position(address) {
            Some(i) => {
                let ghost before = self.dialing@;
                self.dialing.remove(i);
                proof {
                    let after = self.dialing@;
                    assert forall|a: int, b: int| 0 <= a < after.len() && 0 <= b < after.len() && a != b implies after[a]
                        != after[b] by {
                        let a0 = if a < i { a } else { a + 1 };
                        let b0 = if b < i { b } else { b + 1 };
                        assert(after[a] == before[a0] && after[b] == before[b0]);
                    }
                    assert forall|other: SocketAddress| after.contains(other) == (before.contains(other) && other
                        != address) by {
                        if after.contains(other) {
                            let k = choose|k: int| 0 <= k < after.len() && after[k] == other;
                            let k0 = if k < i { k } else { k + 1 };
                            assert(before[k0] == other);
                            assert(k0 != i);
                        }
                        if before.contains(other) && other != address {
                            let k = choose|k: int| 0 <= k < before.len() && before[k] == other;
                            let k1 = if k < i { k } else { k - 1 };
                            assert(after[k1] == other);
                        }
                    }
                }
                true
            },
            None => false,
        }
    }

    /// Enters a new connection in the given role and gives it an id that no
    /// connection has had before.  A dial to the address, if one was under
    /// way, is over.  Returns `None` if the ids have run out.
    pub fn opened(&mut self, address: SocketAddress, role: PeerRole) -> (peer_id: Option<PeerId>)
        requires
            old(self)@.wf(),
        ensures
            final(self)@.wf(),
            peer_id.is_some() == (old(self)@.next_peer_id < u64::MAX),
            peer_id matches Some(id) ==> {
                &&& id.id == old(self)@.next_peer_id
                &&& !old(self)@.has(id)
                &&& final(self)@.next_peer_id == old(self)@.next_peer_id + 1
                &&& final(self)@.connections == old(self)@.connections.push(
                    Connection { peer_id: id, address, role, state: ConnectionState::Handshaking },
                )
                &&& !final(self)@.dialing.contains(address)
                &&& forall|other: SocketAddress|
                    other != address ==> final(self)@.dialing.contains(other) == old(self)@.dialing.contains(other)
            },
            peer_id.is_none() ==> final(self)@ == old(self)@,
    {
        if self.next_peer_id == u64::MAX {
            return None;
        }
        self.dial_failed(address);
        let peer_id = PeerId::from_u64(self.next_peer_id);
        self.connections.push(Connection { peer_id, address, role, state: ConnectionState::Handshaking });
        self.next_peer_id = self.next_peer_id + 1;
        proof {
            if old(self)@.has(peer_id) {
                let k = old(self)@.position_of(peer_id);
                assert(old(self)@.connections[k].peer_id.id < old(self)@.next_peer_id);
            }
        }
        Some(peer_id)
    }

    /// Takes a step with a connection.  Returns the stage that the
    /// connection is in afterwards, or `None` if the service does not have
    /// the connection or the step cannot be taken.  A connection whose stream
    /// was closed is forgotten.
    pub fn step(&mut self, peer_id: PeerId, step: ConnectionStep) -> (next: Option<ConnectionState>)
        requires
            old(self)@.wf(),
        ensures
            final(self)@.wf(),
            next == if old(self)@.has(peer_id) {
                old(self)@.connections[old(self)@.position_of(peer_id)].state.spec_after(step)
            } else {
                None
            },
            final(self)@.dialing == old(self)@.dialing,
            final(self)@.next_peer_id == old(self)@.next_peer_id,
            final(self)@.connections == match next {
                None => old(self)@.connections,
                Some(ConnectionState::Closed) => old(self)@.connections.remove(old(self)@.position_of(peer_id)),
                Some(state) => old(self)@.connections.update(
                    old(self)@.position_of(peer_id),
                    Connection { state, ..old(self)@.connections[old(self)@.position_of(peer_id)] },
                ),
            },
    {
        let i = match self.find(peer_id) {
            Some(i) => i,
            None => {
                return None;
            },
        };
        let connection = self.connections[i];
        let next = connection.state.after(step);
        let ghost before = self.connections@;
        match next {
            None => {},
            Some(ConnectionState::Closed) => {
                self.connections.remove(i);
                proof {
                    let after = self.connections@;
                    assert forall|k: int| 0 <= k < after.len() implies (#[trigger] after[k]).peer_id.id
                        < self.next_peer_id && after[k].state != ConnectionState::Closed by {
                        let k0 = if k < i { k } else { k + 1 };
                        assert(after[k] == before[k0]);
                    }
                    assert forall|a: int, b: int| 0 <= a < after.len() && 0 <= b < after.len() && a != b implies after[a].peer_id
                        != after[b].peer_id by {
                        let a0 = if a < i { a } else { a + 1 };
                        let b0 = if b < i { b } else { b + 1 };
                        assert(after[a] == before[a0] && after[b] == before[b0]);
                    }
                }
            },
            Some(state) => {
                self.connections.set(i, Connection { state, ..connection });
                proof {
                    let after = self.connections@;
                    assert forall|k: int| 0 <= k < after.len() implies (#[trigger] after[k]).peer_id.id
                        < self.next_peer_id && after[k].state != ConnectionState::Closed by {
                        assert(after[k].peer_id == before[k].peer_id);
                    }
                    assert forall|a: int, b: int| 0 <= a < after.len() && 0 <= b < after.len() && a != b implies after[a].peer_id
                        != after[b].peer_id by {
                        assert(after[a].peer_id == before[a].peer_id && after[b].peer_id == before[b].peer_id);
                    }
                }
            },
        }
        next
    }

    /// Asks for a connection to be closed.  The command is returned the
    /// first time only; a connection that is being closed already, or that
    /// the service does not have, needs no command.
    pub fn disconnect(&mut self, peer_id: PeerId) -> (command: Option<Command>)
        requires
            old(self)@.wf(),
        ensures
            final(self)@.wf(),
            command == if old(self)@.has(peer_id) && old(self)@.connections[old(self)@.position_of(peer_id)].state
                != ConnectionState::Disconnecting {
                Some(Command::Disconnect(peer_id))
            } else {
                None
            },
            final(self)@.has(peer_id) == old(self)@.has(peer_id),
            final(self)@.has(peer_id) ==> final(self)@.connections[final(self)@.position_of(peer_id)].state
                == ConnectionState::Disconnecting,
            final(self)@.dialing == old(self)@.dialing,
            final(self)@.next_peer_id == old(self)@.next_peer_id,
            final(self)@.connections == if command.is_some() {
                old(self)@.connections.update(
                    old(self)@.position_of(peer_id),
                    Connection {
                        state: ConnectionState::Disconnecting,
                        ..old(self)@.connections[old(self)@.position_of(peer_id)]
                    },
                )
            } else {
                old(self)@.connections
            },
    {
        let had = self.find(peer_id);
        let next = self.step(peer_id, ConnectionStep::DisconnectRequested);
        proof {
            if had.is_some() {
                let i = had.unwrap() as int;
                assert(self@.connections[i].peer_id == peer_id);
                let j = self@.position_of(peer_id);
                assert(i == j);
            } else {
                assert(self@.connections == old(self)@.connections);
            }
        }
        match next {
            Some(_) => Some(Command::Disconnect(peer_id)),
            None => None,
        }
    }

    /// Takes note that the stream of a connection was closed.  Tells
    /// whether the closure is to be reported: it is, exactly when the service
    /// still had the connection.
    pub fn connection_closed(&mut self, peer_id: PeerId) -> (report: bool)
        requires
            old(self)@.wf(),
        ensures
            final(self)@.wf(),
            report == old(self)@.has(peer_id),
            !final(self)@.has(peer_id),
            final(self)@.next_peer_id == old(self)@.next_peer_id,
            final(self)@.dialing == old(self)@.dialing,
            final(self)@.connections == if report {
                old(self)@.connections.remove(old(self)@.position_of(peer_id))
            } else {
                old(self)@.connections
            },
    {
        let had = self.find(peer_id);
        let next = self.step(peer_id, ConnectionStep::StreamClosed);
        proof {
            if had.is_some() {
                let i = old(self)@.position_of(peer_id);
                assert(self@.connections == old(self)@.connections.remove(i));
                if self@.has(peer_id) {
                    let k = self@.position_of(peer_id);
                    let k0 = if k < i { k } else { k + 1 };
                    assert(self@.connections[k] == old(self)@.connections[k0]);
                }
            }
        }
        next.is_some()
    }
}

} // verus!
