//! What the TCP transport decides before it touches a socket.
//!
//! Opening sockets and waiting for connections is left to the caller.  The
//! functions here say how a listening socket is to be set up and what a
//! listener does when it is asked for the next connection.

use vstd::prelude::*;
use crate::p2p::socket_address::{IpAddress, SocketAddress};

verus! {

/// Number of connections that may wait to be accepted on a listening socket.
pub open spec fn listen_backlog() -> u32 {
    32
}

/// How a listening socket is set up.
#[derive(Clone, Copy, Debug, PartialEq, Eq, Structural)]
pub struct ListenerOptions {
    /// The socket never blocks the thread that uses it.
    pub nonblocking: bool,
    /// The socket accepts IPv6 connections only, not IPv4 connections mapped
    /// to IPv6.  The default of this option differs between systems, so it is
    /// always set on IPv6 sockets.
    pub only_v6: bool,
    /// The address may be bound again right after the program was restarted.
    pub reuse_address: bool,
    /// Number of connections that may wait to be accepted.
    pub backlog: u32,
}

/// What a listener does when it is asked for the next connection.
#[derive(Clone, Copy, Debug, PartialEq, Eq, Structural)]
pub enum AcceptPlan {
    /// The listener is bound to no address: it waits without end and never
    /// fails.  This is how networking is switched off.
    WaitForever,
    /// The listener waits on all of its sockets and takes the connection
    /// that comes first.
    TakeFirst { sockets: usize },
}

/// The TCP transport.
#[derive(Debug)]
pub struct TcpTransportSocket;

impl TcpTransportSocket {
    /// How a socket that listens on `address` is set up.
    pub open spec fn spec_listener_options(address: SocketAddress, windows: bool) -> ListenerOptions {
        ListenerOptions {
            nonblocking: true,
            only_v6: address.ip is V6,
            reuse_address: !windows,
            backlog: listen_backlog(),
        }
    }

    /// What a listener with the given number of sockets does when it is
    /// asked for the next connection.
    pub open spec fn spec_accept_plan(sockets: usize) -> AcceptPlan {
        if sockets == 0 {
            AcceptPlan::WaitForever
        } else {
            AcceptPlan::TakeFirst { sockets }
        }
    }

    pub fn new() -> (transport: Self) {
        Self
    }

    /// How a socket that listens on `address` is set up.  `windows` tells
    /// whether the program runs on Windows, where addresses need not be
    /// marked for reuse.
    pub fn listener_options(&self, address: &SocketAddress, windows: bool) -> (options: ListenerOptions)
        ensures
            options == Self::spec_listener_options(*address, windows),
    {
        let only_v6 = match address.ip {
            IpAddress::V4(_) => false,
            IpAddress::V6(_) => true,
        };
        ListenerOptions { nonblocking: true, only_v6, reuse_address: !windows, backlog: 32 }
    }

    /// The options of every socket of a listener that is bound to
    /// `addresses`, in order.
    pub fn bind_plan(&self, addresses: &Vec<SocketAddress>, windows: bool) -> (plan: Vec<ListenerOptions>)
        ensures
            plan@.len() == addresses@.len(),
            forall|i: int|
                0 <= i < addresses@.len() ==> plan@[i] == Self::spec_listener_options(addresses@[i], windows),
    {
        let mut plan: Vec<ListenerOptions> = Vec::new();
        let mut i: usize = 0;
        while i < addresses.len()
            invariant
                i <= addresses.len(),
                plan@.len() == i,
                forall|k: int| 0 <= k < i ==> plan@[k] == Self::spec_listener_options(addresses@[k], windows),
            decreases addresses.len() - i,
        {
            let options = self.listener_options(&addresses[i], windows);
            plan.push(options);
            i += 1;
        }
        plan
    }

    /// What a listener with the given number of sockets does when it is
    /// asked for the next connection.
    pub fn accept_plan(sockets: usize) -> (plan: AcceptPlan)
        ensures
            plan == Self::spec_accept_plan(sockets),
    {
        if sockets == 0 {
            AcceptPlan::WaitForever
        } else {
            AcceptPlan::TakeFirst { sockets }
        }
    }
}

} // verus!
