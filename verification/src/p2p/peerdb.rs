//! The peer database: what the node remembers about addresses.
//!
//! It holds the bans, the discouragements, the addresses that the operator
//! reserved, and the address book from which outbound connections are made and
//! address requests are answered.  A banned address is never offered, neither
//! for dialing nor to other peers.

use vstd::prelude::*;
use crate::p2p::ban_table::{distinct_addresses, holds_at, records_map, BanRecord, BanTable};
use crate::p2p::peer_address::PeerAddress;
use crate::p2p::sampling::{
    draw_sample, lemma_sample_from_pool, lemma_sample_len, lemma_sample_no_duplicates, sample,
};
use crate::p2p::socket_address::{BannableAddress, SocketAddress};
use crate::primitives::Time;

verus! {

/// An entry of the address book.
#[derive(Clone, Copy, Debug, PartialEq, Eq, Structural)]
pub struct KnownAddress {
    pub address: SocketAddress,
    /// When the address was learned or last connected to.
    pub last_seen: Time,
    /// Number of failed attempts to connect since the last success.
    pub fail_count: u32,
    /// No attempt to connect is made before this time.
    pub next_attempt: Time,
}

/// What the database holds, as mathematics.
pub struct PeerDbView {
    /// End of the ban of each banned address.
    pub bans: Map<BannableAddress, Time>,
    /// End of the discouragement of each discouraged address.
    pub discouragements: Map<BannableAddress, Time>,
    /// The address book, oldest entry first.
    pub known: Seq<KnownAddress>,
    /// The addresses that the operator reserved.
    pub reserved: Seq<SocketAddress>,
}

/// How long to wait after the given number of failed attempts in a row: the
/// base delay, doubled with every failure after the first, but no more than
/// the cap.
pub open spec fn backoff_delay(fail_count: nat, base: u64, cap: u64) -> u64
    decreases fail_count,
{
    if base >= cap {
        cap
    } else if fail_count <= 1 {
        base
    } else {
        let shorter = backoff_delay((fail_count - 1) as nat, base, cap);
        if 2 * shorter >= cap {
            cap
        } else {
            (2 * shorter) as u64
        }
    }
}

impl PeerDbView {
    /// Whether `address` is banned at `now`.
    pub open spec fn is_banned(self, address: BannableAddress, now: Time) -> bool {
        self.bans.contains_key(address) && holds_at(self.bans[address], now)
    }

    /// Whether `address` is discouraged at `now`.
    pub open spec fn is_discouraged(self, address: BannableAddress, now: Time) -> bool {
        self.discouragements.contains_key(address) && holds_at(self.discouragements[address], now)
    }

    /// Whether the operator reserved `address`.
    pub open spec fn is_reserved(self, address: SocketAddress) -> bool {
        self.reserved.contains(address)
    }

    /// Whether the address book holds `address`.
    pub open spec fn knows(self, address: SocketAddress) -> bool {
        exists|i: int| 0 <= i < self.known.len() && #[trigger] self.known[i].address == address
    }

    /// Whether `address` is entered into the address book when it is heard
    /// of at `now`: the book does not hold it, and it is neither banned nor
    /// discouraged.
    pub open spec fn is_news(self, address: SocketAddress, now: Time) -> bool {
        !self.knows(address) && !self.is_banned(address.as_bannable(), now) && !self.is_discouraged(
            address.as_bannable(),
            now,
        )
    }

    /// The database after `address` was heard of at `now`.
    pub open spec fn with_discovered(self, address: SocketAddress, now: Time) -> PeerDbView {
        if self.is_news(address, now) {
            PeerDbView {
                known: self.known.push(
                    KnownAddress { address, last_seen: now, fail_count: 0, next_attempt: Time { secs: 0 } },
                ),
                ..self
            }
        } else {
            self
        }
    }

    /// The database after all of `addresses` were heard of at `now`, one
    /// after the other.
    pub open spec fn with_all_discovered(self, addresses: Seq<PeerAddress>, now: Time) -> PeerDbView
        decreases addresses.len(),
    {
        if addresses.len() == 0 {
            self
        } else {
            self.with_all_discovered(addresses.drop_last(), now).with_discovered(
                addresses.last().spec_socket_address(),
                now,
            )
        }
    }

    /// The entries of the address book that may be told to other peers at
    /// `now`: those that are not banned.
    pub open spec fn good_addresses(self, now: Time) -> Seq<PeerAddress> {
        self.known.filter(|k: KnownAddress| !self.is_banned(k.address.as_bannable(), now)).map_values(
            |k: KnownAddress| k.address.as_peer_address(),
        )
    }

    /// Whether entry `i` of the address book may be dialed at `now`: it is
    /// neither banned nor connected, and its backoff is over.
    pub open spec fn may_dial(self, i: int, now: Time, connected: Seq<SocketAddress>) -> bool {
        &&& 0 <= i < self.known.len()
        &&& !self.is_banned(self.known[i].address.as_bannable(), now)
        &&& !connected.contains(self.known[i].address)
        &&& self.known[i].next_attempt.secs <= now.secs
    }

    /// Whether entry `i` is to be dialed no later than entry `j`: addresses
    /// that are not discouraged come first, then those that have waited
    /// longest, then those that are longest in the book.
    pub open spec fn dial_order(self, i: int, j: int, now: Time) -> bool {
        let di = self.is_discouraged(self.known[i].address.as_bannable(), now);
        let dj = self.is_discouraged(self.known[j].address.as_bannable(), now);
        if di != dj {
            dj
        } else if self.known[i].next_attempt.secs != self.known[j].next_attempt.secs {
            self.known[i].next_attempt.secs < self.known[j].next_attempt.secs
        } else {
            i <= j
        }
    }

    /// Whether entry `i` is the one to dial next.
    pub open spec fn is_next_to_dial(self, i: int, now: Time, connected: Seq<SocketAddress>) -> bool {
        &&& self.may_dial(i, now, connected)
        &&& forall|j: int| #[trigger] self.may_dial(j, now, connected) ==> self.dial_order(i, j, now)
    }
}

/// The peer database.
#[derive(Debug)]
pub struct PeerDb {
    banned: BanTable,
    discouraged: BanTable,
    known: Vec<KnownAddress>,
    reserved: Vec<SocketAddress>,
}

impl View for PeerDb {
    type V = PeerDbView;

    closed spec fn view(&self) -> PeerDbView {
        PeerDbView {
            bans: self.banned@,
            discouragements: self.discouraged@,
            known: self.known@,
            reserved: self.reserved@,
        }
    }
}

/// Whether no address occurs twice in the address book.
pub open spec fn distinct_known(known: Seq<KnownAddress>) -> bool {
    forall|i: int, j: int| 0 <= i < known.len() && 0 <= j < known.len() && i != j ==> known[i].address != known[j].address
}

impl PeerDb {
    /// The tables are well formed and the address book names no address twice.
    pub closed spec fn wf(&self) -> bool {
        &&& self.banned.wf()
        &&& self.discouraged.wf()
        &&& distinct_known(self.known@)
    }

    /// What well-formedness means for the view.
    pub proof fn lemma_wf_view(&self)
        requires
            self.wf(),
        ensures
            distinct_known(self@.known),
    {
    }

    /// An empty database with the given reserved addresses.
    pub fn new(reserved: Vec<SocketAddress>) -> (db: Self)
        ensures
            db.wf(),
            db@ == (PeerDbView {
                bans: Map::empty(),
                discouragements: Map::empty(),
                known: Seq::empty(),
                reserved: reserved@,
            }),
    {
        PeerDb { banned: BanTable::new(), discouraged: BanTable::new(), known: Vec::new(), reserved }
    }

    /// Bans `address` for `duration` seconds from `now`.  A ban that the
    /// address already has is replaced.
    pub fn ban(&mut self, address: BannableAddress, now: Time, duration: u64)
        requires
            old(self).wf(),
        ensures
            final(self).wf(),
            final(self)@ == (PeerDbView {
                bans: old(self)@.bans.insert(address, now.saturating_add_secs(duration)),
                ..old(self)@
            }),
    {
        let until = now.saturating_add_secs(duration);
        self.banned.set(address, until);
    }

    /// Enters a ban as it was stored: `record.address` is banned until
    /// `record.until`.
    pub fn restore_ban(&mut self, record: BanRecord)
        requires
            old(self).wf(),
        ensures
            final(self).wf(),
            final(self)@ == (PeerDbView { bans: old(self)@.bans.insert(record.address, record.until), ..old(self)@ }),
    {
        self.banned.set(record.address, record.until);
    }

    /// All bans, for storing them.
    pub fn ban_records(&self) -> (records: Vec<BanRecord>)
        requires
            self.wf(),
        ensures
            records_map(records@) == self@.bans,
            distinct_addresses(records@),
    {
        self.banned.records()
    }

    /// Lifts the ban of `address`.  Tells whether it had one.
    pub fn unban(&mut self, address: BannableAddress) -> (was_banned: bool)
        requires
            old(self).wf(),
        ensures
            final(self).wf(),
            final(self)@ == (PeerDbView { bans: old(self)@.bans.remove(address), ..old(self)@ }),
            was_banned == old(self)@.bans.contains_key(address),
    {
        self.banned.remove(address)
    }

    /// Discourages `address` for `duration` seconds from `now`.
    pub fn discourage(&mut self, address: BannableAddress, now: Time, duration: u64)
        requires
            old(self).wf(),
        ensures
            final(self).wf(),
            final(self)@ == (PeerDbView {
                discouragements: old(self)@.discouragements.insert(address, now.saturating_add_secs(duration)),
                ..old(self)@
            }),
    {
        let until = now.saturating_add_secs(duration);
        self.discouraged.set(address, until);
    }

    /// Lifts the discouragement of `address`.  Tells whether it had one.
    pub fn undiscourage(&mut self, address: BannableAddress) -> (was_discouraged: bool)
        requires
            old(self).wf(),
        ensures
            final(self).wf(),
            final(self)@ == (PeerDbView {
                discouragements: old(self)@.discouragements.remove(address),
                ..old(self)@
            }),
            was_discouraged == old(self)@.discouragements.contains_key(address),
    {
        self.discouraged.remove(address)
    }

    /// Whether `address` is banned at `now`.
    pub fn is_address_banned(&self, address: BannableAddress, now: Time) -> (banned: bool)
        requires
            self.wf(),
        ensures
            banned == self@.is_banned(address, now),
    {
        self.banned.is_marked(address, now)
    }

    /// Whether `address` is discouraged at `now`.
    pub fn is_address_discouraged(&self, address: BannableAddress, now: Time) -> (discouraged: bool)
        requires
            self.wf(),
        ensures
            discouraged == self@.is_discouraged(address, now),
    {
        self.discouraged.is_marked(address, now)
    }

    /// The time at which the ban of `address` ends, if it has one.
    pub fn banned_until(&self, address: BannableAddress) -> (until: Option<Time>)
        requires
            self.wf(),
        ensures
            until == if self@.bans.contains_key(address) {
                Some(self@.bans[address])
            } else {
                None
            },
    {
        self.banned.get(address)
    }

    /// Whether the operator reserved `address`.
    pub fn is_reserved(&self, address: SocketAddress) -> (reserved: bool)
        ensures
            reserved == self@.is_reserved(address),
    {
        let mut i: usize = 0;
        while i < self.reserved.len()
            invariant
                i <= self.reserved.len(),
                forall|j: int| 0 <= j < i ==> self.reserved@[j] != address,
            decreases self.reserved.len() - i,
        {
            if self.reserved[i] == address {
                assert(self.reserved@[i as int] == address);
                return true;
            }
            i += 1;
        }
        false
    }

    /// Position of `address` in the address book.
    fn known_position(&self, address: SocketAddress) -> (found: Option<usize>)
        ensures
            match found {
                Some(i) => i < self.known@.len() && self.known@[i as int].address == address,
                None => forall|i: int| 0 <= i < self.known@.len() ==> self.known@[i].address != address,
            },
    {
        let mut i: usize = 0;
        while i < self.known.len()
            invariant
                i <= self.known.len(),
                forall|j: int| 0 <= j < i ==> self.known@[j].address != address,
            decreases self.known.len() - i,
        {
            if self.known[i].address == address {
                return Some(i);
            }
            i += 1;
        }
        None
    }

    /// Whether the address book holds `address`.
    pub fn is_known(&self, address: SocketAddress) -> (known: bool)
        ensures
            known == self@.knows(address),
    {
        self.known_position(address).is_some()
    }

    /// Number of entries of the address book.
    pub fn known_count(&self) -> (n: usize)
        ensures
            n == self@.known.len(),
    {
        self.known.len()
    }

    /// Enters an address that we have heard of into the address book.
    ///
    /// Nothing is entered if the book has the address already, or if the
    /// address is banned or discouraged at `now`.  Tells whether the address
    /// was entered.
    pub fn peer_discovered(&mut self, address: SocketAddress, now: Time) -> (added: bool)
        requires
            old(self).wf(),
        ensures
            final(self).wf(),
            added == old(self)@.is_news(address, now),
            final(self)@ == old(self)@.with_discovered(address, now),
    {
        if self.known_position(address).is_some() {
            return false;
        }
        if self.banned.is_marked(address.as_bannable(), now) {
            return false;
        }
        if self.discouraged.is_marked(address.as_bannable(), now) {
            return false;
        }
        self.known.push(KnownAddress { address, last_seen: now, fail_count: 0, next_attempt: Time { secs: 0 } });
        true
    }

    /// The addresses that may be told to other peers at `now`.
    pub fn good_addresses(&self, now: Time) -> (good: Vec<PeerAddress>)
        requires
            self.wf(),
        ensures
            good@ == self@.good_addresses(now),
    {
        let ghost keep = |k: KnownAddress| !self@.is_banned(k.address.as_bannable(), now);
        let ghost wire = |k: KnownAddress| k.address.as_peer_address();
        let mut good: Vec<PeerAddress> = Vec::new();
        let mut i: usize = 0;
        assert(self.known@.subrange(0, 0) =~= Seq::empty());
        assert(good@ =~= self.known@.subrange(0, 0).filter(keep).map_values(wire));
        while i < self.known.len()
            invariant
                i <= self.known.len(),
                self.wf(),
                keep == (|k: KnownAddress| !self@.is_banned(k.address.as_bannable(), now)),
                wire == (|k: KnownAddress| k.address.as_peer_address()),
                good@ == self.known@.subrange(0, i as int).filter(keep).map_values(wire),
            decreases self.known.len() - i,
        {
            let entry = self.known[i];
            let ghost prefix = self.known@.subrange(0, i as int);
            let ghost next = self.known@.subrange(0, i as int + 1);
            proof {
                assert(next =~= prefix.push(entry));
                assert(next.drop_last() =~= prefix);
                reveal(Seq::filter);
            }
            if !self.banned.is_marked(entry.address.as_bannable(), now) {
                good.push(entry.address.as_peer_address());
                assert(next.filter(keep) =~= prefix.filter(keep).push(entry));
                assert(good@ =~= next.filter(keep).map_values(wire));
            } else {
                assert(next.filter(keep) =~= prefix.filter(keep));
            }
            i += 1;
        }
        assert(self.known@.subrange(0, self.known@.len() as int) =~= self.known@);
        good
    }

    /// Answers an address request: up to `max_count` of the addresses that
    /// may be told to other peers at `now`, selected by `draws`.
    pub fn addresses_for_gossip(&self, now: Time, max_count: usize, draws: &Vec<u64>) -> (picked: Vec<PeerAddress>)
        requires
            self.wf(),
        ensures
            picked@ == sample(self@.good_addresses(now), draws@, 0, max_count as nat),
    {
        let good = self.good_addresses(now);
        draw_sample(&good, draws, max_count)
    }

    /// Tells whether entry `i` of the address book may be dialed at `now`.
    fn check_may_dial(&self, i: usize, now: Time, connected: &Vec<SocketAddress>) -> (ok: bool)
        requires
            self.wf(),
            i < self.known@.len(),
        ensures
            ok == self@.may_dial(i as int, now, connected@),
    {
        let entry = self.known[i];
        if self.banned.is_marked(entry.address.as_bannable(), now) {
            return false;
        }
        if entry.next_attempt.secs > now.secs {
            return false;
        }
        let mut c: usize = 0;
        while c < connected.len()
            invariant
                c <= connected.len(),
                i < self.known@.len(),
                entry == self.known@[i as int],
                !self@.is_banned(entry.address.as_bannable(), now),
                entry.next_attempt.secs <= now.secs,
                forall|j: int| 0 <= j < c ==> connected@[j] != entry.address,
            decreases connected.len() - c,
        {
            if connected[c] == entry.address {
                assert(connected@[c as int] == entry.address);
                return false;
            }
            c += 1;
        }
        true
    }

    /// Tells whether entry `i` is to be dialed no later than entry `j`.
    fn check_dial_order(&self, i: usize, j: usize, now: Time) -> (first: bool)
        requires
            self.wf(),
            i < self.known@.len(),
            j < self.known@.len(),
        ensures
            first == self@.dial_order(i as int, j as int, now),
    {
        let di = self.discouraged.is_marked(self.known[i].address.as_bannable(), now);
        let dj = self.discouraged.is_marked(self.known[j].address.as_bannable(), now);
        if di != dj {
            dj
        } else if self.known[i].next_attempt.secs != self.known[j].next_attempt.secs {
            self.known[i].next_attempt.secs < self.known[j].next_attempt.secs
        } else {
            i <= j
        }
    }

    /// The address to which the next outbound connection is to be made, or
    /// `None` if the address book has none to offer at `now`.  `connected`
    /// lists the addresses that we are connected to already.
    pub fn select_dial_candidate(&self, now: Time, connected: &Vec<SocketAddress>) -> (candidate: Option<SocketAddress>)
        requires
            self.wf(),
        ensures
            match candidate {
                Some(address) => exists|i: int|
                    #[trigger] self@.is_next_to_dial(i, now, connected@) && self@.known[i].address == address,
                None => forall|i: int| !self@.may_dial(i, now, connected@),
            },
    {
        let mut best: Option<usize> = None;
        let mut i: usize = 0;
        while i < self.known.len()
            invariant
                i <= self.known.len(),
                self.wf(),
                match best {
                    Some(b) => {
                        &&& b < i
                        &&& self@.may_dial(b as int, now, connected@)
                        &&& forall|j: int|
                            0 <= j < i && #[trigger] self@.may_dial(j, now, connected@) ==> self@.dial_order(b as int, j, now)
                    },
                    None => forall|j: int| 0 <= j < i ==> !self@.may_dial(j, now, connected@),
                },
            decreases self.known.len() - i,
        {
            if self.check_may_dial(i, now, connected) {
                match best {
                    None => {
                        best = Some(i);
                    },
                    Some(b) => {
                        if !self.check_dial_order(b, i, now) {
                            best = Some(i);
                        }
                    },
                }
            }
            i += 1;
        }
        match best {
            Some(b) => {
                assert(self@.is_next_to_dial(b as int, now, connected@));
                Some(self.known[b].address)
            },
            None => None,
        }
    }

    /// Whether the address book is exhausted at `now`, so that a seed must be
    /// asked for addresses.
    pub fn needs_seed(&self, now: Time, connected: &Vec<SocketAddress>) -> (needed: bool)
        requires
            self.wf(),
        ensures
            needed == (forall|i: int| !self@.may_dial(i, now, connected@)),
    {
        let candidate = self.select_dial_candidate(now, connected);
        proof {
            if candidate.is_some() {
                let i = choose|i: int|
                    #[trigger] self@.is_next_to_dial(i, now, connected@) && self@.known[i].address == candidate.unwrap();
                assert(self@.may_dial(i, now, connected@));
            }
        }
        candidate.is_none()
    }

    /// Records that an attempt to connect to `address` failed at `now`.  The
    /// next attempt is put off by the backoff delay for the new number of
    /// failures.  Tells whether the address book holds the address.
    pub fn report_dial_failure(&mut self, address: SocketAddress, now: Time, base: u64, cap: u64) -> (known: bool)
        requires
            old(self).wf(),
        ensures
            final(self).wf(),
            known == old(self)@.knows(address),
            match known {
                true => exists|i: int|
                    {
                        &&& 0 <= i < old(self)@.known.len()
                        &&& #[trigger] old(self)@.known[i].address == address
                        &&& final(self)@ == (PeerDbView {
                            known: old(self)@.known.update(
                                i,
                                KnownAddress {
                                    fail_count: saturating_increment(old(self)@.known[i].fail_count),
                                    next_attempt: now.saturating_add_secs(
                                        backoff_delay(
                                            saturating_increment(old(self)@.known[i].fail_count) as nat,
                                            base,
                                            cap,
                                        ),
                                    ),
                                    ..old(self)@.known[i]
                                },
                            ),
                            ..old(self)@
                        })
                    },
                false => final(self)@ == old(self)@,
            },
    {
        match self.known_position(address) {
            Some(i) => {
                let entry = self.known[i];
                let fail_count = if entry.fail_count == u32::MAX {
                    u32::MAX
                } else {
                    entry.fail_count + 1
                };
                let delay = compute_backoff_delay(fail_count, base, cap);
                let updated = KnownAddress {
                    address: entry.address,
                    last_seen: entry.last_seen,
                    fail_count,
                    next_attempt: now.saturating_add_secs(delay),
                };
                self.known.set(i, updated);
                proof {
                    assert(old(self)@.known[i as int].address == address);
                    assert forall|a: int, b: int|
                        0 <= a < self.known@.len() && 0 <= b < self.known@.len() && a != b implies self.known@[a].address
                        != self.known@[b].address by {
                        assert(self.known@[a].address == old(self).known@[a].address);
                        assert(self.known@[b].address == old(self).known@[b].address);
                    }
                }
                true
            },
            None => false,
        }
    }

    /// Records that a connection to `address` was made at `now`: its failures
    /// are forgotten.  Tells whether the address book holds the address.
    pub fn report_dial_success(&mut self, address: SocketAddress, now: Time) -> (known: bool)
        requires
            old(self).wf(),
        ensures
            final(self).wf(),
            known == old(self)@.knows(address),
            match known {
                true => exists|i: int|
                    {
                        &&& 0 <= i < old(self)@.known.len()
                        &&& #[trigger] old(self)@.known[i].address == address
                        &&& final(self)@ == (PeerDbView {
                            known: old(self)@.known.update(
                                i,
                                KnownAddress { address, last_seen: now, fail_count: 0, next_attempt: now },
                            ),
                            ..old(self)@
                        })
                    },
                false => final(self)@ == old(self)@,
            },
    {
        match self.known_position(address) {
            Some(i) => {
                self.known.set(i, KnownAddress { address, last_seen: now, fail_count: 0, next_attempt: now });
                proof {
                    assert(old(self)@.known[i as int].address == address);
                    assert forall|a: int, b: int|
                        0 <= a < self.known@.len() && 0 <= b < self.known@.len() && a != b implies self.known@[a].address
                        != self.known@[b].address by {
                        assert(self.known@[a].address == old(self).known@[a].address);
                        assert(self.known@[b].address == old(self).known@[b].address);
                    }
                }
                true
            },
            None => false,
        }
    }
}

/// `n + 1`, or `n` where that is the largest number.
pub open spec fn saturating_increment(n: u32) -> u32 {
    if n == u32::MAX {
        n
    } else {
        (n + 1) as u32
    }
}

/// Computes the backoff delay after `fail_count` failed attempts in a row.
pub fn compute_backoff_delay(fail_count: u32, base: u64, cap: u64) -> (delay: u64)
    ensures
        delay == backoff_delay(fail_count as nat, base, cap),
        delay <= cap,
{
    if base >= cap {
        return cap;
    }
    let mut delay: u64 = base;
    let mut n: u32 = 1;
    while n < fail_count && delay < cap
        invariant
            base < cap,
            1 <= n,
            n <= fail_count || n == 1,
            delay <= cap,
            delay == backoff_delay(n as nat, base, cap),
        decreases fail_count - n,
    {
        delay = if delay >= cap - delay {
            cap
        } else {
            2 * delay
        };
        n += 1;
    }
    proof {
        if n < fail_count {
            lemma_backoff_stays_at_cap(n as nat, fail_count as nat, base, cap);
        }
        if fail_count == 0 {
            assert(backoff_delay(0, base, cap) == base);
            assert(backoff_delay(1, base, cap) == base);
        }
    }
    delay
}

/// Once the backoff delay has reached the cap it stays there.
pub proof fn lemma_backoff_stays_at_cap(n: nat, m: nat, base: u64, cap: u64)
    requires
        1 <= n <= m,
        backoff_delay(n, base, cap) == cap,
    ensures
        backoff_delay(m, base, cap) == cap,
    decreases m - n,
{
    if n < m {
        lemma_backoff_stays_at_cap(n + 1, m, base, cap);
    }
}

/// Whatever the draws, an answer to an address request holds only addresses
/// of the address book that are not banned, none of them twice, and no more
/// than were asked for.
pub proof fn lemma_gossip_never_leaks_banned(db: PeerDbView, now: Time, draws: Seq<u64>, max_count: nat, j: int)
    requires
        distinct_known(db.known),
        0 <= j < sample(db.good_addresses(now), draws, 0, max_count).len(),
    ensures
        sample(db.good_addresses(now), draws, 0, max_count).len() <= max_count,
        sample(db.good_addresses(now), draws, 0, max_count).no_duplicates(),
        !db.is_banned(sample(db.good_addresses(now), draws, 0, max_count)[j].socket_address().as_bannable(), now),
        db.knows(sample(db.good_addresses(now), draws, 0, max_count)[j].socket_address()),
{
    let keep = |k: KnownAddress| !db.is_banned(k.address.as_bannable(), now);
    let wire = |k: KnownAddress| k.address.as_peer_address();
    let kept = db.known.filter(keep);
    let good = db.good_addresses(now);
    let picked = sample(good, draws, 0, max_count);
    lemma_sample_len(good, draws, 0, max_count);
    lemma_sample_from_pool(good, draws, 0, max_count);
    assert(good.no_duplicates()) by {
        assert forall|a: int, b: int| 0 <= a < good.len() && 0 <= b < good.len() && a != b implies good[a] != good[b] by {
            lemma_filter_keeps_distinct(db.known, keep, a, b);
        }
    }
    lemma_sample_no_duplicates(good, draws, 0, max_count);
    assert(good.contains(picked[j]));
    let p = choose|p: int| 0 <= p < good.len() && good[p] == picked[j];
    assert(good[p] == wire(kept[p]));
    db.known.lemma_filter_pred(keep, p);
    assert(kept.contains(kept[p]));
    db.known.lemma_filter_contains_rev(keep, kept[p]);
    let q = choose|q: int| 0 <= q < db.known.len() && db.known[q] == kept[p];
    assert(db.known[q].address == picked[j].socket_address());
}

/// Filtering an address book keeps its addresses distinct.
pub proof fn lemma_filter_keeps_distinct(known: Seq<KnownAddress>, keep: spec_fn(KnownAddress) -> bool, a: int, b: int)
    requires
        distinct_known(known),
        0 <= a < known.filter(keep).len(),
        0 <= b < known.filter(keep).len(),
        a != b,
    ensures
        known.filter(keep)[a].address != known.filter(keep)[b].address,
    decreases known.len(),
{
    reveal(Seq::filter);
    let kept = known.filter(keep);
    if known.len() > 0 {
        let init = known.drop_last();
        assert(distinct_known(init)) by {
            assert forall|i: int, j: int| 0 <= i < init.len() && 0 <= j < init.len() && i != j implies init[i].address
                != init[j].address by {
                assert(init[i] == known[i]);
                assert(init[j] == known[j]);
            }
        }
        let kept_init = init.filter(keep);
        if keep(known.last()) {
            assert(kept =~= kept_init.push(known.last()));
            if a < kept_init.len() && b < kept_init.len() {
                lemma_filter_keeps_distinct(init, keep, a, b);
            } else {
                let other = if a < kept_init.len() { a } else { b };
                assert(kept_init.contains(kept_init[other]));
                init.lemma_filter_contains_rev(keep, kept_init[other]);
                let q = choose|q: int| 0 <= q < init.len() && init[q] == kept_init[other];
                assert(known[q] == init[q]);
            }
        } else {
            assert(kept =~= kept_init);
            lemma_filter_keeps_distinct(init, keep, a, b);
        }
    }
}

} // verus!
