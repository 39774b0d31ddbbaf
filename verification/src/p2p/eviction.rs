//! Choosing the peer that makes room for a new inbound connection.
//!
//! When all inbound slots are taken, one inbound peer may be disconnected in
//! favour of a newcomer.  Peers that the operator reserved are never
//! candidates.  Among the candidates three groups are protected:
//!
//! * the longest-connected peer of each part of the network, for as many
//!   parts as the quota allows, so that no single party can push out our view
//!   of the rest of the network;
//! * the longest-connected peers, up to a quota;
//! * the peers with the best latency, up to a quota.
//!
//! Of the rest, discouraged peers go first; then the most recently connected,
//! the one with the highest ban score, the one with the worst latency.  The
//! choice depends on the table alone: the same table gives the same victim.

use vstd::prelude::*;
use crate::p2p::socket_address::AddressGroup;
use crate::p2p::types::{PeerId, PeerRole};
use crate::primitives::Time;

verus! {

/// What the eviction policy reads of a connected peer.
#[derive(Clone, Copy, Debug, PartialEq, Eq, Structural)]
pub struct EvictionCandidate {
    pub peer_id: PeerId,
    pub address_group: AddressGroup,
    pub role: PeerRole,
    /// Whether the operator reserved the peer's address.
    pub reserved: bool,
    /// Whether the peer's address is discouraged.
    pub discouraged: bool,
    /// When the handshake with the peer was completed.
    pub connected_since: Time,
    /// Best round-trip time seen, in milliseconds; `None` before the first pong.
    pub ping_min: Option<u64>,
    pub ban_score: u32,
}

/// How many peers each protection keeps.
#[derive(Clone, Copy, Debug, PartialEq, Eq, Structural)]
pub struct EvictionConfig {
    /// Number of network parts whose longest-connected peer is kept.
    pub preserved_by_address_group: usize,
    /// Number of longest-connected peers kept.
    pub preserved_by_age: usize,
    /// Number of lowest-latency peers kept.
    pub preserved_by_ping: usize,
}

impl EvictionConfig {
    /// The quotas that a node uses unless told otherwise.
    pub fn default_quotas() -> (config: Self)
        ensures
            config == (EvictionConfig {
                preserved_by_address_group: 4,
                preserved_by_age: 8,
                preserved_by_ping: 8,
            }),
    {
        EvictionConfig { preserved_by_address_group: 4, preserved_by_age: 8, preserved_by_ping: 8 }
    }
}

impl EvictionCandidate {
    /// Whether the peer may be evicted at all: it connected to us and the
    /// operator has not reserved it.
    pub open spec fn spec_eligible(&self) -> bool {
        self.role == PeerRole::Inbound && !self.reserved
    }

    /// The latency by which peers are compared: unknown counts as the worst.
    pub open spec fn spec_latency(&self) -> u64 {
        match self.ping_min {
            Some(ms) => ms,
            None => u64::MAX,
        }
    }

    /// Whether this peer has been connected for longer than `other`.  Of two
    /// peers connected at the same moment the one with the lower id counts as
    /// the older.
    pub open spec fn spec_older_than(&self, other: &EvictionCandidate) -> bool {
        self.connected_since.secs < other.connected_since.secs || (self.connected_since.secs
            == other.connected_since.secs && self.peer_id.id < other.peer_id.id)
    }

    /// Whether this peer answers faster than `other`; ties go to the lower id.
    pub open spec fn spec_faster_than(&self, other: &EvictionCandidate) -> bool {
        self.spec_latency() < other.spec_latency() || (self.spec_latency() == other.spec_latency()
            && self.peer_id.id < other.peer_id.id)
    }

    /// Whether this peer is to be evicted before `other`.  In order of weight:
    /// discouraged before not discouraged, connected later, higher ban score,
    /// worse latency, higher id.
    pub open spec fn spec_evicted_before(&self, other: &EvictionCandidate) -> bool {
        if self.discouraged != other.discouraged {
            self.discouraged
        } else if self.connected_since.secs != other.connected_since.secs {
            self.connected_since.secs > other.connected_since.secs
        } else if self.ban_score != other.ban_score {
            self.ban_score > other.ban_score
        } else if self.spec_latency() != other.spec_latency() {
            self.spec_latency() > other.spec_latency()
        } else {
            self.peer_id.id > other.peer_id.id
        }
    }

    #[verifier::when_used_as_spec(spec_eligible)]
    pub fn eligible(&self) -> (b: bool)
        ensures
            b == self.spec_eligible(),
    {
        self.role.is_inbound() && !self.reserved
    }

    #[verifier::when_used_as_spec(spec_latency)]
    pub fn latency(&self) -> (ms: u64)
        ensures
            ms == self.spec_latency(),
    {
        match self.ping_min {
            Some(ms) => ms,
            None => u64::MAX,
        }
    }

    #[verifier::when_used_as_spec(spec_older_than)]
    pub fn older_than(&self, other: &EvictionCandidate) -> (b: bool)
        ensures
            b == self.spec_older_than(other),
    {
        self.connected_since.secs < other.connected_since.secs || (self.connected_since.secs
            == other.connected_since.secs && self.peer_id.id < other.peer_id.id)
    }

    #[verifier::when_used_as_spec(spec_faster_than)]
    pub fn faster_than(&self, other: &EvictionCandidate) -> (b: bool)
        ensures
            b == self.spec_faster_than(other),
    {
        let mine = self.latency();
        let theirs = other.latency();
        mine < theirs || (mine == theirs && self.peer_id.id < other.peer_id.id)
    }

    #[verifier::when_used_as_spec(spec_evicted_before)]
    pub fn evicted_before(&self, other: &EvictionCandidate) -> (b: bool)
        ensures
            b == self.spec_evicted_before(other),
    {
        if self.discouraged != other.discouraged {
            self.discouraged
        } else if self.connected_since.secs != other.connected_since.secs {
            self.connected_since.secs > other.connected_since.secs
        } else if self.ban_score != other.ban_score {
            self.ban_score > other.ban_score
        } else if self.latency() != other.latency() {
            self.latency() > other.latency()
        } else {
            self.peer_id.id > other.peer_id.id
        }
    }
}

/// Whether no two entries of the table have the same peer id.
pub open spec fn distinct_peer_ids(table: Seq<EvictionCandidate>) -> bool {
    forall|i: int, j: int| 0 <= i < table.len() && 0 <= j < table.len() && i != j ==> table[i].peer_id != table[j].peer_id
}

/// Number of positions below `n` at which `p` holds.
pub open spec fn count_below(n: nat, p: spec_fn(int) -> bool) -> nat
    decreases n,
{
    if n == 0 {
        0
    } else {
        count_below((n - 1) as nat, p) + if p(n - 1) {
            1nat
        } else {
            0nat
        }
    }
}

/// Whether entry `i` is the longest-connected eligible peer of its part of the
/// network.
pub open spec fn is_group_head(table: Seq<EvictionCandidate>, i: int) -> bool {
    &&& 0 <= i < table.len()
    &&& table[i].eligible()
    &&& forall|j: int|
        0 <= j < table.len() && table[j].eligible() && table[j].address_group == table[i].address_group ==> !(
        #[trigger] table[j]).older_than(&table[i])
}

/// Number of eligible peers that have been connected for longer than entry `i`.
pub open spec fn age_rank(table: Seq<EvictionCandidate>, i: int) -> nat {
    count_below(table.len(), |j: int| table[j].eligible() && table[j].older_than(&table[i]))
}

/// Number of eligible peers that answer faster than entry `i`.
pub open spec fn ping_rank(table: Seq<EvictionCandidate>, i: int) -> nat {
    count_below(table.len(), |j: int| table[j].eligible() && table[j].faster_than(&table[i]))
}

/// Number of parts of the network whose longest-connected peer has been
/// connected for longer than entry `i`.
pub open spec fn group_rank(table: Seq<EvictionCandidate>, i: int) -> nat {
    count_below(table.len(), |j: int| is_group_head(table, j) && table[j].older_than(&table[i]))
}

/// Whether one of the three protections keeps entry `i`.
pub open spec fn is_protected(table: Seq<EvictionCandidate>, config: EvictionConfig, i: int) -> bool {
    ||| (is_group_head(table, i) && group_rank(table, i) < config.preserved_by_address_group)
    ||| age_rank(table, i) < config.preserved_by_age
    ||| ping_rank(table, i) < config.preserved_by_ping
}

/// Whether entry `i` may be evicted: it is eligible and nothing protects it.
pub open spec fn is_evictable(table: Seq<EvictionCandidate>, config: EvictionConfig, i: int) -> bool {
    &&& 0 <= i < table.len()
    &&& table[i].eligible()
    &&& !is_protected(table, config, i)
}

/// Whether entry `i` is the one to evict: it may be evicted, and before every
/// other entry that may.
pub open spec fn is_victim(table: Seq<EvictionCandidate>, config: EvictionConfig, i: int) -> bool {
    &&& is_evictable(table, config, i)
    &&& forall|j: int| #[trigger]
        is_evictable(table, config, j) && j != i ==> table[i].evicted_before(&table[j])
}

/// Of two distinct peers exactly one is evicted before the other.
pub proof fn lemma_eviction_order_is_total(a: EvictionCandidate, b: EvictionCandidate)
    requires
        a.peer_id != b.peer_id,
    ensures
        a.evicted_before(&b) != b.evicted_before(&a),
{
}

/// The eviction order is transitive.
pub proof fn lemma_eviction_order_is_transitive(a: EvictionCandidate, b: EvictionCandidate, c: EvictionCandidate)
    requires
        a.evicted_before(&b),
        b.evicted_before(&c),
    ensures
        a.evicted_before(&c),
{
}

/// A table has at most one victim: eviction on the same table always names the
/// same peer.
pub proof fn lemma_victim_is_unique(table: Seq<EvictionCandidate>, config: EvictionConfig, i: int, j: int)
    requires
        distinct_peer_ids(table),
        is_victim(table, config, i),
        is_victim(table, config, j),
    ensures
        i == j,
{
    if i != j {
        assert(is_evictable(table, config, j));
        assert(is_evictable(table, config, i));
        lemma_eviction_order_is_total(table[i], table[j]);
    }
}

/// A victim is never a peer that the operator reserved, nor an outbound peer.
pub proof fn lemma_victim_is_unreserved_inbound(table: Seq<EvictionCandidate>, config: EvictionConfig, i: int)
    requires
        is_victim(table, config, i),
    ensures
        table[i].role == PeerRole::Inbound,
        !table[i].reserved,
        !table[i].role.is_protected(),
{
}

/// Counts the eligible entries that are older than entry `i`.
fn count_older(table: &Vec<EvictionCandidate>, i: usize) -> (n: usize)
    requires
        i < table.len(),
    ensures
        n == age_rank(table@, i as int),
{
    let ghost p = |j: int| table@[j].eligible() && table@[j].older_than(&table@[i as int]);
    let mut n: usize = 0;
    let mut j: usize = 0;
    while j < table.len()
        invariant
            j <= table.len(),
            i < table.len(),
            n <= j,
            p == (|j: int| table@[j].eligible() && table@[j].older_than(&table@[i as int])),
            n == count_below(j as nat, p),
        decreases table.len() - j,
    {
        if table[j].eligible() && table[j].older_than(&table[i]) {
            n += 1;
        }
        j += 1;
    }
    n
}

/// Counts the eligible entries that answer faster than entry `i`.
fn count_faster(table: &Vec<EvictionCandidate>, i: usize) -> (n: usize)
    requires
        i < table.len(),
    ensures
        n == ping_rank(table@, i as int),
{
    let ghost p = |j: int| table@[j].eligible() && table@[j].faster_than(&table@[i as int]);
    let mut n: usize = 0;
    let mut j: usize = 0;
    while j < table.len()
        invariant
            j <= table.len(),
            i < table.len(),
            n <= j,
            p == (|j: int| table@[j].eligible() && table@[j].faster_than(&table@[i as int])),
            n == count_below(j as nat, p),
        decreases table.len() - j,
    {
        if table[j].eligible() && table[j].faster_than(&table[i]) {
            n += 1;
        }
        j += 1;
    }
    n
}

/// Tells whether entry `i` is the longest-connected eligible peer of its part
/// of the network.
fn check_group_head(table: &Vec<EvictionCandidate>, i: usize) -> (head: bool)
    requires
        i < table.len(),
    ensures
        head == is_group_head(table@, i as int),
{
    if !table[i].eligible() {
        return false;
    }
    let mut j: usize = 0;
    while j < table.len()
        invariant
            j <= table.len(),
            i < table.len(),
            table@[i as int].eligible(),
            forall|k: int|
                0 <= k < j && table@[k].eligible() && table@[k].address_group == table@[i as int].address_group ==> !(
                #[trigger] table@[k]).older_than(&table@[i as int]),
        decreases table.len() - j,
    {
        if table[j].eligible() && table[j].address_group == table[i].address_group && table[j].older_than(&table[i]) {
            return false;
        }
        j += 1;
    }
    true
}

/// Marks the longest-connected eligible peer of every part of the network.
fn group_heads(table: &Vec<EvictionCandidate>) -> (heads: Vec<bool>)
    ensures
        heads@.len() == table@.len(),
        forall|i: int| 0 <= i < table@.len() ==> heads@[i] == is_group_head(table@, i),
{
    let mut heads: Vec<bool> = Vec::new();
    let mut i: usize = 0;
    while i < table.len()
        invariant
            i <= table.len(),
            heads@.len() == i,
            forall|k: int| 0 <= k < i ==> heads@[k] == is_group_head(table@, k),
        decreases table.len() - i,
    {
        let head = check_group_head(table, i);
        heads.push(head);
        i += 1;
    }
    heads
}

/// Counts the group heads that are older than entry `i`.
fn count_older_heads(table: &Vec<EvictionCandidate>, heads: &Vec<bool>, i: usize) -> (n: usize)
    requires
        i < table.len(),
        heads@.len() == table@.len(),
        forall|k: int| 0 <= k < table@.len() ==> heads@[k] == is_group_head(table@, k),
    ensures
        n == group_rank(table@, i as int),
{
    let ghost p = |j: int| is_group_head(table@, j) && table@[j].older_than(&table@[i as int]);
    let mut n: usize = 0;
    let mut j: usize = 0;
    while j < table.len()
        invariant
            j <= table.len(),
            i < table.len(),
            n <= j,
            heads@.len() == table@.len(),
            forall|k: int| 0 <= k < table@.len() ==> heads@[k] == is_group_head(table@, k),
            p == (|j: int| is_group_head(table@, j) && table@[j].older_than(&table@[i as int])),
            n == count_below(j as nat, p),
        decreases table.len() - j,
    {
        if heads[j] && table[j].older_than(&table[i]) {
            n += 1;
        }
        j += 1;
    }
    n
}

/// Tells whether entry `i` may be evicted.
fn check_evictable(
    table: &Vec<EvictionCandidate>,
    heads: &Vec<bool>,
    config: &EvictionConfig,
    i: usize,
) -> (evictable: bool)
    requires
        i < table.len(),
        heads@.len() == table@.len(),
        forall|k: int| 0 <= k < table@.len() ==> heads@[k] == is_group_head(table@, k),
    ensures
        evictable == is_evictable(table@, *config, i as int),
{
    if !table[i].eligible() {
        return false;
    }
    if heads[i] && count_older_heads(table, heads, i) < config.preserved_by_address_group {
        return false;
    }
    if count_older(table, i) < config.preserved_by_age {
        return false;
    }
    if count_faster(table, i) < config.preserved_by_ping {
        return false;
    }
    true
}

/// Chooses the peer to disconnect so that a new inbound peer can be admitted.
///
/// Returns the position of the victim in `table`, or `None` if no peer may be
/// evicted.
pub fn select_for_eviction(table: &Vec<EvictionCandidate>, config: &EvictionConfig) -> (victim: Option<usize>)
    requires
        distinct_peer_ids(table@),
    ensures
        match victim {
            Some(i) => is_victim(table@, *config, i as int),
            None => forall|i: int| !is_evictable(table@, *config, i),
        },
        victim.is_some() == exists|i: int| is_evictable(table@, *config, i),
{
    let heads = group_heads(table);
    let mut best: Option<usize> = None;
    let mut i: usize = 0;
    while i < table.len()
        invariant
            i <= table.len(),
            distinct_peer_ids(table@),
            heads@.len() == table@.len(),
            forall|k: int| 0 <= k < table@.len() ==> heads@[k] == is_group_head(table@, k),
            match best {
                Some(b) => {
                    &&& b < i
                    &&& is_evictable(table@, *config, b as int)
                    &&& forall|k: int|
                        0 <= k < i && #[trigger] is_evictable(table@, *config, k) && k != b ==> table@[b as int].evicted_before(
                            &table@[k],
                        )
                },
                None => forall|k: int| 0 <= k < i ==> !is_evictable(table@, *config, k),
            },
        decreases table.len() - i,
    {
        if check_evictable(table, &heads, config, i) {
            match best {
                None => {
                    best = Some(i);
                },
                Some(b) => {
                    if table[i].evicted_before(&table[b]) {
                        proof {
                            assert forall|k: int|
                                0 <= k < i + 1 && #[trigger] is_evictable(table@, *config, k) && k != i implies table@[i as int].evicted_before(
                                &table@[k],
                            ) by {
                                if k != b {
                                    lemma_eviction_order_is_transitive(table@[i as int], table@[b as int], table@[k]);
                                }
                            }
                        }
                        best = Some(i);
                    } else {
                        proof {
                            lemma_eviction_order_is_total(table@[i as int], table@[b as int]);
                        }
                    }
                },
            }
        }
        i += 1;
    }
    proof {
        match best {
            Some(b) => {
                assert(is_victim(table@, *config, b as int));
                assert(is_evictable(table@, *config, b as int));
            },
            None => {},
        }
    }
    best
}

} // verus!
