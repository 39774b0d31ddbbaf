use node_core::p2p::eviction::{select_for_eviction, EvictionCandidate, EvictionConfig};
use node_core::p2p::socket_address::AddressGroup;
use node_core::p2p::types::{PeerId, PeerRole};
use node_core::primitives::Time;

fn candidate(id: u64, group: u16, since: u64) -> EvictionCandidate {
    EvictionCandidate {
        peer_id: PeerId::from_u64(id),
        address_group: AddressGroup::V4(group),
        role: PeerRole::Inbound,
        reserved: false,
        discouraged: false,
        connected_since: Time::from_secs(since),
        ping_min: None,
        ban_score: 0,
    }
}

fn no_protection() -> EvictionConfig {
    EvictionConfig { preserved_by_address_group: 0, preserved_by_age: 0, preserved_by_ping: 0 }
}

#[test]
fn default_quotas() {
    let q = EvictionConfig::default_quotas();
    assert_eq!((q.preserved_by_address_group, q.preserved_by_age, q.preserved_by_ping), (4, 8, 8));
}

#[test]
fn empty_table_has_no_victim() {
    assert_eq!(select_for_eviction(&vec![], &no_protection()), None);
    assert_eq!(select_for_eviction(&vec![], &EvictionConfig::default_quotas()), None);
}

#[test]
fn outbound_and_reserved_peers_are_never_victims() {
    let table = vec![
        EvictionCandidate { role: PeerRole::Outbound, ..candidate(1, 1, 50) },
        EvictionCandidate { role: PeerRole::OutboundManual, ..candidate(2, 1, 60) },
        EvictionCandidate { role: PeerRole::OutboundReserved, ..candidate(3, 1, 70) },
        EvictionCandidate { role: PeerRole::Feeler, ..candidate(4, 1, 80) },
        EvictionCandidate { reserved: true, ..candidate(5, 1, 90) },
    ];
    assert_eq!(select_for_eviction(&table, &no_protection()), None);
    let mut table = table;
    table.insert(2, candidate(6, 1, 10));
    assert_eq!(select_for_eviction(&table, &no_protection()), Some(2));
}

#[test]
fn the_most_recently_connected_goes_first() {
    let table = vec![candidate(1, 1, 100), candidate(2, 2, 300), candidate(3, 3, 200)];
    assert_eq!(select_for_eviction(&table, &no_protection()), Some(1));
}

#[test]
fn ties_are_broken_by_score_latency_and_id() {
    let table = vec![
        EvictionCandidate { ban_score: 10, ..candidate(1, 1, 100) },
        EvictionCandidate { ban_score: 20, ..candidate(2, 2, 100) },
        EvictionCandidate { ban_score: 5, ..candidate(3, 3, 100) },
    ];
    assert_eq!(select_for_eviction(&table, &no_protection()), Some(1));
    let table = vec![
        EvictionCandidate { ping_min: Some(10), ..candidate(1, 1, 100) },
        EvictionCandidate { ping_min: Some(500), ..candidate(2, 2, 100) },
        EvictionCandidate { ping_min: Some(20), ..candidate(3, 3, 100) },
    ];
    assert_eq!(select_for_eviction(&table, &no_protection()), Some(1));
    // an unknown latency counts as the worst
    let table = vec![
        EvictionCandidate { ping_min: Some(u64::MAX - 1), ..candidate(1, 1, 100) },
        candidate(2, 2, 100),
    ];
    assert_eq!(select_for_eviction(&table, &no_protection()), Some(1));
    let table = vec![candidate(7, 1, 100), candidate(9, 2, 100), candidate(8, 3, 100)];
    assert_eq!(select_for_eviction(&table, &no_protection()), Some(1));
}

#[test]
fn discouraged_peers_go_before_all_others() {
    let table = vec![
        EvictionCandidate { discouraged: true, ..candidate(1, 1, 10) },
        EvictionCandidate { ban_score: 90, ..candidate(2, 2, 500) },
    ];
    assert_eq!(select_for_eviction(&table, &no_protection()), Some(0));
}

#[test]
fn the_longest_connected_are_protected() {
    let table = vec![candidate(1, 1, 100), candidate(2, 1, 300), candidate(3, 1, 200)];
    let by_age = |n| EvictionConfig { preserved_by_age: n, ..no_protection() };
    assert_eq!(select_for_eviction(&table, &by_age(1)), Some(1));
    assert_eq!(select_for_eviction(&table, &by_age(2)), Some(1));
    assert_eq!(select_for_eviction(&table, &by_age(3)), None);
    // protection beats discouragement
    let table = vec![
        EvictionCandidate { discouraged: true, ..candidate(1, 1, 100) },
        candidate(2, 1, 300),
    ];
    assert_eq!(select_for_eviction(&table, &by_age(1)), Some(1));
}

#[test]
fn the_fastest_are_protected() {
    let table = vec![
        EvictionCandidate { ping_min: Some(30), ..candidate(1, 1, 100) },
        EvictionCandidate { ping_min: Some(10), ..candidate(2, 1, 300) },
        EvictionCandidate { ping_min: Some(20), ..candidate(3, 1, 200) },
    ];
    let by_ping = |n| EvictionConfig { preserved_by_ping: n, ..no_protection() };
    assert_eq!(select_for_eviction(&table, &by_ping(0)), Some(1));
    assert_eq!(select_for_eviction(&table, &by_ping(1)), Some(2));
    assert_eq!(select_for_eviction(&table, &by_ping(2)), Some(0));
    assert_eq!(select_for_eviction(&table, &by_ping(3)), None);
}

#[test]
fn one_peer_of_each_part_of_the_network_is_protected() {
    // three peers of one group and one of another
    let table = vec![candidate(1, 7, 100), candidate(2, 7, 200), candidate(3, 7, 300), candidate(4, 8, 400)];
    let by_group = |n| EvictionConfig { preserved_by_address_group: n, ..no_protection() };
    assert_eq!(select_for_eviction(&table, &by_group(0)), Some(3));
    // the heads of the groups are peers 1 and 4; peer 1 is the older head
    assert_eq!(select_for_eviction(&table, &by_group(1)), Some(3));
    assert_eq!(select_for_eviction(&table, &by_group(2)), Some(2));
    assert_eq!(select_for_eviction(&table, &by_group(9)), Some(2));
    let lonely = vec![candidate(1, 7, 100), candidate(2, 8, 200)];
    assert_eq!(select_for_eviction(&lonely, &by_group(2)), None);
    assert_eq!(select_for_eviction(&lonely, &by_group(1)), Some(1));
}

#[test]
fn selection_depends_on_the_table_alone() {
    let table = vec![
        EvictionCandidate { ping_min: Some(30), ban_score: 3, ..candidate(1, 1, 100) },
        EvictionCandidate { ping_min: Some(10), discouraged: true, ..candidate(2, 2, 300) },
        EvictionCandidate { ping_min: None, ..candidate(3, 2, 200) },
        EvictionCandidate { role: PeerRole::Outbound, ..candidate(4, 3, 500) },
        EvictionCandidate { ping_min: Some(5), ..candidate(5, 4, 250) },
    ];
    let config = EvictionConfig { preserved_by_address_group: 1, preserved_by_age: 1, preserved_by_ping: 1 };
    let first = select_for_eviction(&table, &config);
    for _ in 0..10 {
        assert_eq!(select_for_eviction(&table.clone(), &config), first);
    }
    assert_eq!(first, Some(1));
}

#[test]
fn candidate_orders() {
    let a = candidate(1, 1, 100);
    let b = candidate(2, 1, 100);
    let c = EvictionCandidate { ping_min: Some(4), ..candidate(3, 1, 50) };
    assert!(a.older_than(&b) && !b.older_than(&a) && !a.older_than(&a));
    assert!(c.older_than(&a));
    assert!(c.faster_than(&a) && !a.faster_than(&c));
    assert!(a.faster_than(&b));
    assert_eq!(a.latency(), u64::MAX);
    assert_eq!(c.latency(), 4);
    assert!(b.evicted_before(&a) && !a.evicted_before(&b));
    assert!(a.evicted_before(&c));
    assert!(a.eligible());
    assert!(!EvictionCandidate { reserved: true, ..a }.eligible());
}
