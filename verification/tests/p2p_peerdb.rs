use node_core::p2p::ban_table::BanRecord;
use node_core::p2p::peer_address::PeerAddress;
use node_core::p2p::peerdb::{compute_backoff_delay, PeerDb};
use node_core::p2p::sampling::draw_sample;
use node_core::p2p::socket_address::{IpAddress, SocketAddress};
use node_core::primitives::Time;

fn addr(last: u8, port: u16) -> SocketAddress {
    SocketAddress::new(IpAddress::V4(u32::from_be_bytes([10, 0, 0, last])), port)
}

fn t(secs: u64) -> Time {
    Time::from_secs(secs)
}

#[test]
fn ban_holds_until_it_expires() {
    let mut db = PeerDb::new(vec![]);
    let a = addr(1, 3031);
    db.ban(a.as_bannable(), t(1000), 60);
    assert_eq!(db.banned_until(a.as_bannable()), Some(t(1060)));
    assert!(db.is_address_banned(a.as_bannable(), t(1000)));
    assert!(db.is_address_banned(a.as_bannable(), t(1059)));
    assert!(!db.is_address_banned(a.as_bannable(), t(1060)));
    assert!(db.is_address_banned(addr(1, 9999).as_bannable(), t(1001)));
    assert!(!db.is_address_banned(addr(2, 3031).as_bannable(), t(1001)));
    assert!(db.unban(a.as_bannable()));
    assert!(!db.unban(a.as_bannable()));
    assert!(!db.is_address_banned(a.as_bannable(), t(1001)));
}

#[test]
fn ban_end_saturates() {
    let mut db = PeerDb::new(vec![]);
    let a = addr(1, 1);
    db.ban(a.as_bannable(), t(u64::MAX - 5), 60);
    assert_eq!(db.banned_until(a.as_bannable()), Some(t(u64::MAX)));
}

#[test]
fn discouragement_is_timed_too() {
    let mut db = PeerDb::new(vec![]);
    let a = addr(1, 3031);
    db.discourage(a.as_bannable(), t(10), 5);
    assert!(db.is_address_discouraged(a.as_bannable(), t(14)));
    assert!(!db.is_address_discouraged(a.as_bannable(), t(15)));
    assert!(!db.is_address_banned(a.as_bannable(), t(11)));
    assert!(db.undiscourage(a.as_bannable()));
    assert!(!db.is_address_discouraged(a.as_bannable(), t(11)));
}

#[test]
fn bans_survive_storing() {
    let mut db = PeerDb::new(vec![]);
    db.ban(addr(1, 1).as_bannable(), t(100), 50);
    db.ban(addr(2, 1).as_bannable(), t(100), 70);
    let stored: Vec<Vec<u8>> = db.ban_records().iter().map(|r| r.encode()).collect();
    let mut restored = PeerDb::new(vec![]);
    for bytes in &stored {
        restored.restore_ban(BanRecord::decode(bytes).unwrap());
    }
    assert_eq!(restored.banned_until(addr(1, 7).as_bannable()), Some(t(150)));
    assert_eq!(restored.banned_until(addr(2, 7).as_bannable()), Some(t(170)));
    assert_eq!(restored.banned_until(addr(3, 7).as_bannable()), None);
}

#[test]
fn reserved_addresses() {
    let db = PeerDb::new(vec![addr(9, 1), addr(9, 2)]);
    assert!(db.is_reserved(addr(9, 1)));
    assert!(db.is_reserved(addr(9, 2)));
    assert!(!db.is_reserved(addr(9, 3)));
}

#[test]
fn discovery_skips_known_banned_and_discouraged() {
    let mut db = PeerDb::new(vec![]);
    db.ban(addr(1, 0).as_bannable(), t(0), 100);
    db.discourage(addr(2, 0).as_bannable(), t(0), 100);
    assert!(!db.peer_discovered(addr(1, 5), t(10)));
    assert!(!db.peer_discovered(addr(2, 5), t(10)));
    assert!(db.peer_discovered(addr(3, 5), t(10)));
    assert!(!db.peer_discovered(addr(3, 5), t(11)));
    assert!(db.peer_discovered(addr(1, 5), t(100)));
    assert_eq!(db.known_count(), 2);
    assert!(db.is_known(addr(3, 5)));
    assert!(!db.is_known(addr(2, 5)));
}

fn sorted(mut v: Vec<PeerAddress>) -> Vec<PeerAddress> {
    v.sort();
    v
}

#[test]
fn gossip_never_holds_a_banned_address() {
    let mut db = PeerDb::new(vec![]);
    for last in 1..=4 {
        assert!(db.peer_discovered(addr(last, 3031), t(0)));
    }
    db.ban(addr(3, 0).as_bannable(), t(10), 1000);
    let good = sorted(vec![
        addr(1, 3031).as_peer_address(),
        addr(2, 3031).as_peer_address(),
        addr(4, 3031).as_peer_address(),
    ]);
    for seed in 0..50u64 {
        let draws = vec![seed, seed.wrapping_mul(7919), seed ^ 0xabcdef, 3];
        let picked = db.addresses_for_gossip(t(20), 10, &draws);
        assert_eq!(sorted(picked), good);
        let picked = db.addresses_for_gossip(t(20), 2, &draws);
        assert_eq!(picked.len(), 2);
        assert!(picked.iter().all(|a| good.contains(a)));
        assert_ne!(picked[0], picked[1]);
    }
    assert_eq!(db.addresses_for_gossip(t(20), 0, &vec![1, 2]), vec![]);
    // once the ban has run out the address is told again
    assert_eq!(db.addresses_for_gossip(t(1010), 10, &vec![]).len(), 4);
    assert_eq!(db.good_addresses(t(20)).len(), 3);
}

#[test]
fn sample_follows_the_draws() {
    let pool = vec![10u32, 20, 30, 40];
    assert_eq!(draw_sample(&pool, &vec![], 2), vec![10, 20]);
    assert_eq!(draw_sample(&pool, &vec![3, 0, 1], 3), vec![40, 10, 30]);
    assert_eq!(draw_sample(&pool, &vec![5, 5, 5, 5, 5], 9), vec![20, 40, 30, 10]);
    assert_eq!(draw_sample(&pool, &vec![1], 0), Vec::<u32>::new());
    assert_eq!(draw_sample(&Vec::<u32>::new(), &vec![1], 3), Vec::<u32>::new());
}

#[test]
fn dial_candidate_prefers_the_longest_waiting() {
    let mut db = PeerDb::new(vec![]);
    for last in 1..=3 {
        db.peer_discovered(addr(last, 1), t(0));
    }
    assert_eq!(db.select_dial_candidate(t(5), &vec![]), Some(addr(1, 1)));
    assert_eq!(db.select_dial_candidate(t(5), &vec![addr(1, 1)]), Some(addr(2, 1)));
    db.ban(addr(2, 0).as_bannable(), t(5), 100);
    assert_eq!(db.select_dial_candidate(t(5), &vec![addr(1, 1)]), Some(addr(3, 1)));
    assert!(db.report_dial_failure(addr(3, 1), t(5), 10, 1000));
    assert_eq!(db.select_dial_candidate(t(6), &vec![addr(1, 1)]), None);
    assert!(db.needs_seed(t(6), &vec![addr(1, 1)]));
    assert_eq!(db.select_dial_candidate(t(15), &vec![addr(1, 1)]), Some(addr(3, 1)));
    assert!(!db.needs_seed(t(15), &vec![addr(1, 1)]));
    // a discouraged address is only dialed when nothing else is left
    db.discourage(addr(1, 0).as_bannable(), t(15), 100);
    assert_eq!(db.select_dial_candidate(t(16), &vec![]), Some(addr(3, 1)));
    assert_eq!(db.select_dial_candidate(t(16), &vec![addr(3, 1)]), Some(addr(1, 1)));
    assert!(!db.report_dial_failure(addr(7, 1), t(5), 10, 1000));
}

#[test]
fn backoff_doubles_up_to_the_cap() {
    assert_eq!(compute_backoff_delay(0, 10, 100), 10);
    assert_eq!(compute_backoff_delay(1, 10, 100), 10);
    assert_eq!(compute_backoff_delay(2, 10, 100), 20);
    assert_eq!(compute_backoff_delay(3, 10, 100), 40);
    assert_eq!(compute_backoff_delay(4, 10, 100), 80);
    assert_eq!(compute_backoff_delay(5, 10, 100), 100);
    assert_eq!(compute_backoff_delay(u32::MAX, 10, 100), 100);
    assert_eq!(compute_backoff_delay(3, 200, 100), 100);
    assert_eq!(compute_backoff_delay(70, 1, u64::MAX), u64::MAX);
    assert_eq!(compute_backoff_delay(3, 0, 100), 0);
}

#[test]
fn dial_failures_back_off_and_success_resets() {
    let mut db = PeerDb::new(vec![]);
    db.peer_discovered(addr(1, 1), t(0));
    assert!(db.report_dial_failure(addr(1, 1), t(100), 10, 35));
    assert_eq!(db.select_dial_candidate(t(109), &vec![]), None);
    assert_eq!(db.select_dial_candidate(t(110), &vec![]), Some(addr(1, 1)));
    assert!(db.report_dial_failure(addr(1, 1), t(110), 10, 35));
    assert_eq!(db.select_dial_candidate(t(129), &vec![]), None);
    assert_eq!(db.select_dial_candidate(t(130), &vec![]), Some(addr(1, 1)));
    assert!(db.report_dial_failure(addr(1, 1), t(130), 10, 35));
    assert_eq!(db.select_dial_candidate(t(164), &vec![]), None);
    assert_eq!(db.select_dial_candidate(t(165), &vec![]), Some(addr(1, 1)));
    assert!(db.report_dial_success(addr(1, 1), t(170)));
    assert!(db.report_dial_failure(addr(1, 1), t(200), 10, 35));
    assert_eq!(db.select_dial_candidate(t(210), &vec![]), Some(addr(1, 1)));
    assert!(!db.report_dial_success(addr(2, 1), t(170)));
}
