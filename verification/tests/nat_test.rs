use std::collections::HashSet;

use voyage_core::addr::{IpAddr, Ipv4Addr, Ipv6Addr, SocketAddr, SocketAddrV4, SocketAddrV6};
use voyage_core::error::VoyageError;
use voyage_core::nat_table::{NatEntry, NatKey, NatManager, NatState};

fn make_tcp_key(src_port: u16, dst_port: u16) -> NatKey {
    let src = SocketAddr::V4(SocketAddrV4::new(Ipv4Addr::new(10, 0, 0, 1), src_port));
    let dst = SocketAddr::V4(SocketAddrV4::new(Ipv4Addr::new(8, 8, 8, 8), dst_port));
    NatKey::tcp(src, dst)
}

fn make_udp_key(src_port: u16, dst_port: u16) -> NatKey {
    let src = SocketAddr::V4(SocketAddrV4::new(Ipv4Addr::new(10, 0, 0, 1), src_port));
    let dst = SocketAddr::V4(SocketAddrV4::new(Ipv4Addr::new(8, 8, 8, 8), dst_port));
    NatKey::udp(src, dst)
}

fn check_indices(manager: &NatManager) {
    let all = manager.get_all_connections();
    assert_eq!(all.len(), manager.len());
    let mut ports = HashSet::new();
    let mut keys = HashSet::new();
    for (key, entry) in all.iter() {
        assert!(ports.insert(entry.local_port));
        assert!(keys.insert(*key));
        assert_eq!(manager.get_key_by_port(entry.local_port), Some(key));
        assert_eq!(manager.get_by_port(entry.local_port), Some(entry));
        assert_eq!(manager.get(key), Some(entry));
        assert_eq!(entry.src_addr, key.src_addr());
        assert_eq!(entry.dst_addr, key.dst_addr());
    }
}

#[test]
fn test_nat_entry_creation() {
    let src = SocketAddr::V4(SocketAddrV4::new(Ipv4Addr::new(10, 0, 0, 1), 12345));
    let dst = SocketAddr::V4(SocketAddrV4::new(Ipv4Addr::new(8, 8, 8, 8), 443));
    let entry = NatEntry::new(src, dst, 50000, 0);

    assert_eq!(entry.src_addr, src);
    assert_eq!(entry.dst_addr, dst);
    assert_eq!(entry.local_port, 50000);
    assert_eq!(entry.state, NatState::SynSent);
    assert_eq!(entry.bytes_sent, 0);
    assert_eq!(entry.bytes_received, 0);
}

#[test]
fn test_nat_entry_state_transitions() {
    let src = SocketAddr::V4(SocketAddrV4::new(Ipv4Addr::new(10, 0, 0, 1), 12345));
    let dst = SocketAddr::V4(SocketAddrV4::new(Ipv4Addr::new(8, 8, 8, 8), 443));
    let mut entry = NatEntry::new(src, dst, 50000, 0);

    assert_eq!(entry.state, NatState::SynSent);

    entry.establish(0);
    assert_eq!(entry.state, NatState::Established);

    entry.start_close(0);
    assert_eq!(entry.state, NatState::FinWait);

    entry.close(0);
    assert_eq!(entry.state, NatState::Closed);
}

#[test]
fn nat_test_nat_key_creation() {
    let src = SocketAddr::V4(SocketAddrV4::new(Ipv4Addr::new(10, 0, 0, 1), 12345));
    let dst = SocketAddr::V4(SocketAddrV4::new(Ipv4Addr::new(8, 8, 8, 8), 443));

    let tcp_key = NatKey::tcp(src, dst);
    assert!(tcp_key.is_tcp());
    assert!(!tcp_key.is_udp());
    assert_eq!(tcp_key.protocol, 6);

    let udp_key = NatKey::udp(src, dst);
    assert!(udp_key.is_udp());
    assert!(!udp_key.is_tcp());
    assert_eq!(udp_key.protocol, 17);
}

#[test]
fn test_nat_manager_create_entry() {
    let mut manager = NatManager::new();
    let key = make_tcp_key(12345, 443);

    let entry = manager.get_or_create(key, 0).unwrap();
    assert_eq!(entry.state, NatState::SynSent);

    assert_eq!(manager.len(), 1);
}

#[test]
fn test_nat_manager_get_existing() {
    let mut manager = NatManager::new();
    let key = make_tcp_key(12345, 443);

    let port1 = manager.get_or_create(key, 0).unwrap().local_port;
    let port2 = manager.get_or_create(key, 0).unwrap().local_port;

    assert_eq!(port1, port2);
    assert_eq!(manager.len(), 1);
}

#[test]
fn test_nat_manager_multiple_entries() {
    let mut manager = NatManager::new();

    for i in 0..100 {
        let key = make_tcp_key(10000 + i, 443);
        manager.get_or_create(key, 0).unwrap();
    }

    assert_eq!(manager.len(), 100);
}

#[test]
fn test_nat_manager_remove() {
    let mut manager = NatManager::new();
    let key = make_tcp_key(12345, 443);

    manager.get_or_create(key, 0).unwrap();
    assert_eq!(manager.len(), 1);

    let removed = manager.remove(&key);
    assert!(removed.is_some());
    assert_eq!(manager.len(), 0);
}

#[test]
fn test_nat_manager_bytes_tracking() {
    let mut manager = NatManager::new();
    let key = make_tcp_key(12345, 443);

    manager.get_or_create(key, 0).unwrap();

    manager.add_bytes_sent(&key, 100, 0);
    manager.add_bytes_received(&key, 200, 0);

    let entry = manager.get(&key).unwrap();
    assert_eq!(entry.bytes_sent, 100);
    assert_eq!(entry.bytes_received, 200);

    assert_eq!(manager.total_bytes_sent(), 100);
    assert_eq!(manager.total_bytes_received(), 200);
}

#[test]
fn test_nat_manager_get_by_port() {
    let mut manager = NatManager::new();
    let key = make_tcp_key(12345, 443);

    let local_port = manager.get_or_create(key, 0).unwrap().local_port;

    let entry = manager.get_by_port(local_port);
    assert!(entry.is_some());
    assert_eq!(entry.unwrap().src_addr.port(), 12345);
}

#[test]
fn test_nat_manager_establish() {
    let mut manager = NatManager::new();
    let key = make_tcp_key(12345, 443);

    manager.get_or_create(key, 0).unwrap();
    assert_eq!(manager.get(&key).unwrap().state, NatState::SynSent);

    manager.establish(&key, 0);
    assert_eq!(manager.get(&key).unwrap().state, NatState::Established);
}

#[test]
fn test_nat_connection_tracking() {
    let mut nat = NatManager::new();

    for i in 0..100 {
        let src = SocketAddr::V4(SocketAddrV4::new(Ipv4Addr::new(10, 0, 0, 1), 10000 + i));
        let dst = SocketAddr::V4(SocketAddrV4::new(Ipv4Addr::new(8, 8, 8, 8), 443));
        let key = NatKey::tcp(src, dst);

        nat.get_or_create(key, 0).unwrap();
    }

    assert_eq!(nat.len(), 100);

    let ports: HashSet<u16> = nat.get_all_connections().iter().map(|(_, e)| e.local_port).collect();

    assert_eq!(ports.len(), 100);
}

#[test]
fn default_table_has_the_default_range() {
    let mut manager = NatManager::default();
    assert!(manager.is_empty());
    let first = manager.get_or_create(make_tcp_key(1, 2), 0).unwrap().local_port;
    let second = manager.get_or_create(make_tcp_key(2, 2), 0).unwrap().local_port;
    assert_eq!(first, 10000);
    assert_eq!(second, 10001);
    assert!(!manager.is_empty());
}

#[test]
fn fresh_entries_carry_the_flow_and_the_time() {
    let mut manager = NatManager::with_config(2000, 2010, 10);
    let src = SocketAddr::V6(SocketAddrV6::new(Ipv6Addr::new(0x2001, 0xdb8, 0, 0, 0, 0, 0, 1), 5000, 7, 9));
    let dst = SocketAddr::V4(SocketAddrV4::new(Ipv4Addr::new(1, 1, 1, 1), 53));
    let key = NatKey::udp(src, dst);
    assert_eq!(key.src_ip, IpAddr::V6(Ipv6Addr::new(0x2001, 0xdb8, 0, 0, 0, 0, 0, 1)));
    let entry = *manager.get_or_create(key, 77).unwrap();
    assert_eq!(entry.local_port, 2000);
    assert_eq!(entry.state, NatState::SynSent);
    assert_eq!(entry.last_seen, 77);
    assert_eq!(entry.bytes_sent, 0);
    assert_eq!(entry.bytes_received, 0);
    assert_eq!(entry.dst_addr, dst);
    assert_eq!(entry.src_addr, SocketAddr::new(key.src_ip, 5000));
    assert_eq!(entry.src_addr, SocketAddr::V6(SocketAddrV6::new(Ipv6Addr::new(0x2001, 0xdb8, 0, 0, 0, 0, 0, 1), 5000, 0, 0)));
    check_indices(&manager);
}

#[test]
fn ports_are_taken_from_the_cursor_and_wrap() {
    let mut manager = NatManager::with_config(100, 102, 10);
    let a = make_tcp_key(1, 1);
    let b = make_tcp_key(2, 1);
    let c = make_tcp_key(3, 1);
    let d = make_tcp_key(4, 1);
    assert_eq!(manager.get_or_create(a, 0).unwrap().local_port, 100);
    assert_eq!(manager.get_or_create(b, 0).unwrap().local_port, 101);
    assert_eq!(manager.get_or_create(c, 0).unwrap().local_port, 102);
    assert!(matches!(manager.get_or_create(d, 0), Err(VoyageError::NatTableFull)));
    assert_eq!(manager.len(), 3);
    assert!(manager.remove(&b).is_some());
    assert_eq!(manager.get_or_create(d, 0).unwrap().local_port, 101);
    assert!(manager.remove(&a).is_some());
    assert!(manager.remove(&c).is_some());
    assert_eq!(manager.get_or_create(a, 0).unwrap().local_port, 102);
    assert_eq!(manager.get_or_create(c, 0).unwrap().local_port, 100);
    check_indices(&manager);
}

#[test]
fn a_range_that_ends_before_it_starts_holds_one_port() {
    let mut manager = NatManager::with_config(500, 400, 10);
    assert_eq!(manager.get_or_create(make_tcp_key(1, 1), 0).unwrap().local_port, 500);
    assert!(matches!(manager.get_or_create(make_tcp_key(2, 1), 0), Err(VoyageError::NatTableFull)));
    check_indices(&manager);
}

#[test]
fn the_last_port_of_all_is_usable() {
    let mut manager = NatManager::with_config(65534, 65535, 10);
    assert_eq!(manager.get_or_create(make_tcp_key(1, 1), 0).unwrap().local_port, 65534);
    assert_eq!(manager.get_or_create(make_tcp_key(2, 1), 0).unwrap().local_port, 65535);
    assert!(matches!(manager.get_or_create(make_tcp_key(3, 1), 0), Err(VoyageError::NatTableFull)));
    assert!(manager.remove(&make_tcp_key(1, 1)).is_some());
    assert_eq!(manager.get_or_create(make_tcp_key(3, 1), 0).unwrap().local_port, 65534);
}

#[test]
fn a_full_table_evicts_before_it_refuses() {
    let mut manager = NatManager::with_config(100, 200, 2);
    let a = make_tcp_key(1, 1);
    let b = make_tcp_key(2, 1);
    let c = make_tcp_key(3, 1);
    manager.get_or_create(a, 0).unwrap();
    manager.get_or_create(b, 0).unwrap();
    assert!(matches!(manager.get_or_create(c, 10), Err(VoyageError::NatTableFull)));
    assert_eq!(manager.len(), 2);
    assert!(manager.close(&a, 20));
    let entry = *manager.get_or_create(c, 30).unwrap();
    assert_eq!(entry.local_port, 102);
    assert_eq!(manager.len(), 2);
    assert!(manager.get(&a).is_none());
    assert!(manager.get_key_by_port(100).is_none());
    assert!(manager.get(&b).is_some());
    check_indices(&manager);
    let d = make_tcp_key(4, 1);
    assert!(matches!(manager.get_or_create(d, 300_000), Err(VoyageError::NatTableFull)));
    let entry = *manager.get_or_create(d, 300_001).unwrap();
    assert_eq!(entry.local_port, 103);
    assert_eq!(manager.len(), 2);
    assert!(manager.get(&b).is_none());
    assert!(manager.get(&c).is_some());
    check_indices(&manager);
}

#[test]
fn a_table_without_room_refuses_every_flow() {
    let mut manager = NatManager::with_config(100, 200, 0);
    assert!(matches!(manager.get_or_create(make_tcp_key(1, 1), 0), Err(VoyageError::NatTableFull)));
    assert_eq!(manager.len(), 0);
}

#[test]
fn eviction_takes_the_closed_and_the_idle() {
    let mut manager = NatManager::new();
    let tcp_old = make_tcp_key(1, 1);
    let tcp_edge = make_tcp_key(2, 1);
    let udp_old = make_udp_key(3, 1);
    let udp_edge = make_udp_key(4, 1);
    let closed = make_tcp_key(5, 1);
    manager.get_or_create(tcp_old, 999).unwrap();
    manager.get_or_create(tcp_edge, 1000).unwrap();
    manager.get_or_create(udp_old, 240_999).unwrap();
    manager.get_or_create(udp_edge, 241_000).unwrap();
    manager.get_or_create(closed, 300_000).unwrap();
    manager.close(&closed, 300_000);
    manager.cleanup_expired(301_000);
    assert!(manager.get(&tcp_old).is_none());
    assert!(manager.get(&tcp_edge).is_some());
    assert!(manager.get(&udp_old).is_none());
    assert!(manager.get(&udp_edge).is_some());
    assert!(manager.get(&closed).is_none());
    assert_eq!(manager.len(), 2);
    let left: Vec<NatKey> = manager.get_all_connections().iter().map(|(k, _)| *k).collect();
    assert_eq!(left, vec![tcp_edge, udp_edge]);
    check_indices(&manager);
    manager.cleanup_expired(0);
    assert_eq!(manager.len(), 2);
}

#[test]
fn entries_expire_after_more_than_the_timeout() {
    let src = SocketAddr::V4(SocketAddrV4::new(Ipv4Addr::new(10, 0, 0, 1), 1));
    let entry = NatEntry::new(src, src, 1, 1000);
    assert!(!entry.is_expired(60_000, 61_000));
    assert!(entry.is_expired(60_000, 61_001));
    assert!(!entry.is_expired(60_000, 0));
    assert!(!entry.is_expired(0, 1000));
    assert!(entry.is_expired(0, 1001));
    assert!(!entry.is_expired(u64::MAX, u64::MAX));
}

#[test]
fn the_time_of_last_activity_never_goes_back() {
    let src = SocketAddr::V4(SocketAddrV4::new(Ipv4Addr::new(10, 0, 0, 1), 1));
    let mut entry = NatEntry::new(src, src, 1, 1000);
    entry.touch(500);
    assert_eq!(entry.last_seen, 1000);
    entry.touch(1500);
    assert_eq!(entry.last_seen, 1500);
    entry.establish(1200);
    assert_eq!(entry.last_seen, 1500);
    assert_eq!(entry.state, NatState::Established);
    entry.close(2000);
    assert_eq!(entry.last_seen, 2000);

    let mut manager = NatManager::new();
    let key = make_tcp_key(1, 1);
    manager.get_or_create(key, 100).unwrap();
    manager.add_bytes_sent(&key, 1, 50);
    assert_eq!(manager.get(&key).unwrap().last_seen, 100);
    manager.add_bytes_received(&key, 1, 150);
    assert_eq!(manager.get(&key).unwrap().last_seen, 150);
    manager.start_close(&key, 120);
    assert_eq!(manager.get(&key).unwrap().last_seen, 150);
    assert_eq!(manager.get(&key).unwrap().state, NatState::FinWait);
    manager.get_or_create(key, 900).unwrap();
    assert_eq!(manager.get(&key).unwrap().last_seen, 150);
}

#[test]
fn unknown_flows_change_nothing() {
    let mut manager = NatManager::new();
    let known = make_tcp_key(1, 1);
    let unknown = make_tcp_key(2, 1);
    manager.get_or_create(known, 5).unwrap();
    let before = manager.get_all_connections();
    assert!(!manager.establish(&unknown, 9));
    assert!(!manager.start_close(&unknown, 9));
    assert!(!manager.close(&unknown, 9));
    manager.add_bytes_sent(&unknown, 10, 9);
    manager.add_bytes_received(&unknown, 10, 9);
    assert!(manager.remove(&unknown).is_none());
    assert_eq!(manager.get_all_connections(), before);
    assert!(manager.get(&unknown).is_none());
    assert!(manager.get_by_port(4).is_none());
    assert!(manager.get_key_by_port(4).is_none());
}

#[test]
fn byte_counters_wrap() {
    let mut manager = NatManager::new();
    let a = make_tcp_key(1, 1);
    let b = make_tcp_key(2, 1);
    manager.get_or_create(a, 0).unwrap();
    manager.get_or_create(b, 0).unwrap();
    manager.add_bytes_sent(&a, u64::MAX, 0);
    manager.add_bytes_sent(&a, 3, 0);
    assert_eq!(manager.get(&a).unwrap().bytes_sent, 2);
    manager.add_bytes_received(&a, u64::MAX, 0);
    manager.add_bytes_received(&b, 5, 0);
    assert_eq!(manager.total_bytes_received(), 4);
    assert_eq!(manager.total_bytes_sent(), 2);
}

#[test]
fn indices_agree_under_churn() {
    let mut manager = NatManager::with_config(3000, 3007, 6);
    let mut now = 0u64;
    for round in 0..200u16 {
        now += 20_000;
        let key = if round % 3 == 0 { make_udp_key(round % 11, 9) } else { make_tcp_key(round % 13, 9) };
        let _ = manager.get_or_create(key, now);
        if round % 4 == 1 {
            manager.close(&make_tcp_key((round + 5) % 13, 9), now);
        }
        if round % 5 == 2 {
            manager.remove(&make_udp_key((round + 3) % 11, 9));
        }
        if round % 7 == 3 {
            manager.cleanup_expired(now);
        }
        if round % 6 == 4 {
            manager.establish(&key, now);
            manager.add_bytes_sent(&key, 10, now);
        }
        assert!(manager.len() <= 6);
        check_indices(&manager);
        for (_, entry) in manager.get_all_connections() {
            assert!(entry.local_port >= 3000 && entry.local_port <= 3007);
            assert!(entry.last_seen <= now);
        }
    }
}

#[test]
fn closed_flows_stay_closed_until_they_leave() {
    let mut manager = NatManager::new();
    let key = make_tcp_key(1, 1);
    let other = make_tcp_key(2, 1);
    manager.get_or_create(key, 0).unwrap();
    manager.get_or_create(other, 0).unwrap();
    manager.close(&key, 1);
    manager.add_bytes_sent(&key, 4, 2);
    manager.add_bytes_received(&key, 4, 3);
    manager.get_or_create(key, 4).unwrap();
    manager.establish(&other, 5);
    manager.close(&key, 6);
    assert_eq!(manager.get(&key).unwrap().state, NatState::Closed);
    assert_eq!(manager.get(&other).unwrap().state, NatState::Established);
    manager.cleanup_expired(7);
    assert!(manager.get(&key).is_none());
    assert_eq!(manager.get_or_create(key, 8).unwrap().state, NatState::SynSent);
}

#[test]
fn closed_flows_are_not_brought_back() {
    let src = SocketAddr::V4(SocketAddrV4::new(Ipv4Addr::new(10, 0, 0, 1), 1));
    let mut entry = NatEntry::new(src, src, 1, 10);
    entry.close(20);
    assert_eq!(entry.state, NatState::Closed);
    assert_eq!(entry.last_seen, 20);
    let closed = entry;
    entry.establish(30);
    assert_eq!(entry, closed);
    entry.start_close(40);
    assert_eq!(entry, closed);
    entry.close(50);
    assert_eq!(entry.state, NatState::Closed);
    assert_eq!(entry.last_seen, 50);

    let mut manager = NatManager::new();
    let key = make_tcp_key(1, 1);
    let other = make_tcp_key(2, 1);
    manager.get_or_create(key, 0).unwrap();
    manager.get_or_create(other, 0).unwrap();
    manager.establish(&key, 1);
    manager.close(&key, 2);
    let before = manager.get_all_connections();
    assert!(manager.establish(&key, 3));
    assert_eq!(manager.get_all_connections(), before);
    assert!(manager.start_close(&key, 4));
    assert_eq!(manager.get_all_connections(), before);
    assert_eq!(manager.get(&key).unwrap().state, NatState::Closed);
    assert_eq!(manager.get(&key).unwrap().last_seen, 2);
    assert!(manager.start_close(&other, 5));
    assert_eq!(manager.get(&other).unwrap().state, NatState::FinWait);
    assert!(manager.establish(&other, 6));
    assert_eq!(manager.get(&other).unwrap().state, NatState::Established);
    assert!(manager.remove(&key).is_some());
    assert_eq!(manager.get_or_create(key, 7).unwrap().state, NatState::SynSent);
}
