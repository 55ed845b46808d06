use neochat_core::mesh::{MeshPacket, MeshStore, MAX_SEEN_IDS};

const DAY: u64 = 24 * 3600;
const NOW: u64 = 1_700_000_000;

fn packet(id: &str, to: &str, payload_len: usize, ttl: u8, created_at: u64) -> MeshPacket {
    MeshPacket {
        message_id: id.to_string(),
        recipient_hash: to.to_string(),
        encrypted_payload: vec![7u8; payload_len],
        ttl,
        created_at,
    }
}

fn ids(packets: &[MeshPacket]) -> Vec<String> {
    packets.iter().map(|p| p.message_id.clone()).collect()
}

#[test]
fn dedup_accepts_once() {
    let mut store = MeshStore::new();
    assert!(store.accept_packet_at(packet("m1", "ab12", 10, 20, NOW), NOW));
    assert!(!store.accept_packet_at(packet("m1", "ab12", 10, 20, NOW), NOW));
    assert_eq!(store.packets.len(), 1);
    assert_eq!(store.seen_ids, vec!["m1".to_string()]);
}

#[test]
fn dedup_with_system_clock() {
    let mut store = MeshStore::default();
    let now = std::time::SystemTime::now()
        .duration_since(std::time::UNIX_EPOCH)
        .unwrap()
        .as_secs();
    assert!(store.accept_packet(packet("m1", "ab12", 10, 20, now)));
    assert!(!store.accept_packet(packet("m1", "ab12", 10, 20, now)));
    assert_eq!(ids(&store.packets), vec!["m1".to_string()]);
}

#[test]
fn ttl_runs_out_after_max_hops() {
    let mut p = packet("m1", "ab12", 10, MeshPacket::MAX_TTL, NOW);
    for _ in 0..20 {
        assert!(p.is_alive());
        p.forward();
    }
    assert_eq!(p.ttl, 0);
    assert!(!p.is_alive());
    p.forward();
    assert_eq!(p.ttl, 0);
    let mut store = MeshStore::new();
    assert!(!store.accept_packet_at(p, NOW));
    assert!(store.packets.is_empty());
    assert!(store.seen_ids.is_empty());
}

#[test]
fn old_packet_is_collected_whatever_its_ttl() {
    let mut store = MeshStore::new();
    store.packets.push(packet("old", "ab12", 10, 20, NOW - 8 * DAY));
    store.packets.push(packet("young", "ab12", 10, 20, NOW - 6 * DAY));
    store.gc_at(NOW);
    assert_eq!(ids(&store.packets), vec!["young".to_string()]);
}

#[test]
fn expiry_boundary() {
    let p = packet("m", "h", 1, 1, NOW - 7 * DAY);
    assert!(!p.is_expired(NOW));
    assert!(p.is_expired(NOW + 1));
    let future = packet("m", "h", 1, 1, NOW + 100);
    assert!(!future.is_expired(NOW));
}

#[test]
fn gc_drops_dead_packets() {
    let mut store = MeshStore::new();
    store.packets.push(packet("dead", "ab12", 10, 0, NOW));
    store.packets.push(packet("live", "ab12", 10, 1, NOW));
    store.gc_at(NOW);
    assert_eq!(ids(&store.packets), vec!["live".to_string()]);
}

#[test]
fn gc_keeps_most_recent_seen_ids() {
    let mut store = MeshStore::new();
    for i in 0..(MAX_SEEN_IDS + 5) {
        store.seen_ids.push(format!("id{}", i));
    }
    store.gc_at(NOW);
    assert_eq!(store.seen_ids.len(), MAX_SEEN_IDS);
    assert_eq!(store.seen_ids[0], "id5");
    assert_eq!(store.seen_ids[MAX_SEEN_IDS - 1], format!("id{}", MAX_SEEN_IDS + 4));
}

#[test]
fn gc_drops_oldest_over_capacity() {
    let mb = 1024 * 1024;
    let mut store = MeshStore::new();
    store.packets.push(packet("a", "h", 20 * mb, 5, NOW));
    store.packets.push(packet("b", "h", 20 * mb, 5, NOW));
    store.packets.push(packet("c", "h", 20 * mb, 5, NOW));
    store.gc_at(NOW);
    assert_eq!(ids(&store.packets), vec!["b".to_string(), "c".to_string()]);

    let mut exact = MeshStore::new();
    exact.packets.push(packet("a", "h", 25 * mb, 5, NOW));
    exact.packets.push(packet("b", "h", 25 * mb, 5, NOW));
    exact.gc_at(NOW);
    assert_eq!(ids(&exact.packets), vec!["a".to_string(), "b".to_string()]);
}

#[test]
fn sync_returns_exactly_what_the_peer_lacks() {
    let mut store = MeshStore::new();
    store.packets.push(packet("a", "h", 1, 3, NOW));
    store.packets.push(packet("b", "h", 1, 3, NOW));
    store.packets.push(packet("c", "h", 1, 0, NOW));
    store.packets.push(packet("d", "h", 1, 3, NOW - 8 * DAY));
    store.packets.push(packet("e", "h", 1, 3, NOW));
    let peer_seen = vec!["b".to_string(), "x".to_string()];
    let out = store.get_packets_for_sync_at(&peer_seen, NOW);
    assert_eq!(ids(&out), vec!["a".to_string(), "e".to_string()]);
    let all = store.get_packets_for_sync_at(&[], NOW);
    assert_eq!(ids(&all), vec!["a".to_string(), "b".to_string(), "e".to_string()]);
}

#[test]
fn sync_with_system_clock() {
    let mut store = MeshStore::new();
    store.packets.push(packet("a", "h", 1, 3, 1));
    store.packets.push(packet("b", "h", 1, 3, u64::MAX));
    let out = store.get_packets_for_sync(&[]);
    assert_eq!(ids(&out), vec!["b".to_string()]);
}

#[test]
fn extract_takes_only_my_packets() {
    let mut store = MeshStore::new();
    store.packets.push(packet("a", "me", 1, 3, NOW));
    store.packets.push(packet("b", "you", 1, 3, NOW));
    store.packets.push(packet("c", "me", 1, 3, NOW));
    store.seen_ids = vec!["a".to_string(), "b".to_string(), "c".to_string()];
    let mine = store.extract_my_packets("me");
    assert_eq!(ids(&mine), vec!["a".to_string(), "c".to_string()]);
    assert_eq!(ids(&store.packets), vec!["b".to_string()]);
    assert_eq!(store.seen_ids.len(), 3);
    let none = store.extract_my_packets("me");
    assert!(none.is_empty());
}

#[test]
fn duplicate_copies_every_field() {
    let p = packet("a", "me", 3, 9, NOW);
    let q = p.duplicate();
    assert_eq!(q.message_id, "a");
    assert_eq!(q.recipient_hash, "me");
    assert_eq!(q.encrypted_payload, vec![7u8; 3]);
    assert_eq!(q.ttl, 9);
    assert_eq!(q.created_at, NOW);
}
