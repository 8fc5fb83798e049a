use mc_gateway::cache::StatusCache;
use mc_gateway::packet::UncompressedPacket;

const SECOND: u128 = 1_000_000_000;

fn packet(byte: u8) -> UncompressedPacket {
    UncompressedPacket::new(0, vec![byte])
}

fn found(cache: &StatusCache, key: &str, ttl: u64, now: u128) -> Option<Vec<u8>> {
    cache.get(key, ttl, now).map(|packet| packet.payload)
}

#[test]
fn an_empty_cache_holds_nothing() {
    assert_eq!(found(&StatusCache::new(), "a:1", 10, 0), None);
    assert_eq!(found(&StatusCache::default(), "", u64::MAX, 0), None);
}

#[test]
fn a_status_is_served_until_it_expires() {
    let mut cache = StatusCache::new();
    cache.set("a:1".to_string(), packet(7), 5 * SECOND);
    assert_eq!(found(&cache, "a:1", 10, 5 * SECOND), Some(vec![7]));
    assert_eq!(found(&cache, "a:1", 10, 15 * SECOND - 1), Some(vec![7]));
    assert_eq!(found(&cache, "a:1", 10, 15 * SECOND), None);
    assert_eq!(found(&cache, "a:1", 11, 15 * SECOND), Some(vec![7]));
}

#[test]
fn nothing_lives_for_no_time() {
    let mut cache = StatusCache::new();
    cache.set("a:1".to_string(), packet(7), SECOND);
    assert_eq!(found(&cache, "a:1", 0, SECOND), None);
}

#[test]
fn a_clock_that_runs_back_counts_as_no_time() {
    let mut cache = StatusCache::new();
    cache.set("a:1".to_string(), packet(7), 9 * SECOND);
    assert_eq!(found(&cache, "a:1", 1, 2 * SECOND), Some(vec![7]));
    assert_eq!(found(&cache, "a:1", 0, 2 * SECOND), None);
}

#[test]
fn times_without_end() {
    let mut cache = StatusCache::new();
    cache.set("a:1".to_string(), packet(7), 0);
    assert_eq!(found(&cache, "a:1", u64::MAX, (u64::MAX as u128) * SECOND - 1), Some(vec![7]));
    assert_eq!(found(&cache, "a:1", u64::MAX, (u64::MAX as u128) * SECOND), None);
    assert_eq!(found(&cache, "a:1", u64::MAX, u128::MAX), None);
}

#[test]
fn a_newer_status_replaces_an_older_one() {
    let mut cache = StatusCache::new();
    cache.set("a:1".to_string(), packet(7), SECOND);
    cache.set("a:1".to_string(), packet(8), 20 * SECOND);
    assert_eq!(found(&cache, "a:1", 5, 22 * SECOND), Some(vec![8]));
}

#[test]
fn other_statuses_are_kept() {
    let mut cache = StatusCache::new();
    cache.set("a:1".to_string(), packet(7), SECOND);
    cache.set("b:1".to_string(), packet(8), SECOND);
    cache.set("a:1".to_string(), packet(9), 2 * SECOND);
    assert_eq!(found(&cache, "b:1", 5, 2 * SECOND), Some(vec![8]));
    assert_eq!(found(&cache, "a:1", 5, 2 * SECOND), Some(vec![9]));
    assert_eq!(found(&cache, "A:1", 5, 2 * SECOND), None);
}
