use nostrss::feed::feed_snapshot;
use nostrss::memory::DedupMemory;

fn ids(v: &[&str]) -> Vec<String> {
    v.iter().map(|s| s.to_string()).collect()
}

#[test]
fn memory_without_record_gives_empty() {
    let m = DedupMemory::new();
    assert!(!m.has(&"job".to_string()));
    assert!(m.get(&"job".to_string()).is_empty());
}

#[test]
fn memory_put_then_get() {
    let mut m = DedupMemory::new();
    m.put("j1".to_string(), ids(&["a", "b"]));
    m.put("j2".to_string(), ids(&["c"]));
    assert!(m.has(&"j1".to_string()));
    assert_eq!(m.get(&"j1".to_string()), ids(&["a", "b"]));
    assert_eq!(m.get(&"j2".to_string()), ids(&["c"]));
}

#[test]
fn memory_put_replaces_record() {
    let mut m = DedupMemory::new();
    m.put("j1".to_string(), ids(&["a", "b"]));
    m.put("j1".to_string(), ids(&["z"]));
    assert_eq!(m.get(&"j1".to_string()), ids(&["z"]));
}

#[test]
fn snapshot_keeps_fetched_ids_in_order() {
    assert_eq!(feed_snapshot(Some(ids(&["B", "A"]))), ids(&["B", "A"]));
}

#[test]
fn snapshot_of_failed_fetch_is_empty() {
    assert!(feed_snapshot(None).is_empty());
}
