use nostrss::feed::{fan_out, feed_snapshot, Feed};
use nostrss::tick::{Tick, TickAction, TickEvent};

fn ids(v: &[&str]) -> Vec<String> {
    v.iter().map(|s| s.to_string()).collect()
}

fn feed(profiles: Option<Vec<String>>, cache_size: usize) -> Feed {
    Feed {
        id: "f1".to_string(),
        name: "Feed one".to_string(),
        url: "https://example.org/rss".to_string(),
        tags: Some(ids(&["rust", "news"])),
        profiles,
        cache_size,
    }
}

/// Drives a tick in which every render succeeds, and returns the entries
/// handed out for publication and the record stored at the end.
fn run(feed: &Feed, record: Vec<String>, registered: Vec<String>, fetched: Vec<String>) -> (Vec<usize>, Option<Vec<String>>) {
    let mut tick = Tick::new(feed, record, registered);
    let mut published = Vec::new();
    let mut action = tick.step(TickEvent::Fetched(fetched));
    loop {
        match action {
            TickAction::Render(i) => action = tick.step(TickEvent::Rendered(format!("message {}", i))),
            TickAction::Publish { entry, .. } => {
                published.push(entry);
                action = tick.step(TickEvent::Sent);
            }
            TickAction::Store(r) => return (published, Some(r)),
            TickAction::Stop => return (published, None),
        }
    }
}

#[test]
fn new_entries_are_published_and_stored_newest_first() {
    let f = feed(None, 10);
    let (published, stored) = run(&f, ids(&["x"]), ids(&["default"]), ids(&["e1", "e2", "e3"]));
    assert_eq!(published, vec![0, 1, 2]);
    assert_eq!(stored, Some(ids(&["e3", "e2", "e1", "x"])));
}

#[test]
fn record_is_truncated_to_cache_size() {
    let f = feed(None, 2);
    let (published, stored) = run(&f, ids(&["x"]), ids(&["default"]), ids(&["a", "b", "c"]));
    assert_eq!(published, vec![0, 1, 2]);
    assert_eq!(stored, Some(ids(&["c", "b"])));
}

#[test]
fn zero_cache_size_keeps_nothing() {
    let f = feed(None, 0);
    let (_, stored) = run(&f, ids(&["x"]), ids(&["default"]), ids(&["a"]));
    assert_eq!(stored, Some(Vec::new()));
}

#[test]
fn repeated_tick_publishes_nothing() {
    let f = feed(None, 5);
    let fetched = ids(&["a", "b", "c"]);
    let (first, stored) = run(&f, Vec::new(), ids(&["default"]), fetched.clone());
    assert_eq!(first, vec![0, 1, 2]);
    let record = stored.unwrap();
    let (second, stored_again) = run(&f, record.clone(), ids(&["default"]), fetched.clone());
    assert!(second.is_empty());
    assert_eq!(stored_again, Some(record.clone()));
    let (third, _) = run(&f, record, ids(&["default"]), fetched);
    assert!(third.is_empty());
}

#[test]
fn duplicate_within_one_fetch_is_published_once() {
    let f = feed(None, 5);
    let (published, stored) = run(&f, Vec::new(), ids(&["default"]), ids(&["a", "b", "a"]));
    assert_eq!(published, vec![0, 1]);
    assert_eq!(stored, Some(ids(&["b", "a"])));
}

#[test]
fn old_entry_deep_in_record_is_not_new() {
    let f = feed(None, 5);
    let (published, stored) = run(&f, ids(&["n", "m", "old"]), ids(&["default"]), ids(&["old"]));
    assert!(published.is_empty());
    assert_eq!(stored, Some(ids(&["n", "m", "old"])));
}

#[test]
fn empty_fetch_stores_truncated_record() {
    let f = feed(None, 2);
    let (published, stored) = run(&f, ids(&["a", "b", "c"]), ids(&["default"]), Vec::new());
    assert!(published.is_empty());
    assert_eq!(stored, Some(ids(&["a", "b"])));
}

#[test]
fn snapshot_suppresses_initial_republish() {
    let f = feed(None, 10);
    let record = feed_snapshot(Some(ids(&["A", "B"])));
    let (published, stored) = run(&f, record, ids(&["default"]), ids(&["A", "B", "C"]));
    assert_eq!(published, vec![2]);
    assert_eq!(stored, Some(ids(&["C", "A", "B"])));
}

#[test]
fn fetch_failure_ends_tick_without_store() {
    let f = feed(None, 10);
    let mut tick = Tick::new(&f, ids(&["a"]), ids(&["default"]));
    assert!(matches!(tick.step(TickEvent::FetchFailed), TickAction::Stop));
    assert!(matches!(tick.step(TickEvent::Sent), TickAction::Stop));
}

#[test]
fn render_failure_aborts_tick_cleanly() {
    let f = feed(None, 10);
    let mut tick = Tick::new(&f, Vec::new(), ids(&["default"]));
    assert!(matches!(tick.step(TickEvent::Fetched(ids(&["e1", "e2", "e3"]))), TickAction::Render(0)));
    match tick.step(TickEvent::Rendered("first".to_string())) {
        TickAction::Publish { entry, message, .. } => {
            assert_eq!(entry, 0);
            assert_eq!(message, "first".to_string());
        }
        other => panic!("unexpected action {:?}", other),
    }
    assert!(matches!(tick.step(TickEvent::Sent), TickAction::Render(1)));
    assert!(matches!(tick.step(TickEvent::RenderFailed), TickAction::Stop));
    // Nothing more is published and no record is handed back for storing.
    assert!(matches!(tick.step(TickEvent::Rendered("late".to_string())), TickAction::Stop));
    assert!(matches!(tick.step(TickEvent::Sent), TickAction::Stop));
}

#[test]
fn missing_client_is_localized() {
    let f = feed(Some(ids(&["p1", "p2"])), 10);
    let mut tick = Tick::new(&f, Vec::new(), ids(&["p1"]));
    assert!(matches!(tick.step(TickEvent::Fetched(ids(&["e"]))), TickAction::Render(0)));
    match tick.step(TickEvent::Rendered("body".to_string())) {
        TickAction::Publish { entry, message, tags, to, missing } => {
            assert_eq!(entry, 0);
            assert_eq!(message, "body".to_string());
            assert_eq!(tags, ids(&["rust", "news"]));
            assert_eq!(to, ids(&["p1"]));
            assert_eq!(missing, ids(&["p2"]));
        }
        other => panic!("unexpected action {:?}", other),
    }
    match tick.step(TickEvent::Sent) {
        TickAction::Store(r) => assert_eq!(r, ids(&["e"])),
        other => panic!("unexpected action {:?}", other),
    }
}

#[test]
fn feed_without_profiles_publishes_to_default() {
    let mut f = feed(None, 10);
    f.tags = None;
    let mut tick = Tick::new(&f, Vec::new(), ids(&["default", "other"]));
    assert!(matches!(tick.step(TickEvent::Fetched(ids(&["e"]))), TickAction::Render(0)));
    match tick.step(TickEvent::Rendered("body".to_string())) {
        TickAction::Publish { tags, to, missing, .. } => {
            assert!(tags.is_empty());
            assert_eq!(to, ids(&["default"]));
            assert!(missing.is_empty());
        }
        other => panic!("unexpected action {:?}", other),
    }
}

#[test]
fn fan_out_keeps_configured_order() {
    let (to, missing) = fan_out(&ids(&["c", "a", "x", "b"]), &ids(&["a", "b", "c"]));
    assert_eq!(to, ids(&["c", "a", "b"]));
    assert_eq!(missing, ids(&["x"]));
}

#[test]
fn event_out_of_turn_ends_tick() {
    let f = feed(None, 10);
    let mut tick = Tick::new(&f, Vec::new(), ids(&["default"]));
    assert!(matches!(tick.step(TickEvent::Rendered("m".to_string())), TickAction::Stop));
    assert!(matches!(tick.step(TickEvent::Fetched(ids(&["e"]))), TickAction::Stop));
}
