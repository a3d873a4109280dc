use oxide_seo::frontier::{hash_url, FrontierEntry, UrlFrontier};

fn make_entry(path: &str, depth: u32) -> FrontierEntry {
    let url = format!("https://example.com{}", path);
    FrontierEntry { url_hash: hash_url(&url), url, depth, priority: 100 - depth as i32, source_page_id: None }
}

#[test]
fn test_hash_url_deterministic() {
    let url = "https://example.com/page";
    assert_eq!(hash_url(url), hash_url(url));
}

#[test]
fn test_hash_url_different_urls() {
    assert_ne!(hash_url("https://example.com/a"), hash_url("https://example.com/b"));
}

#[test]
fn hash_url_is_blake3_of_the_text() {
    assert_eq!(hash_url("abc"), *blake3::hash(b"abc").as_bytes());
}

#[test]
fn test_frontier_dedup() {
    let mut frontier = UrlFrontier::new(100);
    let hash = hash_url("https://example.com/");
    let entry = FrontierEntry { url: "https://example.com/".into(), url_hash: hash, depth: 0, priority: 100, source_page_id: None };
    assert!(frontier.push(entry.clone()));
    assert!(!frontier.push(entry)); // duplicate rejected
}

#[test]
fn test_frontier_priority_order() {
    let mut frontier = UrlFrontier::new(100);
    let low = FrontierEntry {
        url: "https://example.com/low".into(),
        url_hash: hash_url("https://example.com/low"),
        depth: 3,
        priority: 10,
        source_page_id: None,
    };
    let high = FrontierEntry {
        url: "https://example.com/high".into(),
        url_hash: hash_url("https://example.com/high"),
        depth: 1,
        priority: 100,
        source_page_id: None,
    };
    frontier.push(low);
    frontier.push(high);
    let first = frontier.pop().unwrap();
    assert_eq!(first.url, "https://example.com/high");
}

#[test]
fn equal_priority_pops_shallower_first() {
    let mut frontier = UrlFrontier::new(10);
    let mut deep = make_entry("/deep", 2);
    deep.priority = 50;
    let mut shallow = make_entry("/shallow", 1);
    shallow.priority = 50;
    frontier.push(deep);
    frontier.push(shallow);
    assert_eq!(frontier.pop().unwrap().url, "https://example.com/shallow");
    assert_eq!(frontier.pop().unwrap().url, "https://example.com/deep");
    assert!(frontier.pop().is_none());
    assert_eq!(frontier.total_dequeued(), 2);
}

/// Overflowed entries leave through `take_overflow` to a store and come
/// back through `refill`; here a vector stands for the store.
#[test]
fn test_overflow_and_refill() {
    let mut frontier = UrlFrontier::with_db(5, "c1".into());
    for i in 0..10 {
        let path = format!("/page{}", i);
        frontier.push(make_entry(&path, i as u32));
    }
    assert_eq!(frontier.len(), 5);
    assert_eq!(frontier.overflow_count(), 5);
    assert_eq!(frontier.total_discovered(), 10);

    let mut store: Vec<FrontierEntry> = frontier.take_overflow();
    assert_eq!(store.len(), 5);
    let mut popped = Vec::new();
    loop {
        if frontier.needs_refill() || (frontier.is_empty() && frontier.overflow_count() > 0) {
            let n = frontier.refill_batch_size().min(store.len());
            let batch: Vec<FrontierEntry> = store.drain(..n).collect();
            frontier.refill(batch);
        }
        match frontier.pop() {
            Some(entry) => popped.push(entry.url),
            None => break,
        }
    }
    assert_eq!(popped.len(), 10);
    assert!(frontier.is_empty());
    assert_eq!(frontier.overflow_count(), 0);
}

#[test]
fn test_persist_and_restore() {
    let mut frontier = UrlFrontier::with_db(100, "c2".into());
    frontier.push(make_entry("/a", 0));
    frontier.push(make_entry("/b", 1));
    frontier.push(make_entry("/c", 2));
    assert_eq!(frontier.len(), 3);

    // What a store would hold: the queued entries.
    let persisted: Vec<FrontierEntry> = frontier.entries().clone();
    let mut restored = UrlFrontier::restore("c2", 100, persisted);
    assert_eq!(restored.total_discovered(), 3);
    let first = restored.pop().unwrap();
    assert!(first.url.contains("/a"));
}

#[test]
fn restore_keeps_only_capacity_in_memory() {
    let entries: Vec<FrontierEntry> = (0..5).map(|i| make_entry(&format!("/r{}", i), 0)).collect();
    let restored = UrlFrontier::restore("c9", 2, entries);
    assert_eq!(restored.len(), 2);
    assert_eq!(restored.overflow_count(), 3);
    assert!(restored.contains(&hash_url("https://example.com/r4")));
}

#[test]
fn test_dedup_across_overflow() {
    let mut frontier = UrlFrontier::with_db(3, "c3".into());
    for i in 0..5 {
        assert!(frontier.push(make_entry(&format!("/p{}", i), 0)));
    }
    for i in 0..5 {
        assert!(!frontier.push(make_entry(&format!("/p{}", i), 0)));
    }
    assert_eq!(frontier.total_discovered(), 5);
}

#[test]
fn politeness_log_keeps_latest_fetch() {
    let mut frontier = UrlFrontier::new(4);
    assert_eq!(frontier.last_fetch_time("example.com"), None);
    frontier.record_fetch("example.com", 100);
    frontier.record_fetch("other.com", 150);
    frontier.record_fetch("example.com", 300);
    assert_eq!(frontier.last_fetch_time("example.com"), Some(300));
    assert_eq!(frontier.last_fetch_time("other.com"), Some(150));
}
