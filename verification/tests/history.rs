use vex_browser::history::{BrowsingHistory, HistoryRecord};

#[test]
fn record_and_retrieve() {
    let mut history = BrowsingHistory::new();
    history.record_visit("https://example.com", "Example");
    history.record_visit("https://rust-lang.org", "Rust");
    assert_eq!(history.count(), 2);
    let recent = history.recent(10);
    assert_eq!(recent[0].url, "https://rust-lang.org");
    assert_eq!(recent[1].url, "https://example.com");
}

#[test]
fn duplicate_consecutive_increments_count() {
    let mut history = BrowsingHistory::new();
    history.record_visit("https://example.com", "Example");
    history.record_visit("https://example.com", "Example - Updated");
    assert_eq!(history.count(), 1);
    let r = history.recent(1);
    assert_eq!(r[0].visit_count, 2);
    assert_eq!(r[0].title, "Example - Updated");
}

#[test]
fn search_history() {
    let mut history = BrowsingHistory::new();
    history.record_visit("https://rust-lang.org", "Rust Programming");
    history.record_visit("https://zig.dev", "Zig Language");
    history.record_visit("https://example.com", "Example");
    let results = history.search("lang");
    assert_eq!(results.len(), 2);
}

#[test]
fn remove_url() {
    let mut history = BrowsingHistory::new();
    history.record_visit("https://a.com", "A");
    history.record_visit("https://b.com", "B");
    history.remove_url("https://a.com");
    assert_eq!(history.count(), 1);
}

#[test]
fn clear_history() {
    let mut history = BrowsingHistory::new();
    history.record_visit("https://a.com", "A");
    history.record_visit("https://b.com", "B");
    history.clear();
    assert_eq!(history.count(), 0);
}

#[test]
fn max_records_trims_old() {
    let mut history = BrowsingHistory::with_max_records(3);
    for i in 0..5 {
        history.record_visit(&format!("https://{i}.com"), &format!("Page {i}"));
    }
    assert_eq!(history.count(), 3);
    let recent = history.recent(3);
    assert_eq!(recent[0].url, "https://4.com");
}

#[test]
fn record_visit_at_keeps_title_when_empty() {
    let mut history = BrowsingHistory::new();
    history.record_visit_at("https://a.com", "A", 10);
    history.record_visit_at("https://a.com", "", 20);
    let r = history.recent(1);
    assert_eq!(r[0].title, "A");
    assert_eq!(r[0].visited_at, 20);
    assert_eq!(r[0].visit_count, 2);
}

#[test]
fn search_is_case_insensitive_and_newest_first() {
    let mut history = BrowsingHistory::new();
    history.record_visit_at("https://ONE.org", "First", 1);
    history.record_visit_at("https://two.org", "Second ÄÖ", 2);
    let hits = history.search("ORG");
    assert_eq!(hits.len(), 2);
    assert_eq!(hits[0].url, "https://two.org");
    assert_eq!(history.search("äö").len(), 1);
    assert_eq!(history.all().len(), 2);
}

#[test]
fn zero_cap_keeps_nothing_and_from_parts_roundtrip() {
    let mut history = BrowsingHistory::with_max_records(0);
    history.record_visit_at("https://a.com", "A", 1);
    assert_eq!(history.count(), 0);
    let rec = HistoryRecord { url: "u".into(), title: "t".into(), visited_at: 5, visit_count: 3 };
    let h = BrowsingHistory::from_parts(vec![rec], 7);
    assert_eq!(h.max_records(), 7);
    assert_eq!(h.records()[0].visit_count, 3);
}
