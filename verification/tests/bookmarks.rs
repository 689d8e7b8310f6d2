use vex_browser::bookmarks::{BookmarkId, BookmarkManager};

#[test]
fn add_and_get_bookmark() {
    let mut mgr = BookmarkManager::new();
    let id = mgr.add("Rust", "https://rust-lang.org", "Bookmarks Bar");
    let b = mgr.get(id).unwrap();
    assert_eq!(b.title, "Rust");
    assert_eq!(b.url, "https://rust-lang.org");
}

#[test]
fn remove_bookmark() {
    let mut mgr = BookmarkManager::new();
    let id = mgr.add("Test", "https://test.com", "Other");
    assert_eq!(mgr.count(), 1);
    assert!(mgr.remove(id));
    assert_eq!(mgr.count(), 0);
}

#[test]
fn update_bookmark() {
    let mut mgr = BookmarkManager::new();
    let id = mgr.add("Old", "https://old.com", "Bar");
    mgr.update(id, "New", "https://new.com");
    let b = mgr.get(id).unwrap();
    assert_eq!(b.title, "New");
    assert_eq!(b.url, "https://new.com");
}

#[test]
fn search_bookmarks() {
    let mut mgr = BookmarkManager::new();
    mgr.add("Rust Lang", "https://rust-lang.org", "Dev");
    mgr.add("Zig Lang", "https://ziglang.org", "Dev");
    mgr.add("News", "https://news.com", "Other");
    let results = mgr.search("lang");
    assert_eq!(results.len(), 2);
}

#[test]
fn is_bookmarked() {
    let mut mgr = BookmarkManager::new();
    mgr.add("Test", "https://example.com", "Bar");
    assert!(mgr.is_bookmarked("https://example.com"));
    assert!(!mgr.is_bookmarked("https://other.com"));
}

#[test]
fn bar_bookmarks_filter() {
    let mut mgr = BookmarkManager::new();
    mgr.add("A", "https://a.com", "Bookmarks Bar");
    mgr.add("B", "https://b.com", "Other");
    let bar = mgr.bar_bookmarks();
    assert_eq!(bar.len(), 1);
    assert_eq!(bar[0].title, "A");
}

#[test]
fn folders_lists_unique() {
    let mut mgr = BookmarkManager::new();
    mgr.add("A", "https://a.com", "Dev");
    mgr.add("B", "https://b.com", "Dev");
    mgr.add("C", "https://c.com", "Other");
    let folders = mgr.folders();
    assert_eq!(folders.len(), 2);
}

#[test]
fn ids_increase_and_missing_ids_report_false() {
    let mut mgr = BookmarkManager::new();
    let a = mgr.add_at("A", "https://a.com", "Dev", 100);
    let b = mgr.add_at("B", "https://b.com", "Dev", 200);
    assert_eq!(a, BookmarkId(1));
    assert_eq!(b, BookmarkId(2));
    assert_eq!(mgr.next_id(), 3);
    assert_eq!(mgr.get(b).unwrap().created_at, 200);
    assert!(!mgr.remove(BookmarkId(9)));
    assert!(!mgr.update(BookmarkId(9), "x", "y"));
    assert!(mgr.get(BookmarkId(9)).is_none());
    assert!(mgr.remove(a));
    assert_eq!(mgr.all().len(), 1);
    assert_eq!(mgr.in_folder("Dev").len(), 1);
}
