use vex_browser::find::{FindMatch, FindState};
use vex_browser::node::VexId;

fn nodes(texts: &[&str]) -> Vec<(VexId, String)> {
    texts.iter().enumerate().map(|(i, t)| (VexId::new(i as u32 + 1), t.to_string())).collect()
}

#[test]
fn find_text_in_page() {
    let page = nodes(&["Hello world. Hello again."]);
    let mut find = FindState::new();
    find.search(&page, "Hello");
    assert_eq!(find.match_count(), 2);
    assert_eq!(find.status(), "1 of 2");
}

#[test]
fn find_case_insensitive() {
    let page = nodes(&["Hello HELLO hello"]);
    let mut find = FindState::new();
    find.search(&page, "hello");
    assert_eq!(find.match_count(), 3);
}

#[test]
fn find_case_sensitive() {
    let page = nodes(&["Hello HELLO hello"]);
    let mut find = FindState::new();
    find.case_sensitive = true;
    find.search(&page, "hello");
    assert_eq!(find.match_count(), 1);
    assert_eq!(find.matches[0], FindMatch { node_id: VexId::new(1), offset: 12, length: 5 });
}

#[test]
fn find_no_matches() {
    let page = nodes(&["Hello world"]);
    let mut find = FindState::new();
    find.search(&page, "xyz");
    assert_eq!(find.match_count(), 0);
    assert_eq!(find.status(), "No matches");
}

#[test]
fn next_prev_match_wraps() {
    let page = nodes(&["a a a"]);
    let mut find = FindState::new();
    find.search(&page, "a");
    assert!(find.match_count() >= 3);
    let first = find.current_index;
    find.next_match();
    assert_ne!(find.current_index, first);
    find.prev_match();
    assert_eq!(find.current_index, first);
    find.prev_match();
    assert_eq!(find.current_index, Some(find.match_count() - 1));
    find.next_match();
    assert_eq!(find.current_index, Some(0));
}

#[test]
fn clear_resets_state() {
    let page = nodes(&["Hello"]);
    let mut find = FindState::new();
    find.search(&page, "Hello");
    assert!(find.is_active());
    find.clear();
    assert!(!find.is_active());
    assert_eq!(find.match_count(), 0);
    assert_eq!(find.status(), "");
}

#[test]
fn find_across_multiple_text_nodes() {
    let page = nodes(&["Hello", "Hello again", "Hello!"]);
    let mut find = FindState::new();
    find.search(&page, "Hello");
    assert_eq!(find.match_count(), 3);
    assert_eq!(find.matches[1].node_id, VexId::new(2));
    assert_eq!(find.current_match(), Some(&FindMatch { node_id: VexId::new(1), offset: 0, length: 5 }));
}

#[test]
fn empty_query_returns_no_matches() {
    let page = nodes(&["Hello"]);
    let mut find = FindState::new();
    find.search(&page, "");
    assert_eq!(find.match_count(), 0);
    assert!(!find.is_active());
}

#[test]
fn overlapping_matches_and_byte_offsets() {
    let page = nodes(&["aaaa", "é aa"]);
    let mut find = FindState::new();
    find.search(&page, "aa");
    let offsets: Vec<(u32, usize)> = find.matches.iter().map(|m| (m.node_id.get(), m.offset)).collect();
    assert_eq!(offsets, vec![(1, 0), (1, 1), (1, 2), (2, 3)]);
    find.current_index = None;
    assert_eq!(find.status(), "4 matches");
}

#[test]
fn multibyte_leading_query_is_refused_when_it_occurs() {
    let page = nodes(&["é"]);
    let mut find = FindState::new();
    assert!(!find.try_search(&page, "é"));
    assert_eq!(find.match_count(), 0);
    assert!(find.try_search(&page, "x"));
    assert!(find.try_search(&nodes(&["abc"]), "é"));
    assert_eq!(find.match_count(), 0);
}
