use vex_browser::devtools::elements::{DomTreeRow, DomTreeState, TreeNode, TreeNodeKind};
use vex_browser::node::VexId;

#[test]
fn default_state_has_no_selection() {
    let state = DomTreeState::new();
    assert!(state.selected().is_none());
    assert!(state.hovered().is_none());
}

#[test]
fn toggle_expand() {
    let mut state = DomTreeState::new();
    let id = VexId::new(5);
    assert!(!state.is_expanded(id));
    state.toggle_expand(id);
    assert!(state.is_expanded(id));
    state.toggle_expand(id);
    assert!(!state.is_expanded(id));
}

#[test]
fn elements_select_and_deselect() {
    let mut state = DomTreeState::new();
    let id = VexId::new(3);
    state.select(id);
    assert_eq!(state.selected(), Some(id));
    state.deselect();
    assert!(state.selected().is_none());
}

#[test]
fn reveal_node_expands_ancestors() {
    let mut state = DomTreeState::new();
    state.reveal_node(&[VexId::new(2), VexId::new(1)]);
    assert!(state.is_expanded(VexId::new(1)));
    assert!(state.is_expanded(VexId::new(2)));
    assert!(!state.is_expanded(VexId::new(3)));
    state.collapse(VexId::new(1));
    assert!(!state.is_expanded(VexId::new(1)));
    assert!(state.is_expanded(VexId::new(2)));
}

#[test]
fn scroll_by_clamped() {
    let mut state = DomTreeState::new();
    state.scroll_by(-5, 10);
    assert_eq!(state.scroll_offset(), 0);
    state.scroll_by(100, 10);
    assert_eq!(state.scroll_offset(), 9);
    state.scroll_by(3, 0);
    assert_eq!(state.scroll_offset(), 0);
    state.set_hovered(Some(VexId::new(7)));
    assert_eq!(state.hovered(), Some(VexId::new(7)));
}

fn element(id: u32, tag: &str, attrs: &[(&str, &str)], children: &[u32]) -> TreeNode {
    TreeNode {
        id: VexId(id),
        kind: TreeNodeKind::Element {
            tag: tag.to_string(),
            attributes: attrs.iter().map(|(n, v)| (n.to_string(), v.to_string())).collect(),
        },
        children: children.iter().map(|c| VexId(*c)).collect(),
    }
}

fn text(id: u32, t: &str) -> TreeNode {
    TreeNode { id: VexId(id), kind: TreeNodeKind::Text(t.to_string()), children: vec![] }
}

// document 0 > html 1 > (head 2, body 3 > div 4 > text 5)
fn build_test_doc() -> Vec<TreeNode> {
    vec![
        TreeNode { id: VexId(0), kind: TreeNodeKind::Document, children: vec![VexId(1)] },
        element(1, "html", &[], &[2, 3]),
        element(2, "head", &[], &[]),
        element(3, "body", &[], &[4]),
        element(4, "div", &[("id", "main"), ("class", "container")], &[5]),
        text(5, "Hello, world!"),
    ]
}

fn labels(rows: &[DomTreeRow]) -> Vec<&str> {
    rows.iter().map(|r| r.label.as_str()).collect()
}

#[test]
fn build_rows_collapsed() {
    let doc = build_test_doc();
    let state = DomTreeState::new();
    let rows = state.build_rows(&doc, VexId(0));
    assert!(!rows.is_empty());
    assert_eq!(rows[0].label, "<html>");
    assert!(rows[0].has_children);
    assert!(!rows[0].expanded);
}

#[test]
fn build_rows_expanded() {
    let doc = build_test_doc();
    let mut state = DomTreeState::new();
    state.expand(VexId(1));
    let rows = state.build_rows(&doc, VexId(0));
    let labels = labels(&rows);
    assert!(labels.contains(&"<html>"));
    assert!(labels.contains(&"<head>"));
    assert!(labels.contains(&"<body>"));
    assert!(labels.contains(&"</html>"));
}

#[test]
fn build_rows_deep_expansion() {
    let doc = build_test_doc();
    let mut state = DomTreeState::new();
    state.expand(VexId(1));
    state.expand(VexId(3));
    state.expand(VexId(4));
    let rows = state.build_rows(&doc, VexId(0));
    let labels = labels(&rows);
    assert!(labels.contains(&"<div id=\"main\" class=\"container\">"));
    assert!(labels.contains(&"\"Hello, world!\""));
    assert!(labels.contains(&"</div>"));
}

#[test]
fn element_label_includes_id_and_class() {
    let doc = build_test_doc();
    let mut state = DomTreeState::new();
    state.expand(VexId(1));
    state.expand(VexId(3));
    let rows = state.build_rows(&doc, VexId(0));
    let div_row = rows.iter().find(|r| r.label.starts_with("<div")).expect("should have div row");
    assert!(div_row.label.contains("id=\"main\""));
    assert!(div_row.label.contains("class=\"container\""));
}

#[test]
fn closing_tag_rows() {
    let doc = build_test_doc();
    let mut state = DomTreeState::new();
    state.expand(VexId(1));
    let rows = state.build_rows(&doc, VexId(0));
    let closing = rows.iter().filter(|r| r.is_closing_tag).count();
    assert!(closing > 0, "expanded elements should have closing tags");
}

#[test]
fn whitespace_text_nodes_skipped() {
    let doc = vec![
        TreeNode { id: VexId(0), kind: TreeNodeKind::Document, children: vec![VexId(1)] },
        element(1, "html", &[], &[2]),
        text(2, "   \n\t  "),
    ];
    let mut state = DomTreeState::new();
    state.expand(VexId(1));
    let rows = state.build_rows(&doc, VexId(0));
    let text_rows: Vec<_> = rows.iter().filter(|r| r.label.starts_with('"')).collect();
    assert!(text_rows.is_empty());
}

#[test]
fn depth_increases_with_nesting() {
    let doc = build_test_doc();
    let mut state = DomTreeState::new();
    state.expand(VexId(1));
    state.expand(VexId(3));
    let rows = state.build_rows(&doc, VexId(0));
    let body_row = rows.iter().find(|r| r.label == "<body>").expect("should have body");
    let div_row = rows.iter().find(|r| r.label.starts_with("<div")).expect("should have div");
    assert!(div_row.depth > body_row.depth);
}

#[test]
fn rows_in_walk_order_with_depths() {
    let doc = build_test_doc();
    let mut state = DomTreeState::new();
    state.expand(VexId(1));
    state.expand(VexId(3));
    state.expand(VexId(4));
    let rows = state.build_rows(&doc, VexId(0));
    let got: Vec<(&str, u32, bool)> = rows.iter().map(|r| (r.label.as_str(), r.depth, r.is_closing_tag)).collect();
    assert_eq!(
        got,
        vec![
            ("<html>", 0, false),
            ("<head>", 1, false),
            ("<body>", 1, false),
            ("<div id=\"main\" class=\"container\">", 2, false),
            ("\"Hello, world!\"", 3, false),
            ("</div>", 2, true),
            ("</body>", 1, true),
            ("</html>", 0, true),
        ]
    );
}

#[test]
fn long_text_and_comment_are_cut() {
    let long = "x".repeat(70);
    let comment = "c".repeat(55);
    let doc = vec![
        TreeNode { id: VexId(0), kind: TreeNodeKind::Document, children: vec![VexId(1), VexId(2), VexId(3)] },
        text(1, &format!("  {long}  ")),
        TreeNode { id: VexId(2), kind: TreeNodeKind::Comment(comment), children: vec![] },
        TreeNode { id: VexId(3), kind: TreeNodeKind::Doctype("html".to_string()), children: vec![] },
    ];
    let rows = DomTreeState::new().build_rows(&doc, VexId(0));
    assert_eq!(rows[0].label, format!("\"{}…\"", "x".repeat(60)));
    assert_eq!(rows[1].label, format!("<!--{}…-->", "c".repeat(50)));
    assert_eq!(rows[2].label, "<!DOCTYPE html>");
    assert!(rows.iter().all(|r| r.depth == 0));
}
