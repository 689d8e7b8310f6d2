use vex_browser::devtools::sources::{
    highlight_html_line, HighlightSpan, SourceDocument, SourceId, SourceKind, SourcesState,
    TokenKind,
};

#[test]
fn line_count_and_access() {
    let doc = SourceDocument::new(
        SourceId(1),
        "index.html".to_owned(),
        "https://example.com/".to_owned(),
        SourceKind::Html,
        "<html>\n<body>\nHello\n</body>\n</html>".to_owned(),
    );
    assert_eq!(doc.line_count(), 5);
    assert_eq!(doc.line(1), Some("<html>"));
    assert_eq!(doc.line(3), Some("Hello"));
    assert_eq!(doc.line(5), Some("</html>"));
    assert_eq!(doc.line(0), None);
    assert_eq!(doc.line(6), None);
}

#[test]
fn lines_range() {
    let doc = SourceDocument::new(
        SourceId(1),
        "test.js".to_owned(),
        "https://x.com/test.js".to_owned(),
        SourceKind::Script,
        "line1\nline2\nline3\nline4\nline5".to_owned(),
    );
    let lines = doc.lines(2, 4);
    assert_eq!(lines.len(), 3);
    assert_eq!(lines[0], (2, "line2"));
    assert_eq!(lines[2], (4, "line4"));
}

#[test]
fn single_line_document() {
    let doc = SourceDocument::new(
        SourceId(1),
        "inline".to_owned(),
        String::new(),
        SourceKind::Script,
        "alert('hi')".to_owned(),
    );
    assert_eq!(doc.line_count(), 1);
    assert_eq!(doc.line(1), Some("alert('hi')"));
}

#[test]
fn highlight_html_tag() {
    let spans = highlight_html_line("<div>");
    assert!(spans.iter().any(|s| s.kind == TokenKind::Tag));
}

#[test]
fn highlight_html_attribute() {
    let spans = highlight_html_line(r#"<a href="url">"#);
    assert!(spans.iter().any(|s| s.kind == TokenKind::Attribute));
    assert!(spans.iter().any(|s| s.kind == TokenKind::StringLiteral));
}

#[test]
fn highlight_html_comment() {
    let spans = highlight_html_line("<!-- comment -->");
    assert_eq!(spans.len(), 1);
    assert_eq!(spans[0].kind, TokenKind::Comment);
}

#[test]
fn highlight_plain_text() {
    let spans = highlight_html_line("Hello world");
    assert_eq!(spans.len(), 1);
    assert_eq!(spans[0].kind, TokenKind::Plain);
}

#[test]
fn add_and_get_source() {
    let mut state = SourcesState::new();
    let id = state.add_source(
        "index.html".to_owned(),
        "https://x.com/".to_owned(),
        SourceKind::Html,
        "<html></html>".to_owned(),
    );
    assert_eq!(state.source_count(), 1);
    assert!(state.get_source(id).is_some());
    assert_eq!(state.active_tab(), Some(id));
}

#[test]
fn tab_switching() {
    let mut state = SourcesState::new();
    let id1 = state.add_source(
        "page.html".to_owned(),
        "https://x.com/".to_owned(),
        SourceKind::Html,
        "<html></html>".to_owned(),
    );
    let id2 = state.add_source(
        "app.js".to_owned(),
        "https://x.com/app.js".to_owned(),
        SourceKind::Script,
        "console.log('hi')".to_owned(),
    );
    assert_eq!(state.active_tab(), Some(id1));
    state.set_active_tab(id2);
    assert_eq!(state.active_tab(), Some(id2));
}

#[test]
fn clear_sources() {
    let mut state = SourcesState::new();
    state.add_source("test".to_owned(), String::new(), SourceKind::Html, "content".to_owned());
    state.clear();
    assert_eq!(state.source_count(), 0);
    assert_eq!(state.active_tab(), None);
}

#[test]
fn scroll_clamped() {
    let mut state = SourcesState::new();
    state.add_source("test".to_owned(), String::new(), SourceKind::Html, "line1\nline2\nline3".to_owned());
    state.set_scroll_line(100);
    assert_eq!(state.scroll_line(), 3);
    state.set_scroll_line(0);
    assert_eq!(state.scroll_line(), 1);
}

#[test]
fn scroll_up_down() {
    let mut state = SourcesState::new();
    state.add_source("test".to_owned(), String::new(), SourceKind::Html, "a\nb\nc\nd\ne".to_owned());
    state.scroll_down(2);
    assert_eq!(state.scroll_line(), 3);
    state.scroll_up(1);
    assert_eq!(state.scroll_line(), 2);
}

#[test]
fn search_finds_matches() {
    let mut state = SourcesState::new();
    state.add_source(
        "test".to_owned(),
        String::new(),
        SourceKind::Html,
        "apple\nbanana\napple pie\norange".to_owned(),
    );
    state.search("apple".to_owned());
    assert_eq!(state.match_count(), 2);
}

#[test]
fn sources_search_case_insensitive() {
    let mut state = SourcesState::new();
    state.add_source(
        "test".to_owned(),
        String::new(),
        SourceKind::Script,
        "Function\nfunction\nFUNCTION".to_owned(),
    );
    state.search("function".to_owned());
    assert_eq!(state.match_count(), 3);
}

#[test]
fn search_navigation() {
    let mut state = SourcesState::new();
    state.add_source("test".to_owned(), String::new(), SourceKind::Html, "x\nmatch\ny\nmatch\nz".to_owned());
    state.search("match".to_owned());
    assert_eq!(state.match_count(), 2);
    let (_, line) = state.current_match().unwrap();
    assert_eq!(line, 2);
    state.next_match();
    let (_, line) = state.current_match().unwrap();
    assert_eq!(line, 4);
    state.next_match();
    let (_, line) = state.current_match().unwrap();
    assert_eq!(line, 2);
    state.prev_match();
    let (_, line) = state.current_match().unwrap();
    assert_eq!(line, 4);
}

#[test]
fn empty_search_clears_matches() {
    let mut state = SourcesState::new();
    state.add_source("test".to_owned(), String::new(), SourceKind::Html, "content".to_owned());
    state.search("content".to_owned());
    assert_eq!(state.match_count(), 1);
    state.search(String::new());
    assert_eq!(state.match_count(), 0);
}

#[test]
fn source_kind_labels() {
    assert_eq!(SourceKind::Html.label(), "HTML");
    assert_eq!(SourceKind::Script.label(), "JS");
    assert_eq!(SourceKind::Stylesheet.label(), "CSS");
}

#[test]
fn highlight_full_tag_spans() {
    let spans = highlight_html_line(r#"<a href="u" x='v'>t</a>"#);
    let expect = vec![
        HighlightSpan { start: 0, end: 2, kind: TokenKind::Tag },
        HighlightSpan { start: 3, end: 7, kind: TokenKind::Attribute },
        HighlightSpan { start: 7, end: 8, kind: TokenKind::Punctuation },
        HighlightSpan { start: 8, end: 11, kind: TokenKind::StringLiteral },
        HighlightSpan { start: 12, end: 13, kind: TokenKind::Attribute },
        HighlightSpan { start: 13, end: 14, kind: TokenKind::Punctuation },
        HighlightSpan { start: 14, end: 17, kind: TokenKind::StringLiteral },
        HighlightSpan { start: 17, end: 18, kind: TokenKind::Tag },
        HighlightSpan { start: 18, end: 19, kind: TokenKind::Plain },
        HighlightSpan { start: 19, end: 22, kind: TokenKind::Tag },
        HighlightSpan { start: 22, end: 23, kind: TokenKind::Tag },
    ];
    assert_eq!(spans, expect);
}

#[test]
fn highlight_unclosed_comment_and_crlf_lines() {
    let spans = highlight_html_line("<!-- open");
    assert_eq!(spans, vec![HighlightSpan { start: 0, end: 9, kind: TokenKind::Comment }]);
    let doc = SourceDocument::new(SourceId(2), "d".into(), "u".into(), SourceKind::Html, "a\r\nb\r\r\n".into());
    assert_eq!(doc.line_count(), 3);
    assert_eq!(doc.line(1), Some("a"));
    assert_eq!(doc.line(2), Some("b"));
    assert_eq!(doc.line(3), Some(""));
    assert!(doc.lines(3, 1).is_empty());
}
