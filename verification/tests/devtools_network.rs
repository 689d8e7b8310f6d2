use vex_browser::devtools::network::{
    build_header_rows, format_body_preview, DetailTab, NetworkEntry, NetworkState, NetworkSummary,
    RequestId, RequestPhase, RequestTiming, ResourceType, ResponseData, SortColumn, StatusFilter,
    MAX_NETWORK_ENTRIES,
};
use vex_browser::units::Duration;

fn make_entry(url: &str, status: u16) -> NetworkEntry {
    NetworkEntry {
        id: RequestId(1),
        started_at: 0,
        url: url.to_owned(),
        method: "GET".to_owned(),
        status,
        content_type: None,
        size: 0,
        resource_type: ResourceType::Document,
        timing: RequestTiming::default(),
        request_headers: Vec::new(),
        response_headers: Vec::new(),
        body_preview: None,
        was_cached: false,
        phase: RequestPhase::Complete,
        error: None,
    }
}

fn add_complete_entry(
    state: &mut NetworkState,
    url: &str,
    method: &str,
    status: u16,
    resource_type: ResourceType,
    size: u64,
) {
    let id = state.start_request(url.to_owned(), method.to_owned(), Vec::new(), resource_type);
    state.complete_request(
        id,
        ResponseData {
            status,
            response_headers: Vec::new(),
            size,
            timing: RequestTiming::default(),
            body_preview: None,
            was_cached: false,
        },
    );
}

#[test]
fn resource_type_from_content_type() {
    assert_eq!(
        ResourceType::from_content_type("text/html; charset=utf-8"),
        ResourceType::Document
    );
    assert_eq!(
        ResourceType::from_content_type("application/javascript"),
        ResourceType::Script
    );
    assert_eq!(ResourceType::from_content_type("text/css"), ResourceType::Stylesheet);
    assert_eq!(ResourceType::from_content_type("image/png"), ResourceType::Image);
    assert_eq!(ResourceType::from_content_type("font/woff2"), ResourceType::Font);
    assert_eq!(ResourceType::from_content_type("video/mp4"), ResourceType::Media);
    assert_eq!(
        ResourceType::from_content_type("application/octet-stream"),
        ResourceType::Other
    );
}

#[test]
fn resource_type_labels() {
    assert_eq!(ResourceType::Document.label(), "Doc");
    assert_eq!(ResourceType::Script.label(), "JS");
    assert_eq!(ResourceType::Image.label(), "Img");
}

#[test]
fn timing_total() {
    let timing = RequestTiming {
        dns: Duration::from_millis(10),
        connect: Duration::from_millis(20),
        tls: Duration::from_millis(30),
        first_byte: Duration::from_millis(40),
        download: Duration::from_millis(50),
    };
    assert_eq!(timing.total(), Duration::from_millis(150));
}

#[test]
fn timing_display() {
    let timing = RequestTiming {
        dns: Duration::from_millis(5),
        connect: Duration::from_millis(10),
        tls: Duration::from_millis(15),
        first_byte: Duration::from_millis(20),
        download: Duration::from_millis(50),
    };
    assert_eq!(timing.total_display(), "100 ms");
}

#[test]
fn display_name_extracts_last_segment() {
    let entry = make_entry("https://example.com/js/app.js", 200);
    assert_eq!(entry.display_name(), "app.js");
}

#[test]
fn display_name_fallback_for_root() {
    let entry = make_entry("https://example.com/", 200);
    assert_eq!(entry.display_name(), "example.com");
}

#[test]
fn size_display() {
    let mut entry = make_entry("https://x.com/a", 200);
    entry.size = 0;
    assert_eq!(entry.size_display(), "0 B");
    entry.size = 512;
    assert_eq!(entry.size_display(), "512 B");
    entry.size = 2048;
    assert_eq!(entry.size_display(), "2.0 KB");
    entry.size = 1_500_000;
    assert_eq!(entry.size_display(), "1.4 MB");
}

#[test]
fn status_category() {
    let mut entry = make_entry("https://x.com/a", 200);
    assert_eq!(entry.status_category(), 2);
    entry.status = 301;
    assert_eq!(entry.status_category(), 3);
    entry.status = 404;
    assert_eq!(entry.status_category(), 4);
    entry.status = 500;
    assert_eq!(entry.status_category(), 5);
}

#[test]
fn status_filter_matches() {
    assert!(StatusFilter::All.matches(200));
    assert!(StatusFilter::All.matches(500));
    assert!(StatusFilter::Success.matches(200));
    assert!(StatusFilter::Success.matches(204));
    assert!(!StatusFilter::Success.matches(301));
    assert!(StatusFilter::Redirect.matches(301));
    assert!(!StatusFilter::Redirect.matches(200));
    assert!(StatusFilter::ClientError.matches(404));
    assert!(StatusFilter::ServerError.matches(503));
}

#[test]
fn start_and_complete_request() {
    let mut state = NetworkState::new();
    let id = state.start_request(
        "https://example.com/api".to_owned(),
        "GET".to_owned(),
        Vec::new(),
        ResourceType::Fetch,
    );
    assert_eq!(state.entry_count(), 1);
    let resp_headers = vec![("content-type".to_owned(), "application/json".to_owned())];
    state.complete_request(
        id,
        ResponseData {
            status: 200,
            response_headers: resp_headers,
            size: 1024,
            timing: RequestTiming {
                dns: Duration::from_millis(5),
                connect: Duration::from_millis(10),
                tls: Duration::from_millis(15),
                first_byte: Duration::from_millis(20),
                download: Duration::from_millis(50),
            },
            body_preview: Some(r#"{"ok": true}"#.to_owned()),
            was_cached: false,
        },
    );
    let entry = &state.entries()[0];
    assert_eq!(entry.status, 200);
    assert_eq!(entry.size, 1024);
    assert_eq!(entry.phase, RequestPhase::Complete);
    assert!(entry.content_type.as_deref() == Some("application/json"));
    assert!(entry.body_preview.is_some());
}

#[test]
fn fail_request() {
    let mut state = NetworkState::new();
    let id = state.start_request(
        "https://bad.test/".to_owned(),
        "GET".to_owned(),
        Vec::new(),
        ResourceType::Document,
    );
    state.fail_request(id, "DNS resolution failed".to_owned());
    let entry = &state.entries()[0];
    assert_eq!(entry.phase, RequestPhase::Failed);
    assert!(entry.error.as_deref() == Some("DNS resolution failed"));
}

#[test]
fn cancel_request() {
    let mut state = NetworkState::new();
    let id = state.start_request(
        "https://slow.test/".to_owned(),
        "GET".to_owned(),
        Vec::new(),
        ResourceType::Document,
    );
    state.cancel_request(id);
    assert_eq!(state.entries()[0].phase, RequestPhase::Cancelled);
}

#[test]
fn type_filter() {
    let mut state = NetworkState::new();
    add_complete_entry(&mut state, "https://x.com/app.js", "GET", 200, ResourceType::Script, 5000);
    add_complete_entry(&mut state, "https://x.com/style.css", "GET", 200, ResourceType::Stylesheet, 2000);
    add_complete_entry(&mut state, "https://x.com/logo.png", "GET", 200, ResourceType::Image, 10000);
    state.set_type_filter(Some(ResourceType::Script));
    let visible = state.visible_entries();
    assert_eq!(visible.len(), 1);
    assert!(visible[0].url.contains("app.js"));
}

#[test]
fn status_filter_on_entries() {
    let mut state = NetworkState::new();
    add_complete_entry(&mut state, "https://x.com/ok", "GET", 200, ResourceType::Document, 1000);
    add_complete_entry(&mut state, "https://x.com/moved", "GET", 301, ResourceType::Document, 0);
    add_complete_entry(&mut state, "https://x.com/gone", "GET", 404, ResourceType::Document, 0);
    state.set_status_filter(StatusFilter::Success);
    assert_eq!(state.visible_entries().len(), 1);
    state.set_status_filter(StatusFilter::ClientError);
    assert_eq!(state.visible_entries().len(), 1);
}

#[test]
fn search_filter() {
    let mut state = NetworkState::new();
    add_complete_entry(&mut state, "https://example.com/api/users", "GET", 200, ResourceType::Fetch, 500);
    add_complete_entry(&mut state, "https://cdn.test/image.png", "GET", 200, ResourceType::Image, 10000);
    state.set_search("api".to_owned());
    let visible = state.visible_entries();
    assert_eq!(visible.len(), 1);
    assert!(visible[0].url.contains("api"));
}

#[test]
fn network_search_case_insensitive() {
    let mut state = NetworkState::new();
    add_complete_entry(&mut state, "https://example.com/API/Users", "GET", 200, ResourceType::Fetch, 500);
    state.set_search("api".to_owned());
    assert_eq!(state.visible_entries().len(), 1);
}

#[test]
fn clear_filters() {
    let mut state = NetworkState::new();
    add_complete_entry(&mut state, "https://x.com/a", "GET", 200, ResourceType::Script, 100);
    add_complete_entry(&mut state, "https://x.com/b", "GET", 200, ResourceType::Image, 200);
    state.set_type_filter(Some(ResourceType::Script));
    state.set_status_filter(StatusFilter::Success);
    state.set_search("nothing".to_owned());
    assert_eq!(state.visible_entries().len(), 0);
    state.clear_filters();
    assert_eq!(state.visible_entries().len(), 2);
}

#[test]
fn sort_by_size() {
    let mut state = NetworkState::new();
    add_complete_entry(&mut state, "https://x.com/small", "GET", 200, ResourceType::Script, 100);
    add_complete_entry(&mut state, "https://x.com/big", "GET", 200, ResourceType::Image, 50000);
    add_complete_entry(&mut state, "https://x.com/med", "GET", 200, ResourceType::Stylesheet, 5000);
    state.toggle_sort(SortColumn::Size);
    let entries = state.visible_entries();
    assert!(entries[0].size <= entries[1].size);
    assert!(entries[1].size <= entries[2].size);
}

#[test]
fn sort_toggle_direction() {
    let mut state = NetworkState::new();
    add_complete_entry(&mut state, "https://x.com/a", "GET", 200, ResourceType::Script, 100);
    add_complete_entry(&mut state, "https://x.com/b", "GET", 200, ResourceType::Script, 200);
    state.toggle_sort(SortColumn::Size);
    assert!(state.sort_ascending());
    state.toggle_sort(SortColumn::Size);
    assert!(!state.sort_ascending());
    let entries = state.visible_entries();
    assert!(entries[0].size >= entries[1].size);
}

#[test]
fn network_select_and_deselect() {
    let mut state = NetworkState::new();
    let id = state.start_request(
        "https://example.com/".to_owned(),
        "GET".to_owned(),
        Vec::new(),
        ResourceType::Document,
    );
    state.select(id);
    assert_eq!(state.selected_id(), Some(id));
    assert!(state.selected_entry().is_some());
    state.deselect();
    assert_eq!(state.selected_id(), None);
}

#[test]
fn detail_tab_switching() {
    let mut state = NetworkState::new();
    assert_eq!(state.detail_tab(), DetailTab::Headers);
    state.set_detail_tab(DetailTab::Timing);
    assert_eq!(state.detail_tab(), DetailTab::Timing);
}

#[test]
fn network_clear_removes_all() {
    let mut state = NetworkState::new();
    add_complete_entry(&mut state, "https://x.com/a", "GET", 200, ResourceType::Script, 100);
    state.clear();
    assert_eq!(state.entry_count(), 0);
    assert_eq!(state.selected_id(), None);
}

#[test]
fn summary_stats() {
    let mut state = NetworkState::new();
    add_complete_entry(&mut state, "https://x.com/a", "GET", 200, ResourceType::Script, 1000);
    add_complete_entry(&mut state, "https://x.com/b", "GET", 200, ResourceType::Image, 2000);
    let id = state.start_request("https://x.com/c".to_owned(), "GET".to_owned(), Vec::new(), ResourceType::Fetch);
    state.fail_request(id, "timeout".to_owned());
    let summary = state.summary();
    assert_eq!(summary.total_count, 3);
    assert_eq!(summary.total_size, 3000);
    assert_eq!(summary.pending_count, 0);
    assert_eq!(summary.failed_count, 1);
}

#[test]
fn summary_display() {
    let summary = NetworkSummary {
        total_count: 5,
        total_size: 10240,
        pending_count: 1,
        failed_count: 0,
    };
    let display = summary.display();
    assert!(display.contains("5 requests"));
    assert!(display.contains("10.0 KB"));
    assert!(display.contains("1 pending"));
}

#[test]
fn header_rows_sorted() {
    let headers = vec![
        ("Content-Type".to_owned(), "text/html".to_owned()),
        ("Accept".to_owned(), "*/*".to_owned()),
        ("X-Custom".to_owned(), "value".to_owned()),
    ];
    let rows = build_header_rows(&headers);
    assert_eq!(rows[0].name, "Accept");
    assert_eq!(rows[1].name, "Content-Type");
    assert_eq!(rows[2].name, "X-Custom");
}

#[test]
fn network_max_entries_trimmed() {
    let mut state = NetworkState::new();
    for i in 0..5100 {
        state.start_request(format!("https://x.com/{i}"), "GET".to_owned(), Vec::new(), ResourceType::Other);
    }
    assert!(state.entry_count() <= MAX_NETWORK_ENTRIES);
}

#[test]
fn preserve_log_setting() {
    let mut state = NetworkState::new();
    assert!(!state.preserve_log());
    state.set_preserve_log(true);
    assert!(state.preserve_log());
}

#[test]
fn content_type_refines_resource_type() {
    let mut state = NetworkState::new();
    let id = state.start_request(
        "https://cdn.test/bundle".to_owned(),
        "GET".to_owned(),
        Vec::new(),
        ResourceType::Other,
    );
    let headers = vec![("Content-Type".to_owned(), "application/javascript".to_owned())];
    state.complete_request(
        id,
        ResponseData {
            status: 200,
            response_headers: headers,
            size: 5000,
            timing: RequestTiming::default(),
            body_preview: None,
            was_cached: false,
        },
    );
    assert_eq!(state.entries()[0].resource_type, ResourceType::Script);
}

#[test]
fn json_body_pretty_printed() {
    let body = r#"{"name":"Alice","age":30}"#;
    let preview = format_body_preview(body, Some("application/json"), 10000);
    assert!(preview.contains("\"name\": \"Alice\""));
    assert!(preview.contains('\n'));
}

#[test]
fn plain_text_truncated() {
    let body = "a".repeat(200);
    let preview = format_body_preview(&body, Some("text/plain"), 100);
    assert_eq!(preview.len(), 103);
    assert!(preview.ends_with('…'));
}

#[test]
fn duration_and_size_rounding() {
    let t = RequestTiming {
        dns: Duration::from_micros(250),
        ..RequestTiming::default()
    };
    assert_eq!(t.total_display(), "250 µs");
    let s = RequestTiming {
        download: Duration::from_millis(1234),
        ..RequestTiming::default()
    };
    assert_eq!(s.total_display(), "1.23 s");
    let mut e = make_entry("https://x.com/", 200);
    e.size = 1024 + 256; // exactly 1.25 KB
    assert_eq!(e.size_display(), format!("{:.1} KB", 1280f64 / 1024f64));
    e.size = 1024 + 768; // exactly 1.75 KB
    assert_eq!(e.size_display(), format!("{:.1} KB", 1792f64 / 1024f64));
}

#[test]
fn sort_by_name_keeps_equal_order_and_descends() {
    let mut state = NetworkState::new();
    add_complete_entry(&mut state, "https://a.com/b.js", "GET", 200, ResourceType::Script, 1);
    add_complete_entry(&mut state, "https://b.com/a.js", "POST", 200, ResourceType::Script, 2);
    add_complete_entry(&mut state, "https://c.com/b.js", "GET", 200, ResourceType::Script, 3);
    state.toggle_sort(SortColumn::Name);
    let v = state.visible_entries();
    let sizes: Vec<u64> = v.iter().map(|e| e.size).collect();
    assert_eq!(sizes, vec![2, 1, 3]);
    state.toggle_sort(SortColumn::Name);
    let v = state.visible_entries();
    let sizes: Vec<u64> = v.iter().map(|e| e.size).collect();
    assert_eq!(sizes, vec![1, 3, 2]);
    state.toggle_sort(SortColumn::Method);
    let v = state.visible_entries();
    assert_eq!(v[0].method, "GET");
    assert_eq!(v[2].method, "POST");
}

#[test]
fn pending_entries_pass_status_filter() {
    let mut state = NetworkState::new();
    state.start_request("https://x.com/p".to_owned(), "GET".to_owned(), Vec::new(), ResourceType::Other);
    state.set_status_filter(StatusFilter::ServerError);
    assert_eq!(state.visible_entries().len(), 1);
    let summary = state.summary();
    assert_eq!(summary.pending_count, 1);
    assert_eq!(
        NetworkSummary { total_count: 2, total_size: 0, pending_count: 0, failed_count: 1 }.display(),
        "2 requests  |  0 B transferred  |  1 failed"
    );
}
