use std::sync::atomic::AtomicU32;
use std::sync::Arc;
use std::sync::Mutex;
use vex_browser::event_source::dispatch_plan;
use vex_browser::event_source::{parse_sse_stream, EventSource, EventSourceInit, EventSourceState};

fn init() -> EventSourceInit {
    EventSourceInit {
        url: "https://example.com/events".to_string(),
        with_credentials: false,
    }
}

#[test]
fn parse_simple_event() {
    let events = parse_sse_stream("data: hello\n\n", "");
    assert_eq!(events.len(), 1);
    assert_eq!(events[0].event_type, "message");
    assert_eq!(events[0].data, "hello");
}

#[test]
fn parse_multiline_data() {
    let events = parse_sse_stream("data: line1\ndata: line2\n\n", "");
    assert_eq!(events.len(), 1);
    assert_eq!(events[0].data, "line1\nline2");
}

#[test]
fn parse_custom_event_type() {
    let events = parse_sse_stream("event: update\ndata: {\"key\":\"value\"}\n\n", "");
    assert_eq!(events.len(), 1);
    assert_eq!(events[0].event_type, "update");
    assert_eq!(events[0].data, "{\"key\":\"value\"}");
}

#[test]
fn parse_event_id() {
    let events = parse_sse_stream("id: 42\ndata: test\n\n", "");
    assert_eq!(events[0].last_event_id, "42");
}

#[test]
fn parse_retry() {
    let events = parse_sse_stream("retry: 5000\ndata: test\n\n", "");
    assert_eq!(events[0].retry, Some(5000));
}

#[test]
fn parse_comments_ignored() {
    let events = parse_sse_stream(": this is a comment\ndata: hello\n\n", "");
    assert_eq!(events.len(), 1);
    assert_eq!(events[0].data, "hello");
}

#[test]
fn parse_multiple_events() {
    let input = "data: first\n\ndata: second\n\n";
    let events = parse_sse_stream(input, "");
    assert_eq!(events.len(), 2);
    assert_eq!(events[0].data, "first");
    assert_eq!(events[1].data, "second");
}

#[test]
fn parse_no_trailing_newline() {
    let events = parse_sse_stream("data: hello", "");
    assert_eq!(events.len(), 1);
    assert_eq!(events[0].data, "hello");
}

#[test]
fn event_source_state() {
    let es = EventSource::new(init());
    assert_eq!(es.ready_state(), EventSourceState::Connecting);
    assert_eq!(es.url(), "https://example.com/events");
}

#[test]
fn event_source_open() {
    let mut es = EventSource::new(init());
    let opened = Arc::new(AtomicU32::new(0));
    let o = opened.clone();
    es.set_onopen(Box::new(move || {
        o.fetch_add(1, std::sync::atomic::Ordering::Relaxed);
    }));
    es.simulate_open();
    assert_eq!(es.ready_state(), EventSourceState::Open);
    assert_eq!(opened.load(std::sync::atomic::Ordering::Relaxed), 1);
}

#[test]
fn event_source_close() {
    let mut es = EventSource::new(init());
    es.simulate_open();
    es.close();
    assert_eq!(es.ready_state(), EventSourceState::Closed);
}

#[test]
fn event_source_receive() {
    let mut es = EventSource::new(init());
    es.simulate_open();
    let received = Arc::new(AtomicU32::new(0));
    let r = received.clone();
    es.add_event_listener(
        "message",
        Box::new(move |_event: &vex_browser::event_source::SseEvent| {
            r.fetch_add(1, std::sync::atomic::Ordering::Relaxed);
        }),
    );
    es.simulate_receive("data: hello\n\n");
    assert_eq!(received.load(std::sync::atomic::Ordering::Relaxed), 1);
}

#[test]
fn event_source_retry() {
    let mut es = EventSource::new(init());
    assert_eq!(es.retry_ms(), 3000);
    es.simulate_receive("retry: 5000\ndata: test\n\n");
    assert_eq!(es.retry_ms(), 5000);
}

#[test]
fn event_source_last_event_id() {
    let mut es = EventSource::new(init());
    es.simulate_receive("id: 42\ndata: test\n\n");
    assert_eq!(es.last_event_id(), "42");
}

#[test]
fn event_source_state_values() {
    assert_eq!(EventSourceState::Connecting.value(), 0);
    assert_eq!(EventSourceState::Open.value(), 1);
    assert_eq!(EventSourceState::Closed.value(), 2);
}

#[test]
fn parse_crlf_lines_and_field_without_colon() {
    let events = parse_sse_stream("data\r\nevent:ping\r\n\r\n", "7");
    assert_eq!(events.len(), 1);
    assert_eq!(events[0].data, "");
    assert_eq!(events[0].event_type, "ping");
    assert_eq!(events[0].last_event_id, "7");
}

#[test]
fn id_of_a_block_without_data_is_kept() {
    let events = parse_sse_stream("id: 7\n\ndata: x\n\n", "");
    assert_eq!(events.len(), 1);
    assert_eq!(events[0].event_type, "message");
    assert_eq!(events[0].data, "x");
    assert_eq!(events[0].last_event_id, "7");
    assert_eq!(events[0].retry, None);
    let two = parse_sse_stream("id: 1\ndata: a\n\ndata: b\n\n", "0");
    assert_eq!(two[1].last_event_id, "1");
}

#[test]
fn parse_bad_retry_and_nul_id_ignored() {
    let events = parse_sse_stream("retry: 12x\nid: a\0b\ndata: x\n\n", "old");
    assert_eq!(events[0].retry, None);
    assert_eq!(events[0].last_event_id, "old");
    let big = parse_sse_stream("retry: 99999999999999999999\ndata: y\n", "");
    assert_eq!(big[0].retry, None);
    let plus = parse_sse_stream("retry: +15\ndata: y\n", "");
    assert_eq!(plus[0].retry, Some(15));
}

#[test]
fn listeners_only_see_their_type_and_error_resets_state() {
    let mut es = EventSource::new(init());
    let hits = Arc::new(AtomicU32::new(0));
    let h = hits.clone();
    es.add_event_listener(
        "update",
        Box::new(move |_e: &vex_browser::event_source::SseEvent| {
            h.fetch_add(1, std::sync::atomic::Ordering::Relaxed);
        }),
    );
    es.simulate_receive("data: a\n\nevent: update\ndata: b\n\n");
    assert_eq!(hits.load(std::sync::atomic::Ordering::Relaxed), 1);
    let errs = Arc::new(AtomicU32::new(0));
    let e2 = errs.clone();
    es.set_onerror(Box::new(move |_m: &str| {
        e2.fetch_add(1, std::sync::atomic::Ordering::Relaxed);
    }));
    es.simulate_open();
    es.simulate_error("lost");
    assert_eq!(es.ready_state(), EventSourceState::Connecting);
    assert_eq!(errs.load(std::sync::atomic::Ordering::Relaxed), 1);
}

#[test]
fn dispatch_plan_orders_events_then_listeners() {
    let types = vec!["message".to_string(), "ping".to_string(), "message".to_string()];
    let events = parse_sse_stream("data: a\n\nevent: ping\ndata: b\n\nevent: other\ndata: c\n\ndata: d\n\n", "");
    assert_eq!(events.len(), 4);
    assert_eq!(dispatch_plan(&types, &events), vec![(0, 0), (0, 2), (1, 1), (3, 0), (3, 2)]);
    assert_eq!(dispatch_plan(&[], &events), vec![]);
}

#[test]
fn listeners_hear_events_in_stream_and_registration_order() {
    let mut es = EventSource::new(init());
    let log = Arc::new(Mutex::new(Vec::<String>::new()));
    for tag in ["first", "second"] {
        let l = log.clone();
        es.add_event_listener(
            "message",
            Box::new(move |e: &vex_browser::event_source::SseEvent| {
                l.lock().unwrap().push(format!("{tag}:{}", e.data));
            }),
        );
    }
    let l = log.clone();
    es.add_event_listener(
        "ping",
        Box::new(move |e: &vex_browser::event_source::SseEvent| {
            l.lock().unwrap().push(format!("ping:{}", e.data));
        }),
    );
    es.simulate_receive("data: a\n\nevent: ping\ndata: b\n\ndata: c\n\n");
    assert_eq!(
        *log.lock().unwrap(),
        vec!["first:a", "second:a", "ping:b", "first:c", "second:c"]
    );
}
