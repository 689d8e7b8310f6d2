use vex_browser::devtools::console::{ConsoleInput, ConsoleState, LogLevel, MAX_LOG_ENTRIES};

fn log_message(console: &mut ConsoleState<String>, level: LogLevel, message: &str) {
    console.log(level, vec![message.to_owned()], None);
}

#[test]
fn new_console_is_empty() {
    let console: ConsoleState<String> = ConsoleState::new();
    assert_eq!(console.entry_count(), 0);
    assert!(console.input_text().is_empty());
}

#[test]
fn log_adds_entries() {
    let mut console = ConsoleState::new();
    log_message(&mut console, LogLevel::Log, "hello");
    log_message(&mut console, LogLevel::Warn, "careful");
    assert_eq!(console.entry_count(), 2);
}

#[test]
fn log_entries_have_sequential_ids() {
    let mut console = ConsoleState::new();
    log_message(&mut console, LogLevel::Log, "a");
    log_message(&mut console, LogLevel::Log, "b");
    let entries = console.visible_entries();
    assert_eq!(entries[0].id, 1);
    assert_eq!(entries[1].id, 2);
}

#[test]
fn console_clear_removes_all() {
    let mut console = ConsoleState::new();
    log_message(&mut console, LogLevel::Log, "test");
    console.clear();
    assert_eq!(console.entry_count(), 0);
}

#[test]
fn level_filter() {
    let mut console = ConsoleState::new();
    log_message(&mut console, LogLevel::Log, "normal");
    log_message(&mut console, LogLevel::Error, "bad");
    log_message(&mut console, LogLevel::Warn, "warning");

    console.set_filter(Some(LogLevel::Error));
    let visible = console.visible_entries();
    assert_eq!(visible.len(), 1);
    assert_eq!(visible[0].level, LogLevel::Error);
}

#[test]
fn repl_submit_and_history() {
    let mut console: ConsoleState<String> = ConsoleState::new();
    console.set_input_text("1 + 1".to_owned());
    let input = console.submit_input();
    assert_eq!(input, "1 + 1");
    assert!(console.input_text().is_empty());
    assert_eq!(console.history().len(), 1);
}

#[test]
fn repl_history_navigation() {
    let mut console: ConsoleState<String> = ConsoleState::new();
    console.set_input_text("first".to_owned());
    console.submit_input();
    console.set_input_text("second".to_owned());
    console.submit_input();

    console.history_prev();
    assert_eq!(console.input_text(), "second");
    console.history_prev();
    assert_eq!(console.input_text(), "first");
    console.history_next();
    assert_eq!(console.input_text(), "second");
    console.history_next();
    assert!(console.input_text().is_empty());
}

#[test]
fn empty_input_not_added_to_history() {
    let mut console: ConsoleState<String> = ConsoleState::new();
    console.set_input_text("  ".to_owned());
    console.submit_input();
    assert!(console.history().is_empty());
}

#[test]
fn console_max_entries_trimmed() {
    let mut console = ConsoleState::new();
    for i in 0..6000 {
        log_message(&mut console, LogLevel::Log, &format!("msg {i}"));
    }
    assert!(console.entry_count() <= MAX_LOG_ENTRIES);
}

#[test]
fn full_console_drops_oldest_entries() {
    let mut console = ConsoleState::new();
    for i in 0..(MAX_LOG_ENTRIES + 3) {
        log_message(&mut console, LogLevel::Log, &format!("msg {i}"));
    }
    assert_eq!(console.entry_count(), MAX_LOG_ENTRIES);
    let entries = console.visible_entries();
    assert_eq!(entries[0].id, 4);
    assert_eq!(entries[0].values, vec!["msg 3".to_owned()]);
    assert_eq!(entries[MAX_LOG_ENTRIES - 1].id, (MAX_LOG_ENTRIES + 3) as u64);
    assert_eq!(console.next_id(), (MAX_LOG_ENTRIES + 4) as u64);
}

#[test]
fn filter_keeps_order_and_source() {
    let mut console = ConsoleState::new();
    console.log(LogLevel::Warn, vec!["w1".to_owned()], Some("a.js:1".to_owned()));
    log_message(&mut console, LogLevel::Log, "l1");
    console.log(LogLevel::Warn, vec!["w2".to_owned(), "x".to_owned()], None);
    console.set_filter(Some(LogLevel::Warn));
    assert_eq!(console.filter(), Some(LogLevel::Warn));
    let visible = console.visible_entries();
    assert_eq!(visible.len(), 2);
    assert_eq!(visible[0].id, 1);
    assert_eq!(visible[0].source, Some("a.js:1".to_owned()));
    assert_eq!(visible[1].id, 3);
    assert_eq!(visible[1].values.len(), 2);
    console.set_filter(None);
    assert_eq!(console.visible_entries().len(), 3);
}

#[test]
fn ids_keep_counting_after_clear() {
    let mut console = ConsoleState::new();
    log_message(&mut console, LogLevel::Log, "a");
    console.clear();
    log_message(&mut console, LogLevel::Log, "b");
    assert_eq!(console.visible_entries()[0].id, 2);
    console.set_scroll_offset(7);
    assert_eq!(console.scroll_offset(), 7);
}

#[test]
fn recall_stays_at_oldest_and_past_newest() {
    let mut console = ConsoleInput::new();
    console.set_input_text("first".to_owned());
    console.submit_input();
    console.set_input_text("second".to_owned());
    console.submit_input();
    console.history_prev();
    console.history_prev();
    console.history_prev();
    assert_eq!(console.input_text(), "first");
    console.history_next();
    console.history_next();
    console.history_next();
    assert!(console.input_text().is_empty());
}

#[test]
fn blank_input_is_returned_but_not_kept() {
    let mut console = ConsoleInput::new();
    console.set_input_text("  ".to_owned());
    assert_eq!(console.submit_input(), "  ");
    assert!(console.history().is_empty());
    console.history_prev();
    assert!(console.input_text().is_empty());
}

#[test]
fn typing_stops_recall() {
    let mut console = ConsoleInput::new();
    console.set_input_text("a".to_owned());
    console.submit_input();
    console.history_prev();
    console.set_input_text("b".to_owned());
    console.history_next();
    assert_eq!(console.input_text(), "b");
}
