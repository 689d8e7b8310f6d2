use vex_browser::drag_drop::{
    DragController, DragDataStore, DragDataStoreMode, DragEvent, DragEventType, DragPhase,
    DropEffect, EffectAllowed, VexId,
};

fn id(n: u32) -> VexId {
    VexId::new(n)
}

#[test]
fn drop_effect_parse() {
    assert_eq!(DropEffect::parse("copy"), DropEffect::Copy);
    assert_eq!(DropEffect::parse("move"), DropEffect::Move);
    assert_eq!(DropEffect::parse("link"), DropEffect::Link);
    assert_eq!(DropEffect::parse("none"), DropEffect::NoEffect);
    assert_eq!(DropEffect::parse("invalid"), DropEffect::NoEffect);
}

#[test]
fn effect_allowed_roundtrip() {
    for name in &["none", "copy", "copyLink", "copyMove", "link", "linkMove", "move", "all", "uninitialized"] {
        let e = EffectAllowed::parse(name);
        assert_eq!(e.as_str(), *name);
    }
}

#[test]
fn effect_allowed_allows() {
    assert!(EffectAllowed::All.allows(DropEffect::Copy));
    assert!(EffectAllowed::Copy.allows(DropEffect::Copy));
    assert!(!EffectAllowed::Copy.allows(DropEffect::Move));
    assert!(EffectAllowed::CopyMove.allows(DropEffect::Copy));
    assert!(EffectAllowed::CopyMove.allows(DropEffect::Move));
    assert!(!EffectAllowed::CopyMove.allows(DropEffect::Link));
    assert!(!EffectAllowed::NoEffect.allows(DropEffect::Copy));
}

#[test]
fn data_store_set_get() {
    let mut store = DragDataStore::new();
    assert!(store.set_data("text/plain", "hello"));
    assert_eq!(store.get_data("text/plain"), Some("hello"));
    assert_eq!(store.get_data("TEXT/PLAIN"), Some("hello"));
    assert_eq!(store.len(), 1);
}

#[test]
fn data_store_replace() {
    let mut store = DragDataStore::new();
    store.set_data("text/plain", "first");
    store.set_data("text/plain", "second");
    assert_eq!(store.get_data("text/plain"), Some("second"));
    assert_eq!(store.len(), 1);
}

#[test]
fn data_store_clear() {
    let mut store = DragDataStore::new();
    store.set_data("text/plain", "hello");
    store.set_data("text/html", "<b>hello</b>");
    assert_eq!(store.len(), 2);
    assert!(store.clear_data("text/plain"));
    assert_eq!(store.len(), 1);
    assert!(store.clear_all());
    assert!(store.is_empty());
}

#[test]
fn data_store_protected_mode() {
    let mut store = DragDataStore::new();
    store.set_data("text/plain", "secret");
    store.set_mode(DragDataStoreMode::Protected);
    assert_eq!(store.get_data("text/plain"), None);
    assert!(!store.set_data("text/plain", "new"));
}

#[test]
fn data_store_readonly_mode() {
    let mut store = DragDataStore::new();
    store.set_data("text/plain", "data");
    store.set_mode(DragDataStoreMode::ReadOnly);
    assert_eq!(store.get_data("text/plain"), Some("data"));
    assert!(!store.set_data("text/plain", "modified"));
}

#[test]
fn data_store_files() {
    let mut store = DragDataStore::new();
    store.add_file("doc.pdf");
    store.add_file("img.png");
    assert_eq!(store.files().len(), 2);
    assert_eq!(store.files()[0].data, "doc.pdf");
}

#[test]
fn event_type_parse_roundtrip() {
    for name in &["dragstart", "drag", "dragenter", "dragover", "dragleave", "drop", "dragend"] {
        let t = DragEventType::parse(name).unwrap();
        assert_eq!(t.as_str(), *name);
    }
    assert_eq!(DragEventType::parse("invalid"), None);
}

#[test]
fn event_type_cancelable() {
    assert!(DragEventType::DragStart.cancelable());
    assert!(DragEventType::DragOver.cancelable());
    assert!(DragEventType::Drop.cancelable());
    assert!(!DragEventType::Drag.cancelable());
    assert!(!DragEventType::DragEnd.cancelable());
}

#[test]
fn drag_event_prevent_default() {
    let mut event = DragEvent::new(DragEventType::DragOver, id(1));
    assert!(!event.default_prevented);
    event.prevent_default();
    assert!(event.default_prevented);
    let mut event = DragEvent::new(DragEventType::Drag, id(1));
    event.prevent_default();
    assert!(!event.default_prevented);
}

#[test]
fn controller_lifecycle() {
    let mut ctrl = DragController::new();
    assert_eq!(ctrl.phase, DragPhase::Idle);
    let _start = ctrl.drag_start(id(1));
    assert_eq!(ctrl.phase, DragPhase::Dragging);
    assert_eq!(ctrl.source, Some(id(1)));
    ctrl.data_store.set_data("text/plain", "hello");
    ctrl.register_drop_zone(id(2), vec!["text/plain".to_string()]);
    let move_events = ctrl.drag_move(id(2));
    assert!(move_events.len() >= 3);
    let end_events = ctrl.drag_end(id(2));
    assert!(end_events.iter().any(|e| e.event_type == DragEventType::Drop));
    assert!(end_events.iter().any(|e| e.event_type == DragEventType::DragEnd));
    assert_eq!(ctrl.phase, DragPhase::Idle);
}

#[test]
fn controller_drop_zone() {
    let mut ctrl = DragController::new();
    ctrl.register_drop_zone(id(10), vec!["text/plain".to_string()]);
    assert!(ctrl.is_drop_zone(id(10)));
    assert!(!ctrl.is_drop_zone(id(11)));
    ctrl.unregister_drop_zone(id(10));
    assert!(!ctrl.is_drop_zone(id(10)));
}

#[test]
fn controller_invalid_drop() {
    let mut ctrl = DragController::new();
    ctrl.drag_start(id(1));
    ctrl.data_store.set_data("text/plain", "data");
    let events = ctrl.drag_end(id(99));
    assert!(!events.iter().any(|e| e.event_type == DragEventType::Drop));
    assert!(events.iter().any(|e| e.event_type == DragEventType::DragEnd));
}

#[test]
fn controller_type_mismatch() {
    let mut ctrl = DragController::new();
    ctrl.register_drop_zone(id(5), vec!["image/png".to_string()]);
    ctrl.drag_start(id(1));
    ctrl.data_store.set_data("text/plain", "text data");
    let events = ctrl.drag_end(id(5));
    assert!(!events.iter().any(|e| e.event_type == DragEventType::Drop));
}

#[test]
fn controller_cancel() {
    let mut ctrl = DragController::new();
    ctrl.drag_start(id(1));
    let event = ctrl.cancel();
    assert!(event.is_some());
    assert_eq!(event.unwrap().event_type, DragEventType::DragEnd);
    assert_eq!(ctrl.phase, DragPhase::Idle);
}

#[test]
fn controller_target_transitions() {
    let mut ctrl = DragController::new();
    ctrl.drag_start(id(1));
    let events = ctrl.drag_move(id(2));
    assert!(events.iter().any(|e| e.event_type == DragEventType::DragEnter && e.target == id(2)));
    let events = ctrl.drag_move(id(3));
    assert!(events.iter().any(|e| e.event_type == DragEventType::DragLeave && e.target == id(2)));
    assert!(events.iter().any(|e| e.event_type == DragEventType::DragEnter && e.target == id(3)));
}

#[test]
fn controller_event_log() {
    let mut ctrl = DragController::new();
    ctrl.drag_start(id(1));
    ctrl.drag_move(id(2));
    assert!(!ctrl.event_log().is_empty());
    let log = ctrl.event_log().to_vec();
    assert_eq!(log[0], (DragEventType::DragStart, id(1)));
    ctrl.clear_log();
    assert!(ctrl.event_log().is_empty());
}

#[test]
fn controller_empty_accepted_types() {
    let mut ctrl = DragController::new();
    ctrl.register_drop_zone(id(5), vec![]);
    ctrl.drag_start(id(1));
    ctrl.data_store.set_data("text/plain", "anything");
    let events = ctrl.drag_end(id(5));
    assert!(events.iter().any(|e| e.event_type == DragEventType::Drop));
}

#[test]
fn controller_idle_operations() {
    let mut ctrl = DragController::new();
    let events = ctrl.drag_move(id(1));
    assert!(events.is_empty());
    let events = ctrl.drag_end(id(1));
    assert!(events.is_empty());
    assert!(ctrl.cancel().is_none());
}

#[test]
fn types_dedup_runs_only_and_moves_stay_on_target() {
    let mut store = DragDataStore::new();
    store.add_file("a");
    store.add_file("b");
    store.set_data("text/plain", "x");
    assert_eq!(store.types(), vec!["application/octet-stream".to_string(), "text/plain".to_string()]);
    let mut ctrl = DragController::new();
    ctrl.drag_start(id(1));
    ctrl.drag_move(id(2));
    let again = ctrl.drag_move(id(2));
    let kinds: Vec<DragEventType> = again.iter().map(|e| e.event_type).collect();
    assert_eq!(kinds, vec![DragEventType::Drag, DragEventType::DragOver]);
}

#[test]
fn stored_data_reads_back_under_any_case() {
    let mut store = DragDataStore::new();
    assert!(store.set_data("Text/Plain", "x"));
    assert_eq!(store.get_data("TEXT/plain"), Some("x"));
    assert!(store.set_data("text/plain", "y"));
    assert_eq!(store.get_data("Text/Plain"), Some("y"));
}
