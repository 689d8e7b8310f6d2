use vex_browser::embedder::{ConsoleLevel, CursorKind, DialogRequest, EmbedderBus, LoadStatus, PermissionKind};

#[test]
fn load_status_display() {
    assert_eq!(LoadStatus::Started.label(), "loading");
    assert_eq!(LoadStatus::HeadParsed.label(), "head parsed");
    assert_eq!(LoadStatus::Complete.label(), "complete");
}

#[test]
fn console_level_display() {
    assert_eq!(ConsoleLevel::Log.label(), "LOG");
    assert_eq!(ConsoleLevel::Error.label(), "ERROR");
    assert_eq!(ConsoleLevel::Info.label(), "INFO");
    assert_eq!(ConsoleLevel::Warn.label(), "WARN");
    assert_eq!(ConsoleLevel::Debug.label(), "DEBUG");
}

#[test]
fn cursor_kind_default() {
    assert_eq!(CursorKind::default(), CursorKind::Default);
}

#[test]
fn dialog_request_variants() {
    let alert = DialogRequest::Alert("test".into());
    assert!(format!("{alert:?}").contains("Alert"));
    let confirm = DialogRequest::Confirm("sure?".into());
    assert!(format!("{confirm:?}").contains("Confirm"));
    let prompt = DialogRequest::Prompt("name?".into(), Some("default".into()));
    assert!(format!("{prompt:?}").contains("Prompt"));
}

#[test]
fn permission_kinds_differ() {
    assert_ne!(PermissionKind::Camera, PermissionKind::Microphone);
}

#[test]
fn bus_queues_are_first_in_first_out() {
    let mut bus: EmbedderBus<&str, u32> = EmbedderBus::new();
    assert!(bus.is_empty());
    bus.push_command("shutdown");
    bus.push_command("new-tab");
    bus.push_message(7);
    assert_eq!(bus.len(), 3);
    assert!(bus.has_commands());
    assert!(bus.has_messages());
    assert_eq!(bus.pop_command(), Some("shutdown"));
    assert_eq!(bus.pop_command(), Some("new-tab"));
    assert_eq!(bus.pop_command(), None);
    assert_eq!(bus.pop_message(), Some(7));
    assert_eq!(bus.pop_message(), None);
    assert!(bus.is_empty());
}
