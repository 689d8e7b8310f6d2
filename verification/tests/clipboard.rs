use vex_browser::clipboard::{
    Clipboard, ClipboardError, ClipboardItem, ClipboardPermission, DataTransfer,
    DataTransferItem, DataTransferItemKind, DropEffect, EffectAllowed,
};

#[test]
fn clipboard_item_single_type() {
    let item = ClipboardItem::new("text/plain", b"hello".to_vec());
    assert!(item.has_type("text/plain"));
    assert!(!item.has_type("text/html"));
    assert_eq!(item.get_type("text/plain"), Some(b"hello".as_slice()));
}

#[test]
fn clipboard_item_multiple_types() {
    let map = vec![
        ("text/plain".to_string(), b"hello".to_vec()),
        ("text/html".to_string(), b"<b>hello</b>".to_vec()),
    ];
    let item = ClipboardItem::from_map(map);
    assert_eq!(item.types().len(), 2);
    assert!(item.has_type("text/plain"));
    assert!(item.has_type("text/html"));
}

#[test]
fn clipboard_item_repeated_type_last_wins() {
    let map = vec![
        ("text/plain".to_string(), b"a".to_vec()),
        ("text/plain".to_string(), b"b".to_vec()),
    ];
    let item = ClipboardItem::from_map(map);
    assert_eq!(item.types(), vec!["text/plain"]);
    assert_eq!(item.get_type("text/plain"), Some(b"b".as_slice()));
}

#[test]
fn clipboard_write_and_read_text() {
    let mut clipboard = Clipboard::new();
    clipboard.write_text("hello world").unwrap();
    assert_eq!(clipboard.read_text().unwrap(), "hello world");
}

#[test]
fn clipboard_write_and_read_items() {
    let mut clipboard = Clipboard::new();
    let item = ClipboardItem::new("text/plain", b"data".to_vec());
    clipboard.write(vec![item]).unwrap();
    let items = clipboard.read().unwrap();
    assert_eq!(items.len(), 1);
    assert_eq!(items[0].get_type("text/plain"), Some(b"data".as_slice()));
}

#[test]
fn clipboard_clear() {
    let mut clipboard = Clipboard::new();
    clipboard.write_text("test").unwrap();
    clipboard.clear().unwrap();
    let items = clipboard.read().unwrap();
    assert!(items.is_empty());
}

#[test]
fn clipboard_read_empty() {
    let clipboard = Clipboard::new();
    assert_eq!(clipboard.read_text().unwrap(), "");
}

#[test]
fn clipboard_read_invalid_utf8() {
    let mut clipboard = Clipboard::new();
    clipboard.write(vec![ClipboardItem::new("text/plain", vec![0xFF, 0xFE])]).unwrap();
    assert_eq!(clipboard.read_text(), Err(ClipboardError::InvalidData));
}

#[test]
fn clipboard_permission_denied_read() {
    let mut clipboard = Clipboard::new();
    clipboard.set_read_permission(ClipboardPermission::Denied);
    assert_eq!(clipboard.read_text(), Err(ClipboardError::NotAllowed));
    assert!(clipboard.read().is_err());
}

#[test]
fn clipboard_permission_denied_write() {
    let mut clipboard = Clipboard::new();
    clipboard.set_write_permission(ClipboardPermission::Denied);
    assert_eq!(clipboard.write_text("denied"), Err(ClipboardError::NotAllowed));
}

#[test]
fn clipboard_overwrite() {
    let mut clipboard = Clipboard::new();
    clipboard.write_text("first").unwrap();
    clipboard.write_text("second").unwrap();
    assert_eq!(clipboard.read_text().unwrap(), "second");
}

#[test]
fn clipboard_error_messages() {
    assert_eq!(ClipboardError::NotAllowed.message(), "clipboard: operation not allowed");
    assert_eq!(ClipboardError::InvalidData.message(), "clipboard: invalid data");
    assert_eq!(ClipboardError::Internal.message(), "clipboard: internal error");
}

#[test]
fn data_transfer_set_and_get() {
    let mut dt = DataTransfer::new();
    dt.set_data("text/plain", "hello");
    assert_eq!(dt.get_data("text/plain"), "hello");
    assert_eq!(dt.length(), 1);
}

#[test]
fn data_transfer_multiple_types() {
    let mut dt = DataTransfer::new();
    dt.set_data("text/plain", "hello");
    dt.set_data("text/html", "<b>hello</b>");
    assert_eq!(dt.length(), 2);
    assert_eq!(dt.get_data("text/plain"), "hello");
    assert_eq!(dt.get_data("text/html"), "<b>hello</b>");
}

#[test]
fn data_transfer_overwrite_same_type() {
    let mut dt = DataTransfer::new();
    dt.set_data("text/plain", "first");
    dt.set_data("text/plain", "second");
    assert_eq!(dt.length(), 1);
    assert_eq!(dt.get_data("text/plain"), "second");
}

#[test]
fn data_transfer_clear_specific() {
    let mut dt = DataTransfer::new();
    dt.set_data("text/plain", "a");
    dt.set_data("text/html", "b");
    dt.clear_data(Some("text/plain"));
    assert_eq!(dt.length(), 1);
    assert_eq!(dt.get_data("text/plain"), "");
    assert_eq!(dt.get_data("text/html"), "b");
}

#[test]
fn data_transfer_clear_all() {
    let mut dt = DataTransfer::new();
    dt.set_data("text/plain", "a");
    dt.set_data("text/html", "b");
    dt.clear_data(None);
    assert_eq!(dt.length(), 0);
}

#[test]
fn data_transfer_files() {
    let mut dt = DataTransfer::new();
    dt.add_file("image/png", vec![0x89, 0x50, 0x4E, 0x47]);
    dt.set_data("text/plain", "description");
    assert_eq!(dt.files().len(), 1);
    assert_eq!(dt.files()[0].mime_type, "image/png");
    assert_eq!(dt.items().len(), 2);
}

#[test]
fn data_transfer_types() {
    let mut dt = DataTransfer::new();
    dt.set_data("text/plain", "a");
    dt.set_data("text/html", "b");
    let types = dt.types();
    assert!(types.contains(&"text/plain"));
    assert!(types.contains(&"text/html"));
}

#[test]
fn data_transfer_get_missing() {
    let dt = DataTransfer::new();
    assert_eq!(dt.get_data("text/plain"), "");
}

#[test]
fn data_transfer_effect_defaults() {
    let dt = DataTransfer::new();
    assert_eq!(dt.drop_effect, DropEffect::NoEffect);
    assert_eq!(dt.effect_allowed, EffectAllowed::Uninitialized);
}

#[test]
fn data_transfer_item_string() {
    let item = DataTransferItem::string("text/plain", "test");
    assert_eq!(item.kind, DataTransferItemKind::String);
    assert_eq!(item.as_string(), Some("test".to_string()));
}

#[test]
fn data_transfer_item_file() {
    let item = DataTransferItem::file("application/pdf", vec![0x25, 0x50, 0x44, 0x46]);
    assert_eq!(item.kind, DataTransferItemKind::File);
    assert_eq!(item.as_string(), None);
}
