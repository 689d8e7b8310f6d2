use vex_browser::extensions::messaging::{MessageTarget, MessagingHub};

#[test]
fn broadcast_delivers_to_other_extensions() {
    let mut hub = MessagingHub::new();
    hub.register_extension("ext-a");
    hub.register_extension("ext-b");
    hub.register_extension("ext-c");

    let delivered = hub.send_message(
        "ext-a",
        MessageTarget::Broadcast,
        "{\"kind\":\"ping\"}".to_owned(),
    );

    assert_eq!(delivered, 2);
    assert_eq!(hub.pending_count("ext-a"), 0);
    assert_eq!(hub.pending_count("ext-b"), 1);
    assert_eq!(hub.pending_count("ext-c"), 1);
}

#[test]
fn direct_message_delivers_single_recipient() {
    let mut hub = MessagingHub::new();
    hub.register_extension("sender");
    hub.register_extension("receiver");

    let delivered = hub.send_message(
        "sender",
        MessageTarget::Extension("receiver".to_owned()),
        "hello".to_owned(),
    );

    assert_eq!(delivered, 1);
    let msg = hub.poll_message("receiver").expect("message should be queued");
    assert_eq!(msg.from_extension_id, "sender");
    assert_eq!(msg.to_extension_id, Some("receiver".to_owned()));
    assert_eq!(msg.payload, "hello");
}

#[test]
fn sender_must_be_registered() {
    let mut hub = MessagingHub::new();
    hub.register_extension("receiver");

    let delivered = hub.send_message(
        "unknown",
        MessageTarget::Extension("receiver".to_owned()),
        "x".to_owned(),
    );

    assert_eq!(delivered, 0);
    assert_eq!(hub.pending_count("receiver"), 0);
}

#[test]
fn unregister_drops_inbox_and_messages() {
    let mut hub = MessagingHub::new();
    hub.register_extension("a");
    hub.register_extension("b");

    let _ = hub.send_message("a", MessageTarget::Extension("b".to_owned()), "queued".to_owned());
    assert_eq!(hub.pending_count("b"), 1);

    hub.unregister_extension("b");
    assert!(!hub.is_registered("b"));
    assert_eq!(hub.pending_count("b"), 0);
}

#[test]
fn message_to_self_is_not_delivered() {
    let mut hub = MessagingHub::new();
    hub.register_extension("a");
    assert_eq!(hub.send_message("a", MessageTarget::Extension("a".to_owned()), "x".to_owned()), 0);
    assert_eq!(hub.pending_count("a"), 0);
}

#[test]
fn register_twice_keeps_one_inbox_and_fifo_order() {
    let mut hub = MessagingHub::new();
    hub.register_extension("a");
    hub.register_extension("b");
    hub.register_extension("b");
    assert_eq!(hub.registered_count(), 2);
    hub.send_message("a", MessageTarget::Extension("b".to_owned()), "1".to_owned());
    hub.send_message("a", MessageTarget::Extension("b".to_owned()), "2".to_owned());
    assert_eq!(hub.poll_message("b").unwrap().payload, "1");
    assert_eq!(hub.poll_message("b").unwrap().payload, "2");
    assert!(hub.poll_message("b").is_none());
}
