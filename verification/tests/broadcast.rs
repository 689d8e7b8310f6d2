use vex_browser::broadcast::{BroadcastChannel, BroadcastHub, ChannelEndpointId};

const ORIGIN: &str = "https://example.com";

#[test]
fn create_channel() {
    let mut hub = BroadcastHub::new();
    let id = hub.create_channel("test", ORIGIN);
    assert!(hub.get(id).is_some());
    assert_eq!(hub.get(id).unwrap().name, "test");
}

#[test]
fn post_message_delivered() {
    let mut hub = BroadcastHub::new();
    let id1 = hub.create_channel("chat", ORIGIN);
    let id2 = hub.create_channel("chat", ORIGIN);

    let delivered = hub.post_message(id1, r#"{"text":"hello"}"#);
    assert_eq!(delivered, 1);

    let msg = hub.get_mut(id2).unwrap().receive().unwrap();
    assert_eq!(msg.data, r#"{"text":"hello"}"#);
    assert_eq!(msg.origin, ORIGIN);
    assert_eq!(msg.sender, id1);
}

#[test]
fn sender_does_not_receive() {
    let mut hub = BroadcastHub::new();
    let id1 = hub.create_channel("ch", ORIGIN);
    hub.post_message(id1, "hello");
    assert_eq!(hub.get(id1).unwrap().pending_count(), 0);
}

#[test]
fn different_names_isolated() {
    let mut hub = BroadcastHub::new();
    let id1 = hub.create_channel("ch-a", ORIGIN);
    let id2 = hub.create_channel("ch-b", ORIGIN);

    hub.post_message(id1, "for-a");
    assert_eq!(hub.get(id2).unwrap().pending_count(), 0);
}

#[test]
fn different_origins_isolated() {
    let mut hub = BroadcastHub::new();
    let id1 = hub.create_channel("shared", ORIGIN);
    let id2 = hub.create_channel("shared", "https://other.com");

    hub.post_message(id1, "data");
    assert_eq!(hub.get(id2).unwrap().pending_count(), 0);
}

#[test]
fn multi_recipients() {
    let mut hub = BroadcastHub::new();
    let id1 = hub.create_channel("sync", ORIGIN);
    let id2 = hub.create_channel("sync", ORIGIN);
    let id3 = hub.create_channel("sync", ORIGIN);

    let delivered = hub.post_message(id1, "update");
    assert_eq!(delivered, 2);
    assert_eq!(hub.get(id2).unwrap().pending_count(), 1);
    assert_eq!(hub.get(id3).unwrap().pending_count(), 1);
}

#[test]
fn closed_channel_no_receive() {
    let mut hub = BroadcastHub::new();
    let id1 = hub.create_channel("ch", ORIGIN);
    let id2 = hub.create_channel("ch", ORIGIN);

    hub.close(id2);
    let delivered = hub.post_message(id1, "hello");
    assert_eq!(delivered, 0);
}

#[test]
fn closed_channel_no_send() {
    let mut hub = BroadcastHub::new();
    let id1 = hub.create_channel("ch", ORIGIN);
    let _id2 = hub.create_channel("ch", ORIGIN);

    hub.close(id1);
    let delivered = hub.post_message(id1, "hello");
    assert_eq!(delivered, 0);
}

#[test]
fn cleanup() {
    let mut hub = BroadcastHub::new();
    let id1 = hub.create_channel("ch", ORIGIN);
    let _id2 = hub.create_channel("ch", ORIGIN);

    hub.close(id1);
    assert_eq!(hub.endpoint_count(), 2);
    hub.cleanup();
    assert_eq!(hub.endpoint_count(), 1);
    assert!(hub.get(id1).is_none());
}

#[test]
fn channel_count() {
    let mut hub = BroadcastHub::new();
    hub.create_channel("ch-a", ORIGIN);
    hub.create_channel("ch-b", ORIGIN);
    hub.create_channel("ch-a", ORIGIN);

    assert_eq!(hub.channel_count(), 2);
    assert_eq!(hub.endpoint_count(), 3);
}

#[test]
fn message_ordering() {
    let mut hub = BroadcastHub::new();
    let id1 = hub.create_channel("ch", ORIGIN);
    let id2 = hub.create_channel("ch", ORIGIN);

    hub.post_message(id1, "first");
    hub.post_message(id1, "second");
    hub.post_message(id1, "third");

    let ep = hub.get_mut(id2).unwrap();
    assert_eq!(ep.receive().unwrap().data, "first");
    assert_eq!(ep.receive().unwrap().data, "second");
    assert_eq!(ep.receive().unwrap().data, "third");
    assert!(ep.receive().is_none());
}

#[test]
fn register_external_endpoint_and_raw_ids() {
    let mut hub = BroadcastHub::new();
    let id = ChannelEndpointId::from_raw(42);
    assert_eq!(id.raw(), 42);
    assert_eq!(hub.register(BroadcastChannel::new(id, "ch", ORIGIN)), id);
    let other = hub.create_channel("ch", ORIGIN);
    assert_ne!(other, id);
    assert_eq!(hub.post_message(other, "x"), 1);
    assert_eq!(hub.get(id).unwrap().pending_count(), 1);
    assert!(hub.get(ChannelEndpointId::from_raw(7)).is_none());
}
