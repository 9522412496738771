use hxckr_core::message::{clone_websocket_item, clone_websocket_message, Frame, FrameItem};
use hxckr_core::registry::WebSocketManager;

fn text(s: &str) -> Frame {
    Frame::Text(s.to_string())
}

#[test]
fn register_creates_membership() {
    let mut reg = WebSocketManager::new();
    let c1 = reg.register("tok-A", 100);
    let c2 = reg.register("tok-A", 101);
    let c3 = reg.register("tok-B", 102);
    assert_ne!(c1, c2);
    assert_ne!(c2, c3);
    assert_eq!(reg.connection_count(), 3);
    assert_eq!(reg.session_count(), 2);
    assert_eq!(reg.member_count("tok-A"), 2);
    assert_eq!(reg.member_count("tok-B"), 1);
    assert!(reg.is_registered(c1));
    assert_eq!(reg.heartbeat_of(c1), Some(100));
}

#[test]
fn deliver_to_session_reaches_every_member_once() {
    let mut reg = WebSocketManager::new();
    let c1 = reg.register("tok-A", 0);
    let c2 = reg.register("tok-A", 0);
    let c3 = reg.register("tok-B", 0);
    reg.deliver_to_session("tok-A", &text("hello"), None);
    assert_eq!(reg.take_outgoing(c1), vec![text("hello")]);
    assert_eq!(reg.take_outgoing(c2), vec![text("hello")]);
    assert_eq!(reg.take_outgoing(c3), Vec::<Frame>::new());
}

#[test]
fn deliveries_arrive_in_send_order() {
    let mut reg = WebSocketManager::new();
    let c1 = reg.register("tok-A", 0);
    reg.deliver_to_session("tok-A", &text("first"), None);
    reg.deliver_to_session("tok-A", &text("second"), None);
    reg.deliver_to_all(&text("third"));
    assert_eq!(reg.take_outgoing(c1), vec![text("first"), text("second"), text("third")]);
    // drained: nothing left
    assert_eq!(reg.take_outgoing(c1), Vec::<Frame>::new());
}

#[test]
fn deliver_excludes_the_sender() {
    let mut reg = WebSocketManager::new();
    let c1 = reg.register("tok-A", 0);
    let c2 = reg.register("tok-A", 0);
    reg.send_message_to_session("tok-A", &text("relay"), c1);
    assert_eq!(reg.take_outgoing(c1), Vec::<Frame>::new());
    assert_eq!(reg.take_outgoing(c2), vec![text("relay")]);
}

#[test]
fn deliver_to_all_ignores_session_boundaries() {
    let mut reg = WebSocketManager::new();
    let c1 = reg.register("tok-A", 0);
    let c2 = reg.register("tok-B", 0);
    reg.deliver_to_all(&Frame::Binary(vec![1, 2, 3]));
    assert_eq!(reg.take_outgoing(c1), vec![Frame::Binary(vec![1, 2, 3])]);
    assert_eq!(reg.take_outgoing(c2), vec![Frame::Binary(vec![1, 2, 3])]);
}

#[test]
fn unregister_is_idempotent() {
    let mut reg = WebSocketManager::new();
    let c1 = reg.register("tok-A", 0);
    let c2 = reg.register("tok-A", 0);
    reg.unregister(c1);
    assert!(!reg.is_registered(c1));
    assert_eq!(reg.member_count("tok-A"), 1);
    assert_eq!(reg.connection_count(), 1);
    // a second unregister of the same id changes nothing
    reg.unregister(c1);
    assert!(!reg.is_registered(c1));
    assert_eq!(reg.member_count("tok-A"), 1);
    assert_eq!(reg.connection_count(), 1);
    assert!(reg.is_registered(c2));
}

#[test]
fn last_unregister_drops_the_session_entry() {
    let mut reg = WebSocketManager::new();
    let c1 = reg.register("tok-A", 0);
    let c2 = reg.register("tok-A", 0);
    assert!(reg.has_session_entry("tok-A"));
    reg.unregister(c1);
    assert!(reg.has_session_entry("tok-A"));
    reg.unregister(c2);
    assert!(!reg.has_session_entry("tok-A"));
    assert_eq!(reg.session_count(), 0);
    assert_eq!(reg.member_count("tok-A"), 0);
}

#[test]
fn update_heartbeat_refreshes_only_the_target() {
    let mut reg = WebSocketManager::new();
    let c1 = reg.register("tok-A", 10);
    let c2 = reg.register("tok-A", 10);
    reg.update_heartbeat(c1, 50);
    assert_eq!(reg.heartbeat_of(c1), Some(50));
    assert_eq!(reg.heartbeat_of(c2), Some(10));
    // unknown ids are a no-op
    reg.update_heartbeat(9999, 70);
    assert_eq!(reg.heartbeat_of(9999), None);
}

#[test]
fn delivery_to_unknown_session_is_a_no_op() {
    let mut reg = WebSocketManager::new();
    let c1 = reg.register("tok-A", 0);
    reg.deliver_to_session("tok-Z", &text("nobody"), None);
    assert_eq!(reg.take_outgoing(c1), Vec::<Frame>::new());
}

#[test]
fn connect_and_disconnect_mirror_register_and_unregister() {
    let mut reg = WebSocketManager::new();
    let c1 = reg.connect("tok-A", 5);
    assert!(reg.is_registered(c1));
    reg.broadcast_to_session("tok-A", &text("b"));
    assert_eq!(reg.take_outgoing(c1), vec![text("b")]);
    reg.disconnect(c1);
    assert!(!reg.is_registered(c1));
    assert!(!reg.has_session_entry("tok-A"));
}

#[test]
fn cloned_frames_carry_the_same_value() {
    let frames = vec![
        text("abc"),
        Frame::Binary(vec![0, 255]),
        Frame::Ping(vec![1]),
        Frame::Pong(vec![2]),
        Frame::Close(Some(1000)),
        Frame::Continuation(FrameItem::FirstText(vec![3, 4])),
        Frame::Nop,
    ];
    for f in &frames {
        assert_eq!(&clone_websocket_message(f), f);
    }
    let item = FrameItem::Last(vec![9]);
    assert_eq!(clone_websocket_item(&item), item);
}
