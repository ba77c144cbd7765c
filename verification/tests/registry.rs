use realtime_hub::connection::ConnectionManager;
use realtime_hub::envelope::{ErrorPayload, WsMessage};
use realtime_hub::ids::UserId;

fn text_envelope(text: &str) -> WsMessage {
    WsMessage::Error(ErrorPayload { message: text.to_string() })
}

fn expect_error_text(m: WsMessage) -> String {
    match m {
        WsMessage::Error(p) => p.message,
        other => panic!("expected an error envelope, got {:?}", other),
    }
}

#[test]
fn send_to_unregistered_user_returns_false() {
    let mut mgr = ConnectionManager::new();
    let delivered = mgr.send_to_user(UserId::new(42), text_envelope("x"));
    assert!(!delivered);
    assert_eq!(mgr.online_count(), 0);
    assert!(!mgr.is_user_online(UserId::new(42)));
}

#[test]
fn send_to_unregistered_leaves_other_queues_untouched() {
    let mut mgr = ConnectionManager::new();
    let a = UserId::new(1);
    let sink_a = mgr.add_connection(a);
    assert!(!mgr.send_to_user(UserId::new(2), text_envelope("x")));
    assert!(mgr.next_outbound(sink_a).is_none());
}

#[test]
fn reconnect_delivers_only_via_second_sink() {
    let mut mgr = ConnectionManager::new();
    let u = UserId::new(7);
    let sink1 = mgr.add_connection(u);
    let sink2 = mgr.add_connection(u);
    assert_ne!(sink1, sink2);
    assert!(mgr.send_to_user(u, text_envelope("hello")));
    let got = mgr.next_outbound(sink2).expect("second sink must receive");
    assert_eq!(expect_error_text(got), "hello");
    assert!(mgr.next_outbound(sink2).is_none());
    assert!(mgr.next_outbound(sink1).is_none());
}

#[test]
fn broadcast_reaches_every_registered_user_exactly_once() {
    let mut mgr = ConnectionManager::new();
    let users = [UserId::new(1), UserId::new(2), UserId::new(3)];
    let mut sinks = Vec::new();
    for u in users {
        sinks.push(mgr.add_connection(u));
    }
    mgr.broadcast(&text_envelope("all"));
    for sid in sinks {
        let got = mgr.next_outbound(sid).expect("one copy per user");
        assert_eq!(expect_error_text(got), "all");
        assert!(mgr.next_outbound(sid).is_none());
    }
}

#[test]
fn broadcast_skips_users_registered_afterwards() {
    let mut mgr = ConnectionManager::new();
    let a = UserId::new(1);
    let sink_a = mgr.add_connection(a);
    mgr.broadcast(&text_envelope("early"));
    let b = UserId::new(2);
    let sink_b = mgr.add_connection(b);
    let got = mgr.next_outbound(sink_a).expect("a was registered");
    assert_eq!(expect_error_text(got), "early");
    assert!(mgr.next_outbound(sink_b).is_none());
}

#[test]
fn send_to_users_counts_duplicates() {
    let mut mgr = ConnectionManager::new();
    let a = UserId::new(1);
    let b = UserId::new(2);
    let sink_a = mgr.add_connection(a);
    let sink_b = mgr.add_connection(b);
    let list = vec![a, b, a];
    mgr.send_to_users(&list, &text_envelope("m"));
    assert_eq!(expect_error_text(mgr.next_outbound(sink_a).unwrap()), "m");
    assert_eq!(expect_error_text(mgr.next_outbound(sink_a).unwrap()), "m");
    assert!(mgr.next_outbound(sink_a).is_none());
    assert_eq!(expect_error_text(mgr.next_outbound(sink_b).unwrap()), "m");
    assert!(mgr.next_outbound(sink_b).is_none());
}

#[test]
fn queue_preserves_order() {
    let mut mgr = ConnectionManager::new();
    let u = UserId::new(5);
    let sid = mgr.add_connection(u);
    assert!(mgr.send_to_user(u, text_envelope("first")));
    assert!(mgr.send_to_user(u, text_envelope("second")));
    assert_eq!(expect_error_text(mgr.next_outbound(sid).unwrap()), "first");
    assert_eq!(expect_error_text(mgr.next_outbound(sid).unwrap()), "second");
    assert!(mgr.next_outbound(sid).is_none());
}

#[test]
fn remove_connection_is_idempotent() {
    let mut mgr = ConnectionManager::new();
    let u = UserId::new(9);
    mgr.add_connection(u);
    assert!(mgr.is_user_online(u));
    mgr.remove_connection(u);
    assert!(!mgr.is_user_online(u));
    mgr.remove_connection(u);
    assert!(!mgr.is_user_online(u));
    assert_eq!(mgr.online_count(), 0);
}

#[test]
fn closed_sink_rejects_sends_but_keeps_queued_envelopes() {
    let mut mgr = ConnectionManager::new();
    let u = UserId::new(3);
    let sid = mgr.add_connection(u);
    assert!(mgr.send_to_user(u, text_envelope("kept")));
    mgr.close_sink(sid);
    assert!(!mgr.send_to_user(u, text_envelope("lost")));
    assert_eq!(expect_error_text(mgr.next_outbound(sid).unwrap()), "kept");
    assert!(mgr.next_outbound(sid).is_none());
}

#[test]
fn online_snapshot_lists_registered_users() {
    let mut mgr = ConnectionManager::new();
    mgr.add_connection(UserId::new(1));
    mgr.add_connection(UserId::new(2));
    let online = mgr.get_online_users();
    assert_eq!(online.len(), 2);
    assert!(online.contains(&UserId::new(1)));
    assert!(online.contains(&UserId::new(2)));
    assert_eq!(mgr.online_count(), 2);
}
