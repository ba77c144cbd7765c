use realtime_hub::connection::ConnectionManager;
use realtime_hub::envelope::{ChatMessagePayload, ClientMessage, WsMessage};
use realtime_hub::ids::UserId;
use realtime_hub::session::{
    deliver_chat_message, notification_text_for_message, process_client_message,
    report_decode_error, ClientMessageEffect, Session, SessionPhase,
};

fn drain(mgr: &mut ConnectionManager, sid: usize) -> Vec<WsMessage> {
    let mut out = Vec::new();
    while let Some(m) = mgr.next_outbound(sid) {
        out.push(m);
    }
    out
}

fn expect_status(m: &WsMessage) -> (UserId, bool) {
    match m {
        WsMessage::UserStatus(p) => (p.user_id, p.is_online),
        other => panic!("expected a presence envelope, got {:?}", other),
    }
}

fn expect_chat(m: &WsMessage) -> (UserId, UserId, String) {
    match m {
        WsMessage::ChatMessage(p) => (p.sender_id, p.receiver_id, p.content.clone()),
        other => panic!("expected a chat envelope, got {:?}", other),
    }
}

#[test]
fn chat_between_two_connected_users_with_echo_and_offline_presence() {
    let mut mgr = ConnectionManager::new();
    let a = UserId::new(1);
    let b = UserId::new(2);

    let mut session_a = Session::new(a);
    session_a.activate(&mut mgr);
    let mut session_b = Session::new(b);
    session_b.activate(&mut mgr);

    // a hears its own online presence and b's; b hears only its own
    let early_a = drain(&mut mgr, session_a.sink);
    assert_eq!(early_a.len(), 2);
    assert_eq!(expect_status(&early_a[0]), (a, true));
    assert_eq!(expect_status(&early_a[1]), (b, true));
    let early_b = drain(&mut mgr, session_b.sink);
    assert_eq!(early_b.len(), 1);
    assert_eq!(expect_status(&early_b[0]), (b, true));

    // a sends a chat message addressed to b
    let inbound = ClientMessage::SendMessage {
        receiver_id: b,
        content: "hi".to_string(),
        image_url: None,
    };
    let effect = process_client_message(&mut mgr, &session_a, &inbound);
    let (receiver_id, content, image_url) = match effect {
        ClientMessageEffect::PersistAndDeliverChat { receiver_id, content, image_url } => {
            (receiver_id, content, image_url)
        },
        other => panic!("expected a persist-and-deliver effect, got {:?}", other),
    };
    assert_eq!(receiver_id, b);
    assert_eq!(content, "hi");
    assert!(image_url.is_none());

    // the storage collaborator has persisted it; now push it live
    let record = ChatMessagePayload {
        id: 99,
        sender_id: a,
        receiver_id,
        content,
        image_url,
        created_at: "2024-01-01T00:00:00Z".to_string(),
    };
    let (to_receiver, to_sender) = deliver_chat_message(&mut mgr, &record);
    assert!(to_receiver);
    assert!(to_sender);

    let at_b = drain(&mut mgr, session_b.sink);
    assert_eq!(at_b.len(), 1);
    assert_eq!(expect_chat(&at_b[0]), (a, b, "hi".to_string()));
    let at_a = drain(&mut mgr, session_a.sink);
    assert_eq!(at_a.len(), 1);
    assert_eq!(expect_chat(&at_a[0]), (a, b, "hi".to_string()));

    // b disconnects: everyone still connected hears one offline presence
    session_b.on_reader_failed();
    session_b.teardown(&mut mgr);
    assert!(!mgr.is_user_online(b));
    let after_b = drain(&mut mgr, session_a.sink);
    assert_eq!(after_b.len(), 1);
    assert_eq!(expect_status(&after_b[0]), (b, false));
}

#[test]
fn teardown_runs_exactly_once_for_both_loop_failures() {
    let mut mgr = ConnectionManager::new();
    let a = UserId::new(1);
    let watcher = UserId::new(2);
    let mut session_w = Session::new(watcher);
    session_w.activate(&mut mgr);
    let mut session_a = Session::new(a);
    session_a.activate(&mut mgr);
    drain(&mut mgr, session_w.sink);
    drain(&mut mgr, session_a.sink);

    // both loops fail and each runs the teardown
    session_a.on_reader_failed();
    session_a.on_writer_failed();
    session_a.teardown(&mut mgr);
    session_a.teardown(&mut mgr);
    assert_eq!(session_a.phase, SessionPhase::Closed);

    // exactly one unregistration and one offline presence
    assert!(!mgr.is_user_online(a));
    let seen = drain(&mut mgr, session_w.sink);
    assert_eq!(seen.len(), 1);
    assert_eq!(expect_status(&seen[0]), (a, false));
}

#[test]
fn teardown_of_evicted_session_keeps_newer_registration() {
    let mut mgr = ConnectionManager::new();
    let u = UserId::new(1);
    let mut old_session = Session::new(u);
    old_session.activate(&mut mgr);
    let mut new_session = Session::new(u);
    new_session.activate(&mut mgr);

    old_session.on_writer_failed();
    old_session.teardown(&mut mgr);

    // the newer session keeps the registration
    assert!(mgr.is_user_online(u));
    assert!(mgr.send_to_user(u, WsMessage::UserStatus(
        realtime_hub::envelope::UserStatusPayload { user_id: u, is_online: true },
    )));
}

#[test]
fn typing_indicator_is_forwarded_to_the_peer() {
    let mut mgr = ConnectionManager::new();
    let a = UserId::new(1);
    let b = UserId::new(2);
    let mut session_a = Session::new(a);
    session_a.activate(&mut mgr);
    let mut session_b = Session::new(b);
    session_b.activate(&mut mgr);
    drain(&mut mgr, session_a.sink);
    drain(&mut mgr, session_b.sink);

    let inbound = ClientMessage::TypingIndicator { conversation_with: b, is_typing: true };
    let effect = process_client_message(&mut mgr, &session_a, &inbound);
    match effect {
        ClientMessageEffect::TypingForwarded { delivered } => assert!(delivered),
        other => panic!("expected a typing effect, got {:?}", other),
    }
    let at_b = drain(&mut mgr, session_b.sink);
    assert_eq!(at_b.len(), 1);
    match &at_b[0] {
        WsMessage::TypingIndicator(p) => {
            assert_eq!(p.user_id, a);
            assert!(p.is_typing);
            assert_eq!(p.conversation_with, b);
        },
        other => panic!("expected a typing envelope, got {:?}", other),
    }
    assert!(drain(&mut mgr, session_a.sink).is_empty());
}

#[test]
fn typing_indicator_to_absent_peer_is_silently_dropped() {
    let mut mgr = ConnectionManager::new();
    let a = UserId::new(1);
    let mut session_a = Session::new(a);
    session_a.activate(&mut mgr);
    drain(&mut mgr, session_a.sink);

    let inbound = ClientMessage::TypingIndicator {
        conversation_with: UserId::new(99),
        is_typing: true,
    };
    match process_client_message(&mut mgr, &session_a, &inbound) {
        ClientMessageEffect::TypingForwarded { delivered } => assert!(!delivered),
        other => panic!("expected a typing effect, got {:?}", other),
    }
    assert!(drain(&mut mgr, session_a.sink).is_empty());
}

#[test]
fn mark_delivered_touches_storage_only() {
    let mut mgr = ConnectionManager::new();
    let a = UserId::new(1);
    let mut session_a = Session::new(a);
    session_a.activate(&mut mgr);
    drain(&mut mgr, session_a.sink);

    let inbound = ClientMessage::MarkMessageDelivered { message_id: 1234 };
    match process_client_message(&mut mgr, &session_a, &inbound) {
        ClientMessageEffect::MarkDelivered { message_id } => assert_eq!(message_id, 1234),
        other => panic!("expected a mark-delivered effect, got {:?}", other),
    }
    assert!(drain(&mut mgr, session_a.sink).is_empty());
}

#[test]
fn decode_error_is_reported_to_the_offending_session_only() {
    let mut mgr = ConnectionManager::new();
    let a = UserId::new(1);
    let b = UserId::new(2);
    let mut session_a = Session::new(a);
    session_a.activate(&mut mgr);
    let mut session_b = Session::new(b);
    session_b.activate(&mut mgr);
    drain(&mut mgr, session_a.sink);
    drain(&mut mgr, session_b.sink);

    assert!(report_decode_error(&mut mgr, &session_a, "bad payload".to_string()));
    let at_a = drain(&mut mgr, session_a.sink);
    assert_eq!(at_a.len(), 1);
    match &at_a[0] {
        WsMessage::Error(p) => assert_eq!(p.message, "bad payload"),
        other => panic!("expected an error envelope, got {:?}", other),
    }
    assert!(drain(&mut mgr, session_b.sink).is_empty());
    assert_eq!(session_a.phase, SessionPhase::Active);
}

#[test]
fn notification_text_depends_on_the_image() {
    let with_text = ChatMessagePayload {
        id: 1,
        sender_id: UserId::new(1),
        receiver_id: UserId::new(2),
        content: "see you".to_string(),
        image_url: None,
        created_at: "t".to_string(),
    };
    assert_eq!(notification_text_for_message(&with_text), "New message: see you");
    let with_image = ChatMessagePayload { image_url: Some("http".to_string()), ..with_text };
    assert_eq!(notification_text_for_message(&with_image), "New message with image");
}
