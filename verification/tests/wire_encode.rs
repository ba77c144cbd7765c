use realtime_hub::envelope::{
    ChatMessagePayload, ErrorPayload, MessageDeliveredPayload, TaskMemberRemovedPayload,
    TaskSharedPayload, TaskUpdatedPayload, TypingIndicatorPayload, UserStatusPayload, WsMessage,
};
use realtime_hub::ids::UserId;
use realtime_hub::wire::encode_envelope;

const UUID_A: u128 = 0x123e4567_e89b_12d3_a456_426614174000;
const UUID_B: u128 = 0x00000000_0000_0000_0000_000000000001;

fn encoded(m: &WsMessage) -> String {
    String::from_utf8(encode_envelope(m)).expect("wire bytes are valid text")
}

#[test]
fn encodes_chat_message() {
    let m = WsMessage::ChatMessage(ChatMessagePayload {
        id: UUID_A,
        sender_id: UserId::new(UUID_B),
        receiver_id: UserId::new(2),
        content: "hi".to_string(),
        image_url: None,
        created_at: "2024-01-01T00:00:00Z".to_string(),
    });
    assert_eq!(
        encoded(&m),
        "{\"type\":\"chat_message\",\"id\":\"123e4567-e89b-12d3-a456-426614174000\",\
         \"sender_id\":\"00000000-0000-0000-0000-000000000001\",\
         \"receiver_id\":\"00000000-0000-0000-0000-000000000002\",\
         \"content\":\"hi\",\"image_url\":null,\
         \"created_at\":\"2024-01-01T00:00:00Z\"}"
    );
}

#[test]
fn encodes_image_url_when_present() {
    let m = WsMessage::ChatMessage(ChatMessagePayload {
        id: 0,
        sender_id: UserId::new(0),
        receiver_id: UserId::new(0),
        content: "".to_string(),
        image_url: Some("http://x/y.png".to_string()),
        created_at: "".to_string(),
    });
    let text = encoded(&m);
    assert!(text.contains("\"image_url\":\"http://x/y.png\""));
}

#[test]
fn escapes_quotes_backslashes_and_controls() {
    let m = WsMessage::Error(ErrorPayload {
        message: "a\"b\\c\nd\te\rf\u{0008}g\u{000c}h\u{0001}i".to_string(),
    });
    assert_eq!(
        encoded(&m),
        "{\"type\":\"error\",\"message\":\"a\\\"b\\\\c\\nd\\te\\rf\\bg\\fh\\u0001i\"}"
    );
}

#[test]
fn multibyte_text_passes_through() {
    let m = WsMessage::Error(ErrorPayload { message: "héllo ✓".to_string() });
    assert_eq!(encoded(&m), "{\"type\":\"error\",\"message\":\"héllo ✓\"}");
}

#[test]
fn encodes_typing_indicator() {
    let m = WsMessage::TypingIndicator(TypingIndicatorPayload {
        user_id: UserId::new(1),
        is_typing: true,
        conversation_with: UserId::new(2),
    });
    assert_eq!(
        encoded(&m),
        "{\"type\":\"typing_indicator\",\
         \"user_id\":\"00000000-0000-0000-0000-000000000001\",\
         \"is_typing\":true,\
         \"conversation_with\":\"00000000-0000-0000-0000-000000000002\"}"
    );
}

#[test]
fn encodes_user_status() {
    let m = WsMessage::UserStatus(UserStatusPayload {
        user_id: UserId::new(UUID_A),
        is_online: false,
    });
    assert_eq!(
        encoded(&m),
        "{\"type\":\"user_status\",\
         \"user_id\":\"123e4567-e89b-12d3-a456-426614174000\",\
         \"is_online\":false}"
    );
}

#[test]
fn encodes_task_updated_with_old_value() {
    let m = WsMessage::TaskUpdated(TaskUpdatedPayload {
        task_id: 3,
        updated_by: UserId::new(4),
        field: "status".to_string(),
        old_value: Some("Pending".to_string()),
        new_value: "Completed".to_string(),
    });
    assert_eq!(
        encoded(&m),
        "{\"type\":\"task_updated\",\
         \"task_id\":\"00000000-0000-0000-0000-000000000003\",\
         \"updated_by\":\"00000000-0000-0000-0000-000000000004\",\
         \"field\":\"status\",\"old_value\":\"Pending\",\"new_value\":\"Completed\"}"
    );
}

#[test]
fn encodes_task_shared() {
    let m = WsMessage::TaskShared(TaskSharedPayload {
        task_id: 5,
        task_title: "Plan".to_string(),
        shared_by: UserId::new(6),
        shared_by_username: "ana".to_string(),
    });
    assert_eq!(
        encoded(&m),
        "{\"type\":\"task_shared\",\
         \"task_id\":\"00000000-0000-0000-0000-000000000005\",\
         \"task_title\":\"Plan\",\
         \"shared_by\":\"00000000-0000-0000-0000-000000000006\",\
         \"shared_by_username\":\"ana\"}"
    );
}

#[test]
fn encodes_task_member_removed() {
    let m = WsMessage::TaskMemberRemoved(TaskMemberRemovedPayload {
        task_id: 7,
        task_title: "Plan".to_string(),
        removed_by: UserId::new(8),
    });
    assert_eq!(
        encoded(&m),
        "{\"type\":\"task_member_removed\",\
         \"task_id\":\"00000000-0000-0000-0000-000000000007\",\
         \"task_title\":\"Plan\",\
         \"removed_by\":\"00000000-0000-0000-0000-000000000008\"}"
    );
}

#[test]
fn encodes_message_delivered() {
    let m = WsMessage::MessageDelivered(MessageDeliveredPayload { message_id: UUID_A });
    assert_eq!(
        encoded(&m),
        "{\"type\":\"message_delivered\",\
         \"message_id\":\"123e4567-e89b-12d3-a456-426614174000\"}"
    );
}

#[test]
fn encoded_envelopes_are_well_formed_objects() {
    // a scalar-only envelope must pass the inbound object grammar:
    // both directions of the wire agree on the shape of a frame
    let m = WsMessage::UserStatus(UserStatusPayload {
        user_id: UserId::new(UUID_A),
        is_online: true,
    });
    let bytes = encode_envelope(&m);
    assert!(realtime_hub::decode::parse_object_exec(bytes.as_slice()).is_some());
}
