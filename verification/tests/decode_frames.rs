use realtime_hub::decode::{decode_client_message, parse_uuid_exec, RawClientMessage};
use realtime_hub::ids::UserId;

const UUID_TEXT: &str = "123e4567-e89b-12d3-a456-426614174000";
const UUID_VALUE: u128 = 0x123e4567_e89b_12d3_a456_426614174000;

fn decode(text: &str) -> Option<RawClientMessage> {
    decode_client_message(text.as_bytes())
}

fn expect_send(m: RawClientMessage) -> (UserId, Vec<u8>, Option<Vec<u8>>) {
    match m {
        RawClientMessage::SendMessage { receiver_id, content, image_url } => {
            (receiver_id, content, image_url)
        },
        other => panic!("expected a chat send, got {:?}", other),
    }
}

#[test]
fn decodes_send_message() {
    let m = decode(
        "{\"type\":\"send_message\",\"receiver_id\":\"123e4567-e89b-12d3-a456-426614174000\",\
         \"content\":\"hi\",\"image_url\":null}",
    )
    .expect("well-formed frame");
    let (receiver, content, image) = expect_send(m);
    assert_eq!(receiver, UserId::new(UUID_VALUE));
    assert_eq!(content, b"hi".to_vec());
    assert!(image.is_none());
}

#[test]
fn field_order_and_whitespace_do_not_matter() {
    let m = decode(
        " { \"content\" : \"hi\" ,\n\t\"type\" : \"send_message\" ,\
         \"receiver_id\" : \"123e4567-e89b-12d3-a456-426614174000\" } ",
    )
    .expect("well-formed frame");
    let (receiver, content, image) = expect_send(m);
    assert_eq!(receiver, UserId::new(UUID_VALUE));
    assert_eq!(content, b"hi".to_vec());
    assert!(image.is_none());
}

#[test]
fn missing_image_url_means_none_and_present_means_some() {
    let base = format!(
        "{{\"type\":\"send_message\",\"receiver_id\":\"{}\",\"content\":\"x\"}}",
        UUID_TEXT
    );
    let (_, _, image) = expect_send(decode(&base).expect("image field is optional"));
    assert!(image.is_none());

    let with = format!(
        "{{\"type\":\"send_message\",\"receiver_id\":\"{}\",\"content\":\"x\",\
         \"image_url\":\"http://p/q.png\"}}",
        UUID_TEXT
    );
    let (_, _, image) = expect_send(decode(&with).expect("image field present"));
    assert_eq!(image.unwrap(), b"http://p/q.png".to_vec());
}

#[test]
fn unescapes_string_escapes() {
    let m = decode(
        "{\"type\":\"send_message\",\
         \"receiver_id\":\"123e4567-e89b-12d3-a456-426614174000\",\
         \"content\":\"a\\\"b\\\\c\\nd\\u0041e\\u00e9f\"}",
    )
    .expect("escapes are standard");
    let (_, content, _) = expect_send(m);
    assert_eq!(String::from_utf8(content).unwrap(), "a\"b\\c\ndAe\u{e9}f");
}

#[test]
fn rejects_surrogate_escapes_and_raw_controls() {
    let surrogate = format!(
        "{{\"type\":\"send_message\",\"receiver_id\":\"{}\",\"content\":\"\\ud800\"}}",
        UUID_TEXT
    );
    assert!(decode(&surrogate).is_none());
    let raw_control = format!(
        "{{\"type\":\"send_message\",\"receiver_id\":\"{}\",\"content\":\"a\u{0001}b\"}}",
        UUID_TEXT
    );
    assert!(decode(&raw_control).is_none());
}

#[test]
fn decodes_typing_indicator() {
    let m = decode(
        "{\"type\":\"typing_indicator\",\
         \"conversation_with\":\"00000000-0000-0000-0000-000000000002\",\
         \"is_typing\":true}",
    )
    .expect("well-formed frame");
    match m {
        RawClientMessage::TypingIndicator { conversation_with, is_typing } => {
            assert_eq!(conversation_with, UserId::new(2));
            assert!(is_typing);
        },
        other => panic!("expected a typing indicator, got {:?}", other),
    }
}

#[test]
fn decodes_mark_message_delivered() {
    let m = decode(
        "{\"type\":\"mark_message_delivered\",\
         \"message_id\":\"123e4567-e89b-12d3-a456-426614174000\"}",
    )
    .expect("well-formed frame");
    match m {
        RawClientMessage::MarkMessageDelivered { message_id } => {
            assert_eq!(message_id, UUID_VALUE);
        },
        other => panic!("expected a delivery mark, got {:?}", other),
    }
}

#[test]
fn unknown_scalar_fields_are_ignored() {
    let m = decode(
        "{\"type\":\"mark_message_delivered\",\"extra\":true,\"more\":null,\
         \"message_id\":\"123e4567-e89b-12d3-a456-426614174000\"}",
    );
    assert!(m.is_some());
}

#[test]
fn rejects_malformed_frames() {
    // not an object
    assert!(decode("42").is_none());
    assert!(decode("").is_none());
    // truncated
    assert!(decode("{\"type\":\"send_message\"").is_none());
    // trailing garbage
    assert!(decode(
        "{\"type\":\"mark_message_delivered\",\
         \"message_id\":\"123e4567-e89b-12d3-a456-426614174000\"} x"
    )
    .is_none());
    // unknown discriminator
    assert!(decode("{\"type\":\"shout\",\"message_id\":\"x\"}").is_none());
    // missing discriminator
    assert!(decode("{\"message_id\":\"123e4567-e89b-12d3-a456-426614174000\"}").is_none());
    // duplicate field
    assert!(decode(
        "{\"type\":\"mark_message_delivered\",\
         \"message_id\":\"123e4567-e89b-12d3-a456-426614174000\",\
         \"message_id\":\"123e4567-e89b-12d3-a456-426614174000\"}"
    )
    .is_none());
    // wrong field type
    assert!(decode("{\"type\":\"typing_indicator\",\
         \"conversation_with\":\"00000000-0000-0000-0000-000000000002\",\
         \"is_typing\":\"yes\"}")
    .is_none());
    // nested values are outside the client grammar
    assert!(decode("{\"type\":\"mark_message_delivered\",\"message_id\":{}}").is_none());
    // bad id
    assert!(decode("{\"type\":\"mark_message_delivered\",\"message_id\":\"not-a-uuid\"}").is_none());
}

#[test]
fn parses_hyphenated_ids_in_both_cases() {
    assert_eq!(parse_uuid_exec(UUID_TEXT.as_bytes()), Some(UUID_VALUE));
    assert_eq!(
        parse_uuid_exec("123E4567-E89B-12D3-A456-426614174000".as_bytes()),
        Some(UUID_VALUE)
    );
    assert_eq!(
        parse_uuid_exec("00000000-0000-0000-0000-000000000000".as_bytes()),
        Some(0)
    );
    assert_eq!(
        parse_uuid_exec("ffffffff-ffff-ffff-ffff-ffffffffffff".as_bytes()),
        Some(u128::MAX)
    );
    assert!(parse_uuid_exec("123e4567e89b12d3a456426614174000".as_bytes()).is_none());
    assert!(parse_uuid_exec("123e4567-e89b-12d3-a456-42661417400g".as_bytes()).is_none());
    assert!(parse_uuid_exec("".as_bytes()).is_none());
}
