use realtime_hub::envelope::ChatMessagePayload;
use realtime_hub::ids::UserId;
use realtime_hub::topic::{TopicChannel, TopicItem, TopicPayload};

fn line(recipient: UserId, text: &str) -> TopicItem {
    TopicItem { recipient, payload: TopicPayload::NotificationLine { text: text.to_string() } }
}

fn expect_line(p: TopicPayload) -> String {
    match p {
        TopicPayload::NotificationLine { text } => text,
        other => panic!("expected a notification line, got {:?}", other),
    }
}

#[test]
fn filtered_stream_yields_only_own_items_in_order() {
    let mut chan = TopicChannel::new(16);
    let a = UserId::new(1);
    let b = UserId::new(2);
    let mut stream_a = chan.open_filtered_stream(a);
    chan.publish(line(a, "a1"));
    chan.publish(line(b, "b1"));
    chan.publish(line(a, "a2"));
    chan.publish(line(b, "b2"));
    assert_eq!(expect_line(stream_a.next(&chan).unwrap()), "a1");
    assert_eq!(expect_line(stream_a.next(&chan).unwrap()), "a2");
    assert!(stream_a.next(&chan).is_none());
}

#[test]
fn subscription_starts_at_the_end_of_history() {
    let mut chan = TopicChannel::new(8);
    let a = UserId::new(1);
    chan.publish(line(a, "before"));
    let mut stream_a = chan.open_filtered_stream(a);
    assert!(stream_a.next(&chan).is_none());
    chan.publish(line(a, "after"));
    assert_eq!(expect_line(stream_a.next(&chan).unwrap()), "after");
}

#[test]
fn slow_subscriber_misses_dropped_items() {
    let mut chan = TopicChannel::new(2);
    let a = UserId::new(1);
    let mut stream_a = chan.open_filtered_stream(a);
    chan.publish(line(a, "one"));
    chan.publish(line(a, "two"));
    chan.publish(line(a, "three"));
    // capacity 2, drop-oldest: "one" left the window before it was read
    assert_eq!(expect_line(stream_a.next(&chan).unwrap()), "two");
    assert_eq!(expect_line(stream_a.next(&chan).unwrap()), "three");
    assert!(stream_a.next(&chan).is_none());
}

#[test]
fn two_streams_see_their_own_subsequences() {
    let mut chan = TopicChannel::new(8);
    let a = UserId::new(1);
    let b = UserId::new(2);
    let mut stream_a = chan.open_filtered_stream(a);
    let mut stream_b = chan.open_filtered_stream(b);
    chan.publish(line(b, "b1"));
    chan.publish(line(a, "a1"));
    assert_eq!(expect_line(stream_a.next(&chan).unwrap()), "a1");
    assert!(stream_a.next(&chan).is_none());
    assert_eq!(expect_line(stream_b.next(&chan).unwrap()), "b1");
    assert!(stream_b.next(&chan).is_none());
}

#[test]
fn carries_message_and_task_payloads() {
    let mut chan = TopicChannel::new(8);
    let a = UserId::new(1);
    let mut stream_a = chan.open_filtered_stream(a);
    chan.publish(TopicItem {
        recipient: a,
        payload: TopicPayload::MessageEvent {
            message: ChatMessagePayload {
                id: 9,
                sender_id: UserId::new(2),
                receiver_id: a,
                content: "hey".to_string(),
                image_url: None,
                created_at: "t".to_string(),
            },
        },
    });
    chan.publish(TopicItem {
        recipient: a,
        payload: TopicPayload::TaskEvent {
            task_id: 4,
            title: "Plan".to_string(),
            status: "Pending".to_string(),
            priority: "High".to_string(),
        },
    });
    match stream_a.next(&chan).unwrap() {
        TopicPayload::MessageEvent { message } => {
            assert_eq!(message.content, "hey");
            assert_eq!(message.receiver_id, a);
        },
        other => panic!("expected a message event, got {:?}", other),
    }
    match stream_a.next(&chan).unwrap() {
        TopicPayload::TaskEvent { task_id, title, status, priority } => {
            assert_eq!(task_id, 4);
            assert_eq!(title, "Plan");
            assert_eq!(status, "Pending");
            assert_eq!(priority, "High");
        },
        other => panic!("expected a task event, got {:?}", other),
    }
    assert!(stream_a.next(&chan).is_none());
}
