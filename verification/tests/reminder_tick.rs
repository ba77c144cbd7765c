use realtime_hub::connection::ConnectionManager;
use realtime_hub::envelope::WsMessage;
use realtime_hub::ids::UserId;
use realtime_hub::reminder::{record_is_due, reminder_text, run_tick, ReminderRecord};
use realtime_hub::topic::{TopicChannel, TopicPayload};

fn record(id: u128, user: UserId, title: &str, due: Option<i64>, notified: bool) -> ReminderRecord {
    ReminderRecord {
        id,
        user_id: user,
        title: title.to_string(),
        reminder_time: due,
        notified,
    }
}

#[test]
fn reminder_text_is_exact() {
    assert_eq!(reminder_text(&"Buy milk".to_string()), "Reminder: Buy milk is due soon!");
}

#[test]
fn due_selection_criterion() {
    let u = UserId::new(1);
    assert!(record_is_due(&record(1, u, "t", Some(5), false), 10));
    assert!(record_is_due(&record(1, u, "t", Some(10), false), 10));
    assert!(!record_is_due(&record(1, u, "t", Some(11), false), 10));
    assert!(!record_is_due(&record(1, u, "t", Some(5), true), 10));
    assert!(!record_is_due(&record(1, u, "t", None, false), 10));
}

#[test]
fn one_tick_fires_each_due_reminder_exactly_once() {
    let owner = UserId::new(7);
    let other = UserId::new(8);
    let mut mgr = ConnectionManager::new();
    let owner_sink = mgr.add_connection(owner);
    let other_sink = mgr.add_connection(other);
    let mut chan = TopicChannel::new(16);
    let mut owner_stream = chan.open_filtered_stream(owner);
    let mut other_stream = chan.open_filtered_stream(other);

    let mut records = vec![
        record(1, owner, "Pay rent", Some(5), false),
        record(2, owner, "Too early", Some(50), false),
        record(3, owner, "Already fired", Some(5), true),
    ];

    let created = run_tick(&mut records, 10, &mut mgr, &mut chan);

    // exactly one notification, for the one due record
    assert_eq!(created.len(), 1);
    assert_eq!(created[0].user_id, owner);
    assert_eq!(created[0].task_id, Some(1));
    assert_eq!(created[0].message, "Reminder: Pay rent is due soon!");

    // the flag flipped on the fired record only
    assert!(records[0].notified);
    assert!(!records[1].notified);
    assert!(records[2].notified);

    // one live envelope to the owner, none to anyone else
    let live = mgr.next_outbound(owner_sink).expect("owner gets the live push");
    match live {
        WsMessage::TaskUpdated(p) => {
            assert_eq!(p.task_id, 1);
            assert_eq!(p.updated_by, owner);
            assert_eq!(p.field, "reminder");
            assert!(p.old_value.is_none());
            assert_eq!(p.new_value, "Reminder: Pay rent is due soon!");
        },
        other => panic!("expected a task update envelope, got {:?}", other),
    }
    assert!(mgr.next_outbound(owner_sink).is_none());
    assert!(mgr.next_outbound(other_sink).is_none());

    // one topic item, visible only on the owner's filtered stream
    match owner_stream.next(&chan).expect("owner sees the line") {
        TopicPayload::NotificationLine { text } => {
            assert_eq!(text, "Reminder: Pay rent is due soon!");
        },
        other => panic!("expected a notification line, got {:?}", other),
    }
    assert!(owner_stream.next(&chan).is_none());
    assert!(other_stream.next(&chan).is_none());

    // a second tick is a no-op for every record
    let created_again = run_tick(&mut records, 10, &mut mgr, &mut chan);
    assert!(created_again.is_empty());
    assert!(mgr.next_outbound(owner_sink).is_none());
    assert!(owner_stream.next(&chan).is_none());
    assert!(records[0].notified);
    assert!(!records[1].notified);
}

#[test]
fn tick_processes_every_due_record_in_order() {
    let a = UserId::new(1);
    let b = UserId::new(2);
    let mut mgr = ConnectionManager::new();
    let mut chan = TopicChannel::new(16);
    let mut records = vec![
        record(10, a, "first", Some(1), false),
        record(11, b, "second", Some(2), false),
        record(12, a, "third", Some(3), false),
    ];
    let created = run_tick(&mut records, 100, &mut mgr, &mut chan);
    assert_eq!(created.len(), 3);
    assert_eq!(created[0].task_id, Some(10));
    assert_eq!(created[1].task_id, Some(11));
    assert_eq!(created[2].task_id, Some(12));
    assert!(records.iter().all(|r| r.notified));
}

#[test]
fn tick_without_connected_owner_still_flags_and_publishes() {
    let owner = UserId::new(5);
    let mut mgr = ConnectionManager::new();
    let mut chan = TopicChannel::new(4);
    let mut owner_stream = chan.open_filtered_stream(owner);
    let mut records = vec![record(1, owner, "offline", Some(1), false)];
    let created = run_tick(&mut records, 2, &mut mgr, &mut chan);
    assert_eq!(created.len(), 1);
    assert!(records[0].notified);
    // the live push is best-effort and silently missed; the topic still carries the line
    match owner_stream.next(&chan).expect("line published") {
        TopicPayload::NotificationLine { text } => {
            assert_eq!(text, "Reminder: offline is due soon!");
        },
        other => panic!("expected a notification line, got {:?}", other),
    }
}
