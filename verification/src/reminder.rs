use vstd::prelude::*;
use vstd::string::StringExecFns;
use crate::connection::ConnectionManager;
use crate::envelope::{TaskUpdatedPayload, WsMessage};
use crate::ids::UserId;
use crate::topic::{TopicChannel, TopicItem, TopicPayload};

verus! {

/// The slice of a task record the scheduler reads and writes: owned by
/// the storage collaborator, referenced here as plain values. The
/// scheduler is the single writer of the `notified` flag.
#[derive(Debug)]
pub struct ReminderRecord {
    pub id: u128,
    pub user_id: UserId,
    pub title: String,
    pub reminder_time: Option<i64>,
    pub notified: bool,
}

impl Clone for ReminderRecord {
    fn clone(&self) -> (r: Self)
        ensures
            r == *self,
    {
        ReminderRecord {
            id: self.id,
            user_id: self.user_id,
            title: self.title.clone(),
            reminder_time: match self.reminder_time {
                Some(t) => Some(t),
                None => None,
            },
            notified: self.notified,
        }
    }
}

/// A notification the scheduler asks the storage collaborator to
/// persist: one per fired reminder.
#[derive(Debug)]
pub struct NotificationRecord {
    pub user_id: UserId,
    pub task_id: Option<u128>,
    pub message: String,
}

/// A record is due when it carries a reminder time that has passed and
/// has not been notified yet — the scheduler's selection criterion.
pub open spec fn is_due(r: ReminderRecord, now: i64) -> bool {
    &&& !r.notified
    &&& match r.reminder_time {
        Some(t) => t <= now,
        None => false,
    }
}

/// The same record with its notified flag raised.
pub open spec fn set_notified(r: ReminderRecord) -> ReminderRecord {
    ReminderRecord {
        id: r.id,
        user_id: r.user_id,
        title: r.title,
        reminder_time: r.reminder_time,
        notified: true,
    }
}

/// The text of a reminder notification for a task title.
pub open spec fn reminder_text_view(title: Seq<char>) -> Seq<char> {
    "Reminder: "@ + title + " is due soon!"@
}

/// The due records of `rs`, in order.
pub open spec fn dues(rs: Seq<ReminderRecord>, now: i64) -> Seq<ReminderRecord>
    decreases rs.len(),
{
    if rs.len() == 0 {
        Seq::empty()
    } else {
        dues(rs.drop_last(), now) + if is_due(rs.last(), now) {
            seq![rs.last()]
        } else {
            Seq::empty()
        }
    }
}

/// The due records of `rs` owned by `v`, in order.
pub open spec fn dues_owned(rs: Seq<ReminderRecord>, now: i64, v: UserId) -> Seq<ReminderRecord>
    decreases rs.len(),
{
    if rs.len() == 0 {
        Seq::empty()
    } else {
        dues_owned(rs.drop_last(), now, v) + if is_due(rs.last(), now) && rs.last().user_id
            == v {
            seq![rs.last()]
        } else {
            Seq::empty()
        }
    }
}

/// The notification persisted for a fired reminder: addressed to the
/// record's owner, linked to the task, carrying the reminder text.
pub open spec fn notification_matches(n: NotificationRecord, r: ReminderRecord) -> bool {
    &&& n.user_id == r.user_id
    &&& n.task_id == Some(r.id)
    &&& n.message@ == reminder_text_view(r.title@)
}

/// The envelope a fired reminder pushes over the live channel: the
/// task mutation that fired, addressed by the registry to the owner.
pub open spec fn is_reminder_envelope(e: WsMessage, r: ReminderRecord) -> bool {
    match e {
        WsMessage::TaskUpdated(p) => {
            &&& p.task_id == r.id
            &&& p.updated_by == r.user_id
            &&& p.field@ == "reminder"@
            &&& p.old_value is None
            &&& p.new_value@ == reminder_text_view(r.title@)
        },
        _ => false,
    }
}

/// The item a fired reminder publishes on the notification topic: the
/// reminder text line tagged with the owner as recipient marker.
pub open spec fn is_reminder_item(it: TopicItem, r: ReminderRecord) -> bool {
    &&& it.recipient == r.user_id
    &&& match it.payload {
        TopicPayload::NotificationLine { text } => text@ == reminder_text_view(r.title@),
        _ => false,
    }
}

/// Selection criterion, executable.
pub fn record_is_due(r: &ReminderRecord, now: i64) -> (b: bool)
    ensures
        b == is_due(*r, now),
{
    match r.reminder_time {
        Some(t) => t <= now && !r.notified,
        None => false,
    }
}

/// Builds the reminder notification text for a task title.
pub fn reminder_text(title: &String) -> (r: String)
    ensures
        r@ == reminder_text_view(title@),
{
    String::from_str("Reminder: ").concat(title.as_str()).concat(" is due soon!")
}

/// Never more due records than records.
proof fn lemma_dues_len_le(rs: Seq<ReminderRecord>, now: i64)
    ensures
        dues(rs, now).len() <= rs.len(),
    decreases rs.len(),
{
    if rs.len() > 0 {
        lemma_dues_len_le(rs.drop_last(), now);
    }
}

/// Extending the record prefix by one keeps or grows the due list.
proof fn lemma_dues_step(rs: Seq<ReminderRecord>, now: i64, i: int)
    requires
        0 <= i < rs.len(),
    ensures
        dues(rs.take(i + 1), now) == dues(rs.take(i), now) + if is_due(rs[i], now) {
            seq![rs[i]]
        } else {
            Seq::<ReminderRecord>::empty()
        },
{
    assert(rs.take(i + 1).drop_last() =~= rs.take(i));
    assert(rs.take(i + 1).last() == rs[i]);
}

/// The same, per owner.
proof fn lemma_dues_owned_step(rs: Seq<ReminderRecord>, now: i64, i: int, v: UserId)
    requires
        0 <= i < rs.len(),
    ensures
        dues_owned(rs.take(i + 1), now, v) == dues_owned(rs.take(i), now, v) + if is_due(
            rs[i],
            now,
        ) && rs[i].user_id == v {
            seq![rs[i]]
        } else {
            Seq::<ReminderRecord>::empty()
        },
{
    assert(rs.take(i + 1).drop_last() =~= rs.take(i));
    assert(rs.take(i + 1).last() == rs[i]);
}

/// One scheduler tick over the records the storage collaborator
/// reported. For each due record, in order: a notification is created
/// (returned for the collaborator to persist), the record's notified
/// flag is raised, the resulting envelope is handed to the Connection
/// Registry for the owner, and the text line is published on the
/// notification topic. Records not due are left exactly as they are, so
/// a record that fired once is never selected again.
#[verifier::loop_isolation(false)]
pub fn run_tick(
    records: &mut Vec<ReminderRecord>,
    now: i64,
    mgr: &mut ConnectionManager,
    topic: &mut TopicChannel,
) -> (created: Vec<NotificationRecord>)
    requires
        old(mgr).wf(),
        old(topic).wf(),
        old(topic).end_index() + old(records)@.len() <= usize::MAX,
    ensures
        final(mgr).wf(),
        final(topic).wf(),
        final(records)@.len() == old(records)@.len(),
        forall|j: int|
            0 <= j < old(records)@.len() && is_due(old(records)@[j], now)
                ==> final(records)@[j] == set_notified(old(records)@[j]),
        forall|j: int|
            0 <= j < old(records)@.len() && !is_due(old(records)@[j], now)
                ==> final(records)@[j] == old(records)@[j],
        created@.len() == dues(old(records)@, now).len(),
        forall|k: int|
            0 <= k < created@.len() ==> notification_matches(
                created@[k],
                dues(old(records)@, now)[k],
            ),
        final(topic).cap() == old(topic).cap(),
        final(topic).end_index() == old(topic).end_index() + dues(old(records)@, now).len(),
        forall|k: int|
            0 <= k < dues(old(records)@, now).len() && old(topic).end_index() + k
                >= final(topic).first_index() ==> is_reminder_item(
                #[trigger] final(topic).item_at(old(topic).end_index() + k),
                dues(old(records)@, now)[k],
            ),
        final(mgr).entries() == old(mgr).entries(),
        final(mgr).sink_count() == old(mgr).sink_count(),
        forall|s: int|
            0 <= s < old(mgr).sink_count()
                ==> (final(mgr).sink_open(s) <==> old(mgr).sink_open(s)),
        forall|v: UserId|
            old(mgr).registered(v) && old(mgr).sink_open(old(mgr).sink_of(v))
                ==> (#[trigger] final(mgr).queue_of_user(v)).len()
                    == old(mgr).queue_of_user(v).len() + dues_owned(old(records)@, now, v).len(),
        forall|v: UserId, k: int|
            old(mgr).registered(v) && old(mgr).sink_open(old(mgr).sink_of(v)) && 0 <= k
                < dues_owned(old(records)@, now, v).len() ==> is_reminder_envelope(
                #[trigger] final(mgr).queue_of_user(v)[old(mgr).queue_of_user(v).len() + k],
                dues_owned(old(records)@, now, v)[k],
            ),
        forall|v: UserId, k: int|
            old(mgr).registered(v) && old(mgr).sink_open(old(mgr).sink_of(v)) && 0 <= k
                < old(mgr).queue_of_user(v).len() ==> #[trigger] final(mgr).queue_of_user(v)[k]
                == old(mgr).queue_of_user(v)[k],
        forall|v: UserId|
            old(mgr).registered(v) && !old(mgr).sink_open(old(mgr).sink_of(v))
                ==> #[trigger] final(mgr).queue_of_user(v) == old(mgr).queue_of_user(v),
        forall|s: int|
            0 <= s < old(mgr).sink_count()
                && (forall|j: int|
                    0 <= j < old(mgr).entries().len()
                        ==> (#[trigger] old(mgr).entries()[j]).1 != s)
                ==> #[trigger] final(mgr).queue_of(s) == old(mgr).queue_of(s),
{
    let ghost rs0 = old(records)@;
    let ghost m0 = *old(mgr);
    let ghost t0 = *old(topic);
    let mut created: Vec<NotificationRecord> = Vec::new();
    let mut i: usize = 0;
    let n = records.len();
    while i < n
        invariant
            i <= n,
            n == rs0.len(),
            records@.len() == rs0.len(),
            mgr.wf(),
            topic.wf(),
            forall|j: int| i <= j < n ==> records@[j] == rs0[j],
            forall|j: int|
                0 <= j < i && is_due(rs0[j], now) ==> records@[j] == set_notified(rs0[j]),
            forall|j: int| 0 <= j < i && !is_due(rs0[j], now) ==> records@[j] == rs0[j],
            created@.len() == dues(rs0.take(i as int), now).len(),
            forall|k: int|
                0 <= k < created@.len() ==> notification_matches(
                    created@[k],
                    dues(rs0.take(i as int), now)[k],
                ),
            topic.cap() == t0.cap(),
            topic.end_index() == t0.end_index() + dues(rs0.take(i as int), now).len(),
            forall|k: int|
                0 <= k < dues(rs0.take(i as int), now).len() && t0.end_index() + k
                    >= topic.first_index() ==> is_reminder_item(
                    #[trigger] topic.item_at(t0.end_index() + k),
                    dues(rs0.take(i as int), now)[k],
                ),
            mgr.entries() == m0.entries(),
            mgr.sink_count() == m0.sink_count(),
            forall|s: int|
                0 <= s < m0.sink_count() ==> (mgr.sink_open(s) <==> m0.sink_open(s)),
            forall|v: UserId|
                m0.registered(v) && m0.sink_open(m0.sink_of(v))
                    ==> (#[trigger] mgr.queue_of_user(v)).len() == m0.queue_of_user(v).len()
                        + dues_owned(rs0.take(i as int), now, v).len(),
            forall|v: UserId, k: int|
                m0.registered(v) && m0.sink_open(m0.sink_of(v)) && 0 <= k < dues_owned(
                    rs0.take(i as int),
                    now,
                    v,
                ).len() ==> is_reminder_envelope(
                    #[trigger] mgr.queue_of_user(v)[m0.queue_of_user(v).len() + k],
                    dues_owned(rs0.take(i as int), now, v)[k],
                ),
            forall|v: UserId, k: int|
                m0.registered(v) && m0.sink_open(m0.sink_of(v)) && 0 <= k
                    < m0.queue_of_user(v).len() ==> #[trigger] mgr.queue_of_user(v)[k]
                    == m0.queue_of_user(v)[k],
            forall|v: UserId|
                m0.registered(v) && !m0.sink_open(m0.sink_of(v))
                    ==> #[trigger] mgr.queue_of_user(v) == m0.queue_of_user(v),
            forall|s: int|
                0 <= s < m0.sink_count()
                    && (forall|j: int|
                        0 <= j < m0.entries().len() ==> (#[trigger] m0.entries()[j]).1 != s)
                    ==> #[trigger] mgr.queue_of(s) == m0.queue_of(s),
        decreases n - i,
    {
        let ghost mcur = *mgr;
        let ghost tcur = *topic;
        let due = record_is_due(&records[i], now);
        proof {
            lemma_dues_step(rs0, now, i as int);
        }
        if due {
            let owner = records[i].user_id;
            let task_id = records[i].id;
            let text = reminder_text(&records[i].title);
            created.push(
                NotificationRecord {
                    user_id: owner,
                    task_id: Some(task_id),
                    message: text.clone(),
                },
            );
            records[i].notified = true;
            let env = WsMessage::TaskUpdated(
                TaskUpdatedPayload {
                    task_id,
                    updated_by: owner,
                    field: String::from_str("reminder"),
                    old_value: None,
                    new_value: text.clone(),
                },
            );
            let _delivered = mgr.send_to_user(owner, env);
            proof {
                lemma_dues_len_le(rs0.take(i as int), now);
                assert(rs0.take(i as int).len() == i);
            }
            topic.publish(
                TopicItem {
                    recipient: owner,
                    payload: TopicPayload::NotificationLine { text },
                },
            );
            proof {
                let rec = rs0[i as int];
                let post = *mgr;
                let tpost = *topic;
                assert(dues(rs0.take(i + 1), now)
                    =~= dues(rs0.take(i as int), now).push(rec));
                assert forall|k: int|
                    0 <= k < dues(rs0.take(i + 1), now).len() && t0.end_index() + k
                        >= tpost.first_index() implies is_reminder_item(
                    #[trigger] tpost.item_at(t0.end_index() + k),
                    dues(rs0.take(i + 1), now)[k],
                ) by {
                    if k < dues(rs0.take(i as int), now).len() {
                        assert(tpost.item_at(t0.end_index() + k)
                            == tcur.item_at(t0.end_index() + k));
                    } else {
                        assert(t0.end_index() + k == tcur.end_index());
                    }
                }
                assert forall|v: UserId|
                    m0.registered(v) && m0.sink_open(m0.sink_of(v)) implies
                    (#[trigger] post.queue_of_user(v)).len() == m0.queue_of_user(v).len()
                        + dues_owned(rs0.take(i + 1), now, v).len() by {
                    lemma_dues_owned_step(rs0, now, i as int, v);
                    m0.lemma_sink_in_range(v);
                    ConnectionManager::lemma_same_entries_same_slots(m0, mcur, v);
                    ConnectionManager::lemma_same_entries_same_slots(mcur, post, v);
                    assert(mcur.queue_of_user(v).len() == m0.queue_of_user(v).len()
                        + dues_owned(rs0.take(i as int), now, v).len());
                    if v == owner {
                        assert(post.queue_of(mcur.sink_of(v))
                            == mcur.queue_of(mcur.sink_of(v)).push(env));
                        assert(post.queue_of_user(v) == mcur.queue_of_user(v).push(env));
                    } else if mcur.registered(owner) && mcur.sink_open(mcur.sink_of(owner)) {
                        mcur.lemma_sink_in_range(owner);
                        mcur.lemma_distinct_sinks(owner, v);
                        assert(post.queue_of(mcur.sink_of(v))
                            == mcur.queue_of(mcur.sink_of(v)));
                        assert(post.queue_of_user(v) == mcur.queue_of_user(v));
                    } else {
                        assert(post == mcur);
                    }
                }
                assert forall|v: UserId, k: int|
                    m0.registered(v) && m0.sink_open(m0.sink_of(v)) && 0 <= k < dues_owned(
                        rs0.take(i + 1),
                        now,
                        v,
                    ).len() implies is_reminder_envelope(
                    #[trigger] post.queue_of_user(v)[m0.queue_of_user(v).len() + k],
                    dues_owned(rs0.take(i + 1), now, v)[k],
                ) by {
                    lemma_dues_owned_step(rs0, now, i as int, v);
                    m0.lemma_sink_in_range(v);
                    ConnectionManager::lemma_same_entries_same_slots(m0, mcur, v);
                    ConnectionManager::lemma_same_entries_same_slots(mcur, post, v);
                    assert(mcur.queue_of_user(v).len() == m0.queue_of_user(v).len()
                        + dues_owned(rs0.take(i as int), now, v).len());
                    if v == owner {
                        assert(post.queue_of(mcur.sink_of(v))
                            == mcur.queue_of(mcur.sink_of(v)).push(env));
                        assert(post.queue_of_user(v) == mcur.queue_of_user(v).push(env));
                    } else if mcur.registered(owner) && mcur.sink_open(mcur.sink_of(owner)) {
                        mcur.lemma_sink_in_range(owner);
                        mcur.lemma_distinct_sinks(owner, v);
                        assert(post.queue_of(mcur.sink_of(v))
                            == mcur.queue_of(mcur.sink_of(v)));
                        assert(post.queue_of_user(v) == mcur.queue_of_user(v));
                    } else {
                        assert(post == mcur);
                    }
                    if k < dues_owned(rs0.take(i as int), now, v).len() {
                        assert(is_reminder_envelope(
                            mcur.queue_of_user(v)[m0.queue_of_user(v).len() + k],
                            dues_owned(rs0.take(i as int), now, v)[k],
                        ));
                        assert(dues_owned(rs0.take(i + 1), now, v)[k]
                            == dues_owned(rs0.take(i as int), now, v)[k]);
                    } else {
                        assert(v == owner);
                        assert(dues_owned(rs0.take(i + 1), now, v)[k] == rec);
                        assert(is_reminder_envelope(env, rec));
                    }
                }
                assert forall|v: UserId, k: int|
                    m0.registered(v) && m0.sink_open(m0.sink_of(v)) && 0 <= k
                        < m0.queue_of_user(v).len() implies #[trigger] post.queue_of_user(v)[k]
                    == m0.queue_of_user(v)[k] by {
                    m0.lemma_sink_in_range(v);
                    ConnectionManager::lemma_same_entries_same_slots(m0, mcur, v);
                    ConnectionManager::lemma_same_entries_same_slots(mcur, post, v);
                    assert(mcur.queue_of_user(v).len() == m0.queue_of_user(v).len()
                        + dues_owned(rs0.take(i as int), now, v).len());
                    assert(mcur.queue_of_user(v)[k] == m0.queue_of_user(v)[k]);
                    if v == owner {
                        assert(post.queue_of(mcur.sink_of(v))
                            == mcur.queue_of(mcur.sink_of(v)).push(env));
                        assert(post.queue_of_user(v) == mcur.queue_of_user(v).push(env));
                    } else if mcur.registered(owner) && mcur.sink_open(mcur.sink_of(owner)) {
                        mcur.lemma_sink_in_range(owner);
                        mcur.lemma_distinct_sinks(owner, v);
                        assert(post.queue_of(mcur.sink_of(v))
                            == mcur.queue_of(mcur.sink_of(v)));
                        assert(post.queue_of_user(v) == mcur.queue_of_user(v));
                    } else {
                        assert(post == mcur);
                    }
                }
                assert forall|v: UserId|
                    m0.registered(v) && !m0.sink_open(m0.sink_of(v)) implies
                    #[trigger] post.queue_of_user(v) == m0.queue_of_user(v) by {
                    m0.lemma_sink_in_range(v);
                    ConnectionManager::lemma_same_entries_same_slots(m0, mcur, v);
                    ConnectionManager::lemma_same_entries_same_slots(mcur, post, v);
                    assert(mcur.queue_of_user(v) == m0.queue_of_user(v));
                    if v == owner {
                        assert(!mcur.sink_open(mcur.sink_of(owner)));
                        assert(post == mcur);
                    } else if mcur.registered(owner) && mcur.sink_open(mcur.sink_of(owner)) {
                        mcur.lemma_sink_in_range(owner);
                        mcur.lemma_distinct_sinks(owner, v);
                        assert(post.queue_of(mcur.sink_of(v))
                            == mcur.queue_of(mcur.sink_of(v)));
                        assert(post.queue_of_user(v) == mcur.queue_of_user(v));
                    } else {
                        assert(post == mcur);
                    }
                }
                assert forall|s: int|
                    0 <= s < m0.sink_count()
                        && (forall|j: int|
                            0 <= j < m0.entries().len()
                                ==> (#[trigger] m0.entries()[j]).1 != s) implies
                    #[trigger] post.queue_of(s) == m0.queue_of(s) by {
                    assert(mcur.queue_of(s) == m0.queue_of(s));
                    if mcur.registered(owner) && mcur.sink_open(mcur.sink_of(owner)) {
                        mcur.lemma_sink_in_range(owner);
                        assert(m0.entries()[mcur.slot_of(owner)].1 != s);
                        assert(post.queue_of(s) == mcur.queue_of(s));
                    } else {
                        assert(post == mcur);
                    }
                }
            }
        } else {
            proof {
                assert(dues(rs0.take(i + 1), now) =~= dues(rs0.take(i as int), now));
                assert forall|v: UserId|
                    dues_owned(rs0.take(i + 1), now, v) =~= dues_owned(
                        rs0.take(i as int),
                        now,
                        v,
                    ) by {
                    lemma_dues_owned_step(rs0, now, i as int, v);
                }
            }
        }
        i += 1;
    }
    proof {
        assert(rs0.take(n as int) =~= rs0);
    }
    created
}

/// After one tick nothing remains due: every record that fired carries
/// the flag, every other record was not due to begin with.
pub proof fn lemma_no_dues_after_tick(rs0: Seq<ReminderRecord>, rs1: Seq<ReminderRecord>, now: i64)
    requires
        rs1.len() == rs0.len(),
        forall|j: int|
            0 <= j < rs0.len() && is_due(rs0[j], now) ==> rs1[j] == set_notified(rs0[j]),
        forall|j: int| 0 <= j < rs0.len() && !is_due(rs0[j], now) ==> rs1[j] == rs0[j],
    ensures
        dues(rs1, now).len() == 0,
    decreases rs0.len(),
{
    if rs0.len() > 0 {
        lemma_no_dues_after_tick(rs0.drop_last(), rs1.drop_last(), now);
        assert(!is_due(rs1.last(), now));
    }
}

/// Law: the tick is idempotent and a fired reminder fires at most
/// once. A second tick over the records the first one left behind
/// selects nothing: it creates no notification and changes no record.
pub proof fn law_tick_idempotent(
    rs0: Seq<ReminderRecord>,
    rs1: Seq<ReminderRecord>,
    rs2: Seq<ReminderRecord>,
    now: i64,
    created2_len: nat,
)
    requires
        rs1.len() == rs0.len(),
        forall|j: int|
            0 <= j < rs0.len() && is_due(rs0[j], now) ==> rs1[j] == set_notified(rs0[j]),
        forall|j: int| 0 <= j < rs0.len() && !is_due(rs0[j], now) ==> rs1[j] == rs0[j],
        rs2.len() == rs1.len(),
        forall|j: int|
            0 <= j < rs1.len() && is_due(rs1[j], now) ==> rs2[j] == set_notified(rs1[j]),
        forall|j: int| 0 <= j < rs1.len() && !is_due(rs1[j], now) ==> rs2[j] == rs1[j],
        created2_len == dues(rs1, now).len(),
    ensures
        created2_len == 0,
        rs2 == rs1,
{
    lemma_no_dues_after_tick(rs0, rs1, now);
    assert forall|j: int| 0 <= j < rs1.len() implies rs2[j] == rs1[j] by {
        if is_due(rs1[j], now) {
            lemma_no_dues_after_tick(rs0, rs1, now);
            assert(!is_due(rs1[j], now)) by {
                if is_due(rs0[j], now) {
                    assert(rs1[j] == set_notified(rs0[j]));
                } else {
                    assert(rs1[j] == rs0[j]);
                }
            }
        }
    }
    assert(rs2 =~= rs1);
}

} // verus!
