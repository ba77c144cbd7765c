use vstd::prelude::*;
use crate::envelope::ChatMessagePayload;
use crate::ids::UserId;

verus! {

/// What one topic carries: a notification text line, a chat message
/// event, or a task event — each tagged by `TopicItem` with the user it
/// is addressed to (the task topic uses the task's owner).
#[derive(Debug)]
pub enum TopicPayload {
    NotificationLine { text: String },
    MessageEvent { message: ChatMessagePayload },
    TaskEvent { task_id: u128, title: String, status: String, priority: String },
}

impl Clone for TopicPayload {
    fn clone(&self) -> (r: Self)
        ensures
            r == *self,
    {
        match self {
            TopicPayload::NotificationLine { text } => {
                TopicPayload::NotificationLine { text: text.clone() }
            },
            TopicPayload::MessageEvent { message } => {
                TopicPayload::MessageEvent { message: message.clone() }
            },
            TopicPayload::TaskEvent { task_id, title, status, priority } => {
                TopicPayload::TaskEvent {
                    task_id: *task_id,
                    title: title.clone(),
                    status: status.clone(),
                    priority: priority.clone(),
                }
            },
        }
    }
}

/// One item published on a topic: a payload plus the recipient marker
/// the per-user filter goes by. The marker is used purely for
/// filtering, never for authorization.
#[derive(Debug)]
pub struct TopicItem {
    pub recipient: UserId,
    pub payload: TopicPayload,
}

impl Clone for TopicItem {
    fn clone(&self) -> (r: Self)
        ensures
            r == *self,
    {
        TopicItem { recipient: self.recipient, payload: self.payload.clone() }
    }
}

/// A multi-subscriber broadcast channel for one topic, created once at
/// process start. It keeps a fixed-capacity replay window over an
/// ever-growing logical sequence of published items; when the window is
/// full the oldest retained item is dropped (drop-oldest policy), so a
/// slow subscriber misses events rather than back-pressuring the
/// publisher. Positions are absolute: `first_index` and `end_index`
/// delimit the retained window inside the full publish history.
pub struct TopicChannel {
    capacity: usize,
    start: usize,
    buffer: Vec<TopicItem>,
}

/// A subscriber's cursor into a topic channel: the absolute position of
/// the next item it has not consumed. Ephemeral; dropped when the
/// downstream client disconnects.
pub struct TopicSubscription {
    pub cursor: usize,
}

/// A read-only per-user view over a topic channel: a subscription plus
/// the requesting user, yielding only items addressed to that user.
/// Keep-alive heartbeats are the transport's business and never appear
/// here.
pub struct FilteredStream {
    pub sub: TopicSubscription,
    pub user: UserId,
}

impl TopicChannel {
    /// The replay window's fixed capacity.
    pub closed spec fn cap(self) -> nat {
        self.capacity as nat
    }

    /// Absolute position of the oldest retained item.
    pub closed spec fn first_index(self) -> nat {
        self.start as nat
    }

    /// Absolute position one past the newest item.
    pub closed spec fn end_index(self) -> nat {
        self.start as nat + self.buffer@.len()
    }

    /// The item at absolute position `i`, for positions still retained.
    pub closed spec fn item_at(self, i: int) -> TopicItem {
        self.buffer@[i - self.first_index()]
    }

    /// Channel invariant: a positive capacity bounds the window, and
    /// absolute positions fit the machine.
    pub closed spec fn wf(self) -> bool {
        &&& self.capacity >= 1
        &&& self.buffer@.len() <= self.capacity
        &&& self.start + self.buffer@.len() <= usize::MAX
    }

    /// A fresh channel with the given replay capacity and no history.
    pub fn new(capacity: usize) -> (r: TopicChannel)
        requires
            capacity >= 1,
        ensures
            r.wf(),
            r.cap() == capacity,
            r.first_index() == 0,
            r.end_index() == 0,
    {
        TopicChannel { capacity, start: 0, buffer: Vec::new() }
    }

    /// What publishing does: the item lands at the old end of the
    /// history; everything retained before it stays put except that a
    /// full window drops its oldest item.
    pub open spec fn publish_rel(pre: Self, post: Self, item: TopicItem) -> bool {
        &&& post.cap() == pre.cap()
        &&& post.end_index() == pre.end_index() + 1
        &&& post.first_index() == if pre.end_index() - pre.first_index() == pre.cap() {
            pre.first_index() + 1
        } else {
            pre.first_index()
        }
        &&& post.item_at(pre.end_index() as int) == item
        &&& forall|i: int|
            post.first_index() <= i < pre.end_index() ==> #[trigger] post.item_at(i)
                == pre.item_at(i)
    }

    /// Publishes one item. Never blocks on any subscriber: a full
    /// window forgets its oldest item instead.
    pub fn publish(&mut self, item: TopicItem)
        requires
            old(self).wf(),
            old(self).end_index() < usize::MAX,
        ensures
            final(self).wf(),
            Self::publish_rel(*old(self), *final(self), item),
    {
        if self.buffer.len() == self.capacity {
            self.buffer.remove(0);
            self.start = self.start + 1;
        }
        self.buffer.push(item);
        proof {
            let post = *self;
            let pre = *old(self);
            assert forall|i: int|
                post.first_index() <= i < pre.end_index() implies #[trigger] post.item_at(i)
                    == pre.item_at(i) by {}
        }
    }

    /// Opens a subscription positioned at the end of the history: only
    /// items published afterwards are seen, as with any newly joined
    /// broadcast consumer.
    pub fn subscribe(&self) -> (r: TopicSubscription)
        requires
            self.wf(),
        ensures
            r.cursor == self.end_index(),
    {
        TopicSubscription { cursor: self.start + self.buffer.len() }
    }

    /// Opens the per-user filtered view for `user`, starting at the end
    /// of the history.
    pub fn open_filtered_stream(&self, user: UserId) -> (r: FilteredStream)
        requires
            self.wf(),
        ensures
            r.sub.cursor == self.end_index(),
            r.user == user,
    {
        FilteredStream { sub: self.subscribe(), user }
    }
}

/// What one poll of a filtered stream does. The cursor first jumps
/// forward to the oldest retained item if the subscriber lagged out of
/// the window (those items are missed, never redelivered), then
/// consumes items in order. Every item passed over was addressed to
/// someone else; a yielded payload is exactly the next retained item
/// addressed to `user`; `None` means the subscriber is fully caught up.
pub open spec fn next_rel(
    chan: TopicChannel,
    pre: TopicSubscription,
    post: TopicSubscription,
    user: UserId,
    r: Option<TopicPayload>,
) -> bool {
    let lo = if pre.cursor >= chan.first_index() {
        pre.cursor as int
    } else {
        chan.first_index() as int
    };
    &&& lo <= post.cursor <= chan.end_index()
    &&& match r {
        Some(p) => {
            &&& post.cursor >= lo + 1
            &&& chan.item_at(post.cursor - 1).recipient == user
            &&& p == chan.item_at(post.cursor - 1).payload
            &&& forall|k: int|
                lo <= k < post.cursor - 1 ==> (#[trigger] chan.item_at(k)).recipient != user
        },
        None => {
            &&& post.cursor == chan.end_index()
            &&& forall|k: int|
                lo <= k < chan.end_index() ==> (#[trigger] chan.item_at(k)).recipient != user
        },
    }
}

impl FilteredStream {
    /// Polls the stream once against the topic channel it watches:
    /// yields the next retained item addressed to this stream's user,
    /// discarding every item addressed to anyone else, or `None` when
    /// caught up.
    #[verifier::loop_isolation(false)]
    pub fn next(&mut self, chan: &TopicChannel) -> (r: Option<TopicPayload>)
        requires
            chan.wf(),
            old(self).sub.cursor <= chan.end_index(),
        ensures
            final(self).sub.cursor <= chan.end_index(),
            next_rel(*chan, old(self).sub, final(self).sub, old(self).user, r),
            final(self).user == old(self).user,
    {
        let first = chan.start;
        let end = chan.start + chan.buffer.len();
        if self.sub.cursor < first {
            self.sub.cursor = first;
        }
        let ghost lo = self.sub.cursor as int;
        while self.sub.cursor < end
            invariant
                lo <= self.sub.cursor <= end,
                self.user == old(self).user,
                forall|k: int|
                    lo <= k < self.sub.cursor ==> (#[trigger] chan.item_at(k)).recipient
                        != self.user,
            decreases end - self.sub.cursor,
        {
            let off = self.sub.cursor - first;
            let item = &chan.buffer[off];
            self.sub.cursor = self.sub.cursor + 1;
            if item.recipient == self.user {
                return Some(item.payload.clone());
            }
        }
        None
    }
}

/// Law: one filtered stream yields its user's items in publish order.
/// Two successive polls that both yield move strictly forward, and no
/// item addressed to the user lies between the two yielded positions —
/// nothing of the user's is skipped while the window holds it.
pub proof fn law_filter_in_order(
    chan: TopicChannel,
    s0: TopicSubscription,
    s1: TopicSubscription,
    s2: TopicSubscription,
    u: UserId,
    p1: TopicPayload,
    p2: TopicPayload,
)
    requires
        chan.wf(),
        next_rel(chan, s0, s1, u, Some(p1)),
        next_rel(chan, s1, s2, u, Some(p2)),
    ensures
        s2.cursor > s1.cursor,
        chan.item_at(s1.cursor - 1).recipient == u,
        chan.item_at(s2.cursor - 1).recipient == u,
        forall|k: int|
            s1.cursor <= k < s2.cursor - 1 ==> (#[trigger] chan.item_at(k)).recipient != u,
{
}

/// Law: a filtered stream opened for one user never yields anything
/// addressed to a different user, whatever was published and in
/// whatever order — the yielded item's recipient marker is always the
/// stream's own user.
pub proof fn law_filter_isolation(
    chan: TopicChannel,
    pre: TopicSubscription,
    post: TopicSubscription,
    a: UserId,
    b: UserId,
    p: TopicPayload,
)
    requires
        chan.wf(),
        next_rel(chan, pre, post, a, Some(p)),
        b != a,
    ensures
        chan.item_at(post.cursor - 1).recipient == a,
        chan.item_at(post.cursor - 1).recipient != b,
        p == chan.item_at(post.cursor - 1).payload,
{
}

} // verus!
