use vstd::prelude::*;
use crate::envelope::WsMessage;
use crate::ids::UserId;

verus! {

/// The outbound sink of one live session: an ordered queue of envelopes
/// drained by that session's writer loop, plus a flag that records
/// whether the consumer is still there. A closed sink silently rejects
/// further sends.
struct Sink {
    queue: Vec<WsMessage>,
    open: bool,
}

/// How many times `v` occurs in `s`.
pub open spec fn occurrences(s: Seq<UserId>, v: UserId) -> nat
    decreases s.len(),
{
    if s.len() == 0 {
        0
    } else {
        occurrences(s.drop_last(), v) + if s.last() == v {
            1nat
        } else {
            0nat
        }
    }
}

/// Counting occurrences over a prefix, one element at a time.
proof fn lemma_occurrences_step(s: Seq<UserId>, n: int, v: UserId)
    requires
        0 <= n < s.len(),
    ensures
        occurrences(s.take(n + 1), v) == occurrences(s.take(n), v) + if s[n] == v {
            1nat
        } else {
            0nat
        },
{
    assert(s.take(n + 1).drop_last() =~= s.take(n));
    assert(s.take(n + 1).last() == s[n]);
}

/// `n` copies of `msg`.
pub open spec fn repeated(msg: WsMessage, n: nat) -> Seq<WsMessage> {
    Seq::new(n, |i: int| msg)
}

/// The connection registry: the single shared structure of the
/// subsystem. It owns every outbound sink created during the life of
/// the process, and a table mapping each connected user to the sink of
/// that user's one active session. Registering again replaces the
/// mapping wholesale ("last writer wins"); the evicted sink receives
/// nothing further and its writer loop winds the old session down.
///
/// Callers that drive the registry from several tasks put it behind
/// their own synchronization; every mutation goes through the
/// operations below.
pub struct ConnectionManager {
    sinks: Vec<Sink>,
    conns: Vec<(UserId, usize)>,
}

impl ConnectionManager {
    /// How many sinks have ever been handed out; sink ids are the
    /// indices below this count.
    pub closed spec fn sink_count(self) -> nat {
        self.sinks@.len()
    }

    /// The envelopes currently queued in sink `s`, oldest first.
    pub closed spec fn queue_of(self, s: int) -> Seq<WsMessage> {
        self.sinks@[s].queue@
    }

    /// Whether sink `s` still has its consumer.
    pub closed spec fn sink_open(self, s: int) -> bool {
        self.sinks@[s].open
    }

    /// The registration table: one entry per connected user.
    pub closed spec fn entries(self) -> Seq<(UserId, usize)> {
        self.conns@
    }

    /// Whether `u` currently has an active session.
    pub open spec fn registered(self, u: UserId) -> bool {
        exists|i: int|
            0 <= i < self.entries().len() && (#[trigger] self.entries()[i]).0 == u
    }

    /// The position of `u`'s entry in the registration table.
    pub open spec fn slot_of(self, u: UserId) -> int {
        choose|i: int|
            0 <= i < self.entries().len() && (#[trigger] self.entries()[i]).0 == u
    }

    /// The sink of `u`'s active session.
    pub open spec fn sink_of(self, u: UserId) -> int {
        self.entries()[self.slot_of(u)].1 as int
    }

    /// The envelopes queued for user `u`'s active session.
    pub open spec fn queue_of_user(self, u: UserId) -> Seq<WsMessage> {
        self.queue_of(self.sink_of(u))
    }

    /// Registry invariant: every entry points at an existing sink, no
    /// user appears twice, and no two users share a sink.
    pub closed spec fn wf(self) -> bool {
        &&& forall|i: int|
            0 <= i < self.conns@.len() ==> (#[trigger] self.conns@[i]).1 < self.sinks@.len()
        &&& forall|i: int, j: int|
            0 <= i < j < self.conns@.len() ==> self.conns@[i].0 != self.conns@[j].0
        &&& forall|i: int, j: int|
            0 <= i < j < self.conns@.len() ==> self.conns@[i].1 != self.conns@[j].1
    }

    /// With distinct keys, any entry holding `u` is the one `slot_of`
    /// names, so `sink_of` speaks of it.
    pub proof fn lemma_slot_unique(self, u: UserId, i: int)
        requires
            self.wf(),
            0 <= i < self.entries().len(),
            self.entries()[i].0 == u,
        ensures
            self.slot_of(u) == i,
            self.registered(u),
            self.sink_of(u) == self.entries()[i].1,
            0 <= self.sink_of(u) < self.sink_count(),
    {
        assert(self.registered(u));
        let k = self.slot_of(u);
        if k != i {
            if k < i {
                assert(self.entries()[k].0 != self.entries()[i].0);
            } else {
                assert(self.entries()[i].0 != self.entries()[k].0);
            }
        }
    }

    /// A registered user's sink is a real sink.
    pub proof fn lemma_sink_in_range(self, u: UserId)
        requires
            self.wf(),
            self.registered(u),
        ensures
            0 <= self.slot_of(u) < self.entries().len(),
            self.entries()[self.slot_of(u)].0 == u,
            0 <= self.sink_of(u) < self.sink_count(),
    {
        let i = choose|i: int|
            0 <= i < self.entries().len() && (#[trigger] self.entries()[i]).0 == u;
        self.lemma_slot_unique(u, i);
    }

    /// Two registered users that differ use different sinks.
    pub proof fn lemma_distinct_sinks(self, u: UserId, v: UserId)
        requires
            self.wf(),
            self.registered(u),
            self.registered(v),
            u != v,
        ensures
            self.sink_of(u) != self.sink_of(v),
    {
        self.lemma_sink_in_range(u);
        self.lemma_sink_in_range(v);
        let i = self.slot_of(u);
        let j = self.slot_of(v);
        if i < j {
            assert(self.entries()[i].1 != self.entries()[j].1);
        } else {
            assert(self.entries()[j].1 != self.entries()[i].1);
        }
    }

    /// For one user registered in `a`: a state `b` with the same
    /// registration table registers the user too, in the same slot,
    /// with the same sink.
    pub proof fn lemma_same_entries_same_slots(a: Self, b: Self, v: UserId)
        requires
            a.wf(),
            b.wf(),
            a.entries() == b.entries(),
            a.registered(v),
        ensures
            b.registered(v),
            b.slot_of(v) == a.slot_of(v),
            b.sink_of(v) == a.sink_of(v),
    {
        a.lemma_sink_in_range(v);
        let k = a.slot_of(v);
        b.lemma_slot_unique(v, k);
    }

    /// Two registry states with the same registration table agree on
    /// registration and sinks for every user.
    pub proof fn lemma_same_entries_same_registration(a: Self, b: Self)
        requires
            a.wf(),
            b.wf(),
            a.entries() == b.entries(),
        ensures
            forall|w: UserId| #[trigger] b.registered(w) <==> a.registered(w),
            forall|w: UserId| a.registered(w) ==> #[trigger] b.sink_of(w) == a.sink_of(w),
    {
        assert forall|w: UserId| #[trigger] b.registered(w) <==> a.registered(w) by {
            if a.registered(w) {
                Self::lemma_same_entries_same_slots(a, b, w);
            }
            if b.registered(w) {
                Self::lemma_same_entries_same_slots(b, a, w);
            }
        }
        assert forall|w: UserId| a.registered(w) implies #[trigger] b.sink_of(w) == a.sink_of(
            w,
        ) by {
            Self::lemma_same_entries_same_slots(a, b, w);
        }
    }

    /// Registration is untouched: the same users are registered, each
    /// with the same sink.
    pub open spec fn registration_unchanged(pre: Self, post: Self) -> bool {
        &&& post.entries() == pre.entries()
        &&& forall|w: UserId| (#[trigger] post.registered(w)) <==> pre.registered(w)
        &&& forall|w: UserId|
            pre.registered(w) ==> #[trigger] post.sink_of(w) == pre.sink_of(w)
    }

    /// No sink was created or touched between `pre` and `post`.
    pub open spec fn sinks_unchanged(pre: Self, post: Self) -> bool {
        &&& post.sink_count() == pre.sink_count()
        &&& forall|s: int|
            0 <= s < pre.sink_count() ==> #[trigger] post.queue_of(s) == pre.queue_of(s)
                && (post.sink_open(s) <==> pre.sink_open(s))
    }

    /// What registering `user` does: a fresh, open, empty sink `sid` is
    /// created and becomes the user's one active sink; every other
    /// user's registration and every existing queue is untouched.
    pub open spec fn register_rel(pre: Self, post: Self, user: UserId, sid: usize) -> bool {
        &&& sid == pre.sink_count()
        &&& post.sink_count() == pre.sink_count() + 1
        &&& post.queue_of(sid as int) == Seq::<WsMessage>::empty()
        &&& post.sink_open(sid as int)
        &&& post.registered(user)
        &&& post.sink_of(user) == sid as int
        &&& forall|v: UserId| v != user ==> (post.registered(v) <==> pre.registered(v))
        &&& forall|v: UserId|
            v != user && pre.registered(v) ==> post.sink_of(v) == pre.sink_of(v)
        &&& forall|s: int|
            0 <= s < pre.sink_count() ==> #[trigger] post.queue_of(s) == pre.queue_of(s)
                && (post.sink_open(s) <==> pre.sink_open(s))
    }

    /// What unregistering `user` does: the mapping is gone if it was
    /// there; nobody else's registration moves and no sink is touched.
    pub open spec fn unregister_rel(pre: Self, post: Self, user: UserId) -> bool {
        &&& !post.registered(user)
        &&& forall|v: UserId| v != user ==> (post.registered(v) <==> pre.registered(v))
        &&& forall|v: UserId|
            v != user && pre.registered(v) ==> post.sink_of(v) == pre.sink_of(v)
        &&& Self::sinks_unchanged(pre, post)
    }

    /// What a targeted send does. `r` reports delivery: true exactly
    /// when the user had an active, still-open sink, in which case one
    /// copy of `msg` is appended to that sink's queue and nothing else
    /// changes; on a miss the registry is untouched.
    pub open spec fn send_rel(pre: Self, post: Self, user: UserId, msg: WsMessage, r: bool) -> bool {
        &&& r == (pre.registered(user) && pre.sink_open(pre.sink_of(user)))
        &&& Self::registration_unchanged(pre, post)
        &&& post.sink_count() == pre.sink_count()
        &&& forall|s: int|
            0 <= s < pre.sink_count() ==> (post.sink_open(s) <==> pre.sink_open(s))
        &&& r ==> post.queue_of(pre.sink_of(user)) == pre.queue_of(pre.sink_of(user)).push(msg)
        &&& r ==> forall|s: int|
            0 <= s < pre.sink_count() && s != pre.sink_of(user)
                ==> #[trigger] post.queue_of(s) == pre.queue_of(s)
        &&& !r ==> post == pre
    }

    /// What a broadcast does: every user registered when the call is
    /// made gets exactly one copy of `msg` appended to their sink's
    /// queue (if the sink is still open); sinks no user is mapped to
    /// are untouched.
    pub open spec fn broadcast_rel(pre: Self, post: Self, msg: WsMessage) -> bool {
        &&& Self::registration_unchanged(pre, post)
        &&& post.sink_count() == pre.sink_count()
        &&& forall|s: int|
            0 <= s < pre.sink_count() ==> (post.sink_open(s) <==> pre.sink_open(s))
        &&& forall|v: UserId|
            pre.registered(v) && pre.sink_open(pre.sink_of(v))
                ==> #[trigger] post.queue_of_user(v) == pre.queue_of_user(v).push(msg)
        &&& forall|v: UserId|
            pre.registered(v) && !pre.sink_open(pre.sink_of(v))
                ==> #[trigger] post.queue_of_user(v) == pre.queue_of_user(v)
        &&& forall|s: int|
            0 <= s < pre.sink_count()
                && (forall|j: int|
                    0 <= j < pre.entries().len() ==> (#[trigger] pre.entries()[j]).1 != s)
                ==> #[trigger] post.queue_of(s) == pre.queue_of(s)
    }

    /// An empty registry: no sinks, nobody registered.
    pub fn new() -> (r: ConnectionManager)
        ensures
            r.wf(),
            r.sink_count() == 0,
            r.entries().len() == 0,
            forall|u: UserId| !r.registered(u),
    {
        ConnectionManager { sinks: Vec::new(), conns: Vec::new() }
    }

    /// Removes `user`'s registration if it is there. Idempotent; no
    /// error if absent; no sink is touched, so the evicted session's
    /// writer loop can still drain what was already queued.
    #[verifier::loop_isolation(false)]
    pub fn remove_connection(&mut self, user: UserId)
        requires
            old(self).wf(),
        ensures
            final(self).wf(),
            Self::unregister_rel(*old(self), *final(self), user),
    {
        let ghost pre = *self;
        let mut i: usize = 0;
        let n = self.conns.len();
        while i < n
            invariant
                *self == pre,
                n == self.conns@.len(),
                forall|j: int| 0 <= j < i ==> (#[trigger] self.conns@[j]).0 != user,
            decreases n - i,
        {
            if self.conns[i].0 == user {
                self.conns.remove(i);
                proof {
                    let post = *self;
                    assert(post.entries() == pre.entries().remove(i as int));
                    assert forall|p: int| 0 <= p < post.entries().len() implies
                        #[trigger] post.entries()[p] == (if p < i {
                            pre.entries()[p]
                        } else {
                            pre.entries()[p + 1]
                        }) by {}
                    assert(post.wf());
                    assert forall|p: int| 0 <= p < post.entries().len() implies
                        (#[trigger] post.entries()[p]).0 != user by {
                        if p >= i {
                            assert(pre.entries()[i as int].0 != pre.entries()[p + 1].0);
                        }
                    }
                    assert(!post.registered(user));
                    assert forall|v: UserId| v != user && pre.registered(v) implies
                        post.registered(v) && post.sink_of(v) == pre.sink_of(v) by {
                        let k = choose|k: int|
                            0 <= k < pre.entries().len()
                                && (#[trigger] pre.entries()[k]).0 == v;
                        pre.lemma_slot_unique(v, k);
                        if k < i {
                            assert(post.entries()[k] == pre.entries()[k]);
                            post.lemma_slot_unique(v, k);
                        } else {
                            assert(k != i);
                            assert(post.entries()[k - 1] == pre.entries()[k]);
                            post.lemma_slot_unique(v, k - 1);
                        }
                    }
                    assert forall|v: UserId| v != user && post.registered(v) implies
                        pre.registered(v) by {
                        let k = choose|k: int|
                            0 <= k < post.entries().len()
                                && (#[trigger] post.entries()[k]).0 == v;
                        if k < i {
                            assert(pre.entries()[k].0 == v);
                        } else {
                            assert(pre.entries()[k + 1].0 == v);
                        }
                    }
                }
                return;
            }
            i += 1;
        }
    }

    /// Registers `user` with a fresh sink and returns that sink's id.
    /// Inserts or replaces: any sink the user held before is silently
    /// evicted — it stays in the store, its writer can still drain it,
    /// but nothing further is ever queued on it.
    pub fn add_connection(&mut self, user: UserId) -> (sid: usize)
        requires
            old(self).wf(),
        ensures
            final(self).wf(),
            Self::register_rel(*old(self), *final(self), user, sid),
    {
        self.remove_connection(user);
        let ghost mid = *self;
        let sid = self.sinks.len();
        self.sinks.push(Sink { queue: Vec::new(), open: true });
        let ghost mid2 = *self;
        proof {
            assert(mid2.entries() == mid.entries());
            assert(mid2.wf());
        }
        self.conns.push((user, sid));
        proof {
            let post = *self;
            assert(post.entries() == mid.entries().push((user, sid)));
            let glen = mid.entries().len() as int;
            assert(post.entries()[glen] == (user, sid));
            assert forall|p: int| 0 <= p < glen implies
                #[trigger] post.entries()[p] == mid.entries()[p] by {}
            assert forall|p: int| 0 <= p < glen implies
                (#[trigger] post.entries()[p]).1 < sid by {
                assert(mid.entries()[p].1 < mid.sink_count());
            }
            assert(post.wf());
            post.lemma_slot_unique(user, glen);
            assert(post.sinks@ == mid2.sinks@);
            assert(post.queue_of(sid as int) =~= Seq::<WsMessage>::empty());
            assert(post.sink_open(sid as int));
            assert forall|s: int| 0 <= s < old(self).sink_count() implies
                #[trigger] post.queue_of(s) == old(self).queue_of(s)
                    && (post.sink_open(s) <==> old(self).sink_open(s)) by {
                assert(mid.queue_of(s) == old(self).queue_of(s));
                assert(mid.sink_open(s) <==> old(self).sink_open(s));
                assert(mid2.sinks@[s] == mid.sinks@[s]);
            }
            assert forall|v: UserId| v != user && old(self).registered(v) implies
                post.registered(v) && post.sink_of(v) == old(self).sink_of(v) by {
                assert(mid.registered(v));
                mid.lemma_sink_in_range(v);
                let k = mid.slot_of(v);
                assert(post.entries()[k].0 == v);
                post.lemma_slot_unique(v, k);
            }
            assert forall|v: UserId| v != user && post.registered(v) implies
                old(self).registered(v) by {
                let k = choose|k: int|
                    0 <= k < post.entries().len()
                        && (#[trigger] post.entries()[k]).0 == v;
                assert(0 <= k < glen);
                assert(mid.entries()[k].0 == v);
            }
        }
        sid
    }

    /// Best-effort targeted delivery: appends one copy of `msg` to
    /// `user`'s sink and reports true, or reports false — not an error
    /// — when the user has no active sink or its consumer is gone.
    /// Never does anything beyond the one enqueue.
    #[verifier::loop_isolation(false)]
    pub fn send_to_user(&mut self, user: UserId, msg: WsMessage) -> (r: bool)
        requires
            old(self).wf(),
        ensures
            final(self).wf(),
            Self::send_rel(*old(self), *final(self), user, msg, r),
    {
        let ghost pre = *self;
        let mut i: usize = 0;
        let n = self.conns.len();
        while i < n
            invariant
                *self == pre,
                n == self.conns@.len(),
                forall|j: int| 0 <= j < i ==> (#[trigger] self.conns@[j]).0 != user,
            decreases n - i,
        {
            if self.conns[i].0 == user {
                proof {
                    pre.lemma_slot_unique(user, i as int);
                }
                let sid = self.conns[i].1;
                if self.sinks[sid].open {
                    self.sinks[sid].queue.push(msg);
                    proof {
                        let post = *self;
                        assert(post.entries() == pre.entries());
                        Self::lemma_same_entries_same_registration(pre, post);
                        assert(post.queue_of(sid as int) == pre.queue_of(sid as int).push(msg));
                        assert forall|s: int|
                            0 <= s < pre.sink_count() && s != sid implies
                            #[trigger] post.queue_of(s) == pre.queue_of(s)
                                && (post.sink_open(s) <==> pre.sink_open(s)) by {}
                    }
                    return true;
                } else {
                    return false;
                }
            }
            i += 1;
        }
        proof {
            assert(!pre.registered(user));
        }
        false
    }

    /// Applies `send_to_user` to each listed user in order, dropping
    /// the per-call results: fire-and-forget multicast. A user listed
    /// `k` times with an active open sink gets `k` copies; everyone
    /// else sees nothing.
    #[verifier::loop_isolation(false)]
    pub fn send_to_users(&mut self, user_ids: &Vec<UserId>, msg: &WsMessage)
        requires
            old(self).wf(),
        ensures
            final(self).wf(),
            Self::registration_unchanged(*old(self), *final(self)),
            final(self).sink_count() == old(self).sink_count(),
            forall|s: int|
                0 <= s < old(self).sink_count()
                    ==> (final(self).sink_open(s) <==> old(self).sink_open(s)),
            forall|v: UserId|
                old(self).registered(v) && old(self).sink_open(old(self).sink_of(v))
                    ==> #[trigger] final(self).queue_of_user(v) == old(self).queue_of_user(v)
                        + repeated(*msg, occurrences(user_ids@, v)),
            forall|v: UserId|
                old(self).registered(v) && !old(self).sink_open(old(self).sink_of(v))
                    ==> #[trigger] final(self).queue_of_user(v) == old(self).queue_of_user(v),
            forall|s: int|
                0 <= s < old(self).sink_count()
                    && (forall|j: int|
                        0 <= j < old(self).entries().len()
                            ==> (#[trigger] old(self).entries()[j]).1 != s)
                    ==> #[trigger] final(self).queue_of(s) == old(self).queue_of(s),
    {
        let ghost pre = *self;
        let mut i: usize = 0;
        let n = user_ids.len();
        while i < n
            invariant
                i <= n,
                self.wf(),
                n == user_ids@.len(),
                self.entries() == pre.entries(),
                self.sink_count() == pre.sink_count(),
                forall|s: int|
                    0 <= s < pre.sink_count() ==> (self.sink_open(s) <==> pre.sink_open(s)),
                forall|v: UserId|
                    pre.registered(v) && pre.sink_open(pre.sink_of(v))
                        ==> #[trigger] self.queue_of_user(v) == pre.queue_of_user(v)
                            + repeated(*msg, occurrences(user_ids@.take(i as int), v)),
                forall|v: UserId|
                    pre.registered(v) && !pre.sink_open(pre.sink_of(v))
                        ==> #[trigger] self.queue_of_user(v) == pre.queue_of_user(v),
                forall|s: int|
                    0 <= s < pre.sink_count()
                        && (forall|j: int|
                            0 <= j < pre.entries().len()
                                ==> (#[trigger] pre.entries()[j]).1 != s)
                        ==> #[trigger] self.queue_of(s) == pre.queue_of(s),
            decreases n - i,
        {
            let ghost cur = *self;
            let u = user_ids[i];
            let delivered = self.send_to_user(u, msg.clone());
            proof {
                let post = *self;
                assert(user_ids@.take(i + 1).drop_last() =~= user_ids@.take(i as int));
                assert(user_ids@.take(i + 1).last() == user_ids@[i as int]);
                let delivered_now = cur.registered(u) && cur.sink_open(cur.sink_of(u));
                assert forall|v: UserId|
                    pre.registered(v) && pre.sink_open(pre.sink_of(v)) implies
                    #[trigger] post.queue_of_user(v) == pre.queue_of_user(v)
                        + repeated(*msg, occurrences(user_ids@.take(i + 1), v)) by {
                    pre.lemma_sink_in_range(v);
                    Self::lemma_same_entries_same_slots(pre, cur, v);
                    Self::lemma_same_entries_same_slots(cur, post, v);
                    lemma_occurrences_step(user_ids@, i as int, v);
                    assert(cur.queue_of_user(v)
                        == pre.queue_of_user(v)
                            + repeated(*msg, occurrences(user_ids@.take(i as int), v)));
                    if v == u {
                        assert(delivered_now);
                        assert(post.queue_of(cur.sink_of(v))
                            == cur.queue_of(cur.sink_of(v)).push(*msg));
                        assert(occurrences(user_ids@.take(i + 1), v)
                            == occurrences(user_ids@.take(i as int), v) + 1);
                        assert(post.queue_of_user(v)
                            =~= pre.queue_of_user(v)
                                + repeated(*msg, occurrences(user_ids@.take(i + 1), v)));
                    } else {
                        if delivered_now {
                            cur.lemma_distinct_sinks(u, v);
                            cur.lemma_sink_in_range(v);
                            assert(post.queue_of(cur.sink_of(v)) == cur.queue_of(cur.sink_of(v)));
                        } else {
                            assert(post == cur);
                        }
                        assert(occurrences(user_ids@.take(i + 1), v)
                            == occurrences(user_ids@.take(i as int), v));
                        assert(post.queue_of_user(v)
                            == pre.queue_of_user(v)
                                + repeated(*msg, occurrences(user_ids@.take(i + 1), v)));
                    }
                }
                assert forall|v: UserId|
                    pre.registered(v) && !pre.sink_open(pre.sink_of(v)) implies
                    #[trigger] post.queue_of_user(v) == pre.queue_of_user(v) by {
                    pre.lemma_sink_in_range(v);
                    Self::lemma_same_entries_same_slots(pre, cur, v);
                    Self::lemma_same_entries_same_slots(cur, post, v);
                    assert(cur.queue_of_user(v) == pre.queue_of_user(v));
                    if delivered_now {
                        cur.lemma_sink_in_range(u);
                        if v != u {
                            cur.lemma_distinct_sinks(u, v);
                            assert(post.queue_of(cur.sink_of(v)) == cur.queue_of(cur.sink_of(v)));
                        } else {
                            assert(!cur.sink_open(cur.sink_of(v)));
                            assert(false);
                        }
                    } else {
                        assert(post == cur);
                    }
                }
                assert forall|s: int|
                    0 <= s < pre.sink_count()
                        && (forall|j: int|
                            0 <= j < pre.entries().len()
                                ==> (#[trigger] pre.entries()[j]).1 != s) implies
                    #[trigger] post.queue_of(s) == pre.queue_of(s) by {
                    if delivered_now {
                        cur.lemma_sink_in_range(u);
                        assert(pre.entries()[cur.slot_of(u)].1 != s);
                        assert(post.queue_of(s) == cur.queue_of(s));
                    } else {
                        assert(post == cur);
                    }
                }
            }
            i += 1;
        }
        proof {
            assert(user_ids@.take(n as int) =~= user_ids@);
            Self::lemma_same_entries_same_registration(pre, *self);
        }
    }

    /// Delivers `msg` to every user registered at call time: each such
    /// user's open sink gets exactly one copy appended; closed sinks
    /// and sinks no user is mapped to are untouched.
    #[verifier::loop_isolation(false)]
    pub fn broadcast(&mut self, msg: &WsMessage)
        requires
            old(self).wf(),
        ensures
            final(self).wf(),
            Self::broadcast_rel(*old(self), *final(self), *msg),
    {
        let ghost pre = *self;
        let mut i: usize = 0;
        let n = self.conns.len();
        while i < n
            invariant
                self.wf(),
                n == self.conns@.len(),
                self.entries() == pre.entries(),
                self.sink_count() == pre.sink_count(),
                forall|s: int|
                    0 <= s < pre.sink_count() ==> (self.sink_open(s) <==> pre.sink_open(s)),
                forall|j: int|
                    0 <= j < i && pre.sink_open(pre.entries()[j].1 as int)
                        ==> #[trigger] self.queue_of(pre.entries()[j].1 as int)
                            == pre.queue_of(pre.entries()[j].1 as int).push(*msg),
                forall|j: int|
                    0 <= j < i && !pre.sink_open(pre.entries()[j].1 as int)
                        ==> #[trigger] self.queue_of(pre.entries()[j].1 as int)
                            == pre.queue_of(pre.entries()[j].1 as int),
                forall|j: int|
                    i <= j < n
                        ==> #[trigger] self.queue_of(pre.entries()[j].1 as int)
                            == pre.queue_of(pre.entries()[j].1 as int),
                forall|s: int|
                    0 <= s < pre.sink_count()
                        && (forall|j: int|
                            0 <= j < pre.entries().len()
                                ==> (#[trigger] pre.entries()[j]).1 != s)
                        ==> #[trigger] self.queue_of(s) == pre.queue_of(s),
            decreases n - i,
        {
            let ghost cur = *self;
            let sid = self.conns[i].1;
            proof {
                assert(pre.entries()[i as int].1 == sid);
                assert(pre.entries()[i as int].1 < pre.sink_count());
            }
            if self.sinks[sid].open {
                self.sinks[sid].queue.push(msg.clone());
            }
            proof {
                let post = *self;
                if cur.sink_open(sid as int) {
                    assert(post.queue_of(sid as int) == cur.queue_of(sid as int).push(*msg));
                    assert forall|s: int|
                        0 <= s < pre.sink_count() && s != sid implies
                        #[trigger] post.queue_of(s) == cur.queue_of(s) by {}
                } else {
                    assert(post == cur);
                }
                assert forall|j: int|
                    0 <= j < i + 1 && pre.sink_open(pre.entries()[j].1 as int) implies
                    #[trigger] post.queue_of(pre.entries()[j].1 as int)
                        == pre.queue_of(pre.entries()[j].1 as int).push(*msg) by {
                    if j < i {
                        assert(pre.entries()[j].1 != pre.entries()[i as int].1);
                        assert(post.queue_of(pre.entries()[j].1 as int)
                            == cur.queue_of(pre.entries()[j].1 as int));
                    } else {
                        assert(cur.queue_of(sid as int) == pre.queue_of(sid as int));
                    }
                }
                assert forall|j: int|
                    0 <= j < i + 1 && !pre.sink_open(pre.entries()[j].1 as int) implies
                    #[trigger] post.queue_of(pre.entries()[j].1 as int)
                        == pre.queue_of(pre.entries()[j].1 as int) by {
                    if j < i {
                        assert(pre.entries()[j].1 != pre.entries()[i as int].1);
                        assert(post.queue_of(pre.entries()[j].1 as int)
                            == cur.queue_of(pre.entries()[j].1 as int));
                    } else {
                        assert(!cur.sink_open(sid as int));
                        assert(post == cur);
                    }
                }
                assert forall|j: int|
                    i + 1 <= j < n implies
                    #[trigger] post.queue_of(pre.entries()[j].1 as int)
                        == pre.queue_of(pre.entries()[j].1 as int) by {
                    assert(pre.entries()[i as int].1 != pre.entries()[j].1);
                    assert(post.queue_of(pre.entries()[j].1 as int)
                        == cur.queue_of(pre.entries()[j].1 as int));
                }
                assert forall|s: int|
                    0 <= s < pre.sink_count()
                        && (forall|j: int|
                            0 <= j < pre.entries().len()
                                ==> (#[trigger] pre.entries()[j]).1 != s) implies
                    #[trigger] post.queue_of(s) == pre.queue_of(s) by {
                    assert(pre.entries()[i as int].1 != s);
                    assert(post.queue_of(s) == cur.queue_of(s));
                }
            }
            i += 1;
        }
        proof {
            let post = *self;
            Self::lemma_same_entries_same_registration(pre, post);
            assert forall|v: UserId|
                pre.registered(v) && pre.sink_open(pre.sink_of(v)) implies
                #[trigger] post.queue_of_user(v) == pre.queue_of_user(v).push(*msg) by {
                pre.lemma_sink_in_range(v);
                let k = pre.slot_of(v);
                post.lemma_slot_unique(v, k);
                assert(post.queue_of(pre.entries()[k].1 as int)
                    == pre.queue_of(pre.entries()[k].1 as int).push(*msg));
            }
            assert forall|v: UserId|
                pre.registered(v) && !pre.sink_open(pre.sink_of(v)) implies
                #[trigger] post.queue_of_user(v) == pre.queue_of_user(v) by {
                pre.lemma_sink_in_range(v);
                let k = pre.slot_of(v);
                post.lemma_slot_unique(v, k);
                assert(post.queue_of(pre.entries()[k].1 as int)
                    == pre.queue_of(pre.entries()[k].1 as int));
            }
        }
    }

    /// The writer loop's dequeue: takes the oldest envelope queued on
    /// sink `sid`, or nothing if the queue is empty. Order is
    /// preserved; no other sink and no registration is touched.
    pub fn next_outbound(&mut self, sid: usize) -> (r: Option<WsMessage>)
        requires
            old(self).wf(),
            sid < old(self).sink_count(),
        ensures
            final(self).wf(),
            Self::registration_unchanged(*old(self), *final(self)),
            final(self).sink_count() == old(self).sink_count(),
            forall|s: int|
                0 <= s < old(self).sink_count()
                    ==> (final(self).sink_open(s) <==> old(self).sink_open(s)),
            forall|s: int|
                0 <= s < old(self).sink_count() && s != sid
                    ==> #[trigger] final(self).queue_of(s) == old(self).queue_of(s),
            old(self).queue_of(sid as int).len() == 0 ==> r is None
                && *final(self) == *old(self),
            old(self).queue_of(sid as int).len() > 0 ==> r == Some(
                old(self).queue_of(sid as int)[0],
            ) && final(self).queue_of(sid as int) == old(self).queue_of(sid as int).drop_first(),
    {
        if self.sinks[sid].queue.len() == 0 {
            return None;
        }
        let m = self.sinks[sid].queue.remove(0);
        proof {
            assert(final(self).queue_of(sid as int)
                =~= old(self).queue_of(sid as int).drop_first());
            Self::lemma_same_entries_same_registration(*old(self), *self);
        }
        Some(m)
    }

    /// What closing a sink does: only its open flag drops; every queue
    /// and every registration stays.
    pub open spec fn close_rel(pre: Self, post: Self, sid: usize) -> bool {
        &&& Self::registration_unchanged(pre, post)
        &&& post.sink_count() == pre.sink_count()
        &&& !post.sink_open(sid as int)
        &&& forall|s: int|
            0 <= s < pre.sink_count() && s != sid
                ==> (post.sink_open(s) <==> pre.sink_open(s))
        &&& forall|s: int|
            0 <= s < pre.sink_count() ==> #[trigger] post.queue_of(s) == pre.queue_of(s)
    }

    /// Marks sink `sid`'s consumer as gone: later sends to it report a
    /// miss. Queued envelopes stay for the writer to drain.
    pub fn close_sink(&mut self, sid: usize)
        requires
            old(self).wf(),
            sid < old(self).sink_count(),
        ensures
            final(self).wf(),
            Self::close_rel(*old(self), *final(self), sid),
    {
        self.sinks[sid].open = false;
        proof {
            Self::lemma_same_entries_same_registration(*old(self), *self);
        }
    }

    /// What a send straight to a sink does: one copy lands on that
    /// queue when the sink is open; a closed sink reports a miss and
    /// nothing moves.
    pub open spec fn sink_send_rel(
        pre: Self,
        post: Self,
        sid: usize,
        msg: WsMessage,
        r: bool,
    ) -> bool {
        &&& r == pre.sink_open(sid as int)
        &&& Self::registration_unchanged(pre, post)
        &&& post.sink_count() == pre.sink_count()
        &&& forall|s: int|
            0 <= s < pre.sink_count() ==> (post.sink_open(s) <==> pre.sink_open(s))
        &&& r ==> post.queue_of(sid as int) == pre.queue_of(sid as int).push(msg)
        &&& r ==> forall|s: int|
            0 <= s < pre.sink_count() && s != sid ==> #[trigger] post.queue_of(s)
                == pre.queue_of(s)
        &&& !r ==> post == pre
    }

    /// Appends `msg` to one specific sink, bypassing the registration
    /// table: this is how a session addresses its own queue (an error
    /// echo) even after being evicted by a reconnect.
    pub fn send_to_sink(&mut self, sid: usize, msg: WsMessage) -> (r: bool)
        requires
            old(self).wf(),
            sid < old(self).sink_count(),
        ensures
            final(self).wf(),
            Self::sink_send_rel(*old(self), *final(self), sid, msg, r),
    {
        if self.sinks[sid].open {
            self.sinks[sid].queue.push(msg);
            proof {
                Self::lemma_same_entries_same_registration(*old(self), *self);
            }
            true
        } else {
            false
        }
    }

    /// A point-in-time snapshot of the connected users, in table order.
    #[verifier::loop_isolation(false)]
    pub fn get_online_users(&self) -> (r: Vec<UserId>)
        ensures
            r@.len() == self.entries().len(),
            forall|i: int| 0 <= i < r@.len() ==> r@[i] == (#[trigger] self.entries()[i]).0,
    {
        let mut out: Vec<UserId> = Vec::new();
        let mut i: usize = 0;
        let n = self.conns.len();
        while i < n
            invariant
                i <= n,
                n == self.conns@.len(),
                out@.len() == i,
                forall|j: int| 0 <= j < i ==> out@[j] == (#[trigger] self.conns@[j]).0,
            decreases n - i,
        {
            out.push(self.conns[i].0);
            i += 1;
        }
        out
    }

    /// The sink of `user`'s active session, if any: how a session
    /// checks whether a registration still points at it.
    #[verifier::loop_isolation(false)]
    pub fn sink_of_user(&self, user: UserId) -> (r: Option<usize>)
        requires
            self.wf(),
        ensures
            match r {
                Some(sid) => self.registered(user) && self.sink_of(user) == sid,
                None => !self.registered(user),
            },
    {
        let mut i: usize = 0;
        let n = self.conns.len();
        while i < n
            invariant
                i <= n,
                n == self.conns@.len(),
                forall|j: int| 0 <= j < i ==> (#[trigger] self.conns@[j]).0 != user,
            decreases n - i,
        {
            if self.conns[i].0 == user {
                proof {
                    self.lemma_slot_unique(user, i as int);
                }
                return Some(self.conns[i].1);
            }
            i += 1;
        }
        proof {
            assert(forall|j: int|
                0 <= j < self.entries().len() ==> (#[trigger] self.entries()[j]).0 != user);
        }
        None
    }

    /// Whether `user` currently has an active session.
    #[verifier::loop_isolation(false)]
    pub fn is_user_online(&self, user: UserId) -> (r: bool)
        ensures
            r == self.registered(user),
    {
        let mut i: usize = 0;
        let n = self.conns.len();
        while i < n
            invariant
                i <= n,
                n == self.conns@.len(),
                forall|j: int| 0 <= j < i ==> (#[trigger] self.conns@[j]).0 != user,
            decreases n - i,
        {
            if self.conns[i].0 == user {
                proof {
                    assert(self.entries()[i as int].0 == user);
                }
                return true;
            }
            i += 1;
        }
        proof {
            assert(forall|j: int|
                0 <= j < self.entries().len() ==> (#[trigger] self.entries()[j]).0 != user);
        }
        false
    }

    /// How many users are connected right now.
    pub fn online_count(&self) -> (r: usize)
        ensures
            r == self.entries().len(),
    {
        self.conns.len()
    }

    /// Law: a send to a user with no registration reports false and has
    /// no observable side effect — the registry is exactly as before.
    pub proof fn law_send_unregistered_no_effect(
        pre: Self,
        post: Self,
        user: UserId,
        msg: WsMessage,
        r: bool,
    )
        requires
            pre.wf(),
            !pre.registered(user),
            Self::send_rel(pre, post, user, msg, r),
        ensures
            !r,
            post == pre,
    {
    }

    /// Law: after registering `u` twice, a send to `u` delivers only
    /// via the second sink; the first sink's queue receives nothing
    /// further, neither at the re-registration nor at the send.
    pub proof fn law_last_writer_wins(
        m0: Self,
        m1: Self,
        m2: Self,
        m3: Self,
        u: UserId,
        s1: usize,
        s2: usize,
        e: WsMessage,
        r: bool,
    )
        requires
            m0.wf(),
            Self::register_rel(m0, m1, u, s1),
            Self::register_rel(m1, m2, u, s2),
            Self::send_rel(m2, m3, u, e, r),
        ensures
            r,
            s1 != s2,
            m3.queue_of(s2 as int) == m2.queue_of(s2 as int).push(e),
            m3.queue_of(s1 as int) == m2.queue_of(s1 as int),
            m2.queue_of(s1 as int) == m1.queue_of(s1 as int),
    {
        assert(s1 < m1.sink_count());
        assert(s1 < m2.sink_count());
    }

    /// Law: a broadcast delivers exactly one copy to every user
    /// registered at call time whose sink is still open — the queue
    /// grows by one and ends with the message — while closed sinks and
    /// sinks not mapped to any user keep exactly their old contents.
    pub proof fn law_broadcast_snapshot(pre: Self, post: Self, msg: WsMessage)
        requires
            pre.wf(),
            Self::broadcast_rel(pre, post, msg),
        ensures
            forall|v: UserId|
                pre.registered(v) && pre.sink_open(pre.sink_of(v))
                    ==> #[trigger] post.queue_of_user(v).len() == pre.queue_of_user(v).len() + 1
                        && post.queue_of_user(v).last() == msg,
            forall|v: UserId|
                pre.registered(v) && !pre.sink_open(pre.sink_of(v))
                    ==> #[trigger] post.queue_of_user(v) == pre.queue_of_user(v),
            forall|s: int|
                0 <= s < pre.sink_count()
                    && (forall|j: int|
                        0 <= j < pre.entries().len()
                            ==> (#[trigger] pre.entries()[j]).1 != s)
                    ==> #[trigger] post.queue_of(s) == pre.queue_of(s),
    {
        assert forall|v: UserId|
            pre.registered(v) && pre.sink_open(pre.sink_of(v)) implies
            #[trigger] post.queue_of_user(v).len() == pre.queue_of_user(v).len() + 1
                && post.queue_of_user(v).last() == msg by {
            assert(post.queue_of_user(v) == pre.queue_of_user(v).push(msg));
        }
    }
}

} // verus!
