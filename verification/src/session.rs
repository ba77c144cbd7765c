use vstd::prelude::*;
use vstd::string::StringExecFns;
use crate::connection::ConnectionManager;
use crate::envelope::{
    clone_opt_string, ChatMessagePayload, ClientMessage, ErrorPayload, TypingIndicatorPayload,
    UserStatusPayload, WsMessage,
};
use crate::ids::UserId;

verus! {

/// Lifecycle of one duplex session: entered while the transport is
/// upgraded and the identity resolved, active while both the reader
/// and the writer loop are viable, closing once either fails, closed
/// after the one teardown.
#[derive(Clone, Copy, Debug, PartialEq, Eq, Structural)]
pub enum SessionPhase {
    Connecting,
    Active,
    Closing,
    Closed,
}

/// The presence-change envelope broadcast when a user comes or goes.
pub open spec fn presence(user: UserId, is_online: bool) -> WsMessage {
    WsMessage::UserStatus(UserStatusPayload { user_id: user, is_online })
}

/// One user's duplex session. The session owns nothing but its ids:
/// the registry owns the sink, and the two transport loops live with
/// the caller; what is decided here is every registry interaction of
/// the session's lifecycle.
pub struct Session {
    pub user: UserId,
    pub sink: usize,
    pub phase: SessionPhase,
}

impl Session {
    /// A session for `user`, not yet registered anywhere.
    pub fn new(user: UserId) -> (r: Session)
        ensures
            r.user == user,
            r.phase == SessionPhase::Connecting,
    {
        Session { user, sink: 0, phase: SessionPhase::Connecting }
    }

    /// Entry of the lifecycle: registers the session's fresh sink —
    /// silently evicting any prior session of the same user — and then
    /// broadcasts that the user is online. The session becomes active.
    pub fn activate(&mut self, mgr: &mut ConnectionManager)
        requires
            old(self).phase == SessionPhase::Connecting,
            old(mgr).wf(),
        ensures
            final(mgr).wf(),
            final(self).user == old(self).user,
            final(self).phase == SessionPhase::Active,
            exists|mid: ConnectionManager|
                ConnectionManager::register_rel(*old(mgr), mid, old(self).user, final(self).sink)
                    && #[trigger] ConnectionManager::broadcast_rel(
                    mid,
                    *final(mgr),
                    presence(old(self).user, true),
                ),
    {
        let sid = mgr.add_connection(self.user);
        self.sink = sid;
        let ghost mid = *mgr;
        let online = WsMessage::UserStatus(
            UserStatusPayload { user_id: self.user, is_online: true },
        );
        mgr.broadcast(&online);
        self.phase = SessionPhase::Active;
        proof {
            assert(ConnectionManager::broadcast_rel(mid, *mgr, presence(self.user, true)));
        }
    }

    /// The reader loop reports that the inbound transport failed or
    /// ended: an active session starts closing. Harmless in any other
    /// phase.
    pub fn on_reader_failed(&mut self)
        ensures
            final(self).user == old(self).user,
            final(self).sink == old(self).sink,
            final(self).phase == (if old(self).phase == SessionPhase::Active {
                SessionPhase::Closing
            } else {
                old(self).phase
            }),
    {
        if self.phase == SessionPhase::Active {
            self.phase = SessionPhase::Closing;
        }
    }

    /// The writer loop reports that the outbound transport failed —
    /// also how an evicted session notices it is done. Same transition
    /// as a reader failure: the two loops are coupled, either one
    /// failing takes the session out of its active phase.
    pub fn on_writer_failed(&mut self)
        ensures
            final(self).user == old(self).user,
            final(self).sink == old(self).sink,
            final(self).phase == (if old(self).phase == SessionPhase::Active {
                SessionPhase::Closing
            } else {
                old(self).phase
            }),
    {
        if self.phase == SessionPhase::Active {
            self.phase = SessionPhase::Closing;
        }
    }

    /// What the one real teardown does to the registry: the session's
    /// sink is closed; the user's registration is removed only if it
    /// still points at this session's sink (a newer session keeps its
    /// own registration untouched); then the user's offline presence is
    /// broadcast.
    /// The three steps of the teardown effect, with the two
    /// intermediate registry states named.
    pub open spec fn teardown_steps(
        pre: ConnectionManager,
        m1: ConnectionManager,
        m2: ConnectionManager,
        post: ConnectionManager,
        user: UserId,
        sink: usize,
    ) -> bool {
        &&& ConnectionManager::close_rel(pre, m1, sink)
        &&& if m1.registered(user) && m1.sink_of(user) == sink {
            ConnectionManager::unregister_rel(m1, m2, user)
        } else {
            m2 == m1
        }
        &&& ConnectionManager::broadcast_rel(m2, post, presence(user, false))
    }

    pub open spec fn teardown_effect(
        pre: ConnectionManager,
        post: ConnectionManager,
        user: UserId,
        sink: usize,
    ) -> bool {
        exists|m1: ConnectionManager, m2: ConnectionManager|
            #[trigger] Self::teardown_steps(pre, m1, m2, post, user, sink)
    }

    /// The full contract of one `teardown` call: a closed session
    /// leaves the registry exactly as it is; any other session runs the
    /// teardown effect; either way the session ends closed.
    pub open spec fn teardown_rel(
        pre_m: ConnectionManager,
        post_m: ConnectionManager,
        pre_s: Session,
        post_s: Session,
    ) -> bool {
        &&& post_s.user == pre_s.user
        &&& post_s.sink == pre_s.sink
        &&& post_s.phase == SessionPhase::Closed
        &&& pre_s.phase == SessionPhase::Closed ==> post_m == pre_m
        &&& pre_s.phase != SessionPhase::Closed ==> Self::teardown_effect(
            pre_m,
            post_m,
            pre_s.user,
            pre_s.sink,
        )
    }

    /// Exit of the lifecycle, idempotent: the first call runs the
    /// teardown effect exactly once and closes the session; any later
    /// call finds the session closed and leaves the registry exactly as
    /// it is. Both loops may report failure and both may call here; the
    /// unregistration and the offline broadcast still happen once.
    pub fn teardown(&mut self, mgr: &mut ConnectionManager)
        requires
            old(mgr).wf(),
            old(self).sink < old(mgr).sink_count(),
        ensures
            final(mgr).wf(),
            Self::teardown_rel(*old(mgr), *final(mgr), *old(self), *final(self)),
    {
        if self.phase == SessionPhase::Closed {
            return;
        }
        mgr.close_sink(self.sink);
        let ghost m1 = *mgr;
        let still_mine = match mgr.sink_of_user(self.user) {
            Some(sid) => sid == self.sink,
            None => false,
        };
        if still_mine {
            mgr.remove_connection(self.user);
        }
        let ghost m2 = *mgr;
        let offline = WsMessage::UserStatus(
            UserStatusPayload { user_id: self.user, is_online: false },
        );
        mgr.broadcast(&offline);
        self.phase = SessionPhase::Closed;
        proof {
            assert(Self::teardown_steps(*old(mgr), m1, m2, *mgr, self.user, self.sink));
        }
    }
}

/// The typing-indicator envelope forwarded to the peer of a
/// conversation.
pub open spec fn typing(user: UserId, is_typing: bool, conversation_with: UserId) -> WsMessage {
    WsMessage::TypingIndicator(
        TypingIndicatorPayload { user_id: user, is_typing, conversation_with },
    )
}

/// What the reader loop decided about one inbound client message, and
/// what the caller still owes the storage collaborator.
#[derive(Debug)]
pub enum ClientMessageEffect {
    /// Persist the chat message first; the resulting record is then
    /// handed to `deliver_chat_message`.
    PersistAndDeliverChat { receiver_id: UserId, content: String, image_url: Option<String> },
    /// The indicator was forwarded live; nothing is persisted.
    TypingForwarded { delivered: bool },
    /// Mark the message delivered in storage; nothing is pushed live.
    MarkDelivered { message_id: u128 },
}

/// The reader loop's dispatch on one decoded client message. A typing
/// indicator is forwarded to its conversation peer immediately —
/// silently dropped if that user is not connected; the other two kinds
/// touch storage first, so they come back as instructions and the
/// registry is left untouched.
pub fn process_client_message(
    mgr: &mut ConnectionManager,
    session: &Session,
    msg: &ClientMessage,
) -> (r: ClientMessageEffect)
    requires
        old(mgr).wf(),
    ensures
        final(mgr).wf(),
        match *msg {
            ClientMessage::SendMessage { receiver_id, content, image_url } => {
                &&& *final(mgr) == *old(mgr)
                &&& r == ClientMessageEffect::PersistAndDeliverChat {
                    receiver_id,
                    content,
                    image_url,
                }
            },
            ClientMessage::TypingIndicator { conversation_with, is_typing } => match r {
                ClientMessageEffect::TypingForwarded { delivered } => {
                    ConnectionManager::send_rel(
                        *old(mgr),
                        *final(mgr),
                        conversation_with,
                        typing(session.user, is_typing, conversation_with),
                        delivered,
                    )
                },
                _ => false,
            },
            ClientMessage::MarkMessageDelivered { message_id } => {
                &&& *final(mgr) == *old(mgr)
                &&& r == ClientMessageEffect::MarkDelivered { message_id }
            },
        },
{
    match msg {
        ClientMessage::SendMessage { receiver_id, content, image_url } => {
            ClientMessageEffect::PersistAndDeliverChat {
                receiver_id: *receiver_id,
                content: content.clone(),
                image_url: clone_opt_string(image_url),
            }
        },
        ClientMessage::TypingIndicator { conversation_with, is_typing } => {
            let env = WsMessage::TypingIndicator(
                TypingIndicatorPayload {
                    user_id: session.user,
                    is_typing: *is_typing,
                    conversation_with: *conversation_with,
                },
            );
            let delivered = mgr.send_to_user(*conversation_with, env);
            ClientMessageEffect::TypingForwarded { delivered }
        },
        ClientMessage::MarkMessageDelivered { message_id } => {
            ClientMessageEffect::MarkDelivered { message_id: *message_id }
        },
    }
}

/// The two sends of a persisted chat message, with the registry state
/// between them named: first to the receiver, then the echo back to
/// the sender.
pub open spec fn chat_delivery_steps(
    pre: ConnectionManager,
    mid: ConnectionManager,
    post: ConnectionManager,
    message: ChatMessagePayload,
    to_receiver: bool,
    to_sender: bool,
) -> bool {
    &&& ConnectionManager::send_rel(
        pre,
        mid,
        message.receiver_id,
        WsMessage::ChatMessage(message),
        to_receiver,
    )
    &&& ConnectionManager::send_rel(
        mid,
        post,
        message.sender_id,
        WsMessage::ChatMessage(message),
        to_sender,
    )
}

pub open spec fn chat_delivery(
    pre: ConnectionManager,
    post: ConnectionManager,
    message: ChatMessagePayload,
    to_receiver: bool,
    to_sender: bool,
) -> bool {
    exists|mid: ConnectionManager|
        #[trigger] chat_delivery_steps(pre, mid, post, message, to_receiver, to_sender)
}

/// Pushes one persisted chat message to both ends of the conversation:
/// the receiver gets the envelope, the sender gets the same envelope
/// back as confirmation. Both sends are best-effort; a miss is
/// invisible to the sender by design — storage stays the source of
/// truth and the live push is an optimization only.
pub fn deliver_chat_message(
    mgr: &mut ConnectionManager,
    message: &ChatMessagePayload,
) -> (r: (bool, bool))
    requires
        old(mgr).wf(),
    ensures
        final(mgr).wf(),
        chat_delivery(*old(mgr), *final(mgr), *message, r.0, r.1),
{
    let env = WsMessage::ChatMessage(message.clone());
    let to_receiver = mgr.send_to_user(message.receiver_id, env.clone());
    let ghost mid = *mgr;
    let to_sender = mgr.send_to_user(message.sender_id, env);
    proof {
        assert(chat_delivery_steps(*old(mgr), mid, *mgr, *message, to_receiver, to_sender));
    }
    (to_receiver, to_sender)
}

/// The notification line persisted for the receiver of a new chat
/// message.
pub fn notification_text_for_message(message: &ChatMessagePayload) -> (r: String)
    ensures
        message.image_url is Some ==> r@ == "New message with image"@,
        message.image_url is None ==> r@ == "New message: "@ + message.content@,
{
    match &message.image_url {
        Some(_) => String::from_str("New message with image"),
        None => String::from_str("New message: ").concat(message.content.as_str()),
    }
}

/// Reports a malformed inbound payload back to the very session that
/// sent it — straight to its own sink, so an evicted session still
/// hears its own errors — without terminating anything.
pub fn report_decode_error(
    mgr: &mut ConnectionManager,
    session: &Session,
    text: String,
) -> (r: bool)
    requires
        old(mgr).wf(),
        session.sink < old(mgr).sink_count(),
    ensures
        final(mgr).wf(),
        ConnectionManager::sink_send_rel(
            *old(mgr),
            *final(mgr),
            session.sink,
            WsMessage::Error(ErrorPayload { message: text }),
            r,
        ),
{
    let env = WsMessage::Error(ErrorPayload { message: text });
    mgr.send_to_sink(session.sink, env)
}

/// Law: teardown is idempotent. When both transport loops report
/// failure and each runs the teardown in turn, the first performs the
/// exit effect and the second leaves the registry untouched — exactly
/// one unregistration, exactly one offline broadcast.
pub proof fn law_teardown_idempotent(
    m0: ConnectionManager,
    m1: ConnectionManager,
    m2: ConnectionManager,
    s0: Session,
    s1: Session,
    s2: Session,
)
    requires
        s0.phase != SessionPhase::Closed,
        Session::teardown_rel(m0, m1, s0, s1),
        Session::teardown_rel(m1, m2, s1, s2),
    ensures
        Session::teardown_effect(m0, m1, s0.user, s0.sink),
        m2 == m1,
        s1.phase == SessionPhase::Closed,
        s2.phase == SessionPhase::Closed,
{
}

} // verus!
