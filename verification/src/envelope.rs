use vstd::prelude::*;
use crate::ids::UserId;

verus! {

/// Duplicates an optional text field so that an envelope can be routed
/// to several recipients.
pub fn clone_opt_string(o: &Option<String>) -> (r: Option<String>)
    ensures
        r == *o,
{
    match o {
        Some(s) => Some(s.clone()),
        None => None,
    }
}

/// A chat message pushed to both ends of a conversation once the write
/// path has persisted it.
#[derive(Debug)]
pub struct ChatMessagePayload {
    pub id: u128,
    pub sender_id: UserId,
    pub receiver_id: UserId,
    pub content: String,
    pub image_url: Option<String>,
    pub created_at: String,
}

/// A typing indicator forwarded to the peer of a conversation.
#[derive(Debug)]
pub struct TypingIndicatorPayload {
    pub user_id: UserId,
    pub is_typing: bool,
    pub conversation_with: UserId,
}

/// A presence change, broadcast to every connected user.
#[derive(Debug)]
pub struct UserStatusPayload {
    pub user_id: UserId,
    pub is_online: bool,
}

/// A single-field mutation of a task, pushed to interested users.
#[derive(Debug)]
pub struct TaskUpdatedPayload {
    pub task_id: u128,
    pub updated_by: UserId,
    pub field: String,
    pub old_value: Option<String>,
    pub new_value: String,
}

/// A task newly shared with the recipient.
#[derive(Debug)]
pub struct TaskSharedPayload {
    pub task_id: u128,
    pub task_title: String,
    pub shared_by: UserId,
    pub shared_by_username: String,
}

/// Removal of the recipient from a shared task.
#[derive(Debug)]
pub struct TaskMemberRemovedPayload {
    pub task_id: u128,
    pub task_title: String,
    pub removed_by: UserId,
}

/// Acknowledgement that a message was delivered.
#[derive(Debug)]
pub struct MessageDeliveredPayload {
    pub message_id: u128,
}

/// An error reported back to the session that caused it.
#[derive(Debug)]
pub struct ErrorPayload {
    pub message: String,
}

/// The event envelope: the tagged union every delivery path carries.
/// Envelopes are immutable values; both transports serialize them the
/// same way (see the wire module).
#[derive(Debug)]
pub enum WsMessage {
    ChatMessage(ChatMessagePayload),
    TypingIndicator(TypingIndicatorPayload),
    UserStatus(UserStatusPayload),
    TaskUpdated(TaskUpdatedPayload),
    TaskShared(TaskSharedPayload),
    TaskMemberRemoved(TaskMemberRemovedPayload),
    MessageDelivered(MessageDeliveredPayload),
    Error(ErrorPayload),
}

/// An inbound client message, already decoded from the wire.
#[derive(Debug)]
pub enum ClientMessage {
    SendMessage { receiver_id: UserId, content: String, image_url: Option<String> },
    TypingIndicator { conversation_with: UserId, is_typing: bool },
    MarkMessageDelivered { message_id: u128 },
}

impl Clone for ChatMessagePayload {
    fn clone(&self) -> (r: Self)
        ensures
            r == *self,
    {
        ChatMessagePayload {
            id: self.id,
            sender_id: self.sender_id,
            receiver_id: self.receiver_id,
            content: self.content.clone(),
            image_url: clone_opt_string(&self.image_url),
            created_at: self.created_at.clone(),
        }
    }
}

impl Clone for TypingIndicatorPayload {
    fn clone(&self) -> (r: Self)
        ensures
            r == *self,
    {
        TypingIndicatorPayload {
            user_id: self.user_id,
            is_typing: self.is_typing,
            conversation_with: self.conversation_with,
        }
    }
}

impl Clone for UserStatusPayload {
    fn clone(&self) -> (r: Self)
        ensures
            r == *self,
    {
        UserStatusPayload { user_id: self.user_id, is_online: self.is_online }
    }
}

impl Clone for TaskUpdatedPayload {
    fn clone(&self) -> (r: Self)
        ensures
            r == *self,
    {
        TaskUpdatedPayload {
            task_id: self.task_id,
            updated_by: self.updated_by,
            field: self.field.clone(),
            old_value: clone_opt_string(&self.old_value),
            new_value: self.new_value.clone(),
        }
    }
}

impl Clone for TaskSharedPayload {
    fn clone(&self) -> (r: Self)
        ensures
            r == *self,
    {
        TaskSharedPayload {
            task_id: self.task_id,
            task_title: self.task_title.clone(),
            shared_by: self.shared_by,
            shared_by_username: self.shared_by_username.clone(),
        }
    }
}

impl Clone for TaskMemberRemovedPayload {
    fn clone(&self) -> (r: Self)
        ensures
            r == *self,
    {
        TaskMemberRemovedPayload {
            task_id: self.task_id,
            task_title: self.task_title.clone(),
            removed_by: self.removed_by,
        }
    }
}

impl Clone for MessageDeliveredPayload {
    fn clone(&self) -> (r: Self)
        ensures
            r == *self,
    {
        MessageDeliveredPayload { message_id: self.message_id }
    }
}

impl Clone for ErrorPayload {
    fn clone(&self) -> (r: Self)
        ensures
            r == *self,
    {
        ErrorPayload { message: self.message.clone() }
    }
}

impl Clone for WsMessage {
    fn clone(&self) -> (r: Self)
        ensures
            r == *self,
    {
        match self {
            WsMessage::ChatMessage(p) => WsMessage::ChatMessage(p.clone()),
            WsMessage::TypingIndicator(p) => WsMessage::TypingIndicator(p.clone()),
            WsMessage::UserStatus(p) => WsMessage::UserStatus(p.clone()),
            WsMessage::TaskUpdated(p) => WsMessage::TaskUpdated(p.clone()),
            WsMessage::TaskShared(p) => WsMessage::TaskShared(p.clone()),
            WsMessage::TaskMemberRemoved(p) => WsMessage::TaskMemberRemoved(p.clone()),
            WsMessage::MessageDelivered(p) => WsMessage::MessageDelivered(p.clone()),
            WsMessage::Error(p) => WsMessage::Error(p.clone()),
        }
    }
}

impl Clone for ClientMessage {
    fn clone(&self) -> (r: Self)
        ensures
            r == *self,
    {
        match self {
            ClientMessage::SendMessage { receiver_id, content, image_url } => {
                ClientMessage::SendMessage {
                    receiver_id: *receiver_id,
                    content: content.clone(),
                    image_url: clone_opt_string(image_url),
                }
            },
            ClientMessage::TypingIndicator { conversation_with, is_typing } => {
                ClientMessage::TypingIndicator {
                    conversation_with: *conversation_with,
                    is_typing: *is_typing,
                }
            },
            ClientMessage::MarkMessageDelivered { message_id } => {
                ClientMessage::MarkMessageDelivered { message_id: *message_id }
            },
        }
    }
}

} // verus!
