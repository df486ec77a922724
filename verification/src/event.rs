//! The incoming event shapes accepted by the processing service: a closed
//! sum of the four event kinds, each with its own fields.

use vstd::prelude::*;

verus! {

/// An incoming event, discriminated by kind.
pub enum Event {
    Chat(ChatEvent),
    Join(JoinEvent),
    Leave(LeaveEvent),
    Reaction(ReactionEvent),
}

pub struct ChatEvent {
    pub user_id: String,
    pub room_id: String,
    pub journey_id: Option<String>,
    pub timestamp: i64,
    pub message: Option<String>,
    /// "standard" or "reply".
    pub message_type: Option<String>,
    /// "single", "group" or "global".
    pub chat_type: Option<String>,
    /// The replied-to message, when this is a reply.
    pub message_id: Option<String>,
    pub created_at: Option<i64>,
    pub updated_at: Option<i64>,
}

pub struct JoinEvent {
    pub user_id: String,
    pub room_id: String,
    /// "open" or "join".
    pub room_action: Option<String>,
    pub timestamp: i64,
    pub created_at: Option<i64>,
    pub updated_at: Option<i64>,
}

pub struct LeaveEvent {
    pub user_id: String,
    pub room_id: String,
    /// Always "leave".
    pub room_action: Option<String>,
    pub timestamp: i64,
    pub created_at: Option<i64>,
    pub updated_at: Option<i64>,
}

pub struct ReactionEvent {
    /// The reacting user.
    pub user_id: String,
    /// The author of the message reacted to.
    pub target_user_id: Option<String>,
    pub room_id: String,
    /// The message reacted to.
    pub message_id: String,
    pub emoji: String,
    pub timestamp: i64,
    pub created_at: Option<i64>,
    pub updated_at: Option<i64>,
}

} // verus!
