//! The ingress side: the event shapes accepted over HTTP, the partition
//! key used when publishing them to the queue, and the conversion into the
//! wire shape of the downstream router, which flattens the optional
//! correlation id.

use vstd::prelude::*;

verus! {

/// An event as accepted by the ingress endpoint.
pub enum Event {
    Chat(ChatEvent),
    Join(JoinEvent),
    Leave(LeaveEvent),
    Reaction(ReactionEvent),
}

pub struct ChatEvent {
    pub user_id: String,
    pub room_id: String,
    pub journey_id: Option<String>,
    pub timestamp: i64,
    pub message: String,
    pub message_type: String,
    pub chat_type: String,
}

pub struct JoinEvent {
    pub user_id: String,
    pub room_id: String,
    pub timestamp: i64,
}

pub struct LeaveEvent {
    pub user_id: String,
    pub room_id: String,
    pub timestamp: i64,
}

pub struct ReactionEvent {
    pub user_id: String,
    pub room_id: String,
    pub message_id: String,
    pub emoji: String,
    pub timestamp: i64,
}

/// The partition key under which an event is published: always its room.
pub fn routing_key(e: &Event) -> (k: &String)
    ensures
        k@ == (match e {
            Event::Chat(c) => c.room_id@,
            Event::Join(c) => c.room_id@,
            Event::Leave(c) => c.room_id@,
            Event::Reaction(c) => c.room_id@,
        }),
{
    match e {
        Event::Chat(c) => &c.room_id,
        Event::Join(c) => &c.room_id,
        Event::Leave(c) => &c.room_id,
        Event::Reaction(c) => &c.room_id,
    }
}

/// The router's event message: one optional kind.
pub struct WireEvent {
    pub kind: Option<WireKind>,
}

pub enum WireKind {
    Chat(WireChatEvent),
    Join(WireJoinEvent),
    Leave(WireLeaveEvent),
    Reaction(WireReactionEvent),
}

pub struct WireChatEvent {
    pub user_id: String,
    pub room_id: String,
    /// A missing correlation id travels as the empty string.
    pub journey_id: String,
    pub timestamp: i64,
    pub message: String,
    pub message_type: String,
    pub chat_type: String,
}

pub struct WireJoinEvent {
    pub user_id: String,
    pub room_id: String,
    pub timestamp: i64,
}

pub struct WireLeaveEvent {
    pub user_id: String,
    pub room_id: String,
    pub timestamp: i64,
}

pub struct WireReactionEvent {
    pub user_id: String,
    pub room_id: String,
    pub message_id: String,
    pub emoji: String,
    pub timestamp: i64,
}

/// Convert an ingress event into the router's wire shape: every field is
/// carried over unchanged, and a chat event's missing correlation id
/// becomes the empty string.
pub fn to_wire(e: Event) -> (w: WireEvent)
    ensures
        match e {
            Event::Chat(c) => w.kind matches Some(WireKind::Chat(x)) && x.user_id@ == c.user_id@
                && x.room_id@ == c.room_id@ && x.journey_id@ == (match c.journey_id {
                Some(j) => j@,
                None => Seq::<char>::empty(),
            }) && x.timestamp == c.timestamp && x.message@ == c.message@ && x.message_type@
                == c.message_type@ && x.chat_type@ == c.chat_type@,
            Event::Join(c) => w.kind matches Some(WireKind::Join(x)) && x.user_id@ == c.user_id@
                && x.room_id@ == c.room_id@ && x.timestamp == c.timestamp,
            Event::Leave(c) => w.kind matches Some(WireKind::Leave(x)) && x.user_id@ == c.user_id@
                && x.room_id@ == c.room_id@ && x.timestamp == c.timestamp,
            Event::Reaction(c) => w.kind matches Some(WireKind::Reaction(x)) && x.user_id@
                == c.user_id@ && x.room_id@ == c.room_id@ && x.message_id@ == c.message_id@
                && x.emoji@ == c.emoji@ && x.timestamp == c.timestamp,
        },
{
    match e {
        Event::Chat(c) => WireEvent {
            kind: Some(
                WireKind::Chat(
                    WireChatEvent {
                        user_id: c.user_id,
                        room_id: c.room_id,
                        journey_id: match c.journey_id {
                            Some(j) => j,
                            None => String::new(),
                        },
                        timestamp: c.timestamp,
                        message: c.message,
                        message_type: c.message_type,
                        chat_type: c.chat_type,
                    },
                ),
            ),
        },
        Event::Join(c) => WireEvent {
            kind: Some(
                WireKind::Join(
                    WireJoinEvent {
                        user_id: c.user_id,
                        room_id: c.room_id,
                        timestamp: c.timestamp,
                    },
                ),
            ),
        },
        Event::Leave(c) => WireEvent {
            kind: Some(
                WireKind::Leave(
                    WireLeaveEvent {
                        user_id: c.user_id,
                        room_id: c.room_id,
                        timestamp: c.timestamp,
                    },
                ),
            ),
        },
        Event::Reaction(c) => WireEvent {
            kind: Some(
                WireKind::Reaction(
                    WireReactionEvent {
                        user_id: c.user_id,
                        room_id: c.room_id,
                        message_id: c.message_id,
                        emoji: c.emoji,
                        timestamp: c.timestamp,
                    },
                ),
            ),
        },
    }
}

} // verus!
