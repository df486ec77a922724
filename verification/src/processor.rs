//! The event-shape transformation: each incoming event kind becomes one
//! canonical record, and the replies of the ingestion endpoint are
//! rendered. The kind-specific auxiliary fields go into `metadata_json`,
//! keys in sorted order, absent values as `null`.

use vstd::prelude::*;
use vstd::string::StringExecFns;
use crate::codec::{opt_json, opt_str_view};
use crate::event::Event;
use crate::json::{esc_str, push_escaped, push_str_chars, str_chars, chars_to_string};
use crate::model::ProcessedEvent;

verus! {

/// The metadata of a chat event.
pub open spec fn chat_metadata(
    message_type: Option<Seq<char>>,
    chat_type: Option<Seq<char>>,
    message_id: Option<Seq<char>>,
) -> Seq<char> {
    "{\"chat_type\":"@ + opt_json(chat_type) + ",\"message_id\":"@ + opt_json(message_id)
        + ",\"message_type\":"@ + opt_json(message_type) + "}"@
}

/// The metadata of a reaction event.
pub open spec fn reaction_metadata(
    message_id: Seq<char>,
    target_user_id: Option<Seq<char>>,
) -> Seq<char> {
    "{\"message_id\":"@ + opt_json(Some(message_id)) + ",\"target_user_id\":"@ + opt_json(
        target_user_id,
    ) + "}"@
}

/// Append an optional string value: `null`, or the quoted escaped text.
fn push_opt_json(out: &mut Vec<char>, o: &Option<String>)
    ensures
        final(out)@ == old(out)@ + opt_json(opt_str_view(*o)),
{
    match o {
        Some(x) => {
            out.push('"');
            let cs = str_chars(x.as_str());
            push_escaped(out, &cs);
            out.push('"');
            proof {
                assert(old(out)@.push('"') + esc_str(x@) + seq!['"'] =~= old(out)@ + opt_json(
                    opt_str_view(*o),
                ));
            }
        },
        None => {
            push_str_chars(out, "null");
        },
    }
}

fn chat_metadata_json(
    message_type: &Option<String>,
    chat_type: &Option<String>,
    message_id: &Option<String>,
) -> (r: String)
    ensures
        r@ == chat_metadata(
            opt_str_view(*message_type),
            opt_str_view(*chat_type),
            opt_str_view(*message_id),
        ),
{
    let mut out: Vec<char> = Vec::new();
    push_str_chars(&mut out, "{\"chat_type\":");
    push_opt_json(&mut out, chat_type);
    push_str_chars(&mut out, ",\"message_id\":");
    push_opt_json(&mut out, message_id);
    push_str_chars(&mut out, ",\"message_type\":");
    push_opt_json(&mut out, message_type);
    push_str_chars(&mut out, "}");
    proof {
        assert(out@ =~= chat_metadata(
            opt_str_view(*message_type),
            opt_str_view(*chat_type),
            opt_str_view(*message_id),
        ));
    }
    chars_to_string(&out)
}

fn reaction_metadata_json(message_id: &String, target_user_id: &Option<String>) -> (r: String)
    ensures
        r@ == reaction_metadata(message_id@, opt_str_view(*target_user_id)),
{
    let mut out: Vec<char> = Vec::new();
    push_str_chars(&mut out, "{\"message_id\":");
    out.push('"');
    let cs = str_chars(message_id.as_str());
    push_escaped(&mut out, &cs);
    out.push('"');
    push_str_chars(&mut out, ",\"target_user_id\":");
    push_opt_json(&mut out, target_user_id);
    push_str_chars(&mut out, "}");
    proof {
        assert(out@ =~= reaction_metadata(message_id@, opt_str_view(*target_user_id)));
    }
    chars_to_string(&out)
}

/// Transform an incoming event into the canonical record: the kind becomes
/// the discriminator string, the body (chat message, reaction emoji, or
/// nothing) becomes the payload, the kind-specific fields become the
/// metadata, and a fresh `event_id` and server timestamp are attached.
pub fn process_event(event: Event) -> (r: ProcessedEvent)
    ensures
        r@.event_id.len() == 36,
        match event {
            Event::Chat(e) => {
                &&& r@.event_type == "chat"@
                &&& r@.user_id == e.user_id@
                &&& r@.room_id == e.room_id@
                &&& r@.journey_id == opt_str_view(e.journey_id)
                &&& r@.timestamp == e.timestamp as int
                &&& r@.payload == (match e.message {
                    Some(m) => m@,
                    None => Seq::<char>::empty(),
                })
                &&& r@.metadata_json == chat_metadata(
                    opt_str_view(e.message_type),
                    opt_str_view(e.chat_type),
                    opt_str_view(e.message_id),
                )
            },
            Event::Join(e) => {
                &&& r@.event_type == "join"@
                &&& r@.user_id == e.user_id@
                &&& r@.room_id == e.room_id@
                &&& r@.journey_id is None
                &&& r@.timestamp == e.timestamp as int
                &&& r@.payload == Seq::<char>::empty()
                &&& r@.metadata_json == "{}"@
            },
            Event::Leave(e) => {
                &&& r@.event_type == "leave"@
                &&& r@.user_id == e.user_id@
                &&& r@.room_id == e.room_id@
                &&& r@.journey_id is None
                &&& r@.timestamp == e.timestamp as int
                &&& r@.payload == Seq::<char>::empty()
                &&& r@.metadata_json == "{}"@
            },
            Event::Reaction(e) => {
                &&& r@.event_type == "reaction"@
                &&& r@.user_id == e.user_id@
                &&& r@.room_id == e.room_id@
                &&& r@.journey_id is None
                &&& r@.timestamp == e.timestamp as int
                &&& r@.payload == e.emoji@
                &&& r@.metadata_json == reaction_metadata(
                    e.message_id@,
                    opt_str_view(e.target_user_id),
                )
            },
        },
{
    match event {
        Event::Chat(e) => {
            let metadata = chat_metadata_json(&e.message_type, &e.chat_type, &e.message_id);
            let payload = match e.message {
                Some(m) => m,
                None => String::new(),
            };
            ProcessedEvent::new(
                "chat",
                e.user_id,
                e.room_id,
                e.journey_id,
                e.timestamp,
                payload,
                metadata,
            )
        },
        Event::Join(e) => ProcessedEvent::new(
            "join",
            e.user_id,
            e.room_id,
            None,
            e.timestamp,
            String::new(),
            "{}".to_owned(),
        ),
        Event::Leave(e) => ProcessedEvent::new(
            "leave",
            e.user_id,
            e.room_id,
            None,
            e.timestamp,
            String::new(),
            "{}".to_owned(),
        ),
        Event::Reaction(e) => {
            let metadata = reaction_metadata_json(&e.message_id, &e.target_user_id);
            ProcessedEvent::new(
                "reaction",
                e.user_id,
                e.room_id,
                None,
                e.timestamp,
                e.emoji,
                metadata,
            )
        },
    }
}

/// Where the processing service publishes to.
#[derive(PartialEq, Eq, Structural, Clone, Copy, Debug)]
pub enum PublishRoute {
    Redpanda,
    Mock,
}

/// The publisher dispatch rule: exactly the two known source names route
/// anywhere; any other name is rejected.
pub fn publish_route(source: &String) -> (r: Option<PublishRoute>)
    ensures
        source@ == "redpanda"@ ==> r == Some(PublishRoute::Redpanda),
        source@ == "mock"@ ==> r == Some(PublishRoute::Mock),
        (source@ != "redpanda"@ && source@ != "mock"@) ==> r is None,
{
    proof {
        reveal_strlit("redpanda");
        reveal_strlit("mock");
        assert("redpanda"@.len() == 8);
        assert("mock"@.len() == 4);
    }
    if source.eq(&String::from_str("redpanda")) {
        Some(PublishRoute::Redpanda)
    } else if source.eq(&String::from_str("mock")) {
        Some(PublishRoute::Mock)
    } else {
        None
    }
}

/// The ingestion endpoint's reply for a delivered event.
pub open spec fn delivered_reply_spec(event_id: Seq<char>) -> Seq<char> {
    "{\"ok\":true,\"status\":\"delivered\",\"event_id\":"@ + opt_json(Some(event_id))
        + ",\"topic\":\"chat_events\"}"@
}

/// The ingestion endpoint's reply for a failed publish.
pub open spec fn error_reply_spec(error: Seq<char>) -> Seq<char> {
    "{\"ok\":false,\"error\":"@ + opt_json(Some(error)) + "}"@
}

/// Render the success reply for the given event id.
pub fn delivered_reply(event_id: &String) -> (r: String)
    ensures
        r@ == delivered_reply_spec(event_id@),
{
    let mut out: Vec<char> = Vec::new();
    push_str_chars(&mut out, "{\"ok\":true,\"status\":\"delivered\",\"event_id\":");
    out.push('"');
    let cs = str_chars(event_id.as_str());
    push_escaped(&mut out, &cs);
    out.push('"');
    push_str_chars(&mut out, ",\"topic\":\"chat_events\"}");
    proof {
        assert(out@ =~= delivered_reply_spec(event_id@));
    }
    chars_to_string(&out)
}

/// Render the failure reply for the given error text.
pub fn error_reply(error: &String) -> (r: String)
    ensures
        r@ == error_reply_spec(error@),
{
    let mut out: Vec<char> = Vec::new();
    push_str_chars(&mut out, "{\"ok\":false,\"error\":");
    out.push('"');
    let cs = str_chars(error.as_str());
    push_escaped(&mut out, &cs);
    out.push('"');
    push_str_chars(&mut out, "}");
    proof {
        assert(out@ =~= error_reply_spec(error@));
    }
    chars_to_string(&out)
}

} // verus!
