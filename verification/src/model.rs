//! The canonical stored record and its mathematical view.

use vstd::prelude::*;

verus! {

/// Unified event record as emitted by the ingress side and consumed by the
/// persistence side. `payload` and `metadata_json` are opaque JSON text:
/// the core never parses them, only forwards them. `event_id` is the
/// idempotency key, generated once when the record is created.
pub struct ProcessedEvent {
    pub event_type: String,
    pub user_id: String,
    pub room_id: String,
    pub journey_id: Option<String>,
    pub timestamp: i64,
    pub payload: String,
    pub metadata_json: String,
    pub event_id: String,
    pub server_timestamp: i64,
}

/// Mathematical image of a record: every text field as a sequence of
/// characters, every timestamp as an unbounded integer.
pub struct EventView {
    pub event_type: Seq<char>,
    pub user_id: Seq<char>,
    pub room_id: Seq<char>,
    pub journey_id: Option<Seq<char>>,
    pub timestamp: int,
    pub payload: Seq<char>,
    pub metadata_json: Seq<char>,
    pub event_id: Seq<char>,
    pub server_timestamp: int,
}

impl EventView {
    /// Every view of an actual record satisfies this: the timestamps came
    /// from 64-bit signed integers.
    pub open spec fn wf(self) -> bool {
        &&& i64::MIN <= self.timestamp <= i64::MAX
        &&& i64::MIN <= self.server_timestamp <= i64::MAX
    }
}

impl View for ProcessedEvent {
    type V = EventView;

    open spec fn view(&self) -> EventView {
        EventView {
            event_type: self.event_type@,
            user_id: self.user_id@,
            room_id: self.room_id@,
            journey_id: match self.journey_id {
                Some(s) => Some(s@),
                None => None,
            },
            timestamp: self.timestamp as int,
            payload: self.payload@,
            metadata_json: self.metadata_json@,
            event_id: self.event_id@,
            server_timestamp: self.server_timestamp as int,
        }
    }
}

/// Relies on `uuid::Uuid::new_v4` and its `Display` form: a fresh random
/// version-4 UUID rendered in the hyphenated lowercase form, which is
/// always 36 characters. Nothing is assumed about the value itself: two
/// calls may return anything of that shape.
#[verifier::external_body]
pub(crate) fn fresh_event_id() -> (r: String)
    ensures
        r@.len() == 36,
{
    uuid::Uuid::new_v4().to_string()
}

/// Relies on `chrono::Utc::now().timestamp_millis()`: the wall clock as
/// milliseconds since the Unix epoch. The value depends on the machine's
/// clock, so nothing is promised about it.
#[verifier::external_body]
pub(crate) fn now_millis() -> i64 {
    chrono::Utc::now().timestamp_millis()
}

impl ProcessedEvent {
    /// Build the canonical record for one event occurrence: every field is
    /// the given value, a fresh `event_id` of 36 characters is drawn, and
    /// `server_timestamp` is read from the clock.
    pub fn new(
        event_type: &str,
        user_id: String,
        room_id: String,
        journey_id: Option<String>,
        timestamp: i64,
        payload: String,
        metadata_json: String,
    ) -> (r: Self)
        ensures
            r@.event_type == event_type@,
            r@.user_id == user_id@,
            r@.room_id == room_id@,
            r@.journey_id == (match journey_id {
                Some(s) => Some(s@),
                None => None::<Seq<char>>,
            }),
            r@.timestamp == timestamp as int,
            r@.payload == payload@,
            r@.metadata_json == metadata_json@,
            r@.event_id.len() == 36,
    {
        ProcessedEvent {
            event_type: event_type.to_owned(),
            user_id,
            room_id,
            journey_id,
            timestamp,
            payload,
            metadata_json,
            event_id: fresh_event_id(),
            server_timestamp: now_millis(),
        }
    }

    /// A field-for-field copy of the record.
    pub fn duplicate(&self) -> (r: Self)
        ensures
            r@ == self@,
    {
        let r = ProcessedEvent {
            event_type: self.event_type.clone(),
            user_id: self.user_id.clone(),
            room_id: self.room_id.clone(),
            journey_id: match &self.journey_id {
                Some(s) => Some(s.clone()),
                None => None,
            },
            timestamp: self.timestamp,
            payload: self.payload.clone(),
            metadata_json: self.metadata_json.clone(),
            event_id: self.event_id.clone(),
            server_timestamp: self.server_timestamp,
        };
        r
    }
}

} // verus!
