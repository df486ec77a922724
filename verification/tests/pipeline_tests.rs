use event_pipeline::consumer::{accept_message, record_flush, MessageOutcome};
use event_pipeline::event::{ChatEvent, Event, JoinEvent, LeaveEvent, ReactionEvent};
use event_pipeline::handoff::HandoffQueue;
use event_pipeline::ingress;
use event_pipeline::metrics;
use event_pipeline::model::ProcessedEvent;
use event_pipeline::processor::{
    delivered_reply, error_reply, process_event, publish_route, PublishRoute,
};
use event_pipeline::sink::{insert_statement, storage_row};

#[test]
fn metrics_init_and_counters() {
    let mut m = metrics::init();
    assert_eq!(m.total_events, 0);
    assert_eq!(m.total_errors, 0);
    assert_eq!(m.interval_secs, 5);
    metrics::record_success(&mut m);
    metrics::record_success(&mut m);
    metrics::record_error(&mut m);
    assert_eq!(m.total_events, 2);
    assert_eq!(m.total_errors, 1);
    let m10 = metrics::init_with_interval(10);
    assert_eq!(m10.interval_secs, 10);
    assert_eq!(m10.total_events, 0);
}

#[test]
fn flush_outcomes_update_the_counters() {
    let mut m = metrics::init();
    record_flush(&mut m, 500, true);
    assert_eq!(m.total_events, 500);
    assert_eq!(m.total_errors, 0);
    record_flush(&mut m, 123, false);
    assert_eq!(m.total_events, 500);
    assert_eq!(m.total_errors, 1);
}

#[test]
fn event_ids_of_sequential_records_are_distinct() {
    let mut ids: Vec<String> = Vec::new();
    for n in 0..100i64 {
        let rec = ProcessedEvent::new(
            "chat",
            String::from("u"),
            String::from("r"),
            None,
            n,
            String::new(),
            String::from("{}"),
        );
        assert_eq!(rec.event_id.len(), 36);
        ids.push(rec.event_id);
    }
    for i in 0..ids.len() {
        for j in (i + 1)..ids.len() {
            assert_ne!(ids[i], ids[j]);
        }
    }
}

#[test]
fn accept_message_forwards_a_valid_record() {
    let mut queue = HandoffQueue::with_capacity(10);
    let mut m = metrics::init();
    let wire = "{\"event_type\":\"chat\",\"user_id\":\"u\",\"room_id\":\"r\",\"journey_id\":null,\"timestamp\":1,\"payload\":\"p\",\"metadata_json\":\"{}\",\"event_id\":\"e\",\"server_timestamp\":2}";
    let outcome = accept_message(wire, &mut queue, &mut m);
    assert_eq!(outcome, MessageOutcome::Forwarded);
    assert_eq!(queue.len(), 1);
    assert_eq!(m.total_errors, 0);
    let rec = queue.recv().expect("forwarded record is pending");
    assert_eq!(rec.user_id, "u");
    assert_eq!(rec.payload, "p");
}

#[test]
fn accept_message_counts_a_decode_failure_and_forwards_nothing() {
    let mut queue = HandoffQueue::with_capacity(10);
    let mut m = metrics::init();
    let outcome = accept_message("not a record", &mut queue, &mut m);
    assert_eq!(outcome, MessageOutcome::DecodeFailed);
    assert_eq!(queue.len(), 0);
    assert_eq!(m.total_errors, 1);
}

#[test]
fn accept_message_drops_on_a_full_queue() {
    let mut queue = HandoffQueue::with_capacity(1);
    let mut m = metrics::init();
    let wire = "{\"event_type\":\"chat\",\"user_id\":\"u\",\"room_id\":\"r\",\"journey_id\":null,\"timestamp\":1,\"payload\":\"\",\"metadata_json\":\"{}\",\"event_id\":\"e\",\"server_timestamp\":2}";
    assert_eq!(accept_message(wire, &mut queue, &mut m), MessageOutcome::Forwarded);
    let outcome = accept_message(wire, &mut queue, &mut m);
    assert_eq!(outcome, MessageOutcome::Dropped);
    assert_eq!(queue.len(), 1);
    assert_eq!(m.total_errors, 1);
}

#[test]
fn chat_event_becomes_canonical_record() {
    let event = Event::Chat(ChatEvent {
        user_id: String::from("alice"),
        room_id: String::from("lobby"),
        journey_id: Some(String::from("j1")),
        timestamp: 77,
        message: Some(String::from("hello")),
        message_type: Some(String::from("reply")),
        chat_type: Some(String::from("group")),
        message_id: Some(String::from("m9")),
        created_at: None,
        updated_at: None,
    });
    let rec = process_event(event);
    assert_eq!(rec.event_type, "chat");
    assert_eq!(rec.user_id, "alice");
    assert_eq!(rec.room_id, "lobby");
    assert_eq!(rec.journey_id, Some(String::from("j1")));
    assert_eq!(rec.timestamp, 77);
    assert_eq!(rec.payload, "hello");
    assert_eq!(
        rec.metadata_json,
        "{\"chat_type\":\"group\",\"message_id\":\"m9\",\"message_type\":\"reply\"}"
    );
    assert_eq!(rec.event_id.len(), 36);
}

#[test]
fn chat_event_without_message_has_empty_payload_and_null_metadata() {
    let event = Event::Chat(ChatEvent {
        user_id: String::from("u"),
        room_id: String::from("r"),
        journey_id: None,
        timestamp: 1,
        message: None,
        message_type: None,
        chat_type: None,
        message_id: None,
        created_at: None,
        updated_at: None,
    });
    let rec = process_event(event);
    assert_eq!(rec.payload, "");
    assert_eq!(rec.journey_id, None);
    assert_eq!(
        rec.metadata_json,
        "{\"chat_type\":null,\"message_id\":null,\"message_type\":null}"
    );
}

#[test]
fn join_and_leave_events_become_bare_records() {
    let join = process_event(Event::Join(JoinEvent {
        user_id: String::from("u"),
        room_id: String::from("r"),
        room_action: Some(String::from("open")),
        timestamp: 5,
        created_at: None,
        updated_at: None,
    }));
    assert_eq!(join.event_type, "join");
    assert_eq!(join.payload, "");
    assert_eq!(join.metadata_json, "{}");
    assert_eq!(join.journey_id, None);
    let leave = process_event(Event::Leave(LeaveEvent {
        user_id: String::from("u"),
        room_id: String::from("r"),
        room_action: Some(String::from("leave")),
        timestamp: 6,
        created_at: None,
        updated_at: None,
    }));
    assert_eq!(leave.event_type, "leave");
    assert_eq!(leave.metadata_json, "{}");
}

#[test]
fn reaction_event_carries_emoji_and_target() {
    let rec = process_event(Event::Reaction(ReactionEvent {
        user_id: String::from("bob"),
        target_user_id: Some(String::from("alice")),
        room_id: String::from("lobby"),
        message_id: String::from("m1"),
        emoji: String::from("🎉"),
        timestamp: 9,
        created_at: None,
        updated_at: None,
    }));
    assert_eq!(rec.event_type, "reaction");
    assert_eq!(rec.payload, "🎉");
    assert_eq!(
        rec.metadata_json,
        "{\"message_id\":\"m1\",\"target_user_id\":\"alice\"}"
    );
}

#[test]
fn publish_routes_by_source_name() {
    assert_eq!(publish_route(&String::from("redpanda")), Some(PublishRoute::Redpanda));
    assert_eq!(publish_route(&String::from("mock")), Some(PublishRoute::Mock));
    assert_eq!(publish_route(&String::from("kafka")), None);
    assert_eq!(publish_route(&String::from("")), None);
}

#[test]
fn ingestion_replies_have_exact_bodies() {
    let ok = delivered_reply(&String::from("abc-123"));
    assert_eq!(
        ok,
        "{\"ok\":true,\"status\":\"delivered\",\"event_id\":\"abc-123\",\"topic\":\"chat_events\"}"
    );
    let err = error_reply(&String::from("broker \"down\""));
    assert_eq!(err, "{\"ok\":false,\"error\":\"broker \\\"down\\\"\"}");
}

#[test]
fn storage_row_binds_columns_in_schema_order() {
    let rec = ProcessedEvent {
        event_type: String::from("chat"),
        user_id: String::from("u"),
        room_id: String::from("r"),
        journey_id: None,
        timestamp: 1,
        payload: String::from("p"),
        metadata_json: String::from("{}"),
        event_id: String::from("e"),
        server_timestamp: 2,
    };
    let row = storage_row(&rec);
    assert_eq!(row.room_id, "r");
    assert_eq!(row.timestamp, 1);
    assert_eq!(row.event_id, "e");
    assert_eq!(row.event_type, "chat");
    assert_eq!(row.user_id, "u");
    assert_eq!(row.payload, "p");
    assert_eq!(row.metadata_json, "{}");
    assert_eq!(row.server_timestamp, 2);
    assert_eq!(
        insert_statement(),
        "INSERT INTO messages (room_id, timestamp, event_id, event_type, user_id, payload, metadata_json, server_timestamp) VALUES (?, ?, ?, ?, ?, ?, ?, ?)"
    );
}

#[test]
fn ingress_routing_key_is_the_room() {
    let chat = ingress::Event::Chat(ingress::ChatEvent {
        user_id: String::from("u"),
        room_id: String::from("room-a"),
        journey_id: None,
        timestamp: 1,
        message: String::from("m"),
        message_type: String::from("standard"),
        chat_type: String::from("single"),
    });
    assert_eq!(ingress::routing_key(&chat).as_str(), "room-a");
    let reaction = ingress::Event::Reaction(ingress::ReactionEvent {
        user_id: String::from("u"),
        room_id: String::from("room-b"),
        message_id: String::from("m"),
        emoji: String::from("x"),
        timestamp: 2,
    });
    assert_eq!(ingress::routing_key(&reaction).as_str(), "room-b");
}

#[test]
fn wire_conversion_defaults_a_missing_journey_to_empty() {
    let chat = ingress::Event::Chat(ingress::ChatEvent {
        user_id: String::from("u"),
        room_id: String::from("r"),
        journey_id: None,
        timestamp: 3,
        message: String::from("hi"),
        message_type: String::from("standard"),
        chat_type: String::from("global"),
    });
    let wire = ingress::to_wire(chat);
    match wire.kind {
        Some(ingress::WireKind::Chat(x)) => {
            assert_eq!(x.journey_id, "");
            assert_eq!(x.user_id, "u");
            assert_eq!(x.room_id, "r");
            assert_eq!(x.timestamp, 3);
            assert_eq!(x.message, "hi");
            assert_eq!(x.message_type, "standard");
            assert_eq!(x.chat_type, "global");
        },
        _ => panic!("chat converts to the chat wire kind"),
    }
    let join = ingress::to_wire(ingress::Event::Join(ingress::JoinEvent {
        user_id: String::from("u"),
        room_id: String::from("r"),
        timestamp: 4,
    }));
    match join.kind {
        Some(ingress::WireKind::Join(x)) => {
            assert_eq!(x.timestamp, 4);
        },
        _ => panic!("join converts to the join wire kind"),
    }
    let leave = ingress::to_wire(ingress::Event::Leave(ingress::LeaveEvent {
        user_id: String::from("u"),
        room_id: String::from("r"),
        timestamp: 5,
    }));
    assert!(matches!(leave.kind, Some(ingress::WireKind::Leave(_))));
    let reaction = ingress::to_wire(ingress::Event::Reaction(ingress::ReactionEvent {
        user_id: String::from("u"),
        room_id: String::from("r"),
        message_id: String::from("m"),
        emoji: String::from("e"),
        timestamp: 6,
    }));
    match reaction.kind {
        Some(ingress::WireKind::Reaction(x)) => {
            assert_eq!(x.emoji, "e");
            assert_eq!(x.message_id, "m");
        },
        _ => panic!("reaction converts to the reaction wire kind"),
    }
}
