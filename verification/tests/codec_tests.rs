use event_pipeline::codec::{decode_record, encode_record};
use event_pipeline::model::ProcessedEvent;

fn sample_record() -> ProcessedEvent {
    ProcessedEvent {
        event_type: String::from("chat"),
        user_id: String::from("u1"),
        room_id: String::from("room-7"),
        journey_id: Some(String::from("j42")),
        timestamp: 1700000000123,
        payload: String::from("hi \"there\"\n"),
        metadata_json: String::from("{}"),
        event_id: String::from("e-0001"),
        server_timestamp: 1700000000456,
    }
}

#[test]
fn encode_has_exact_wire_form() {
    let enc = encode_record(&sample_record());
    let expected = "{\"event_type\":\"chat\",\"user_id\":\"u1\",\"room_id\":\"room-7\",\"journey_id\":\"j42\",\"timestamp\":1700000000123,\"payload\":\"hi \\\"there\\\"\\n\",\"metadata_json\":\"{}\",\"event_id\":\"e-0001\",\"server_timestamp\":1700000000456}";
    assert_eq!(enc, expected);
}

#[test]
fn encode_null_journey_and_negative_timestamp() {
    let rec = ProcessedEvent {
        event_type: String::from("join"),
        user_id: String::from("u"),
        room_id: String::from("r"),
        journey_id: None,
        timestamp: -42,
        payload: String::new(),
        metadata_json: String::from("{}"),
        event_id: String::from("e"),
        server_timestamp: 0,
    };
    let enc = encode_record(&rec);
    let expected = "{\"event_type\":\"join\",\"user_id\":\"u\",\"room_id\":\"r\",\"journey_id\":null,\"timestamp\":-42,\"payload\":\"\",\"metadata_json\":\"{}\",\"event_id\":\"e\",\"server_timestamp\":0}";
    assert_eq!(enc, expected);
}

fn assert_record_eq(a: &ProcessedEvent, b: &ProcessedEvent) {
    assert_eq!(a.event_type, b.event_type);
    assert_eq!(a.user_id, b.user_id);
    assert_eq!(a.room_id, b.room_id);
    assert_eq!(a.journey_id, b.journey_id);
    assert_eq!(a.timestamp, b.timestamp);
    assert_eq!(a.payload, b.payload);
    assert_eq!(a.metadata_json, b.metadata_json);
    assert_eq!(a.event_id, b.event_id);
    assert_eq!(a.server_timestamp, b.server_timestamp);
}

#[test]
fn round_trip_plain_record() {
    let rec = sample_record();
    let back = decode_record(&encode_record(&rec)).expect("decodes");
    assert_record_eq(&rec, &back);
}

#[test]
fn round_trip_awkward_characters() {
    let rec = ProcessedEvent {
        event_type: String::from("reaction"),
        user_id: String::from("tab\there"),
        room_id: String::from("back\\slash"),
        journey_id: Some(String::from("quo\"te")),
        timestamp: i64::MIN,
        payload: String::from("line1\nline2\rend"),
        metadata_json: String::from("{\"k\":\"v\"}"),
        event_id: String::from("ünïcode-βγ"),
        server_timestamp: i64::MAX,
    };
    let back = decode_record(&encode_record(&rec)).expect("decodes");
    assert_record_eq(&rec, &back);
}

#[test]
fn round_trip_none_journey() {
    let mut rec = sample_record();
    rec.journey_id = None;
    let back = decode_record(&encode_record(&rec)).expect("decodes");
    assert_record_eq(&rec, &back);
}

#[test]
fn decode_rejects_malformed_input() {
    assert!(decode_record("").is_none());
    assert!(decode_record("{}").is_none());
    assert!(decode_record("not json at all").is_none());
    let missing_brace = "{\"event_type\":\"x\",\"user_id\":\"u\",\"room_id\":\"r\",\"journey_id\":null,\"timestamp\":1,\"payload\":\"\",\"metadata_json\":\"\",\"event_id\":\"e\",\"server_timestamp\":2";
    assert!(decode_record(missing_brace).is_none());
    let trailing = "{\"event_type\":\"x\",\"user_id\":\"u\",\"room_id\":\"r\",\"journey_id\":null,\"timestamp\":1,\"payload\":\"\",\"metadata_json\":\"\",\"event_id\":\"e\",\"server_timestamp\":2}garbage";
    assert!(decode_record(trailing).is_none());
    let huge_timestamp = "{\"event_type\":\"x\",\"user_id\":\"u\",\"room_id\":\"r\",\"journey_id\":null,\"timestamp\":99999999999999999999,\"payload\":\"\",\"metadata_json\":\"\",\"event_id\":\"e\",\"server_timestamp\":2}";
    assert!(decode_record(huge_timestamp).is_none());
    let bad_escape = "{\"event_type\":\"\\q\",\"user_id\":\"u\",\"room_id\":\"r\",\"journey_id\":null,\"timestamp\":1,\"payload\":\"\",\"metadata_json\":\"\",\"event_id\":\"e\",\"server_timestamp\":2}";
    assert!(decode_record(bad_escape).is_none());
}

#[test]
fn decode_accepts_minimum_and_maximum_timestamps() {
    let wire = "{\"event_type\":\"x\",\"user_id\":\"u\",\"room_id\":\"r\",\"journey_id\":null,\"timestamp\":-9223372036854775808,\"payload\":\"\",\"metadata_json\":\"\",\"event_id\":\"e\",\"server_timestamp\":9223372036854775807}";
    let rec = decode_record(wire).expect("decodes");
    assert_eq!(rec.timestamp, i64::MIN);
    assert_eq!(rec.server_timestamp, i64::MAX);
}
