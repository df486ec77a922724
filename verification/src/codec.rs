//! The record codec: a record is carried on the queue as one flat JSON
//! object with the fields in declaration order. `encode_record` renders
//! that form; `decode_record` parses it back, rejecting anything else.
//! The round-trip law `lemma_decode_encode` states that decoding an
//! encoded record gives back exactly the record.

use vstd::prelude::*;
use crate::json::{
    esc_str, int_dec, parse_i64_at, parse_lit, parse_string_body, parse_opt_quoted, push_dec_i64,
    push_escaped, push_str_chars, str_chars, chars_to_string, expect_lit, parse_string_exec,
    parse_i64_exec, lemma_parse_esc, lemma_parse_int_dec, is_dec_digit,
};
use crate::model::{EventView, ProcessedEvent};

verus! {

/// A string field's escaped body followed by its closing quote.
pub open spec fn quoted_tail(s: Seq<char>) -> Seq<char> {
    esc_str(s) + seq!['"']
}

/// An optional string field: `null`, or a full quoted string.
pub open spec fn opt_json(o: Option<Seq<char>>) -> Seq<char> {
    match o {
        Some(s) => seq!['"'] + esc_str(s) + seq!['"'],
        None => "null"@,
    }
}

/// The wire form of a record.
pub open spec fn encode_spec(v: EventView) -> Seq<char> {
    "{\"event_type\":\""@ + quoted_tail(v.event_type) + ",\"user_id\":\""@ + quoted_tail(
        v.user_id,
    ) + ",\"room_id\":\""@ + quoted_tail(v.room_id) + ",\"journey_id\":"@ + opt_json(
        v.journey_id,
    ) + ",\"timestamp\":"@ + int_dec(v.timestamp) + ",\"payload\":\""@ + quoted_tail(v.payload)
        + ",\"metadata_json\":\""@ + quoted_tail(v.metadata_json) + ",\"event_id\":\""@
        + quoted_tail(v.event_id) + ",\"server_timestamp\":"@ + int_dec(v.server_timestamp)
        + "}"@
}

/// A key literal followed by a string body (the literal ends with the
/// opening quote; the body parse consumes the closing one).
pub open spec fn parse_str_field(s: Seq<char>, i: int, key: Seq<char>) -> Option<(Seq<char>, int)> {
    match parse_lit(s, i, key) {
        Some(j) => parse_string_body(s, j),
        None => None,
    }
}

/// A key literal followed by a decimal integer.
pub open spec fn parse_int_field(s: Seq<char>, i: int, key: Seq<char>) -> Option<(int, int)> {
    match parse_lit(s, i, key) {
        Some(j) => parse_i64_at(s, j),
        None => None,
    }
}

/// A key literal followed by `null` or a quoted string.
pub open spec fn parse_opt_field(s: Seq<char>, i: int, key: Seq<char>) -> Option<
    (Option<Seq<char>>, int),
> {
    match parse_lit(s, i, key) {
        Some(j) => parse_opt_quoted(s, j),
        None => None,
    }
}

/// What decoding a wire string yields: the record view, if the string is
/// exactly the wire form of one record; nothing otherwise.
pub open spec fn decode_spec(s: Seq<char>) -> Option<EventView> {
    match parse_str_field(s, 0, "{\"event_type\":\""@) {
        None => None,
        Some(et) => match parse_str_field(s, et.1, ",\"user_id\":\""@) {
            None => None,
            Some(uid) => match parse_str_field(s, uid.1, ",\"room_id\":\""@) {
                None => None,
                Some(rid) => match parse_opt_field(s, rid.1, ",\"journey_id\":"@) {
                    None => None,
                    Some(jid) => match parse_int_field(s, jid.1, ",\"timestamp\":"@) {
                        None => None,
                        Some(ts) => match parse_str_field(s, ts.1, ",\"payload\":\""@) {
                            None => None,
                            Some(pl) => match parse_str_field(s, pl.1, ",\"metadata_json\":\""@) {
                                None => None,
                                Some(md) => match parse_str_field(s, md.1, ",\"event_id\":\""@) {
                                    None => None,
                                    Some(eid) => match parse_int_field(
                                        s,
                                        eid.1,
                                        ",\"server_timestamp\":"@,
                                    ) {
                                        None => None,
                                        Some(st) => match parse_lit(s, st.1, "}"@) {
                                            None => None,
                                            Some(end) => if end == s.len() {
                                                Some(
                                                    EventView {
                                                        event_type: et.0,
                                                        user_id: uid.0,
                                                        room_id: rid.0,
                                                        journey_id: jid.0,
                                                        timestamp: ts.0,
                                                        payload: pl.0,
                                                        metadata_json: md.0,
                                                        event_id: eid.0,
                                                        server_timestamp: st.0,
                                                    },
                                                )
                                            } else {
                                                None
                                            },
                                        },
                                    },
                                },
                            },
                        },
                    },
                },
            },
        },
    }
}

/// Append a string field's escaped body and closing quote.
fn push_field_tail(out: &mut Vec<char>, s: &String)
    ensures
        final(out)@ == old(out)@ + quoted_tail(s@),
{
    let cs = str_chars(s.as_str());
    push_escaped(out, &cs);
    out.push('"');
    proof {
        assert(old(out)@ + esc_str(s@) + seq!['"'] =~= old(out)@ + quoted_tail(s@));
    }
}

/// Render the record in its wire form.
pub fn encode_record(rec: &ProcessedEvent) -> (r: String)
    ensures
        r@ == encode_spec(rec@),
{
    let mut out: Vec<char> = Vec::new();
    push_str_chars(&mut out, "{\"event_type\":\"");
    push_field_tail(&mut out, &rec.event_type);
    push_str_chars(&mut out, ",\"user_id\":\"");
    push_field_tail(&mut out, &rec.user_id);
    push_str_chars(&mut out, ",\"room_id\":\"");
    push_field_tail(&mut out, &rec.room_id);
    push_str_chars(&mut out, ",\"journey_id\":");
    match &rec.journey_id {
        Some(js) => {
            out.push('"');
            push_field_tail(&mut out, js);
            proof {
                assert(opt_json(rec@.journey_id) =~= seq!['"'] + quoted_tail(js@));
            }
        },
        None => {
            push_str_chars(&mut out, "null");
        },
    }
    push_str_chars(&mut out, ",\"timestamp\":");
    push_dec_i64(&mut out, rec.timestamp);
    push_str_chars(&mut out, ",\"payload\":\"");
    push_field_tail(&mut out, &rec.payload);
    push_str_chars(&mut out, ",\"metadata_json\":\"");
    push_field_tail(&mut out, &rec.metadata_json);
    push_str_chars(&mut out, ",\"event_id\":\"");
    push_field_tail(&mut out, &rec.event_id);
    push_str_chars(&mut out, ",\"server_timestamp\":");
    push_dec_i64(&mut out, rec.server_timestamp);
    push_str_chars(&mut out, "}");
    proof {
        assert(out@ =~= encode_spec(rec@));
    }
    chars_to_string(&out)
}

fn parse_str_field_exec(s: &Vec<char>, from: usize, key: &str) -> (r: Option<(String, usize)>)
    requires
        from <= s@.len(),
    ensures
        match r {
            Some(p) => parse_str_field(s@, from as int, key@) == Some((p.0@, p.1 as int)) && p.1
                <= s@.len(),
            None => parse_str_field(s@, from as int, key@) is None,
        },
{
    match expect_lit(s, from, key) {
        Some(j) => parse_string_exec(s, j),
        None => None,
    }
}

fn parse_int_field_exec(s: &Vec<char>, from: usize, key: &str) -> (r: Option<(i64, usize)>)
    requires
        from <= s@.len(),
    ensures
        match r {
            Some(p) => parse_int_field(s@, from as int, key@) == Some((p.0 as int, p.1 as int))
                && p.1 <= s@.len(),
            None => parse_int_field(s@, from as int, key@) is None,
        },
{
    match expect_lit(s, from, key) {
        Some(j) => parse_i64_exec(s, j),
        None => None,
    }
}

/// View of an optional owned string.
pub open spec fn opt_str_view(o: Option<String>) -> Option<Seq<char>> {
    match o {
        Some(x) => Some(x@),
        None => None,
    }
}

fn parse_opt_field_exec(s: &Vec<char>, from: usize, key: &str) -> (r: Option<
    (Option<String>, usize),
>)
    requires
        from <= s@.len(),
    ensures
        match r {
            Some(p) => parse_opt_field(s@, from as int, key@) == Some(
                (opt_str_view(p.0), p.1 as int),
            ) && p.1 <= s@.len(),
            None => parse_opt_field(s@, from as int, key@) is None,
        },
{
    proof {
        reveal_strlit("null");
    }
    let j = match expect_lit(s, from, key) {
        Some(j) => j,
        None => {
            return None;
        },
    };
    match expect_lit(s, j, "null") {
        Some(e) => Some((None, e)),
        None => {
            if j < s.len() && s[j] == '"' {
                match parse_string_exec(s, j + 1) {
                    Some(p) => Some((Some(p.0), p.1)),
                    None => None,
                }
            } else {
                None
            }
        },
    }
}

/// Parse a wire string back into a record, exactly as `decode_spec` says.
pub fn decode_record(s: &str) -> (r: Option<ProcessedEvent>)
    ensures
        match r {
            Some(rec) => decode_spec(s@) == Some(rec@),
            None => decode_spec(s@) is None,
        },
{
    let cs = str_chars(s);
    let et = match parse_str_field_exec(&cs, 0, "{\"event_type\":\"") {
        Some(p) => p,
        None => {
            return None;
        },
    };
    let uid = match parse_str_field_exec(&cs, et.1, ",\"user_id\":\"") {
        Some(p) => p,
        None => {
            return None;
        },
    };
    let rid = match parse_str_field_exec(&cs, uid.1, ",\"room_id\":\"") {
        Some(p) => p,
        None => {
            return None;
        },
    };
    let jid = match parse_opt_field_exec(&cs, rid.1, ",\"journey_id\":") {
        Some(p) => p,
        None => {
            return None;
        },
    };
    let ts = match parse_int_field_exec(&cs, jid.1, ",\"timestamp\":") {
        Some(p) => p,
        None => {
            return None;
        },
    };
    let pl = match parse_str_field_exec(&cs, ts.1, ",\"payload\":\"") {
        Some(p) => p,
        None => {
            return None;
        },
    };
    let md = match parse_str_field_exec(&cs, pl.1, ",\"metadata_json\":\"") {
        Some(p) => p,
        None => {
            return None;
        },
    };
    let eid = match parse_str_field_exec(&cs, md.1, ",\"event_id\":\"") {
        Some(p) => p,
        None => {
            return None;
        },
    };
    let st = match parse_int_field_exec(&cs, eid.1, ",\"server_timestamp\":") {
        Some(p) => p,
        None => {
            return None;
        },
    };
    let end = match expect_lit(&cs, st.1, "}") {
        Some(e) => e,
        None => {
            return None;
        },
    };
    if end != cs.len() {
        return None;
    }
    Some(
        ProcessedEvent {
            event_type: et.0,
            user_id: uid.0,
            room_id: rid.0,
            journey_id: jid.0,
            timestamp: ts.0,
            payload: pl.0,
            metadata_json: md.0,
            event_id: eid.0,
            server_timestamp: st.0,
        },
    )
}

/// Round-trip law: decoding the wire form of any record gives back
/// exactly that record, field for field.
#[verifier::rlimit(100)]
pub proof fn lemma_decode_encode(v: EventView)
    requires
        v.wf(),
    ensures
        decode_spec(encode_spec(v)) == Some(v),
{
    reveal_strlit("{\"event_type\":\"");
    reveal_strlit(",\"user_id\":\"");
    reveal_strlit(",\"room_id\":\"");
    reveal_strlit(",\"journey_id\":");
    reveal_strlit(",\"timestamp\":");
    reveal_strlit(",\"payload\":\"");
    reveal_strlit(",\"metadata_json\":\"");
    reveal_strlit(",\"event_id\":\"");
    reveal_strlit(",\"server_timestamp\":");
    reveal_strlit("}");
    reveal_strlit("null");
    let l1 = "{\"event_type\":\""@;
    let l2 = ",\"user_id\":\""@;
    let l3 = ",\"room_id\":\""@;
    let l4 = ",\"journey_id\":"@;
    let l5 = ",\"timestamp\":"@;
    let l6 = ",\"payload\":\""@;
    let l7 = ",\"metadata_json\":\""@;
    let l8 = ",\"event_id\":\""@;
    let l9 = ",\"server_timestamp\":"@;
    let l10 = "}"@;
    let e_et = quoted_tail(v.event_type);
    let e_uid = quoted_tail(v.user_id);
    let e_rid = quoted_tail(v.room_id);
    let e_jid = opt_json(v.journey_id);
    let e_ts = int_dec(v.timestamp);
    let e_pl = quoted_tail(v.payload);
    let e_md = quoted_tail(v.metadata_json);
    let e_eid = quoted_tail(v.event_id);
    let e_st = int_dec(v.server_timestamp);
    let s = encode_spec(v);
    let a1 = l1.len() as int;
    let b1 = a1 + e_et.len();
    let a2 = b1 + l2.len();
    let b2 = a2 + e_uid.len();
    let a3 = b2 + l3.len();
    let b3 = a3 + e_rid.len();
    let a4 = b3 + l4.len();
    let b4 = a4 + e_jid.len();
    let a5 = b4 + l5.len();
    let b5 = a5 + e_ts.len();
    let a6 = b5 + l6.len();
    let b6 = a6 + e_pl.len();
    let a7 = b6 + l7.len();
    let b7 = a7 + e_md.len();
    let a8 = b7 + l8.len();
    let b8 = a8 + e_eid.len();
    let a9 = b8 + l9.len();
    let b9 = a9 + e_st.len();
    let fin = b9 + l10.len();
    assert(s.len() == fin);

    // event_type
    assert(s.subrange(0, a1) =~= l1);
    assert(s.subrange(a1, a1 + esc_str(v.event_type).len() + 1) =~= esc_str(v.event_type) + seq![
        '"',
    ]);
    lemma_parse_esc(s, a1, v.event_type);
    assert(parse_str_field(s, 0, l1) == Some((v.event_type, b1)));

    // user_id
    assert(s.subrange(b1, a2) =~= l2);
    assert(s.subrange(a2, a2 + esc_str(v.user_id).len() + 1) =~= esc_str(v.user_id) + seq!['"']);
    lemma_parse_esc(s, a2, v.user_id);
    assert(parse_str_field(s, b1, l2) == Some((v.user_id, b2)));

    // room_id
    assert(s.subrange(b2, a3) =~= l3);
    assert(s.subrange(a3, a3 + esc_str(v.room_id).len() + 1) =~= esc_str(v.room_id) + seq!['"']);
    lemma_parse_esc(s, a3, v.room_id);
    assert(parse_str_field(s, b2, l3) == Some((v.room_id, b3)));

    // journey_id
    assert(s.subrange(b3, a4) =~= l4);
    match v.journey_id {
        Some(js) => {
            assert(e_jid == seq!['"'] + esc_str(js) + seq!['"']);
            assert(s[a4] == '"');
            assert(parse_lit(s, a4, "null"@) is None) by {
                if parse_lit(s, a4, "null"@) is Some {
                    assert(s.subrange(a4, a4 + 4)[0] == s[a4]);
                    assert("null"@[0] == 'n');
                }
            }
            assert(s.subrange(a4 + 1, a4 + 1 + esc_str(js).len() + 1) =~= esc_str(js) + seq!['"']);
            lemma_parse_esc(s, a4 + 1, js);
            assert(parse_opt_field(s, b3, l4) == Some((Some(js), b4)));
        },
        None => {
            assert(e_jid == "null"@);
            assert(s.subrange(a4, a4 + 4) =~= "null"@);
            assert(parse_opt_field(s, b3, l4) == Some((None::<Seq<char>>, b4)));
        },
    }

    // timestamp
    assert(s.subrange(b4, a5) =~= l5);
    assert(s.subrange(a5, a5 + e_ts.len() as int) =~= e_ts);
    assert(!is_dec_digit(s[a5 + e_ts.len()])) by {
        assert(s[b5] == l6[0]);
    }
    lemma_parse_int_dec(s, a5, v.timestamp);
    assert(parse_int_field(s, b4, l5) == Some((v.timestamp, b5)));

    // payload
    assert(s.subrange(b5, a6) =~= l6);
    assert(s.subrange(a6, a6 + esc_str(v.payload).len() + 1) =~= esc_str(v.payload) + seq!['"']);
    lemma_parse_esc(s, a6, v.payload);
    assert(parse_str_field(s, b5, l6) == Some((v.payload, b6)));

    // metadata_json
    assert(s.subrange(b6, a7) =~= l7);
    assert(s.subrange(a7, a7 + esc_str(v.metadata_json).len() + 1) =~= esc_str(v.metadata_json)
        + seq!['"']);
    lemma_parse_esc(s, a7, v.metadata_json);
    assert(parse_str_field(s, b6, l7) == Some((v.metadata_json, b7)));

    // event_id
    assert(s.subrange(b7, a8) =~= l8);
    assert(s.subrange(a8, a8 + esc_str(v.event_id).len() + 1) =~= esc_str(v.event_id) + seq!['"']);
    lemma_parse_esc(s, a8, v.event_id);
    assert(parse_str_field(s, b7, l8) == Some((v.event_id, b8)));

    // server_timestamp
    assert(s.subrange(b8, a9) =~= l9);
    assert(s.subrange(a9, a9 + e_st.len() as int) =~= e_st);
    assert(!is_dec_digit(s[a9 + e_st.len()])) by {
        assert(s[b9] == l10[0]);
    }
    lemma_parse_int_dec(s, a9, v.server_timestamp);
    assert(parse_int_field(s, b8, l9) == Some((v.server_timestamp, b9)));

    // closing brace and end of input
    assert(s.subrange(b9, fin) =~= l10);
    assert(parse_lit(s, b9, l10) == Some(fin));
    assert(decode_spec(s) == Some(v));
}

} // verus!
