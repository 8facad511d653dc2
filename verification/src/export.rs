//! Events as JSON objects with their payload inlined, for exports and live streams.

use vstd::prelude::*;
use crate::events::Event;
use crate::json::{
    lemma_key_pos, lemma_key_pos_at, lemma_members_view, member, members_view, Json,
    JsonNumber, JsonV, NumberV,
};
use crate::text::str_eq;

verus! {

broadcast use vstd::std_specs::vec::group_vec_axioms, crate::json::group_json_view;

/// An optional string as a JSON value: the string, or `null`.
pub open spec fn opt_string_value(s: Option<String>) -> JsonV {
    match s {
        Some(t) => JsonV::Str(t@),
        None => JsonV::Null,
    }
}

/// An integer as a JSON number, as `serde_json` stores it.
pub open spec fn int_value(n: i64) -> JsonV {
    if n >= 0 {
        JsonV::Number(NumberV::PosInt(n as u64))
    } else {
        JsonV::Number(NumberV::NegInt(n))
    }
}

/// The members of an event row as a JSON object, column by column.
pub open spec fn event_members(e: Event) -> Seq<(Seq<char>, JsonV)> {
    seq![
        ("id"@, int_value(e.id)),
        ("event_uuid"@, JsonV::Str(e.event_uuid@)),
        ("session_id"@, JsonV::Str(e.session_id@)),
        ("event_type"@, JsonV::Str(e.event_type@)),
        ("timestamp"@, JsonV::Str(e.timestamp@)),
        ("tool_name"@, opt_string_value(e.tool_name)),
        ("tool_use_id"@, opt_string_value(e.tool_use_id)),
        ("cwd"@, opt_string_value(e.cwd)),
        ("payload_path"@, opt_string_value(e.payload_path)),
        ("metadata_json"@, opt_string_value(e.metadata_json)),
    ]
}

/// An optional value, taken by its view.
pub open spec fn opt_json(p: Option<Json>) -> Option<JsonV> {
    match p {
        Some(x) => Some(x@),
        None => None,
    }
}

/// The members of an export object: the row, then `payload` when there is one.
pub open spec fn export_members(e: Event, payload: Option<JsonV>) -> Seq<(Seq<char>, JsonV)> {
    match payload {
        Some(p) => event_members(e).push(("payload"@, p)),
        None => event_members(e),
    }
}

fn opt_string_json(s: &Option<String>) -> (r: Json)
    ensures
        r@ == opt_string_value(*s),
{
    match s {
        Some(t) => Json::Str(t.clone()),
        None => Json::Null,
    }
}

fn int_json(n: i64) -> (r: Json)
    ensures
        r@ == int_value(n),
{
    if n >= 0 {
        Json::Number(JsonNumber::PosInt(n as u64))
    } else {
        Json::Number(JsonNumber::NegInt(n))
    }
}

/// An event row as a JSON object with `payload` added when one is given: the form that
/// exports and streams emit.
pub fn event_to_export_value(e: &Event, payload: Option<Json>) -> (r: Json)
    ensures
        r@ == JsonV::Object(export_members(*e, opt_json(payload))),
{
    let mut m: Vec<(String, Json)> = Vec::new();
    m.push(("id".to_string(), int_json(e.id)));
    m.push(("event_uuid".to_string(), Json::Str(e.event_uuid.clone())));
    m.push(("session_id".to_string(), Json::Str(e.session_id.clone())));
    m.push(("event_type".to_string(), Json::Str(e.event_type.clone())));
    m.push(("timestamp".to_string(), Json::Str(e.timestamp.clone())));
    m.push(("tool_name".to_string(), opt_string_json(&e.tool_name)));
    m.push(("tool_use_id".to_string(), opt_string_json(&e.tool_use_id)));
    m.push(("cwd".to_string(), opt_string_json(&e.cwd)));
    m.push(("payload_path".to_string(), opt_string_json(&e.payload_path)));
    m.push(("metadata_json".to_string(), opt_string_json(&e.metadata_json)));
    let ghost pv = opt_json(payload);
    if let Some(p) = payload {
        m.push(("payload".to_string(), p));
    }
    proof {
        lemma_members_view(m@);
        assert(members_view(m@) =~= export_members(*e, pv));
    }
    Json::Object(m)
}

/// Where an event's payload comes from: its file when it has one, else the metadata text
/// stored inline.
#[derive(Clone, Debug)]
pub enum PayloadSource {
    File(String),
    Inline(String),
    Absent,
}

/// Where the payload of an exported or streamed event is read from.
pub fn export_payload_source(e: &Event) -> (r: PayloadSource)
    ensures
        match e.payload_path {
            Some(p) => r matches PayloadSource::File(f) && f@ == p@,
            None => match e.metadata_json {
                Some(m) => r matches PayloadSource::Inline(t) && t@ == m@,
                None => r matches PayloadSource::Absent,
            },
        },
{
    match &e.payload_path {
        Some(p) => PayloadSource::File(p.clone()),
        None => match &e.metadata_json {
            Some(m) => PayloadSource::Inline(m.clone()),
            None => PayloadSource::Absent,
        },
    }
}

/// What a stream does with a batch of new events, in order.
#[derive(Clone, Copy, Debug, PartialEq, Eq, Structural)]
pub struct StreamBatch {
    /// How many events of the batch to emit, from the first.
    pub emit: usize,
    /// The highest event id seen once they are emitted.
    pub last_id: i64,
    /// The last one emitted ends the session: the stream stops after it.
    pub ends: bool,
}

/// Position of the first `SessionEnd` event from position `i` on, or the length.
pub open spec fn end_from(events: Seq<Event>, i: int) -> int
    decreases events.len() - i,
{
    if i < 0 || i >= events.len() {
        events.len() as int
    } else if events[i].event_type@ == "SessionEnd"@ {
        i
    } else {
        end_from(events, i + 1)
    }
}

/// The highest of `last_id` and the ids of the first `k` events.
pub open spec fn max_id(last_id: i64, events: Seq<Event>, k: int) -> i64
    decreases k,
{
    if k <= 0 {
        last_id
    } else {
        let m = max_id(last_id, events, k - 1);
        if events[k - 1].id > m {
            events[k - 1].id
        } else {
            m
        }
    }
}

/// Plans the emission of a batch of events: all of them up to and including the first
/// `SessionEnd`, which ends the stream.
pub fn stream_batch(last_id: i64, events: &Vec<Event>) -> (r: StreamBatch)
    ensures
        r.emit == if end_from(events@, 0) < events@.len() {
            end_from(events@, 0) + 1
        } else {
            events@.len() as int
        },
        r.ends == (end_from(events@, 0) < events@.len()),
        r.last_id == max_id(last_id, events@, r.emit as int),
{
    let n: usize = events.len();
    let mut top = last_id;
    let mut i: usize = 0;
    while i < n
        invariant
            n == events@.len(),
            i <= n,
            end_from(events@, 0) == end_from(events@, i as int),
            top == max_id(last_id, events@, i as int),
        decreases n - i,
    {
        if events[i].id > top {
            top = events[i].id;
        }
        if str_eq(events[i].event_type.as_str(), "SessionEnd") {
            return StreamBatch { emit: i + 1, last_id: top, ends: true };
        }
        i = i + 1;
    }
    StreamBatch { emit: n, last_id: top, ends: false }
}

/// The member names of an export object differ from one another.
proof fn lemma_export_keys_distinct()
    ensures
        "id"@ != "event_uuid"@,
        "id"@ != "session_id"@,
        "event_uuid"@ != "session_id"@,
        "id"@ != "event_type"@,
        "event_uuid"@ != "event_type"@,
        "session_id"@ != "event_type"@,
        "id"@ != "timestamp"@,
        "event_uuid"@ != "timestamp"@,
        "session_id"@ != "timestamp"@,
        "event_type"@ != "timestamp"@,
        "id"@ != "tool_name"@,
        "event_uuid"@ != "tool_name"@,
        "session_id"@ != "tool_name"@,
        "event_type"@ != "tool_name"@,
        "timestamp"@ != "tool_name"@,
        "id"@ != "tool_use_id"@,
        "event_uuid"@ != "tool_use_id"@,
        "session_id"@ != "tool_use_id"@,
        "event_type"@ != "tool_use_id"@,
        "timestamp"@ != "tool_use_id"@,
        "tool_name"@ != "tool_use_id"@,
        "id"@ != "cwd"@,
        "event_uuid"@ != "cwd"@,
        "session_id"@ != "cwd"@,
        "event_type"@ != "cwd"@,
        "timestamp"@ != "cwd"@,
        "tool_name"@ != "cwd"@,
        "tool_use_id"@ != "cwd"@,
        "id"@ != "payload_path"@,
        "event_uuid"@ != "payload_path"@,
        "session_id"@ != "payload_path"@,
        "event_type"@ != "payload_path"@,
        "timestamp"@ != "payload_path"@,
        "tool_name"@ != "payload_path"@,
        "tool_use_id"@ != "payload_path"@,
        "cwd"@ != "payload_path"@,
        "id"@ != "metadata_json"@,
        "event_uuid"@ != "metadata_json"@,
        "session_id"@ != "metadata_json"@,
        "event_type"@ != "metadata_json"@,
        "timestamp"@ != "metadata_json"@,
        "tool_name"@ != "metadata_json"@,
        "tool_use_id"@ != "metadata_json"@,
        "cwd"@ != "metadata_json"@,
        "payload_path"@ != "metadata_json"@,
        "id"@ != "payload"@,
        "event_uuid"@ != "payload"@,
        "session_id"@ != "payload"@,
        "event_type"@ != "payload"@,
        "timestamp"@ != "payload"@,
        "tool_name"@ != "payload"@,
        "tool_use_id"@ != "payload"@,
        "cwd"@ != "payload"@,
        "payload_path"@ != "payload"@,
        "metadata_json"@ != "payload"@,
{
    reveal_strlit("id");
    reveal_strlit("event_uuid");
    reveal_strlit("session_id");
    reveal_strlit("event_type");
    reveal_strlit("timestamp");
    reveal_strlit("tool_name");
    reveal_strlit("tool_use_id");
    reveal_strlit("cwd");
    reveal_strlit("payload_path");
    reveal_strlit("metadata_json");
    reveal_strlit("payload");
    assert("id"@.len() != "event_uuid"@.len());
    assert("id"@.len() != "session_id"@.len());
    assert("event_uuid"@[0] != "session_id"@[0]);
    assert("id"@.len() != "event_type"@.len());
    assert("event_uuid"@[6] != "event_type"@[6]);
    assert("session_id"@[0] != "event_type"@[0]);
    assert("id"@.len() != "timestamp"@.len());
    assert("event_uuid"@.len() != "timestamp"@.len());
    assert("session_id"@.len() != "timestamp"@.len());
    assert("event_type"@.len() != "timestamp"@.len());
    assert("id"@.len() != "tool_name"@.len());
    assert("event_uuid"@.len() != "tool_name"@.len());
    assert("session_id"@.len() != "tool_name"@.len());
    assert("event_type"@.len() != "tool_name"@.len());
    assert("timestamp"@[1] != "tool_name"@[1]);
    assert("id"@.len() != "tool_use_id"@.len());
    assert("event_uuid"@.len() != "tool_use_id"@.len());
    assert("session_id"@.len() != "tool_use_id"@.len());
    assert("event_type"@.len() != "tool_use_id"@.len());
    assert("timestamp"@.len() != "tool_use_id"@.len());
    assert("tool_name"@.len() != "tool_use_id"@.len());
    assert("id"@.len() != "cwd"@.len());
    assert("event_uuid"@.len() != "cwd"@.len());
    assert("session_id"@.len() != "cwd"@.len());
    assert("event_type"@.len() != "cwd"@.len());
    assert("timestamp"@.len() != "cwd"@.len());
    assert("tool_name"@.len() != "cwd"@.len());
    assert("tool_use_id"@.len() != "cwd"@.len());
    assert("id"@.len() != "payload_path"@.len());
    assert("event_uuid"@.len() != "payload_path"@.len());
    assert("session_id"@.len() != "payload_path"@.len());
    assert("event_type"@.len() != "payload_path"@.len());
    assert("timestamp"@.len() != "payload_path"@.len());
    assert("tool_name"@.len() != "payload_path"@.len());
    assert("tool_use_id"@.len() != "payload_path"@.len());
    assert("cwd"@.len() != "payload_path"@.len());
    assert("id"@.len() != "metadata_json"@.len());
    assert("event_uuid"@.len() != "metadata_json"@.len());
    assert("session_id"@.len() != "metadata_json"@.len());
    assert("event_type"@.len() != "metadata_json"@.len());
    assert("timestamp"@.len() != "metadata_json"@.len());
    assert("tool_name"@.len() != "metadata_json"@.len());
    assert("tool_use_id"@.len() != "metadata_json"@.len());
    assert("cwd"@.len() != "metadata_json"@.len());
    assert("payload_path"@.len() != "metadata_json"@.len());
    assert("id"@.len() != "payload"@.len());
    assert("event_uuid"@.len() != "payload"@.len());
    assert("session_id"@.len() != "payload"@.len());
    assert("event_type"@.len() != "payload"@.len());
    assert("timestamp"@.len() != "payload"@.len());
    assert("tool_name"@.len() != "payload"@.len());
    assert("tool_use_id"@.len() != "payload"@.len());
    assert("cwd"@.len() != "payload"@.len());
    assert("payload_path"@.len() != "payload"@.len());
    assert("metadata_json"@.len() != "payload"@.len());
}

/// Every member of an export object is the event's column of the same name (a missing
/// value as `null`, the id as a JSON integer), followed by `payload` exactly when a payload
/// is given; the object has no other member.
pub proof fn law_export_columns(e: Event, payload: Option<JsonV>)
    ensures
        member(JsonV::Object(export_members(e, payload)), "id"@) == Some((if e.id >= 0 { JsonV::Number(NumberV::PosInt(e.id as u64)) } else { JsonV::Number(NumberV::NegInt(e.id)) })),
        member(JsonV::Object(export_members(e, payload)), "event_uuid"@) == Some(JsonV::Str(e.event_uuid@)),
        member(JsonV::Object(export_members(e, payload)), "session_id"@) == Some(JsonV::Str(e.session_id@)),
        member(JsonV::Object(export_members(e, payload)), "event_type"@) == Some(JsonV::Str(e.event_type@)),
        member(JsonV::Object(export_members(e, payload)), "timestamp"@) == Some(JsonV::Str(e.timestamp@)),
        member(JsonV::Object(export_members(e, payload)), "tool_name"@) == Some((match e.tool_name { Some(t) => JsonV::Str(t@), None => JsonV::Null })),
        member(JsonV::Object(export_members(e, payload)), "tool_use_id"@) == Some((match e.tool_use_id { Some(t) => JsonV::Str(t@), None => JsonV::Null })),
        member(JsonV::Object(export_members(e, payload)), "cwd"@) == Some((match e.cwd { Some(t) => JsonV::Str(t@), None => JsonV::Null })),
        member(JsonV::Object(export_members(e, payload)), "payload_path"@) == Some((match e.payload_path { Some(t) => JsonV::Str(t@), None => JsonV::Null })),
        member(JsonV::Object(export_members(e, payload)), "metadata_json"@) == Some((match e.metadata_json { Some(t) => JsonV::Str(t@), None => JsonV::Null })),
        member(JsonV::Object(export_members(e, payload)), "payload"@) == payload,
        export_members(e, payload).len() == if payload is Some { 11int } else { 10int },
{
    lemma_export_keys_distinct();
    let m = export_members(e, payload);
    lemma_key_pos_at(m, "id"@, 0);
    lemma_key_pos_at(m, "event_uuid"@, 1);
    lemma_key_pos_at(m, "session_id"@, 2);
    lemma_key_pos_at(m, "event_type"@, 3);
    lemma_key_pos_at(m, "timestamp"@, 4);
    lemma_key_pos_at(m, "tool_name"@, 5);
    lemma_key_pos_at(m, "tool_use_id"@, 6);
    lemma_key_pos_at(m, "cwd"@, 7);
    lemma_key_pos_at(m, "payload_path"@, 8);
    lemma_key_pos_at(m, "metadata_json"@, 9);
    if payload is Some {
        lemma_key_pos_at(m, "payload"@, 10);
    } else {
        lemma_key_pos(m, "payload"@);
    }
}

proof fn lemma_end_from(events: Seq<Event>, i: int)
    requires
        0 <= i <= events.len(),
    ensures
        i <= end_from(events, i) <= events.len(),
        forall|j: int| i <= j < end_from(events, i) ==> (#[trigger] events[j]).event_type@ != "SessionEnd"@,
        end_from(events, i) < events.len() ==> events[end_from(events, i)].event_type@ == "SessionEnd"@,
    decreases events.len() - i,
{
    if i < events.len() && events[i].event_type@ != "SessionEnd"@ {
        lemma_end_from(events, i + 1);
    }
}

proof fn lemma_max_id(last_id: i64, events: Seq<Event>, k: int)
    requires
        0 <= k <= events.len(),
    ensures
        max_id(last_id, events, k) >= last_id,
        forall|j: int| 0 <= j < k ==> max_id(last_id, events, k) >= (#[trigger] events[j]).id,
        max_id(last_id, events, k) == last_id || exists|j: int|
            0 <= j < k && max_id(last_id, events, k) == (#[trigger] events[j]).id,
    decreases k,
{
    if k > 0 {
        lemma_max_id(last_id, events, k - 1);
    }
}

/// A stream batch stops at the first `SessionEnd`: no event before the last one emitted
/// ends the session, the batch ends the stream exactly when its last emitted event is a
/// `SessionEnd`, and the id it moves on to is the largest of the previous one and the ids
/// emitted.
pub proof fn law_stream_stops_at_first_session_end(last_id: i64, events: Seq<Event>)
    ensures
        ({
            let n = if end_from(events, 0) < events.len() {
                end_from(events, 0) + 1
            } else {
                events.len() as int
            };
            let top = max_id(last_id, events, n);
            &&& 0 <= n <= events.len()
            &&& forall|j: int| 0 <= j < n - 1 ==> (#[trigger] events[j]).event_type@ != "SessionEnd"@
            &&& n < events.len() ==> events[n - 1].event_type@ == "SessionEnd"@
            &&& (end_from(events, 0) < events.len()) == (n > 0 && events[n - 1].event_type@
                == "SessionEnd"@)
            &&& top >= last_id
            &&& forall|j: int| 0 <= j < n ==> top >= (#[trigger] events[j]).id
            &&& (top == last_id || exists|j: int| 0 <= j < n && top == (#[trigger] events[j]).id)
        }),
{
    lemma_end_from(events, 0);
    let n = if end_from(events, 0) < events.len() {
        end_from(events, 0) + 1
    } else {
        events.len() as int
    };
    lemma_max_id(last_id, events, n);
}

} // verus!
