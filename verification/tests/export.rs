use ivara::backfill::{backfill_report, backfill_step, BackfillOutcome, BackfillStep, BackfillTally};
use ivara::events::Event;
use ivara::export::{event_to_export_value, export_payload_source, stream_batch, PayloadSource};
use ivara::json::{Json, JsonNumber};

fn ev(id: i64, ty: &str) -> Event {
    Event {
        id,
        event_uuid: format!("u{id}"),
        session_id: "s9".to_string(),
        event_type: ty.to_string(),
        timestamp: "2026-03-30T10:00:00Z".to_string(),
        tool_name: None,
        tool_use_id: None,
        cwd: Some("/p".to_string()),
        payload_path: None,
        metadata_json: Some("{}".to_string()),
    }
}

fn keys(j: &Json) -> Vec<String> {
    match j {
        Json::Object(m) => m.iter().map(|(k, _)| k.clone()).collect(),
        _ => Vec::new(),
    }
}

#[test]
fn export_value_has_every_column_and_the_payload() {
    let v = event_to_export_value(&ev(3, "SessionStart"), Some(Json::Bool(true)));
    assert_eq!(
        keys(&v),
        vec![
            "id", "event_uuid", "session_id", "event_type", "timestamp", "tool_name",
            "tool_use_id", "cwd", "payload_path", "metadata_json", "payload"
        ]
    );
    match &v {
        Json::Object(m) => {
            assert!(matches!(m[0].1, Json::Number(JsonNumber::PosInt(3))));
            assert!(matches!(m[5].1, Json::Null));
            assert!(matches!(&m[7].1, Json::Str(s) if s == "/p"));
            assert!(matches!(m[10].1, Json::Bool(true)));
        }
        _ => panic!("not an object"),
    }
    assert_eq!(keys(&event_to_export_value(&ev(3, "Stop"), None)).len(), 10);
}

#[test]
fn payload_comes_from_file_first() {
    let mut e = ev(1, "Stop");
    assert!(matches!(export_payload_source(&e), PayloadSource::Inline(t) if t == "{}"));
    e.payload_path = Some("/d/p.json".to_string());
    assert!(matches!(export_payload_source(&e), PayloadSource::File(p) if p == "/d/p.json"));
    e.payload_path = None;
    e.metadata_json = None;
    assert!(matches!(export_payload_source(&e), PayloadSource::Absent));
}

#[test]
fn stream_stops_at_session_end() {
    let events = vec![ev(4, "SessionStart"), ev(9, "PreToolUse"), ev(7, "SessionEnd"), ev(12, "Stop")];
    let b = stream_batch(0, &events);
    assert_eq!(b.emit, 3);
    assert!(b.ends);
    assert_eq!(b.last_id, 9);
    let b = stream_batch(20, &events[..2].to_vec());
    assert_eq!(b.emit, 2);
    assert!(!b.ends);
    assert_eq!(b.last_id, 20);
    let b = stream_batch(5, &Vec::new());
    assert_eq!((b.emit, b.ends, b.last_id), (0, false, 5));
}

#[test]
fn backfill_decisions() {
    assert!(matches!(backfill_step(false, true, Some("t".to_string())), BackfillStep::SkipExisting));
    assert!(matches!(backfill_step(true, true, Some("t".to_string())), BackfillStep::Parse(p) if p == "t"));
    assert!(matches!(backfill_step(false, false, None), BackfillStep::NoTranscript));
}

#[test]
fn backfill_report_lines() {
    let mut t = BackfillTally::new();
    assert_eq!(backfill_report(&t), vec!["Backfilled token usage for 0 session(s).".to_string()]);
    t.record(BackfillOutcome::Updated);
    t.record(BackfillOutcome::Updated);
    t.record(BackfillOutcome::SkippedExisting);
    t.record(BackfillOutcome::MissingFile);
    t.record(BackfillOutcome::ParseError);
    t.record(BackfillOutcome::NoTranscript);
    assert_eq!(
        backfill_report(&t),
        vec![
            "Backfilled token usage for 2 session(s).".to_string(),
            "  1 already had usage data (use --force to re-parse).".to_string(),
            "  1 had no transcript path recorded.".to_string(),
            "  1 referenced a transcript file that no longer exists.".to_string(),
            "  1 transcript(s) could not be read or parsed.".to_string(),
        ]
    );
}

#[test]
fn export_session() {
    let events = vec![ev(1, "SessionStart"), ev(2, "PreToolUse")];
    let out: Vec<Json> = events
        .iter()
        .map(|e| match export_payload_source(e) {
            PayloadSource::Inline(t) => {
                assert_eq!(t, "{}");
                event_to_export_value(e, Some(Json::Object(Vec::new())))
            }
            _ => panic!("inline payload expected"),
        })
        .collect();
    assert_eq!(out.len(), 2);
    for v in &out {
        assert!(keys(v).contains(&"payload".to_string()));
    }
}

#[test]
fn stream_replays_and_tails_to_session_end() {
    let replay = vec![ev(1, "SessionStart"), ev(2, "UserPromptSubmit")];
    let b = stream_batch(0, &replay);
    assert_eq!((b.emit, b.last_id, b.ends), (2, 2, false));
    let tail = vec![ev(3, "PreToolUse")];
    let b = stream_batch(b.last_id, &tail);
    assert_eq!((b.emit, b.last_id, b.ends), (1, 3, false));
    let tail = vec![ev(4, "SessionEnd")];
    let b = stream_batch(b.last_id, &tail);
    assert_eq!((b.emit, b.last_id, b.ends), (1, 4, true));
    let lines: Vec<Json> = replay
        .iter()
        .chain([ev(3, "PreToolUse"), ev(4, "SessionEnd")].iter())
        .map(|e| event_to_export_value(e, Some(Json::Null)))
        .collect();
    let types: Vec<String> = lines
        .iter()
        .map(|v| match v {
            Json::Object(m) => match &m[3].1 {
                Json::Str(s) => s.clone(),
                _ => String::new(),
            },
            _ => String::new(),
        })
        .collect();
    assert_eq!(types, vec!["SessionStart", "UserPromptSubmit", "PreToolUse", "SessionEnd"]);
    for v in &lines {
        assert!(keys(v).contains(&"payload".to_string()));
    }
}

#[test]
fn backfill_usage_populates_from_transcript() {
    let step = backfill_step(false, false, Some("/t/bf1.jsonl".to_string()));
    assert!(matches!(step, BackfillStep::Parse(p) if p == "/t/bf1.jsonl"));
    let mut t = BackfillTally::new();
    t.record(BackfillOutcome::Updated);
    assert_eq!(t.updated, 1);
}
