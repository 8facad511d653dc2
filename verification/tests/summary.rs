use ivara::events::Event;
use ivara::json::Json;
use ivara::summary::{count_errors, first_session_start, is_error_event_type, summarize, tool_counts};

fn ev(id: i64, ty: &str, ts: &str, tool: Option<&str>) -> Event {
    Event {
        id,
        event_uuid: format!("u{id}"),
        session_id: "s8".to_string(),
        event_type: ty.to_string(),
        timestamp: ts.to_string(),
        tool_name: tool.map(|t| t.to_string()),
        tool_use_id: None,
        cwd: Some("/proj".to_string()),
        payload_path: None,
        metadata_json: None,
    }
}

fn session() -> Vec<Event> {
    vec![
        ev(1, "SessionStart", "2026-03-30T10:00:00+00:00", None),
        ev(2, "PreToolUse", "2026-03-30T10:01:00+00:00", Some("Bash")),
        ev(3, "PostToolUse", "2026-03-30T10:02:00+00:00", Some("Bash")),
        ev(4, "PostToolUseFailure", "2026-03-30T10:03:00+00:00", Some("Read")),
        ev(5, "StopFailure", "2026-03-30T10:04:00+00:00", None),
        ev(6, "SessionEnd", "2026-03-30T11:23:00+00:00", None),
    ]
}

#[test]
fn error_types() {
    assert!(is_error_event_type("StopFailure"));
    assert!(is_error_event_type("PostToolUseFailure"));
    assert!(!is_error_event_type("PostToolUse"));
    assert_eq!(count_errors(&session()), 2);
}

#[test]
fn tools_counted_in_order_of_first_use() {
    assert_eq!(
        tool_counts(&session()),
        vec![("Bash".to_string(), 2), ("Read".to_string(), 1)]
    );
}

#[test]
fn first_start_event() {
    assert_eq!(first_session_start(&session()), Some(0));
    assert_eq!(first_session_start(&session()[1..].to_vec()), None);
}

#[test]
fn summary_output() {
    let meta = Json::Object(vec![("model".to_string(), Json::Str("opus".to_string()))]);
    let s = summarize("s8", &session(), Some(&meta)).unwrap();
    assert_eq!(s.session_id, "s8");
    assert_eq!(s.model.as_deref(), Some("opus"));
    assert_eq!(s.cwd, "/proj");
    assert_eq!(s.start, "2026-03-30T10:00:00+00:00");
    assert_eq!(s.end, "2026-03-30T11:23:00+00:00");
    assert_eq!(s.duration, "1h 23m");
    assert_eq!(s.total_events, 6);
    assert_eq!(s.errors, 2);
    assert_eq!(s.top_tools, vec![("Bash".to_string(), 2), ("Read".to_string(), 1)]);
}

#[test]
fn summary_of_nothing() {
    assert!(summarize("s", &Vec::new(), None).is_none());
}

#[test]
fn top_tools_keep_five_most_used() {
    let mut events = Vec::new();
    let mut id = 0;
    for (tool, n) in [("A", 1), ("B", 6), ("C", 3), ("D", 2), ("E", 5), ("F", 4), ("G", 4)] {
        for _ in 0..n {
            id += 1;
            events.push(ev(id, "PreToolUse", "2026-03-30T10:00:00Z", Some(tool)));
        }
    }
    let s = summarize("s", &events, None).unwrap();
    assert!(s.model.is_none());
    assert_eq!(
        s.top_tools,
        vec![
            ("B".to_string(), 6),
            ("E".to_string(), 5),
            ("F".to_string(), 4),
            ("G".to_string(), 4),
            ("C".to_string(), 3)
        ]
    );
    assert_eq!(s.duration, "0s");
}

#[test]
fn unknown_cwd_and_bad_timestamps() {
    let mut e = ev(1, "Stop", "later", None);
    e.cwd = None;
    let s = summarize("s", &vec![e], None).unwrap();
    assert_eq!(s.cwd, "unknown");
    assert_eq!(s.duration, "-");
}
