use ivara::events::Event;
use ivara::format::{
    byte_prefix, can_clip, event_detail, format_duration_secs, group_thousands, truncate_timestamp,
};
use ivara::json::Json;
use ivara::paths::{
    db_path, hook_command, join, payload_file_path, payloads_dir, script_dir, script_path,
    session_payload_dir, settings_path, PAYLOAD_THRESHOLD, SCRIPT_NAME,
};
use ivara::text::{str_eq, str_le};

fn event(tool: Option<&str>) -> Event {
    Event {
        id: 7,
        event_uuid: "u".to_string(),
        session_id: "abcdef0123456789".to_string(),
        event_type: "Stop".to_string(),
        timestamp: "2026-03-30T12:34:56.123+00:00".to_string(),
        tool_name: tool.map(|t| t.to_string()),
        tool_use_id: None,
        cwd: None,
        payload_path: None,
        metadata_json: None,
    }
}

fn obj(members: &[(&str, Json)]) -> Json {
    Json::Object(
        members
            .iter()
            .map(|(k, v)| {
                let v = match v {
                    Json::Str(s) => Json::Str(s.clone()),
                    Json::Bool(b) => Json::Bool(*b),
                    _ => Json::Null,
                };
                (k.to_string(), v)
            })
            .collect(),
    )
}

#[test]
fn durations_in_seconds_minutes_hours() {
    assert_eq!(format_duration_secs(0), "0s");
    assert_eq!(format_duration_secs(59), "59s");
    assert_eq!(format_duration_secs(60), "1m 0s");
    assert_eq!(format_duration_secs(312), "5m 12s");
    assert_eq!(format_duration_secs(3599), "59m 59s");
    assert_eq!(format_duration_secs(3600), "1h 0m");
    assert_eq!(format_duration_secs(4980), "1h 23m");
    assert_eq!(format_duration_secs(90061), "25h 1m");
    assert_eq!(format_duration_secs(-5), "-5s");
    assert_eq!(format_duration_secs(i64::MIN), "-9223372036854775808s");
}

#[test]
fn thousands_separators() {
    assert_eq!(group_thousands(0), "0");
    assert_eq!(group_thousands(999), "999");
    assert_eq!(group_thousands(1000), "1,000");
    assert_eq!(group_thousands(1234567), "1,234,567");
    assert_eq!(group_thousands(-12000), "-12,000");
    assert_eq!(group_thousands(100000), "100,000");
    assert_eq!(group_thousands(i64::MIN), "-9,223,372,036,854,775,808");
    assert_eq!(group_thousands(i64::MAX).replace(',', ""), i64::MAX.to_string());
}

#[test]
fn timestamps_cut_to_nineteen_bytes() {
    assert_eq!(truncate_timestamp("2026-03-30T12:34:56.789+00:00"), "2026-03-30T12:34:56");
    assert_eq!(truncate_timestamp("2026-03-30"), "2026-03-30");
    assert_eq!(byte_prefix("héllo", 3), "hé");
    assert!(!can_clip("héllo", 2));
    assert!(can_clip("héllo", 3));
    assert!(can_clip("hi", 40));
}

#[test]
fn detail_prefers_the_tool_name() {
    let e = event(Some("Bash"));
    let meta = obj(&[("reason", Json::Str("done".to_string()))]);
    assert_eq!(event_detail(&e, Some(&meta)).as_deref(), Some("Bash"));
}

#[test]
fn detail_takes_the_first_preferred_string_field() {
    let e = event(None);
    let meta = obj(&[
        ("model", Json::Str("opus".to_string())),
        ("source", Json::Bool(true)),
        ("message", Json::Str("hi".to_string())),
    ]);
    assert_eq!(event_detail(&e, Some(&meta)).as_deref(), Some("model: opus"));
    assert_eq!(event_detail(&e, None).as_deref(), Some(""));
    assert_eq!(event_detail(&e, Some(&obj(&[]))).as_deref(), Some(""));
}

#[test]
fn detail_cuts_long_values_at_fifty_bytes() {
    let e = event(None);
    let long = "x".repeat(60);
    let meta = obj(&[("prompt", Json::Str(long))]);
    assert_eq!(event_detail(&e, Some(&meta)), Some(format!("prompt: {}", "x".repeat(50))));
    let split = format!("{}é", "x".repeat(49));
    let meta = obj(&[("prompt", Json::Str(split))]);
    assert_eq!(event_detail(&e, Some(&meta)), None);
}

#[test]
fn paths_join_like_path_buf() {
    assert_eq!(join("/a", "b"), "/a/b");
    assert_eq!(join("/a/", "b"), "/a/b");
    assert_eq!(join("", "b"), "b");
    assert_eq!(join("/a", "/abs"), "/abs");
    assert_eq!(db_path("/home/u/.ivara"), "/home/u/.ivara/ivara.db");
    assert_eq!(payloads_dir("/d"), "/d/payloads");
    assert_eq!(session_payload_dir("/d", "s1"), "/d/payloads/s1");
    assert_eq!(payload_file_path("/d", "s1", "e1"), "/d/payloads/s1/e1.json");
    assert_eq!(settings_path("/h/.cfg"), "/h/.cfg/settings.json");
    assert_eq!(script_dir("/h/.cfg"), "/h/.cfg/hook-scripts");
    assert_eq!(script_path("/h/.cfg"), format!("/h/.cfg/hook-scripts/{SCRIPT_NAME}"));
    assert_eq!(hook_command("/h/.cfg"), "bash /h/.cfg/hook-scripts/ivara-capture.sh");
    assert_eq!(PAYLOAD_THRESHOLD, 4096);
}

#[test]
fn string_comparisons() {
    assert!(str_eq("abc", "abc"));
    assert!(!str_eq("abc", "abd"));
    assert!(!str_eq("ab", "abc"));
    assert!(str_le("Alpha", "Zeta"));
    assert!(!str_le("Zeta", "Alpha"));
    assert!(str_le("ab", "abc"));
    assert!(str_le("same", "same"));
    assert!(!str_le("abc", "ab"));
}
