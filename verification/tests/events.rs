use serde_json::Value;
use ivara::capture::plan_capture;
use ivara::events::EventType;
use ivara::hook_input::HookInput;
use ivara::json::{Json, JsonNumber};

fn hook(name: &str) -> HookInput {
    HookInput {
        session_id: "s1".to_string(),
        transcript_path: None,
        cwd: Some("/p".to_string()),
        permission_mode: None,
        hook_event_name: name.to_string(),
        tool_name: None,
        tool_input: None,
        tool_use_id: None,
        tool_response: None,
        source: None,
        model: None,
        reason: None,
        stop_hook_active: None,
        last_assistant_message: None,
        error: None,
        error_details: None,
        is_interrupt: None,
        prompt: None,
        agent_id: None,
        agent_type: None,
        agent_transcript_path: None,
        task_id: None,
        task_subject: None,
        task_description: None,
        teammate_name: None,
        team_name: None,
        file_path: None,
        change_type: None,
        compaction_trigger: None,
        mcp_server_name: None,
        fields: None,
        result_action: None,
        result_content: None,
        message: None,
        title: None,
        notification_type: None,
    }
}

fn member<'a>(j: &'a Json, key: &str) -> Option<&'a Json> {
    match j {
        Json::Object(m) => m.iter().find(|(k, _)| k == key).map(|(_, v)| v),
        _ => None,
    }
}

fn keys(j: &Json) -> Vec<String> {
    match j {
        Json::Object(m) => m.iter().map(|(k, _)| k.clone()).collect(),
        _ => Vec::new(),
    }
}

const ALL: [&str; 25] = [
    "SessionStart",
    "SessionEnd",
    "CwdChanged",
    "ConfigChange",
    "InstructionsLoaded",
    "UserPromptSubmit",
    "Stop",
    "StopFailure",
    "PreToolUse",
    "PostToolUse",
    "PostToolUseFailure",
    "PermissionRequest",
    "SubagentStart",
    "SubagentStop",
    "TaskCreated",
    "TaskCompleted",
    "TeammateIdle",
    "FileChanged",
    "WorktreeCreate",
    "WorktreeRemove",
    "PreCompact",
    "PostCompact",
    "Elicitation",
    "ElicitationResult",
    "Notification",
];

#[test]
fn every_event_name_round_trips() {
    for (i, name) in ALL.iter().enumerate() {
        let e = EventType::from_hook_name(name).expect("known event");
        assert_eq!(e.as_str(), *name);
        assert_eq!(EventType::at_index(i), e);
    }
}

#[test]
fn unknown_event_names_are_refused() {
    assert_eq!(EventType::from_hook_name("FakeEvent"), None);
    assert_eq!(EventType::from_hook_name("sessionstart"), None);
    assert_eq!(EventType::from_hook_name(""), None);
    let err = hook("FakeEvent").event_type().unwrap_err();
    assert_eq!(err.message(), "Unknown hook event: FakeEvent");
}

#[test]
fn metadata_keeps_small_fields_in_order() {
    let mut h = hook("StopFailure");
    h.transcript_path = Some("/t.jsonl".to_string());
    h.error = Some("timeout".to_string());
    h.is_interrupt = Some(false);
    h.tool_input = Some(Json::Str("big".to_string()));
    h.last_assistant_message = Some("long".to_string());
    h.result_content = Some(Json::Number(JsonNumber::PosInt(3)));
    h.fields = Some(vec![Json::Null]);
    let m = h.metadata();
    assert_eq!(
        keys(&m),
        vec!["transcript_path", "error", "is_interrupt", "fields", "result_content"]
    );
    assert!(matches!(member(&m, "error"), Some(Json::Str(s)) if s == "timeout"));
    assert!(matches!(member(&m, "is_interrupt"), Some(Json::Bool(false))));
    assert!(matches!(member(&m, "result_content"), Some(Json::Number(JsonNumber::PosInt(3)))));
    assert!(member(&m, "tool_input").is_none());
    assert!(member(&m, "last_assistant_message").is_none());
}

#[test]
fn metadata_of_bare_input_is_empty() {
    assert!(keys(&hook("Stop").metadata()).is_empty());
}

#[test]
fn small_payload_stays_inline() {
    let p = plan_capture(&hook("SessionStart"), 4096).unwrap();
    assert_eq!(p.event_type, EventType::SessionStart);
    assert!(!p.to_file);
    assert!(p.metadata.is_none());
    assert!(p.usage_transcript.is_none());
}

#[test]
fn large_payload_goes_to_disk() {
    let mut h = hook("PostToolUse");
    h.model = Some("opus".to_string());
    let p = plan_capture(&h, 4097).unwrap();
    assert!(p.to_file);
    let m = p.metadata.expect("metadata kept inline");
    assert_eq!(keys(&m), vec!["model"]);
}

#[test]
fn session_end_reads_usage_from_its_transcript() {
    let mut h = hook("SessionEnd");
    h.transcript_path = Some("/x/t.jsonl".to_string());
    let p = plan_capture(&h, 10).unwrap();
    assert_eq!(p.usage_transcript.as_deref(), Some("/x/t.jsonl"));
    let mut h = hook("Stop");
    h.transcript_path = Some("/x/t.jsonl".to_string());
    assert!(plan_capture(&h, 10).unwrap().usage_transcript.is_none());
    assert!(plan_capture(&hook("SessionEnd"), 10).unwrap().usage_transcript.is_none());
}

#[test]
fn capture_rejects_unknown_event() {
    assert!(plan_capture(&hook("FakeEvent"), 10).is_err());
}

fn to_json(v: &Value) -> Json {
    match v {
        Value::Null => Json::Null,
        Value::Bool(b) => Json::Bool(*b),
        Value::Number(n) => match (n.as_u64(), n.as_i64()) {
            (Some(u), _) => Json::Number(JsonNumber::PosInt(u)),
            (None, Some(i)) => Json::Number(JsonNumber::NegInt(i)),
            _ => Json::Number(JsonNumber::Float(n.to_string())),
        },
        Value::String(s) => Json::Str(s.clone()),
        Value::Array(a) => Json::Array(a.iter().map(to_json).collect()),
        Value::Object(m) => Json::Object(m.iter().map(|(k, v)| (k.clone(), to_json(v))).collect()),
    }
}

#[test]
fn capture_all_25_event_types() {
    let docs = [
        (r#"{"session_id":"s1","hook_event_name":"SessionStart","cwd":"/p","source":"cli","model":"opus"}"#, "SessionStart"),
        (r#"{"session_id":"s1","hook_event_name":"SessionEnd","cwd":"/p","reason":"user_exit"}"#, "SessionEnd"),
        (r#"{"session_id":"s1","hook_event_name":"CwdChanged","cwd":"/new"}"#, "CwdChanged"),
        (r#"{"session_id":"s1","hook_event_name":"ConfigChange","cwd":"/p"}"#, "ConfigChange"),
        (r#"{"session_id":"s1","hook_event_name":"InstructionsLoaded","cwd":"/p"}"#, "InstructionsLoaded"),
        (r#"{"session_id":"s1","hook_event_name":"UserPromptSubmit","cwd":"/p","prompt":"hello"}"#, "UserPromptSubmit"),
        (r#"{"session_id":"s1","hook_event_name":"Stop","cwd":"/p","stop_hook_active":true,"last_assistant_message":"done"}"#, "Stop"),
        (r#"{"session_id":"s1","hook_event_name":"StopFailure","cwd":"/p","error":"timeout","error_details":"took too long"}"#, "StopFailure"),
        (r#"{"session_id":"s1","hook_event_name":"PreToolUse","cwd":"/p","tool_name":"Bash","tool_input":{"cmd":"ls"},"tool_use_id":"tu1"}"#, "PreToolUse"),
        (r#"{"session_id":"s1","hook_event_name":"PostToolUse","cwd":"/p","tool_name":"Bash","tool_response":"files","tool_use_id":"tu1"}"#, "PostToolUse"),
        (r#"{"session_id":"s1","hook_event_name":"PostToolUseFailure","cwd":"/p","tool_name":"Bash","error":"fail","tool_use_id":"tu1"}"#, "PostToolUseFailure"),
        (r#"{"session_id":"s1","hook_event_name":"PermissionRequest","cwd":"/p","tool_name":"Write","tool_input":{},"tool_use_id":"tu2"}"#, "PermissionRequest"),
        (r#"{"session_id":"s1","hook_event_name":"SubagentStart","cwd":"/p","agent_id":"a1","agent_type":"task"}"#, "SubagentStart"),
        (r#"{"session_id":"s1","hook_event_name":"SubagentStop","cwd":"/p","agent_id":"a1","agent_type":"task","stop_hook_active":false}"#, "SubagentStop"),
        (r#"{"session_id":"s1","hook_event_name":"TaskCreated","cwd":"/p","task_id":"t1","task_subject":"build","task_description":"build it","teammate_name":"dev","team_name":"eng"}"#, "TaskCreated"),
        (r#"{"session_id":"s1","hook_event_name":"TaskCompleted","cwd":"/p","task_id":"t1","task_subject":"build","teammate_name":"dev","team_name":"eng"}"#, "TaskCompleted"),
        (r#"{"session_id":"s1","hook_event_name":"TeammateIdle","cwd":"/p","teammate_name":"dev","team_name":"eng"}"#, "TeammateIdle"),
        (r#"{"session_id":"s1","hook_event_name":"FileChanged","cwd":"/p","file_path":"/p/main.rs","change_type":"modified"}"#, "FileChanged"),
        (r#"{"session_id":"s1","hook_event_name":"WorktreeCreate","cwd":"/p"}"#, "WorktreeCreate"),
        (r#"{"session_id":"s1","hook_event_name":"WorktreeRemove","cwd":"/p"}"#, "WorktreeRemove"),
        (r#"{"session_id":"s1","hook_event_name":"PreCompact","cwd":"/p","compaction_trigger":"context_limit"}"#, "PreCompact"),
        (r#"{"session_id":"s1","hook_event_name":"PostCompact","cwd":"/p","compaction_trigger":"context_limit"}"#, "PostCompact"),
        (r#"{"session_id":"s1","hook_event_name":"Elicitation","cwd":"/p","mcp_server_name":"test","tool_use_id":"tu3","fields":[]}"#, "Elicitation"),
        (r#"{"session_id":"s1","hook_event_name":"ElicitationResult","cwd":"/p","mcp_server_name":"test","tool_use_id":"tu3","result_action":"confirm","result_content":"yes"}"#, "ElicitationResult"),
        (r#"{"session_id":"s1","hook_event_name":"Notification","cwd":"/p","message":"hi","title":"alert","notification_type":"info"}"#, "Notification"),
    ];
    let mut seen: Vec<&str> = Vec::new();
    for (doc, expected) in docs {
        let v: Value = serde_json::from_str(doc).unwrap();
        let h = hook(v["hook_event_name"].as_str().unwrap());
        let p = plan_capture(&h, doc.len()).unwrap();
        assert_eq!(p.event_type.as_str(), expected);
        assert!(!p.to_file, "{expected} is small");
        assert!(!seen.contains(&expected));
        seen.push(expected);
    }
    assert_eq!(seen.len(), 25);
}

#[test]
fn session_end_with_missing_transcript_still_succeeds() {
    let mut h = hook("SessionEnd");
    h.reason = Some("done".to_string());
    h.transcript_path = Some("/nonexistent/ivara/transcript.jsonl".to_string());
    let p = plan_capture(&h, 120).unwrap();
    assert_eq!(p.event_type, EventType::SessionEnd);
    assert_eq!(p.usage_transcript.as_deref(), Some("/nonexistent/ivara/transcript.jsonl"));
}

#[test]
fn session_end_auto_captures_token_usage() {
    let lines = [
        r#"{"type":"user","uuid":"u1"}"#,
        r#"{"type":"assistant","uuid":"a1","message":{"model":"sonnet-4-6","usage":{"input_tokens":100,"output_tokens":50,"cache_creation_input_tokens":200,"cache_read_input_tokens":1000}}}"#,
        r#"{"type":"assistant","uuid":"a2","message":{"model":"sonnet-4-6","usage":{"input_tokens":10,"output_tokens":80,"cache_creation_input_tokens":0,"cache_read_input_tokens":2000,"server_tool_use":{"web_search_requests":2,"web_fetch_requests":0}}}}"#,
        r#"{"type":"assistant","uuid":"syn1","message":{"model":"<synthetic>","usage":{"input_tokens":9999,"output_tokens":9999,"cache_creation_input_tokens":0,"cache_read_input_tokens":0}}}"#,
        r#"{"type":"assistant","uuid":"a1","message":{"model":"sonnet-4-6","usage":{"input_tokens":100,"output_tokens":50,"cache_creation_input_tokens":200,"cache_read_input_tokens":1000}}}"#,
        "not valid json",
    ];
    let mut h = hook("SessionEnd");
    h.reason = Some("done".to_string());
    h.transcript_path = Some("/t/ue1.jsonl".to_string());
    let p = plan_capture(&h, 150).unwrap();
    assert_eq!(p.usage_transcript.as_deref(), Some("/t/ue1.jsonl"));
    let entries: Vec<Json> = lines
        .iter()
        .filter_map(|l| serde_json::from_str::<Value>(l).ok())
        .map(|v| to_json(&v))
        .collect();
    let u = ivara::usage::tally_transcript(&entries).unwrap();
    assert_eq!(u.input_tokens, 110);
    assert_eq!(u.output_tokens, 130);
    assert_eq!(u.cache_creation_tokens, 200);
    assert_eq!(u.cache_read_tokens, 3000);
    assert_eq!(u.web_search_requests, 2);
    assert_eq!(u.api_calls, 2);
    assert_eq!(u.model.as_deref(), Some("sonnet-4-6"));
}
