use ivara::json::{Json, JsonNumber};
use ivara::usage::{tally_transcript, SessionUsage};
use serde_json::Value;

fn to_json(v: &Value) -> Json {
    match v {
        Value::Null => Json::Null,
        Value::Bool(b) => Json::Bool(*b),
        Value::Number(n) => {
            if let Some(u) = n.as_u64() {
                Json::Number(JsonNumber::PosInt(u))
            } else if let Some(i) = n.as_i64() {
                Json::Number(JsonNumber::NegInt(i))
            } else {
                Json::Number(JsonNumber::Float(n.to_string()))
            }
        }
        Value::String(s) => Json::Str(s.clone()),
        Value::Array(a) => Json::Array(a.iter().map(to_json).collect()),
        Value::Object(m) => Json::Object(m.iter().map(|(k, v)| (k.clone(), to_json(v))).collect()),
    }
}

/// Parses transcript lines the way the command does: lines that are not JSON are skipped.
fn entries(lines: &[&str]) -> Vec<Json> {
    lines
        .iter()
        .filter_map(|l| serde_json::from_str::<Value>(l.trim()).ok())
        .map(|v| to_json(&v))
        .collect()
}

const FIXTURE: [&str; 6] = [
    r#"{"type":"user","uuid":"u1"}"#,
    r#"{"type":"assistant","uuid":"a1","message":{"model":"sonnet-4-6","usage":{"input_tokens":100,"output_tokens":50,"cache_creation_input_tokens":200,"cache_read_input_tokens":1000}}}"#,
    r#"{"type":"assistant","uuid":"a2","message":{"model":"sonnet-4-6","usage":{"input_tokens":10,"output_tokens":80,"cache_creation_input_tokens":0,"cache_read_input_tokens":2000,"server_tool_use":{"web_search_requests":2,"web_fetch_requests":0}}}}"#,
    r#"{"type":"assistant","uuid":"syn1","message":{"model":"<synthetic>","usage":{"input_tokens":9999,"output_tokens":9999,"cache_creation_input_tokens":0,"cache_read_input_tokens":0}}}"#,
    r#"{"type":"assistant","uuid":"a1","message":{"model":"sonnet-4-6","usage":{"input_tokens":100,"output_tokens":50,"cache_creation_input_tokens":200,"cache_read_input_tokens":1000}}}"#,
    "not valid json",
];

#[test]
fn transcript_fixture_sums_real_turns_once() {
    let u = tally_transcript(&entries(&FIXTURE)).unwrap();
    assert_eq!(u.input_tokens, 110);
    assert_eq!(u.output_tokens, 130);
    assert_eq!(u.cache_creation_tokens, 200);
    assert_eq!(u.cache_read_tokens, 3000);
    assert_eq!(u.web_search_requests, 2);
    assert_eq!(u.web_fetch_requests, 0);
    assert_eq!(u.api_calls, 2);
    assert_eq!(u.model.as_deref(), Some("sonnet-4-6"));
    assert_eq!(u.total_tokens(), 3440);
}

#[test]
fn empty_transcript_has_no_model() {
    let u = tally_transcript(&Vec::new()).unwrap();
    assert_eq!(u.api_calls, 0);
    assert_eq!(u.input_tokens, 0);
    assert!(u.model.is_none());
}

#[test]
fn dominant_model_drives_most_calls() {
    let lines = [
        r#"{"type":"assistant","message":{"model":"haiku","usage":{"output_tokens":1}}}"#,
        r#"{"type":"assistant","message":{"model":"opus","usage":{"output_tokens":1}}}"#,
        r#"{"type":"assistant","message":{"model":"opus","usage":{"output_tokens":1}}}"#,
    ];
    let u = tally_transcript(&entries(&lines)).unwrap();
    assert_eq!(u.model.as_deref(), Some("opus"));
    assert_eq!(u.api_calls, 3);
    assert_eq!(u.output_tokens, 3);
}

#[test]
fn entries_without_usage_or_model_add_nothing() {
    let lines = [
        r#"{"type":"assistant","uuid":"x","message":{"model":"opus"}}"#,
        r#"{"type":"assistant","uuid":"y","message":{"usage":{"input_tokens":5}}}"#,
        r#"{"type":"assistant","uuid":"z"}"#,
        r#"{"type":"assistant","uuid":"w","message":{"model":"","usage":{"input_tokens":5}}}"#,
    ];
    let u = tally_transcript(&entries(&lines)).unwrap();
    assert_eq!(u.api_calls, 0);
    assert_eq!(u.input_tokens, 0);
}

#[test]
fn usage_sums_that_leave_i64_are_refused() {
    let big = format!(
        r#"{{"type":"assistant","message":{{"model":"m","usage":{{"input_tokens":{}}}}}}}"#,
        i64::MAX
    );
    let lines = [big.as_str(), big.as_str()];
    assert!(tally_transcript(&entries(&lines)).is_err());
}

#[test]
fn negative_and_fractional_counts() {
    let lines = [
        r#"{"type":"assistant","message":{"model":"m","usage":{"input_tokens":-4,"output_tokens":2.5}}}"#,
    ];
    let u = tally_transcript(&entries(&lines)).unwrap();
    assert_eq!(u.input_tokens, -4);
    assert_eq!(u.output_tokens, 0);
    assert_eq!(u.api_calls, 1);
}

#[test]
fn total_tokens_adds_all_four_tiers() {
    let u = SessionUsage {
        input_tokens: 1,
        output_tokens: 20,
        cache_creation_tokens: 300,
        cache_read_tokens: 4000,
        web_search_requests: 0,
        web_fetch_requests: 0,
        api_calls: 1,
        model: None,
    };
    assert_eq!(u.total_tokens(), 4321);
}
