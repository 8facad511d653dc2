use ivara::hooks::{
    canonical_events, check_settings_root, enumerate_status, merge_install, merge_uninstall,
    settings_text_blank, unknown_events, HookError, Scope,
};
use ivara::json::{Json, JsonNumber};
use serde_json::Value;

const CMD: &str = "bash /tmp/ivara-capture.sh";

fn to_json(v: &Value) -> Json {
    match v {
        Value::Null => Json::Null,
        Value::Bool(b) => Json::Bool(*b),
        Value::Number(n) => {
            if let Some(u) = n.as_u64() {
                Json::Number(JsonNumber::PosInt(u))
            } else if let Some(i) = n.as_i64() {
                Json::Number(JsonNumber::NegInt(i))
            } else {
                Json::Number(JsonNumber::Float(n.to_string()))
            }
        }
        Value::String(s) => Json::Str(s.clone()),
        Value::Array(a) => Json::Array(a.iter().map(to_json).collect()),
        Value::Object(m) => Json::Object(m.iter().map(|(k, v)| (k.clone(), to_json(v))).collect()),
    }
}

fn to_value(j: &Json) -> Value {
    match j {
        Json::Null => Value::Null,
        Json::Bool(b) => Value::Bool(*b),
        Json::Number(JsonNumber::PosInt(u)) => Value::from(*u),
        Json::Number(JsonNumber::NegInt(i)) => Value::from(*i),
        Json::Number(JsonNumber::Float(t)) => serde_json::from_str(t).unwrap(),
        Json::Str(s) => Value::String(s.clone()),
        Json::Array(a) => Value::Array(a.iter().map(to_value).collect()),
        Json::Object(m) => {
            let mut out = serde_json::Map::new();
            for (k, v) in m {
                out.insert(k.clone(), to_value(v));
            }
            Value::Object(out)
        }
    }
}

fn parse(text: &str) -> Json {
    to_json(&serde_json::from_str::<Value>(text).unwrap())
}

fn empty() -> Json {
    Json::Object(Vec::new())
}

#[test]
fn canonical_list_has_25_unique_events() {
    let events = canonical_events();
    assert_eq!(events.len(), 25);
    let mut seen = std::collections::HashSet::new();
    for e in &events {
        assert!(seen.insert(*e), "duplicate: {e}");
    }
}

#[test]
fn merge_install_into_empty_creates_all_25_events() {
    let mut j = empty();
    merge_install(&mut j, CMD, 5).unwrap();
    let v = to_value(&j);
    let hooks = v["hooks"].as_object().unwrap();
    assert_eq!(hooks.len(), 25);
    for e in canonical_events() {
        let groups = hooks[e].as_array().unwrap();
        assert_eq!(groups.len(), 1);
        let group = &groups[0];
        assert_eq!(group["matcher"], "");
        let h = group["hooks"].as_array().unwrap();
        assert_eq!(h.len(), 1);
        assert_eq!(h[0]["type"], "command");
        assert_eq!(h[0]["command"], CMD);
        assert_eq!(h[0]["timeout"], 5);
    }
}

#[test]
fn merge_install_is_idempotent() {
    let mut j = empty();
    merge_install(&mut j, CMD, 5).unwrap();
    let first = to_value(&j);
    merge_install(&mut j, CMD, 5).unwrap();
    assert_eq!(to_value(&j), first, "second install must not mutate settings");
}

#[test]
fn merge_install_preserves_other_tools_in_same_group() {
    let mut j = parse(
        r#"{"hooks": {"Stop": [{"matcher": "", "hooks": [{"type": "command", "command": "bash /other/tool.sh", "timeout": 5}]}]}}"#,
    );
    merge_install(&mut j, CMD, 5).unwrap();
    let v = to_value(&j);
    let stop = v["hooks"]["Stop"].as_array().unwrap();
    assert_eq!(stop.len(), 1, "no new matcher group added");
    let hooks = stop[0]["hooks"].as_array().unwrap();
    assert_eq!(hooks.len(), 2, "ivara appended alongside other tool");
    assert_eq!(hooks[0]["command"], "bash /other/tool.sh");
    assert_eq!(hooks[1]["command"], CMD);
}

#[test]
fn merge_install_preserves_other_matchers() {
    let mut j = parse(
        r#"{"hooks": {"PreToolUse": [{"matcher": "AskUserQuestion", "hooks": [{"type": "command", "command": "bash /other/matcher.sh", "timeout": 5}]}]}}"#,
    );
    merge_install(&mut j, CMD, 5).unwrap();
    let v = to_value(&j);
    let groups = v["hooks"]["PreToolUse"].as_array().unwrap();
    assert_eq!(groups.len(), 2, "new matcher:\"\" group appended");
    assert_eq!(groups[0]["matcher"], "AskUserQuestion");
    assert_eq!(groups[1]["matcher"], "");
    assert_eq!(groups[1]["hooks"][0]["command"], CMD);
}

#[test]
fn merge_uninstall_removes_ivara_entries_only() {
    let mut j = parse(&format!(
        r#"{{"hooks": {{"Stop": [{{"matcher": "", "hooks": [{{"type": "command", "command": "bash /other/tool.sh", "timeout": 5}}, {{"type": "command", "command": "{CMD}", "timeout": 5}}]}}]}}}}"#
    ));
    let n = merge_uninstall(&mut j, CMD);
    assert_eq!(n, 1);
    let v = to_value(&j);
    let hooks = v["hooks"]["Stop"][0]["hooks"].as_array().unwrap();
    assert_eq!(hooks.len(), 1);
    assert_eq!(hooks[0]["command"], "bash /other/tool.sh");
}

#[test]
fn merge_uninstall_removes_empty_groups_and_events() {
    let mut j = parse(&format!(
        r#"{{"hooks": {{"SessionStart": [{{"matcher": "", "hooks": [{{"type": "command", "command": "{CMD}", "timeout": 5}}]}}]}}}}"#
    ));
    merge_uninstall(&mut j, CMD);
    let v = to_value(&j);
    assert!(v.get("hooks").is_none(), "empty hooks root pruned");
}

#[test]
fn merge_install_uninstall_roundtrip_is_clean() {
    let original = parse(
        r#"{"hooks": {"Stop": [{"matcher": "", "hooks": [{"type": "command", "command": "bash /other/tool.sh", "timeout": 5}]}], "PreToolUse": [{"matcher": "AskUserQuestion", "hooks": [{"type": "command", "command": "bash /other/matcher.sh", "timeout": 5}]}]}, "other_key": "preserved"}"#,
    );
    let before = to_value(&original);
    let mut j = original;
    merge_install(&mut j, CMD, 5).unwrap();
    assert_ne!(to_value(&j), before, "install mutated value");
    merge_uninstall(&mut j, CMD);
    assert_eq!(to_value(&j), before, "uninstall restored original");
}

#[test]
fn uninstall_on_empty_returns_zero() {
    let mut j = empty();
    assert_eq!(merge_uninstall(&mut j, CMD), 0);
}

#[test]
fn enumerate_status_reports_partial_install() {
    let j = parse(&format!(
        r#"{{"hooks": {{"Stop": [{{"matcher": "", "hooks": [{{"type": "command", "command": "{CMD}", "timeout": 5}}]}}]}}}}"#
    ));
    let rows = enumerate_status(&j, CMD);
    assert_eq!(rows.len(), 25);
    let wired: Vec<_> = rows.iter().filter(|(_, p)| *p).map(|(e, _)| *e).collect();
    assert_eq!(wired, vec!["Stop"]);
}

#[test]
fn unknown_events_flag_drift() {
    let j = parse(&format!(
        r#"{{"hooks": {{"FutureEvent": [{{"matcher": "", "hooks": [{{"type": "command", "command": "{CMD}", "timeout": 5}}]}}], "Stop": [{{"matcher": "", "hooks": [{{"type": "command", "command": "{CMD}", "timeout": 5}}]}}]}}}}"#
    ));
    let unknown = unknown_events(&j, CMD);
    assert_eq!(unknown, vec!["FutureEvent".to_string()]);
}

#[test]
fn unknown_events_are_sorted() {
    let j = Json::Object(vec![(
        "hooks".to_string(),
        parse(&format!(
            r#"{{"Zeta": [{{"matcher": "", "hooks": [{{"command": "{CMD}"}}]}}], "Alpha": [{{"matcher": "", "hooks": [{{"command": "{CMD}"}}]}}], "Other": [{{"matcher": "", "hooks": [{{"command": "bash /other.sh"}}]}}]}}"#
        )),
    )]);
    // Rebuild the member order by hand so that the input is not already sorted.
    let j = match j {
        Json::Object(mut root) => {
            if let Json::Object(h) = &mut root[0].1 {
                h.reverse();
            }
            Json::Object(root)
        }
        other => other,
    };
    assert_eq!(unknown_events(&j, CMD), vec!["Alpha".to_string(), "Zeta".to_string()]);
}

#[test]
fn load_settings_rejects_non_object_root() {
    let err = check_settings_root(parse("[1,2,3]")).unwrap_err();
    assert!(err.message().contains("must be a JSON object"));
}

#[test]
fn load_settings_accepts_empty_file() {
    assert!(settings_text_blank(""));
    assert!(settings_text_blank(" \n\t "));
    assert!(!settings_text_blank(" {} "));
    assert!(check_settings_root(parse("{}")).is_ok());
}

#[test]
fn merge_install_preexisting_ivara_is_noop() {
    let mut j = parse(&format!(
        r#"{{"hooks": {{"SessionStart": [{{"matcher": "", "hooks": [{{"type": "command", "command": "{CMD}", "timeout": 5}}]}}]}}}}"#
    ));
    let before = to_value(&j);
    merge_install(&mut j, CMD, 5).unwrap();
    let v = to_value(&j);
    let hooks = v["hooks"]["SessionStart"][0]["hooks"].as_array().unwrap();
    let ivara_count = hooks.iter().filter(|h| h["command"] == CMD).count();
    assert_eq!(ivara_count, 1);
    assert_ne!(v, before, "other 24 events added");
}

#[test]
fn merge_install_rejects_non_object_root() {
    let mut j = parse("[1]");
    assert_eq!(merge_install(&mut j, CMD, 5), Err(HookError::RootNotObject));
    assert_eq!(HookError::RootNotObject.message(), "settings root must be object");
}

#[test]
fn merge_install_rejects_bad_shapes() {
    let mut j = parse(r#"{"hooks": []}"#);
    assert_eq!(merge_install(&mut j, CMD, 5), Err(HookError::HooksNotObject));
    let mut j = parse(r#"{"hooks": {"SessionStart": {}}}"#);
    let e = merge_install(&mut j, CMD, 5).unwrap_err();
    assert_eq!(e.message(), "settings.hooks.SessionStart must be array");
    let mut j = parse(r#"{"hooks": {"SessionEnd": [{"matcher": "", "hooks": {}}]}}"#);
    let e = merge_install(&mut j, CMD, 5).unwrap_err();
    assert_eq!(e.message(), "settings.hooks.SessionEnd[0].hooks must be array");
    let mut j = parse(r#"{"hooks": {"Stop": [7]}}"#);
    let e = merge_install(&mut j, CMD, 5).unwrap_err();
    assert_eq!(e.message(), "settings.hooks.Stop[0] must be object");
}

#[test]
fn merge_uninstall_leaves_non_object_root() {
    let mut j = parse("[1,2]");
    assert_eq!(merge_uninstall(&mut j, CMD), 0);
    assert_eq!(to_value(&j), serde_json::from_str::<Value>("[1,2]").unwrap());
}

#[test]
fn scope_labels() {
    assert_eq!(Scope::User.label(), "user");
    assert_eq!(Scope::Project.label(), "project");
}

#[test]
fn uninstall_twice_removes_nothing_more() {
    let mut v = parse(&format!(
        r#"{{"theme":"dark","hooks":{{"Stop":[{{"matcher":"","hooks":[{{"type":"command","command":"other"}},{{"type":"command","command":"{CMD}"}}]}}],"PreToolUse":[{{"matcher":"Bash","hooks":[{{"type":"command","command":"{CMD}"}}]}}]}}}}"#
    ));
    assert_eq!(merge_uninstall(&mut v, CMD), 2);
    let once = to_value(&v);
    assert_eq!(merge_uninstall(&mut v, CMD), 0);
    assert_eq!(to_value(&v), once);
    assert_eq!(
        once,
        serde_json::from_str::<Value>(
            r#"{"theme":"dark","hooks":{"Stop":[{"matcher":"","hooks":[{"type":"command","command":"other"}]}]}}"#
        )
        .unwrap()
    );
}

#[test]
fn install_leaves_other_keys_and_events_alone() {
    let text = r#"{"theme":"dark","hooks":{"MyCustomEvent":[{"matcher":"","hooks":[{"type":"command","command":"x"}]}],"Stop":[{"matcher":"","hooks":[{"type":"command","command":"other"}]}]}}"#;
    let mut v = parse(text);
    merge_install(&mut v, CMD, 10).unwrap();
    let after = to_value(&v);
    let before = serde_json::from_str::<Value>(text).unwrap();
    assert_eq!(after["theme"], before["theme"]);
    assert_eq!(after["hooks"]["MyCustomEvent"], before["hooks"]["MyCustomEvent"]);
    let stop = after["hooks"]["Stop"][0]["hooks"].as_array().unwrap();
    assert_eq!(stop.len(), 2);
    assert_eq!(stop[0]["command"], "other");
    assert_eq!(stop[1]["command"], CMD);
}

#[test]
fn install_appends_one_entry_to_the_first_open_group() {
    let text = r#"{"hooks":{"Stop":[{"matcher":"Bash","hooks":[{"command":"a"}]},{"matcher":"","note":"keep","hooks":[{"command":"b"}]},{"hooks":[{"command":"c"}]}]}}"#;
    let mut v = parse(text);
    merge_install(&mut v, CMD, 7).unwrap();
    let after = to_value(&v);
    let before = serde_json::from_str::<Value>(text).unwrap();
    let stop = after["hooks"]["Stop"].as_array().unwrap();
    assert_eq!(stop.len(), 3);
    assert_eq!(stop[0], before["hooks"]["Stop"][0]);
    assert_eq!(stop[2], before["hooks"]["Stop"][2]);
    assert_eq!(stop[1]["note"], "keep");
    assert_eq!(stop[1]["matcher"], "");
    let hs = stop[1]["hooks"].as_array().unwrap();
    assert_eq!(hs.len(), 2);
    assert_eq!(hs[0]["command"], "b");
    assert_eq!(hs[1], serde_json::from_str::<Value>(&format!(r#"{{"type":"command","command":"{CMD}","timeout":7}}"#)).unwrap());
    let again = to_value(&v);
    merge_install(&mut v, CMD, 7).unwrap();
    assert_eq!(to_value(&v), again);
}
