use ivara::events::{ActiveSession, Event, Session};
use ivara::hooks::Scope;
use ivara::report::{
    active_header_line, active_row, active_session, count_line, dashes, end_time_display,
    install_lines, query_header_line, query_row, session_row, sessions_header_line,
    stats_body_lines, stats_head_lines, stats_scope, status_lines, summary_lines,
    timeline_header_line, timeline_row, token_usage_lines, uninstall_lines, usage_total_defined,
};
use ivara::summary::SessionSummary;
use ivara::usage::SessionUsage;

fn session() -> Session {
    Session {
        session_id: "0123456789abcdef0123456789abcdef0123456789".to_string(),
        first_seen: "2026-04-22T19:17:01+00:00".to_string(),
        last_seen: "2026-04-22T19:22:13+00:00".to_string(),
        event_count: 42,
        cwd: Some("/proj".to_string()),
        model: Some("opus".to_string()),
    }
}

fn usage() -> SessionUsage {
    SessionUsage {
        input_tokens: 1234,
        output_tokens: 56,
        cache_creation_tokens: 0,
        cache_read_tokens: 1000000,
        web_search_requests: 2,
        web_fetch_requests: 0,
        api_calls: 3,
        model: None,
    }
}

#[test]
fn session_table() {
    assert_eq!(
        sessions_header_line(),
        format!("{:<40} {:<22} {:<12} {:<8} CWD", "SESSION", "LAST SEEN", "DURATION", "EVENTS")
    );
    assert_eq!(dashes(3), "---");
    let s = session();
    assert_eq!(
        session_row(&s),
        format!(
            "{:<40} {:<22} {:<12} {:<8} {}",
            &s.session_id[..38], &s.last_seen[..19], "5m 12s", 42, "/proj"
        )
    );
}

#[test]
fn active_session_json_shape_and_row() {
    let s = session();
    let a: ActiveSession = active_session(&s, "2026-04-22T19:22:25+00:00", Some("Bash".to_string()));
    assert_eq!(a.duration, "5m 12s");
    assert_eq!(a.idle, "12s");
    assert_eq!(a.tool.as_deref(), Some("Bash"));
    assert_eq!(a.model.as_deref(), Some("opus"));
    assert_eq!(
        active_header_line(),
        format!(
            "{:<40} {:<22} {:<12} {:<8} {:<40} {:<10} {:<14} MODEL",
            "SESSION", "LAST SEEN", "DURATION", "EVENTS", "CWD", "IDLE", "TOOL",
        )
    );
    assert_eq!(
        active_row(&a),
        format!(
            "{:<40} {:<22} {:<12} {:<8} {:<40} {:<10} {:<14} {}",
            &a.session_id[..38], &a.last_seen[..19], "5m 12s", 42, "/proj", "12s", "Bash", "opus",
        )
    );
}

fn event() -> Event {
    Event {
        id: 12,
        event_uuid: "u".to_string(),
        session_id: "abcdef0123456789".to_string(),
        event_type: "PreToolUse".to_string(),
        timestamp: "2026-03-30T12:34:56.5+00:00".to_string(),
        tool_name: Some("Bash".to_string()),
        tool_use_id: None,
        cwd: None,
        payload_path: None,
        metadata_json: None,
    }
}

#[test]
fn timeline_and_query_rows() {
    let e = event();
    assert_eq!(
        timeline_header_line(),
        format!("{:<6} {:<22} {:<22} DETAIL", "ID", "TIME", "EVENT TYPE")
    );
    assert_eq!(
        timeline_row(&e, None),
        format!("{:<6} {:<22} {:<22} {}", 12, "2026-03-30T12:34:56", "PreToolUse", "Bash")
    );
    assert_eq!(
        query_header_line(),
        format!("{:<6} {:<22} {:<22} {:<16} SESSION", "ID", "TIME", "EVENT TYPE", "TOOL")
    );
    assert_eq!(
        query_row(&e),
        format!(
            "{:<6} {:<22} {:<22} {:<16} {}",
            12, "2026-03-30T12:34:56", "PreToolUse", "Bash", "abcdef012345"
        )
    );
}

#[test]
fn token_usage_block() {
    let u = usage();
    assert!(usage_total_defined(&u));
    assert_eq!(
        token_usage_lines(&u),
        vec![
            String::new(),
            "Token usage:".to_string(),
            format!("  {:<16} {}", "Input", "1,234"),
            format!("  {:<16} {}", "Output", "56"),
            format!("  {:<16} {}", "Cache write", "0"),
            format!("  {:<16} {}", "Cache read", "1,000,000"),
            format!("  {:<16} {}", "Total", "1,001,290"),
            format!("  {:<16} {}", "API calls", "3"),
            format!("  {:<16} {}", "Web searches", "2"),
        ]
    );
    let mut big = usage();
    big.input_tokens = i64::MAX;
    assert!(!usage_total_defined(&big));
}

#[test]
fn stats_text() {
    assert_eq!(stats_scope(None), "global");
    assert_eq!(stats_scope(Some("s7")), "s7");
    assert_eq!(
        stats_head_lines("global", 150, 3),
        vec!["Stats: global".to_string(), "=".repeat(50), "Total events:  150".to_string(), "Error events:  3".to_string()]
    );
    assert_eq!(count_line("Bash", 30), format!("  {:<25} {}", "Bash", 30));
    let types = vec![("PostToolUse".to_string(), 45)];
    let lines = stats_body_lines(Some("1h 23m"), &types, &Vec::new());
    assert_eq!(
        lines,
        vec![
            "Duration:      1h 23m".to_string(),
            String::new(),
            "Event types:".to_string(),
            format!("  {:<25} {}", "PostToolUse", 45),
        ]
    );
    let lines = stats_body_lines(None, &Vec::new(), &types);
    assert_eq!(lines.len(), 5);
    assert_eq!(lines[3], "Tool usage:");
}

#[test]
fn summary_text() {
    let s = SessionSummary {
        session_id: "s8".to_string(),
        cwd: "/proj".to_string(),
        model: Some("opus".to_string()),
        start: "2026-03-30T10:00:00+00:00".to_string(),
        end: "2026-03-30T11:23:00+00:00".to_string(),
        duration: "1h 23m".to_string(),
        total_events: 150,
        errors: 3,
        top_tools: vec![("Bash".to_string(), 30)],
    };
    assert_eq!(end_time_display(&s.end), "11:23:00");
    assert_eq!(end_time_display("short"), "short");
    let u = usage();
    assert_eq!(
        summary_lines(&s, Some(&u)),
        vec![
            "Session: s8".to_string(),
            "Model:   opus".to_string(),
            "CWD:     /proj".to_string(),
            "Period:  2026-03-30T10:00:00 to 11:23:00 (1h 23m)".to_string(),
            "Events:  150 total, 3 errors".to_string(),
            "Tokens:  1,234 in / 56 out / 1,001,290 total (3 API calls)".to_string(),
            String::new(),
            "Top tools:".to_string(),
            "  Bash (30)".to_string(),
        ]
    );
}

#[test]
fn hook_messages() {
    let rows = vec![("SessionStart", true), ("Stop", false)];
    let unknown = vec!["FutureEvent".to_string()];
    assert_eq!(
        status_lines(Scope::User, "/h/settings.json", &rows, &unknown),
        vec![
            "ivara hooks status (user scope)".to_string(),
            "  settings: /h/settings.json".to_string(),
            "  wired: 1/2".to_string(),
            String::new(),
            "  [ok] SessionStart".to_string(),
            "  [--] Stop".to_string(),
            String::new(),
            "  unknown events with ivara entry (canonical list may be stale):".to_string(),
            "    - FutureEvent".to_string(),
        ]
    );
    assert_eq!(
        install_lines(Scope::Project, "/p/w.sh", "/p/s.json"),
        vec![
            "Installed ivara hooks (project scope).".to_string(),
            "  wrapper:  /p/w.sh".to_string(),
            "  settings: /p/s.json".to_string(),
            "  events:   25".to_string(),
        ]
    );
    assert_eq!(
        uninstall_lines(Scope::User, "/h/s.json", None),
        vec!["No settings.json at /h/s.json \u{2014} nothing to remove.".to_string()]
    );
    assert_eq!(
        uninstall_lines(Scope::User, "/h/s.json", Some(25))[2],
        "  entries removed: 25"
    );
}

#[test]
fn show_and_prune_text() {
    let mut e = event();
    e.cwd = Some("/w".to_string());
    assert_eq!(
        ivara::report::show_lines(&e),
        vec![
            "Event ID:    12".to_string(),
            "UUID:        u".to_string(),
            "Session:     abcdef0123456789".to_string(),
            "Type:        PreToolUse".to_string(),
            "Timestamp:   2026-03-30T12:34:56.5+00:00".to_string(),
            "Tool:        Bash".to_string(),
            "CWD:         /w".to_string(),
        ]
    );
    assert_eq!(ivara::report::prune_lines(3, 0, 0), vec!["Pruned 3 events.".to_string()]);
    assert_eq!(
        ivara::report::prune_lines(3, 2, 1),
        vec!["Pruned 3 events.".to_string(), "Deleted 1 payload files (1 errors).".to_string()]
    );
}

#[test]
fn stats_global_and_per_session() {
    let global = stats_head_lines(&stats_scope(None), 3, 1);
    assert_eq!(global[0], "Stats: global");
    assert_eq!(global[2], "Total events:  3");
    assert_eq!(global[3], "Error events:  1");
    let one = stats_head_lines(&stats_scope(Some("s7")), 3, 0);
    assert_eq!(one[0], "Stats: s7");
    assert_eq!(one[2], "Total events:  3");
}

#[test]
fn summary_json_includes_token_usage() {
    let mut u = usage();
    u.input_tokens = 110;
    u.output_tokens = 130;
    u.cache_creation_tokens = 200;
    u.cache_read_tokens = 3000;
    u.api_calls = 2;
    let lines = token_usage_lines(&u);
    assert_eq!(lines[2], format!("  {:<16} {}", "Input", "110"));
    assert_eq!(lines[3], format!("  {:<16} {}", "Output", "130"));
    assert_eq!(lines[6], format!("  {:<16} {}", "Total", "3,440"));
}
