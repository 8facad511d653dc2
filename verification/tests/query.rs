use ivara::query::{
    error_rate_queries, event_counts_query, event_query, like_prefix, query_events_plan,
    tool_frequency_query, QueryFilter, SqlValue,
};

const SELECT: &str = "SELECT id, event_uuid, session_id, event_type, timestamp, tool_name, tool_use_id, cwd, payload_path, metadata_json\n         FROM events ";

fn filter() -> QueryFilter {
    QueryFilter {
        event_type: None,
        tool: None,
        session: None,
        since: None,
        until: None,
        has_error: false,
        limit: 50,
    }
}

fn texts(ps: &[SqlValue]) -> Vec<String> {
    ps.iter()
        .map(|p| match p {
            SqlValue::Text(t) => t.clone(),
            SqlValue::Int(n) => format!("#{n}"),
        })
        .collect()
}

#[test]
fn unfiltered_query_only_limits() {
    let q = event_query(&filter(), None, None);
    assert_eq!(q.sql, format!("{SELECT} ORDER BY timestamp DESC LIMIT ?"));
    assert_eq!(texts(&q.params), vec!["#50"]);
}

#[test]
fn query_by_event_type() {
    let mut f = filter();
    f.event_type = Some("PreToolUse".to_string());
    let q = event_query(&f, None, None);
    assert_eq!(q.sql, format!("{SELECT}WHERE event_type = ? ORDER BY timestamp DESC LIMIT ?"));
    assert_eq!(texts(&q.params), vec!["PreToolUse", "#50"]);
}

#[test]
fn every_filter_adds_its_condition() {
    let f = QueryFilter {
        event_type: Some("Stop".to_string()),
        tool: Some("Bash".to_string()),
        session: Some("abc".to_string()),
        since: Some("ignored".to_string()),
        until: Some("ignored".to_string()),
        has_error: true,
        limit: 7,
    };
    let q = event_query(&f, Some("2026-01-01"), Some("2026-02-01"));
    assert_eq!(
        q.sql,
        format!(
            "{SELECT}WHERE event_type = ? AND tool_name = ? AND session_id LIKE ? AND timestamp >= ? AND timestamp <= ? AND (event_type IN ('StopFailure', 'PostToolUseFailure') OR metadata_json LIKE '%\"error\"%') ORDER BY timestamp DESC LIMIT ?"
        )
    );
    assert_eq!(texts(&q.params), vec!["Stop", "Bash", "abc%", "2026-01-01", "2026-02-01", "#7"]);
}

#[test]
fn query_has_error() {
    let mut f = filter();
    f.has_error = true;
    let q = event_query(&f, None, None);
    assert!(q.sql.contains("WHERE (event_type IN ('StopFailure', 'PostToolUseFailure')"));
    assert_eq!(texts(&q.params), vec!["#50"]);
}

#[test]
fn plan_resolves_literal_bounds() {
    let mut f = filter();
    f.since = Some("2026-01-01".to_string());
    let now = "2026-03-30T12:00:00+00:00";
    let q = query_events_plan(&f, now).unwrap();
    assert_eq!(q.sql, format!("{SELECT}WHERE timestamp >= ? ORDER BY timestamp DESC LIMIT ?"));
    assert_eq!(texts(&q.params), vec!["2026-01-01", "#50"]);
    f.until = Some("1d".to_string());
    let q = query_events_plan(&f, now).unwrap();
    assert_eq!(
        q.sql,
        format!("{SELECT}WHERE timestamp >= ? AND timestamp <= ? ORDER BY timestamp DESC LIMIT ?")
    );
    assert_eq!(texts(&q.params), vec!["2026-01-01", "2026-03-29T12:00:00+00:00", "#50"]);
    f.since = Some("1000000000d".to_string());
    assert!(query_events_plan(&f, now).is_err());
}

#[test]
fn count_queries() {
    assert_eq!(like_prefix("ab_c"), "ab_c%");
    let q = event_counts_query(Some("s1"));
    assert_eq!(q.sql, "SELECT event_type, COUNT(*) FROM events WHERE session_id LIKE ? GROUP BY event_type ORDER BY COUNT(*) DESC");
    assert_eq!(q.pattern.as_deref(), Some("s1%"));
    let q = event_counts_query(None);
    assert_eq!(q.sql, "SELECT event_type, COUNT(*) FROM events GROUP BY event_type ORDER BY COUNT(*) DESC");
    assert!(q.pattern.is_none());
    let q = tool_frequency_query(None);
    assert_eq!(q.sql, "SELECT tool_name, COUNT(*) FROM events WHERE tool_name IS NOT NULL GROUP BY tool_name ORDER BY COUNT(*) DESC");
    let (t, e) = error_rate_queries(Some("x"));
    assert_eq!(t.sql, "SELECT COUNT(*) FROM events WHERE session_id LIKE ?");
    assert_eq!(e.sql, "SELECT COUNT(*) FROM events WHERE session_id LIKE ? AND event_type IN ('StopFailure', 'PostToolUseFailure')");
    assert_eq!(e.pattern.as_deref(), Some("x%"));
}

#[test]
fn query_by_tool() {
    let mut f = filter();
    f.tool = Some("Bash".to_string());
    let q = event_query(&f, None, None);
    assert_eq!(q.sql, format!("{SELECT}WHERE tool_name = ? ORDER BY timestamp DESC LIMIT ?"));
    assert_eq!(texts(&q.params), vec!["Bash", "#50"]);
}

#[test]
fn session_prefix_matching() {
    let pattern = like_prefix("abc");
    assert_eq!(pattern, "abc%");
    assert!("abc-long-session-id-12345".starts_with(pattern.trim_end_matches('%')));
    let mut f = filter();
    f.session = Some("abc".to_string());
    let q = event_query(&f, None, None);
    assert_eq!(q.sql, format!("{SELECT}WHERE session_id LIKE ? ORDER BY timestamp DESC LIMIT ?"));
    assert_eq!(texts(&q.params), vec!["abc%", "#50"]);
}
