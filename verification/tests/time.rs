use ivara::time::{
    days_supported, duration_between, duration_string, idle_display, idle_string, parse_i64,
    parse_time_arg, prune_cutoff, relative_seconds, span_display, time_arg_supported,
    CutoffError,
};

const NOW: &str = "2026-03-30T12:00:00+00:00";

#[test]
fn parses_i64_like_std() {
    for s in ["0", "42", "-7", "+13", "9223372036854775807", "-9223372036854775808", "007"] {
        assert_eq!(parse_i64(s), s.parse::<i64>().ok(), "{s}");
    }
    for s in ["", "-", "+", "9223372036854775808", "-9223372036854775809", "1a", "--1", " 1", "99999999999999999999999"] {
        assert_eq!(parse_i64(s), None, "{s}");
    }
}

#[test]
fn relative_spans_in_seconds() {
    assert_eq!(relative_seconds("30m"), Some(1800));
    assert_eq!(relative_seconds("1h"), Some(3600));
    assert_eq!(relative_seconds("2d"), Some(172800));
    assert_eq!(relative_seconds("1w"), Some(604800));
    assert_eq!(relative_seconds("-1h"), Some(-3600));
    assert_eq!(relative_seconds("h"), None);
    assert_eq!(relative_seconds("5s"), None);
    assert_eq!(relative_seconds("2026-01-01"), None);
    assert_eq!(relative_seconds("xh"), None);
}

#[test]
fn timestamps_pass_through_unchanged() {
    assert_eq!(parse_time_arg("2026-01-01T00:00:00Z", NOW), Ok("2026-01-01T00:00:00Z".to_string()));
    assert_eq!(parse_time_arg("2026-01-01", NOW), Ok("2026-01-01".to_string()));
    assert_eq!(parse_time_arg("5s", NOW), Ok("5s".to_string()));
    assert_eq!(parse_time_arg("x", NOW), Ok("x".to_string()));
}

#[test]
fn relative_arguments_resolve_before_now() {
    assert_eq!(parse_time_arg("1h", NOW), Ok("2026-03-30T11:00:00+00:00".to_string()));
    assert_eq!(parse_time_arg("30m", NOW), Ok("2026-03-30T11:30:00+00:00".to_string()));
    assert_eq!(parse_time_arg("2d", NOW), Ok("2026-03-28T12:00:00+00:00".to_string()));
    assert_eq!(parse_time_arg("1w", NOW), Ok("2026-03-23T12:00:00+00:00".to_string()));
    assert_eq!(parse_time_arg("-1h", NOW), Ok("2026-03-30T13:00:00+00:00".to_string()));
    assert_eq!(
        parse_time_arg("1h", "2026-03-30T12:00:00.5+02:00"),
        Ok("2026-03-30T11:00:00.500+02:00".to_string())
    );
    assert_eq!(parse_time_arg("1h", "not a time"), Err(ivara::time::TimeArgError::OutOfRange));
    let now = chrono::Utc::now().to_rfc3339();
    let since = parse_time_arg("1h", &now).unwrap();
    assert_eq!(duration_between(&since, &now).as_deref(), Some("1h 0m"));
}

#[test]
fn out_of_range_arguments_are_detected() {
    assert!(time_arg_supported("1h"));
    assert!(time_arg_supported("2026-01-01"));
    assert!(!time_arg_supported("9999999999999999w"));
    assert!(!time_arg_supported("1é"));
    assert!(!time_arg_supported("é"));
    assert!(days_supported(30));
    assert!(!days_supported(u64::MAX / 2));
    assert!(days_supported(u64::MAX));
}

#[test]
fn spans_between_rfc3339_timestamps() {
    assert_eq!(
        duration_between("2026-03-30T10:00:00+00:00", "2026-03-30T11:23:00+00:00").as_deref(),
        Some("1h 23m")
    );
    assert_eq!(
        duration_between("2026-03-30T10:00:00+02:00", "2026-03-30T08:00:30Z").as_deref(),
        Some("30s")
    );
    assert_eq!(duration_between("nope", "2026-03-30T10:00:00Z"), None);
    assert_eq!(duration_string("2026-03-30T10:00:00Z", "2026-03-30T10:05:12Z"), "5m 12s");
    assert_eq!(duration_string("x", "y"), "-");
    assert_eq!(span_display(None), "-");
    assert_eq!(span_display(Some(61)), "1m 1s");
}

#[test]
fn idle_time_clamps_clock_skew() {
    assert_eq!(idle_string("2026-03-30T10:00:12Z", "2026-03-30T10:00:00Z"), "0s");
    assert_eq!(idle_string("2026-03-30T10:00:00Z", "2026-03-30T10:00:12Z"), "12s");
    assert_eq!(idle_string("bad", "2026-03-30T10:00:12Z"), "-");
    assert_eq!(idle_display(Some(-40)), "0s");
}

#[test]
fn prune_cutoff_from_date_or_days() {
    assert_eq!(
        prune_cutoff(Some("2026-01-01"), Some(3), NOW),
        Ok("2026-01-01T00:00:00Z".to_string())
    );
    assert_eq!(prune_cutoff(None, None, NOW), Err(CutoffError::MissingBound));
    assert_eq!(CutoffError::MissingBound.message(), "Specify --before <date> or --days <N>");
    assert_eq!(
        prune_cutoff(None, Some(1), NOW),
        Ok("2026-03-29T12:00:00+00:00".to_string())
    );
    assert_eq!(prune_cutoff(None, Some(0), NOW), Ok("2026-03-30T12:00:00+00:00".to_string()));
    assert_eq!(prune_cutoff(None, Some(1), "bad"), Err(CutoffError::OutOfRange));
}

#[test]
fn spans_past_the_representable_range_are_refused() {
    assert!(time_arg_supported("1000000000d"));
    assert_eq!(parse_time_arg("1000000000d", NOW), Err(ivara::time::TimeArgError::OutOfRange));
    assert!(days_supported(1_000_000_000));
    assert_eq!(prune_cutoff(None, Some(1_000_000_000), NOW), Err(CutoffError::OutOfRange));
    assert_eq!(CutoffError::OutOfRange.message(), "`DateTime - TimeDelta` overflowed");
}
