//! Filters over stored events, as SQL with its parameters.

use vstd::prelude::*;
use crate::time::{parse_time_arg, time_arg_at, time_arg_valid, TimeArgError};

verus! {

broadcast use vstd::std_specs::vec::group_vec_axioms;

/// Query filter parameters.
#[derive(Clone, Debug)]
pub struct QueryFilter {
    pub event_type: Option<String>,
    pub tool: Option<String>,
    /// Session id prefix.
    pub session: Option<String>,
    /// Lower bound on the timestamp: a timestamp or a relative span such as `2h`.
    pub since: Option<String>,
    /// Upper bound on the timestamp, in the same forms.
    pub until: Option<String>,
    pub has_error: bool,
    pub limit: i64,
}

/// A parameter bound to a `?` of a query.
#[derive(Clone, Debug)]
pub enum SqlValue {
    Text(String),
    Int(i64),
}

/// A query parameter, mathematically.
pub enum SqlValueV {
    Text(Seq<char>),
    Int(i64),
}

impl View for SqlValue {
    type V = SqlValueV;

    open spec fn view(&self) -> SqlValueV {
        match self {
            SqlValue::Text(s) => SqlValueV::Text(s@),
            SqlValue::Int(n) => SqlValueV::Int(*n),
        }
    }
}

/// A query and the parameters of its `?` placeholders, in order.
#[derive(Clone, Debug)]
pub struct SqlQuery {
    pub sql: String,
    pub params: Vec<SqlValue>,
}

/// The parameters of a query, mathematically.
pub open spec fn params_view(p: Seq<SqlValue>) -> Seq<SqlValueV> {
    p.map_values(|v: SqlValue| v@)
}

/// `LIKE` pattern that matches the texts starting with `s`.
pub open spec fn prefix_pattern(s: Seq<char>) -> Seq<char> {
    s + "%"@
}

/// The `LIKE` pattern of texts that start with `s` (`_` and `%` in `s` keep their `LIKE`
/// meaning).
pub fn like_prefix(s: &str) -> (r: String)
    ensures
        r@ == prefix_pattern(s@),
{
    let mut out = s.to_string();
    out.append("%");
    out
}

/// The condition that selects failed events: failure types, or metadata that mentions `"error"`.
pub open spec fn error_condition() -> Seq<char> {
    "(event_type IN ('StopFailure', 'PostToolUseFailure') OR metadata_json LIKE '%\"error\"%')"@
}

/// A one-element sequence when `b` holds.
pub open spec fn when<A>(b: bool, a: A) -> Seq<A> {
    if b {
        seq![a]
    } else {
        Seq::empty()
    }
}

/// The conditions of an event query, in order: one for each filter that is set.
pub open spec fn query_conditions(f: QueryFilter, since: bool, until: bool) -> Seq<Seq<char>> {
    when(f.event_type is Some, "event_type = ?"@) + when(f.tool is Some, "tool_name = ?"@) + when(
        f.session is Some,
        "session_id LIKE ?"@,
    ) + when(since, "timestamp >= ?"@) + when(until, "timestamp <= ?"@) + when(
        f.has_error,
        error_condition(),
    )
}

/// The text of an optional string.
pub open spec fn text_or_empty(s: Option<String>) -> Seq<char> {
    match s {
        Some(t) => t@,
        None => Seq::empty(),
    }
}

/// The parameters of an event query, in the order of its conditions, then the limit.
pub open spec fn query_params(f: QueryFilter, since: Option<Seq<char>>, until: Option<Seq<char>>) -> Seq<SqlValueV> {
    when(f.event_type is Some, SqlValueV::Text(text_or_empty(f.event_type))) + when(
        f.tool is Some,
        SqlValueV::Text(text_or_empty(f.tool)),
    ) + when(f.session is Some, SqlValueV::Text(prefix_pattern(text_or_empty(f.session))))
        + when(since is Some, SqlValueV::Text(since.unwrap_or(Seq::empty()))) + when(
        until is Some,
        SqlValueV::Text(until.unwrap_or(Seq::empty())),
    ) + seq![SqlValueV::Int(f.limit)]
}

/// Conditions joined by ` AND `.
pub open spec fn join_and(cs: Seq<Seq<char>>) -> Seq<char>
    decreases cs.len(),
{
    if cs.len() == 0 {
        Seq::empty()
    } else if cs.len() == 1 {
        cs[0]
    } else {
        join_and(cs.drop_last()) + " AND "@ + cs.last()
    }
}

/// The columns of an event row, as queries select them.
pub open spec fn event_select() -> Seq<char> {
    "SELECT id, event_uuid, session_id, event_type, timestamp, tool_name, tool_use_id, cwd, payload_path, metadata_json\n         FROM events "@
}

/// The text of an event query with the given conditions: newest first, with a limit.
pub open spec fn query_sql(cs: Seq<Seq<char>>) -> Seq<char> {
    event_select() + (if cs.len() == 0 {
        Seq::empty()
    } else {
        "WHERE "@ + join_and(cs)
    }) + " ORDER BY timestamp DESC LIMIT ?"@
}

fn push_condition(cs: &mut Vec<&'static str>, c: &'static str)
    ensures
        strs_view(final(cs)@) == strs_view(old(cs)@).push(c@),
{
    cs.push(c);
    assert(strs_view(cs@) =~= strs_view(old(cs)@).push(c@));
}

/// The texts of a sequence of string slices.
pub open spec fn strs_view(v: Seq<&str>) -> Seq<Seq<char>> {
    v.map_values(|s: &str| s@)
}

fn condition_list(filter: &QueryFilter, since: bool, until: bool) -> (r: Vec<&'static str>)
    ensures
        strs_view(r@) == query_conditions(*filter, since, until),
{
    let mut cs: Vec<&'static str> = Vec::new();
    let ghost f = *filter;
    proof {
        assert(strs_view(cs@) =~= Seq::<Seq<char>>::empty());
    }
    if filter.event_type.is_some() {
        push_condition(&mut cs, "event_type = ?");
    }
    let ghost c1 = when(f.event_type is Some, "event_type = ?"@);
    assert(strs_view(cs@) =~= c1);
    if filter.tool.is_some() {
        push_condition(&mut cs, "tool_name = ?");
    }
    let ghost c2 = c1 + when(f.tool is Some, "tool_name = ?"@);
    assert(strs_view(cs@) =~= c2);
    if filter.session.is_some() {
        push_condition(&mut cs, "session_id LIKE ?");
    }
    let ghost c3 = c2 + when(f.session is Some, "session_id LIKE ?"@);
    assert(strs_view(cs@) =~= c3);
    if since {
        push_condition(&mut cs, "timestamp >= ?");
    }
    let ghost c4 = c3 + when(since, "timestamp >= ?"@);
    assert(strs_view(cs@) =~= c4);
    if until {
        push_condition(&mut cs, "timestamp <= ?");
    }
    let ghost c5 = c4 + when(until, "timestamp <= ?"@);
    assert(strs_view(cs@) =~= c5);
    if filter.has_error {
        push_condition(
            &mut cs,
            "(event_type IN ('StopFailure', 'PostToolUseFailure') OR metadata_json LIKE '%\"error\"%')",
        );
    }
    assert(strs_view(cs@) =~= query_conditions(f, since, until));
    cs
}

fn push_param(ps: &mut Vec<SqlValue>, v: SqlValue)
    ensures
        params_view(final(ps)@) == params_view(old(ps)@).push(v@),
{
    ps.push(v);
    assert(params_view(ps@) =~= params_view(old(ps)@).push(v@));
}

/// An optional string slice, taken by its text.
pub open spec fn opt_str(s: Option<&str>) -> Option<Seq<char>> {
    match s {
        Some(t) => Some(t@),
        None => None,
    }
}

fn param_list(filter: &QueryFilter, since: Option<&str>, until: Option<&str>) -> (r: Vec<SqlValue>)
    ensures
        params_view(r@) == query_params(*filter, opt_str(since), opt_str(until)),
{
    let mut ps: Vec<SqlValue> = Vec::new();
    let ghost f = *filter;
    let ghost sv = opt_str(since);
    let ghost uv = opt_str(until);
    assert(params_view(ps@) =~= Seq::<SqlValueV>::empty());
    if let Some(et) = &filter.event_type {
        push_param(&mut ps, SqlValue::Text(et.clone()));
    }
    let ghost p1 = when(f.event_type is Some, SqlValueV::Text(text_or_empty(f.event_type)));
    assert(params_view(ps@) =~= p1);
    if let Some(tool) = &filter.tool {
        push_param(&mut ps, SqlValue::Text(tool.clone()));
    }
    let ghost p2 = p1 + when(f.tool is Some, SqlValueV::Text(text_or_empty(f.tool)));
    assert(params_view(ps@) =~= p2);
    if let Some(session) = &filter.session {
        push_param(&mut ps, SqlValue::Text(like_prefix(session.as_str())));
    }
    let ghost p3 = p2 + when(
        f.session is Some,
        SqlValueV::Text(prefix_pattern(text_or_empty(f.session))),
    );
    assert(params_view(ps@) =~= p3);
    if let Some(ts) = since {
        push_param(&mut ps, SqlValue::Text(ts.to_string()));
    }
    let ghost p4 = p3 + when(sv is Some, SqlValueV::Text(sv.unwrap_or(Seq::empty())));
    assert(params_view(ps@) =~= p4);
    if let Some(ts) = until {
        push_param(&mut ps, SqlValue::Text(ts.to_string()));
    }
    let ghost p5 = p4 + when(uv is Some, SqlValueV::Text(uv.unwrap_or(Seq::empty())));
    assert(params_view(ps@) =~= p5);
    push_param(&mut ps, SqlValue::Int(filter.limit));
    assert(params_view(ps@) =~= query_params(f, sv, uv));
    ps
}

fn join_conditions(cs: &Vec<&'static str>) -> (r: String)
    ensures
        r@ == join_and(strs_view(cs@)),
{
    let ghost cv = strs_view(cs@);
    let mut out = String::new();
    let mut i: usize = 0;
    while i < cs.len()
        invariant
            0 <= i <= cs@.len(),
            cv == strs_view(cs@),
            out@ == join_and(cv.take(i as int)),
        decreases cs@.len() - i,
    {
        proof {
            assert(cv.take(i as int + 1).drop_last() =~= cv.take(i as int));
        }
        if i > 0 {
            out.append(" AND ");
        }
        out.append(cs[i]);
        proof {
            if i == 0 {
                assert(cv.take(1) =~= seq![cv[0]]);
                assert(out@ =~= join_and(cv.take(1)));
            } else {
                assert(out@ =~= join_and(cv.take(i as int + 1)));
            }
        }
        i = i + 1;
    }
    proof {
        assert(cv.take(cs@.len() as int) =~= cv);
    }
    out
}

/// Builds the query of a filter whose time bounds are already resolved to timestamps.
pub fn event_query(filter: &QueryFilter, since: Option<&str>, until: Option<&str>) -> (r: SqlQuery)
    ensures
        r.sql@ == query_sql(query_conditions(*filter, since is Some, until is Some)),
        params_view(r.params@) == query_params(*filter, opt_str(since), opt_str(until)),
{
    let cs = condition_list(filter, since.is_some(), until.is_some());
    let params = param_list(filter, since, until);
    let mut sql = "SELECT id, event_uuid, session_id, event_type, timestamp, tool_name, tool_use_id, cwd, payload_path, metadata_json\n         FROM events ".to_string();
    if cs.len() > 0 {
        sql.append("WHERE ");
        let joined = join_conditions(&cs);
        sql.append(joined.as_str());
    }
    sql.append(" ORDER BY timestamp DESC LIMIT ?");
    SqlQuery { sql, params }
}

/// What a filter's time bound resolves to at `now`: `Some(None)` when the bound is not
/// set, `Some(Some(t))` when it resolves to `t`, `None` when it cannot be resolved.
pub open spec fn bound_at(bound: Option<String>, now: Seq<char>) -> Option<Option<Seq<char>>> {
    match bound {
        None => Some(None),
        Some(s) => match time_arg_at(s@, now) {
            Some(t) => Some(Some(t)),
            None => None,
        },
    }
}

/// Builds the query of a filter, resolving relative time bounds against the RFC 3339
/// timestamp `now` (see `bound_at`); `Err` when a bound lies outside chrono's range.
pub fn query_events_plan(filter: &QueryFilter, now: &str) -> (r: Result<SqlQuery, TimeArgError>)
    requires
        filter.since matches Some(s) ==> time_arg_valid(s@),
        filter.until matches Some(u) ==> time_arg_valid(u@),
    ensures
        match (bound_at(filter.since, now@), bound_at(filter.until, now@)) {
            (Some(since), Some(until)) => r matches Ok(q) && q.sql@ == query_sql(
                query_conditions(*filter, filter.since is Some, filter.until is Some),
            ) && params_view(q.params@) == query_params(*filter, since, until),
            _ => r == Err::<SqlQuery, TimeArgError>(TimeArgError::OutOfRange),
        },
{
    let since = match &filter.since {
        Some(s) => match parse_time_arg(s.as_str(), now) {
            Ok(t) => Some(t),
            Err(e) => return Err(e),
        },
        None => None,
    };
    let until = match &filter.until {
        Some(u) => match parse_time_arg(u.as_str(), now) {
            Ok(t) => Some(t),
            Err(e) => return Err(e),
        },
        None => None,
    };
    let since_ref: Option<&str> = match &since {
        Some(t) => Some(t.as_str()),
        None => None,
    };
    let until_ref: Option<&str> = match &until {
        Some(t) => Some(t.as_str()),
        None => None,
    };
    Ok(event_query(filter, since_ref, until_ref))
}

/// A query and the one pattern it binds, if any.
#[derive(Clone, Debug)]
pub struct CountQuery {
    pub sql: String,
    pub pattern: Option<String>,
}

/// The pattern bound to a per-session query: the session id as a prefix.
pub open spec fn session_pattern(session_id: Option<&str>) -> Option<Seq<char>> {
    match session_id {
        Some(s) => Some(prefix_pattern(s@)),
        None => None,
    }
}

fn session_like(session_id: Option<&str>) -> (r: Option<String>)
    ensures
        match r {
            Some(p) => session_pattern(session_id) == Some(p@),
            None => session_pattern(session_id) is None,
        },
{
    match session_id {
        Some(s) => Some(like_prefix(s)),
        None => None,
    }
}

/// Events per type, most frequent first, of one session (by id prefix) or of all.
pub fn event_counts_query(session_id: Option<&str>) -> (r: CountQuery)
    ensures
        r.sql@ == (if session_id is Some {
            "SELECT event_type, COUNT(*) FROM events WHERE session_id LIKE ? GROUP BY event_type ORDER BY COUNT(*) DESC"@
        } else {
            "SELECT event_type, COUNT(*) FROM events GROUP BY event_type ORDER BY COUNT(*) DESC"@
        }),
        match r.pattern {
            Some(p) => session_pattern(session_id) == Some(p@),
            None => session_pattern(session_id) is None,
        },
{
    let sql = if session_id.is_some() {
        "SELECT event_type, COUNT(*) FROM events WHERE session_id LIKE ? GROUP BY event_type ORDER BY COUNT(*) DESC".to_string()
    } else {
        "SELECT event_type, COUNT(*) FROM events GROUP BY event_type ORDER BY COUNT(*) DESC".to_string()
    };
    CountQuery { sql, pattern: session_like(session_id) }
}

/// Events per tool, most used first, of one session (by id prefix) or of all.
pub fn tool_frequency_query(session_id: Option<&str>) -> (r: CountQuery)
    ensures
        r.sql@ == (if session_id is Some {
            "SELECT tool_name, COUNT(*) FROM events WHERE tool_name IS NOT NULL AND session_id LIKE ? GROUP BY tool_name ORDER BY COUNT(*) DESC"@
        } else {
            "SELECT tool_name, COUNT(*) FROM events WHERE tool_name IS NOT NULL GROUP BY tool_name ORDER BY COUNT(*) DESC"@
        }),
        match r.pattern {
            Some(p) => session_pattern(session_id) == Some(p@),
            None => session_pattern(session_id) is None,
        },
{
    let sql = if session_id.is_some() {
        "SELECT tool_name, COUNT(*) FROM events WHERE tool_name IS NOT NULL AND session_id LIKE ? GROUP BY tool_name ORDER BY COUNT(*) DESC".to_string()
    } else {
        "SELECT tool_name, COUNT(*) FROM events WHERE tool_name IS NOT NULL GROUP BY tool_name ORDER BY COUNT(*) DESC".to_string()
    };
    CountQuery { sql, pattern: session_like(session_id) }
}

/// The two counts of an error rate: all events, then failed ones, of one session (by id
/// prefix) or of all.
pub fn error_rate_queries(session_id: Option<&str>) -> (r: (CountQuery, CountQuery))
    ensures
        r.0.sql@ == (if session_id is Some {
            "SELECT COUNT(*) FROM events WHERE session_id LIKE ?"@
        } else {
            "SELECT COUNT(*) FROM events"@
        }),
        r.1.sql@ == (if session_id is Some {
            "SELECT COUNT(*) FROM events WHERE session_id LIKE ? AND event_type IN ('StopFailure', 'PostToolUseFailure')"@
        } else {
            "SELECT COUNT(*) FROM events WHERE event_type IN ('StopFailure', 'PostToolUseFailure')"@
        }),
        match r.0.pattern {
            Some(p) => session_pattern(session_id) == Some(p@),
            None => session_pattern(session_id) is None,
        },
        match r.1.pattern {
            Some(p) => session_pattern(session_id) == Some(p@),
            None => session_pattern(session_id) is None,
        },
{
    let (total, errors) = if session_id.is_some() {
        (
            "SELECT COUNT(*) FROM events WHERE session_id LIKE ?".to_string(),
            "SELECT COUNT(*) FROM events WHERE session_id LIKE ? AND event_type IN ('StopFailure', 'PostToolUseFailure')".to_string(),
        )
    } else {
        (
            "SELECT COUNT(*) FROM events".to_string(),
            "SELECT COUNT(*) FROM events WHERE event_type IN ('StopFailure', 'PostToolUseFailure')".to_string(),
        )
    };
    (
        CountQuery { sql: total, pattern: session_like(session_id) },
        CountQuery { sql: errors, pattern: session_like(session_id) },
    )
}

/// Each filter that is set adds its condition and binds its value to that condition's
/// placeholder: the conditions come in the order event type, tool, session prefix, lower
/// and upper time bound, errors (which binds nothing), and the parameters follow them
/// one for one, then the limit.
pub proof fn law_query_binds_each_filter(f: QueryFilter, since: Option<Seq<char>>, until: Option<Seq<char>>)
    ensures
        ({
            let cs = query_conditions(f, since is Some, until is Some);
            let ps = query_params(f, since, until);
            let a = if f.event_type is Some { 1int } else { 0int };
            let b = a + if f.tool is Some { 1int } else { 0int };
            let c = b + if f.session is Some { 1int } else { 0int };
            let d = c + if since is Some { 1int } else { 0int };
            let e = d + if until is Some { 1int } else { 0int };
            &&& f.event_type matches Some(t) ==> cs[0] == "event_type = ?"@ && ps[0] == SqlValueV::Text(t@)
            &&& f.tool matches Some(t) ==> cs[a] == "tool_name = ?"@ && ps[a] == SqlValueV::Text(t@)
            &&& f.session matches Some(x) ==> cs[b] == "session_id LIKE ?"@ && ps[b] == SqlValueV::Text(
                x@ + "%"@,
            )
            &&& since matches Some(x) ==> cs[c] == "timestamp >= ?"@ && ps[c] == SqlValueV::Text(x)
            &&& until matches Some(x) ==> cs[d] == "timestamp <= ?"@ && ps[d] == SqlValueV::Text(x)
            &&& cs.len() == e + if f.has_error { 1int } else { 0int }
            &&& f.has_error ==> cs[e] == error_condition()
            &&& ps.len() == e + 1
            &&& ps[e] == SqlValueV::Int(f.limit)
        }),
{
    let w1 = when(f.event_type is Some, "event_type = ?"@);
    let w2 = w1 + when(f.tool is Some, "tool_name = ?"@);
    let w3 = w2 + when(f.session is Some, "session_id LIKE ?"@);
    let w4 = w3 + when(since is Some, "timestamp >= ?"@);
    let w5 = w4 + when(until is Some, "timestamp <= ?"@);
    let p1 = when(f.event_type is Some, SqlValueV::Text(text_or_empty(f.event_type)));
    let p2 = p1 + when(f.tool is Some, SqlValueV::Text(text_or_empty(f.tool)));
    let p3 = p2 + when(f.session is Some, SqlValueV::Text(prefix_pattern(text_or_empty(f.session))));
    let p4 = p3 + when(since is Some, SqlValueV::Text(since.unwrap_or(Seq::empty())));
    let p5 = p4 + when(until is Some, SqlValueV::Text(until.unwrap_or(Seq::empty())));
    assert(w1.len() == p1.len());
    assert(w2.len() == p2.len());
    assert(w3.len() == p3.len());
    assert(w4.len() == p4.len());
    assert(w5.len() == p5.len());
    if f.event_type is Some {
        assert(w2[0] == w1[0] && w3[0] == w1[0] && w4[0] == w1[0] && w5[0] == w1[0]);
        assert(p2[0] == p1[0] && p3[0] == p1[0] && p4[0] == p1[0] && p5[0] == p1[0]);
    }
    let a = w1.len() as int;
    if f.tool is Some {
        assert(w3[a] == w2[a] && w4[a] == w2[a] && w5[a] == w2[a]);
        assert(p3[a] == p2[a] && p4[a] == p2[a] && p5[a] == p2[a]);
    }
    let b = w2.len() as int;
    if f.session is Some {
        assert(w4[b] == w3[b] && w5[b] == w3[b]);
        assert(p4[b] == p3[b] && p5[b] == p3[b]);
    }
    let c = w3.len() as int;
    if since is Some {
        assert(w5[c] == w4[c]);
        assert(p5[c] == p4[c]);
    }
    assert(query_conditions(f, since is Some, until is Some) == w5 + when(f.has_error, error_condition()));
    assert(query_params(f, since, until) == p5 + seq![SqlValueV::Int(f.limit)]);
}

} // verus!
