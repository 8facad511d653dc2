//! Text that the commands print: table rows, headers and reports.

use vstd::prelude::*;
use vstd::string::*;
use crate::events::{opt_text, ActiveSession, Event, Session};
use crate::format::{byte_prefix, clip, clip_ok, detail_text, duration_text, event_detail, truncate_timestamp};
use crate::json::{opt_view, Json};
use crate::format::{group_thousands, thousands_text};
use crate::hooks::Scope;
use crate::summary::SessionSummary;
use crate::text::{int_text, nat_text, push_int, push_nat, strings_view};
use crate::usage::SessionUsage;
use crate::time::{duration_string, idle_string, idle_text, rfc3339_span, span_display_text};

verus! {

/// `n` spaces.
pub open spec fn spaces(n: int) -> Seq<char>
    decreases n,
{
    if n <= 0 {
        Seq::empty()
    } else {
        spaces(n - 1).push(' ')
    }
}

/// `s` padded on the right with spaces to `w` characters (`{:<w}`); longer text is kept whole.
pub open spec fn padded(s: Seq<char>, w: int) -> Seq<char> {
    s + spaces(w - s.len())
}

/// Appends `s` padded to `w` characters.
pub fn push_padded(out: &mut String, s: &str, w: usize)
    ensures
        final(out)@ == old(out)@ + padded(s@, w as int),
{
    out.append(s);
    let n = s.unicode_len();
    let mut i: usize = n;
    while i < w
        invariant
            n == s@.len(),
            n <= i,
            i <= w || i == n,
            out@ == old(out)@ + s@ + spaces(i - n),
        decreases w - i,
    {
        proof {
            reveal_strlit(" ");
        }
        out.append(" ");
        proof {
            assert(spaces(i + 1 - n) == spaces(i - n).push(' '));
            assert(out@ =~= old(out)@ + s@ + spaces(i + 1 - n));
        }
        i = i + 1;
    }
    proof {
        if w <= n {
            assert(spaces(w - n) =~= spaces(0));
        }
    }
}

/// Appends an integer padded to `w` characters.
pub fn push_padded_int(out: &mut String, n: i64, w: usize)
    ensures
        final(out)@ == old(out)@ + padded(int_text(n as int), w as int),
{
    let mut t = String::new();
    push_int(&mut t, n);
    proof {
        assert(Seq::<char>::empty() + int_text(n as int) =~= int_text(n as int));
    }
    push_padded(out, t.as_str(), w);
}

/// `c` repeated `n` times.
pub open spec fn repeated(c: char, n: int) -> Seq<char>
    decreases n,
{
    if n <= 0 {
        Seq::empty()
    } else {
        repeated(c, n - 1).push(c)
    }
}

/// A rule of `n` dashes under a table header.
pub fn dashes(n: usize) -> (r: String)
    ensures
        r@ == repeated('-', n as int),
{
    let mut out = String::new();
    let mut i: usize = 0;
    while i < n
        invariant
            i <= n,
            out@ == repeated('-', i as int),
        decreases n - i,
    {
        proof {
            reveal_strlit("-");
        }
        out.append("-");
        proof {
            assert(out@ =~= repeated('-', i as int + 1));
        }
        i = i + 1;
    }
    out
}

/// The text of an optional string, or `d`.
pub open spec fn text_or(s: Option<String>, d: Seq<char>) -> Seq<char> {
    match s {
        Some(t) => t@,
        None => d,
    }
}

fn opt_or<'a>(s: &'a Option<String>, d: &'a str) -> (r: &'a str)
    ensures
        r@ == text_or(*s, d@),
{
    match s {
        Some(t) => t.as_str(),
        None => d,
    }
}

/// Header of the session list.
pub open spec fn sessions_header() -> Seq<char> {
    padded("SESSION"@, 40) + " "@ + padded("LAST SEEN"@, 22) + " "@ + padded("DURATION"@, 12) + " "@
        + padded("EVENTS"@, 8) + " CWD"@
}

/// Writes the header of the session list.
pub fn sessions_header_line() -> (r: String)
    ensures
        r@ == sessions_header(),
{
    let mut out = String::new();
    push_padded(&mut out, "SESSION", 40);
    out.append(" ");
    push_padded(&mut out, "LAST SEEN", 22);
    out.append(" ");
    push_padded(&mut out, "DURATION", 12);
    out.append(" ");
    push_padded(&mut out, "EVENTS", 8);
    out.append(" CWD");
    proof {
        assert(out@ =~= sessions_header());
    }
    out
}

/// A session row can be shown: its id cuts cleanly at 38 bytes and its last activity at 19.
pub open spec fn session_row_ok(session_id: Seq<char>, last_seen: Seq<char>) -> bool {
    clip_ok(session_id, 38) && clip_ok(last_seen, 19)
}

/// One row of the session list: id (38 bytes), last activity (19 bytes), duration, event
/// count, working directory.
pub open spec fn session_row_text(s: Session) -> Seq<char> {
    padded(clip(s.session_id@, 38), 40) + " "@ + padded(clip(s.last_seen@, 19), 22) + " "@ + padded(
        span_display_text(rfc3339_span(s.first_seen@, s.last_seen@)),
        12,
    ) + " "@ + padded(int_text(s.event_count as int), 8) + " "@ + text_or(s.cwd, "-"@)
}

/// Writes one row of the session list.
pub fn session_row(s: &Session) -> (r: String)
    requires
        session_row_ok(s.session_id@, s.last_seen@),
    ensures
        r@ == session_row_text(*s),
{
    let mut out = String::new();
    push_padded(&mut out, byte_prefix(s.session_id.as_str(), 38), 40);
    out.append(" ");
    push_padded(&mut out, byte_prefix(s.last_seen.as_str(), 19), 22);
    out.append(" ");
    let dur = duration_string(s.first_seen.as_str(), s.last_seen.as_str());
    push_padded(&mut out, dur.as_str(), 12);
    out.append(" ");
    push_padded_int(&mut out, s.event_count, 8);
    out.append(" ");
    out.append(opt_or(&s.cwd, "-"));
    proof {
        assert(out@ =~= session_row_text(*s));
    }
    out
}

/// A live session as the listing shows it, its idle time taken at `now`.
pub fn active_session(s: &Session, now: &str, tool: Option<String>) -> (r: ActiveSession)
    ensures
        r.session_id == s.session_id,
        r.last_seen == s.last_seen,
        r.duration@ == span_display_text(rfc3339_span(s.first_seen@, s.last_seen@)),
        r.event_count == s.event_count,
        r.cwd == s.cwd,
        r.idle@ == idle_text(rfc3339_span(s.last_seen@, now@)),
        r.tool == tool,
        r.model == s.model,
{
    ActiveSession {
        session_id: s.session_id.clone(),
        last_seen: s.last_seen.clone(),
        duration: duration_string(s.first_seen.as_str(), s.last_seen.as_str()),
        event_count: s.event_count,
        cwd: s.cwd.clone(),
        idle: idle_string(s.last_seen.as_str(), now),
        tool,
        model: s.model.clone(),
    }
}

/// Header of the listing of live sessions.
pub open spec fn active_header() -> Seq<char> {
    padded("SESSION"@, 40) + " "@ + padded("LAST SEEN"@, 22) + " "@ + padded("DURATION"@, 12) + " "@
        + padded("EVENTS"@, 8) + " "@ + padded("CWD"@, 40) + " "@ + padded("IDLE"@, 10) + " "@
        + padded("TOOL"@, 14) + " MODEL"@
}

/// Writes the header of the listing of live sessions.
pub fn active_header_line() -> (r: String)
    ensures
        r@ == active_header(),
{
    let mut out = String::new();
    push_padded(&mut out, "SESSION", 40);
    out.append(" ");
    push_padded(&mut out, "LAST SEEN", 22);
    out.append(" ");
    push_padded(&mut out, "DURATION", 12);
    out.append(" ");
    push_padded(&mut out, "EVENTS", 8);
    out.append(" ");
    push_padded(&mut out, "CWD", 40);
    out.append(" ");
    push_padded(&mut out, "IDLE", 10);
    out.append(" ");
    push_padded(&mut out, "TOOL", 14);
    out.append(" MODEL");
    proof {
        assert(out@ =~= active_header());
    }
    out
}

/// One row of the listing of live sessions.
pub open spec fn active_row_text(a: ActiveSession) -> Seq<char> {
    padded(clip(a.session_id@, 38), 40) + " "@ + padded(clip(a.last_seen@, 19), 22) + " "@ + padded(
        a.duration@,
        12,
    ) + " "@ + padded(int_text(a.event_count as int), 8) + " "@ + padded(text_or(a.cwd, "-"@), 40)
        + " "@ + padded(a.idle@, 10) + " "@ + padded(text_or(a.tool, ""@), 14) + " "@ + text_or(
        a.model,
        ""@,
    )
}

/// Writes one row of the listing of live sessions.
pub fn active_row(a: &ActiveSession) -> (r: String)
    requires
        session_row_ok(a.session_id@, a.last_seen@),
    ensures
        r@ == active_row_text(*a),
{
    let mut out = String::new();
    push_padded(&mut out, byte_prefix(a.session_id.as_str(), 38), 40);
    out.append(" ");
    push_padded(&mut out, byte_prefix(a.last_seen.as_str(), 19), 22);
    out.append(" ");
    push_padded(&mut out, a.duration.as_str(), 12);
    out.append(" ");
    push_padded_int(&mut out, a.event_count, 8);
    out.append(" ");
    push_padded(&mut out, opt_or(&a.cwd, "-"), 40);
    out.append(" ");
    push_padded(&mut out, a.idle.as_str(), 10);
    out.append(" ");
    push_padded(&mut out, opt_or(&a.tool, ""), 14);
    out.append(" ");
    out.append(opt_or(&a.model, ""));
    proof {
        assert(out@ =~= active_row_text(*a));
    }
    out
}

/// Header of a timeline.
pub open spec fn timeline_header() -> Seq<char> {
    padded("ID"@, 6) + " "@ + padded("TIME"@, 22) + " "@ + padded("EVENT TYPE"@, 22) + " DETAIL"@
}

/// Writes the header of a timeline.
pub fn timeline_header_line() -> (r: String)
    ensures
        r@ == timeline_header(),
{
    let mut out = String::new();
    push_padded(&mut out, "ID", 6);
    out.append(" ");
    push_padded(&mut out, "TIME", 22);
    out.append(" ");
    push_padded(&mut out, "EVENT TYPE", 22);
    out.append(" DETAIL");
    proof {
        assert(out@ =~= timeline_header());
    }
    out
}

/// One row of a timeline: id, time (19 bytes), type, and the event's detail `detail`.
pub open spec fn timeline_row_text(e: Event, detail: Seq<char>) -> Seq<char> {
    padded(int_text(e.id as int), 6) + " "@ + padded(clip(e.timestamp@, 19), 22) + " "@ + padded(
        e.event_type@,
        22,
    ) + " "@ + detail
}

/// Writes one row of a timeline; `meta` is the event's metadata, when it parses as JSON.
pub fn timeline_row(e: &Event, meta: Option<&Json>) -> (r: String)
    requires
        clip_ok(e.timestamp@, 19),
        detail_text(opt_text(e.tool_name), opt_view(meta)) is Some,
    ensures
        r@ == timeline_row_text(*e, detail_text(opt_text(e.tool_name), opt_view(meta))->0),
{
    let detail = match event_detail(e, meta) {
        Some(d) => d,
        None => String::new(),
    };
    let mut out = String::new();
    push_padded_int(&mut out, e.id, 6);
    out.append(" ");
    push_padded(&mut out, truncate_timestamp(e.timestamp.as_str()), 22);
    out.append(" ");
    push_padded(&mut out, e.event_type.as_str(), 22);
    out.append(" ");
    out.append(detail.as_str());
    proof {
        assert(out@ =~= timeline_row_text(*e, detail_text(opt_text(e.tool_name), opt_view(meta))->0));
    }
    out
}

/// Header of a query listing.
pub open spec fn query_header() -> Seq<char> {
    padded("ID"@, 6) + " "@ + padded("TIME"@, 22) + " "@ + padded("EVENT TYPE"@, 22) + " "@ + padded(
        "TOOL"@,
        16,
    ) + " SESSION"@
}

/// Writes the header of a query listing.
pub fn query_header_line() -> (r: String)
    ensures
        r@ == query_header(),
{
    let mut out = String::new();
    push_padded(&mut out, "ID", 6);
    out.append(" ");
    push_padded(&mut out, "TIME", 22);
    out.append(" ");
    push_padded(&mut out, "EVENT TYPE", 22);
    out.append(" ");
    push_padded(&mut out, "TOOL", 16);
    out.append(" SESSION");
    proof {
        assert(out@ =~= query_header());
    }
    out
}

/// One row of a query listing: id, time (19 bytes), type, tool, session (12 bytes).
pub open spec fn query_row_text(e: Event) -> Seq<char> {
    padded(int_text(e.id as int), 6) + " "@ + padded(clip(e.timestamp@, 19), 22) + " "@ + padded(
        e.event_type@,
        22,
    ) + " "@ + padded(text_or(e.tool_name, "-"@), 16) + " "@ + clip(e.session_id@, 12)
}

/// Writes one row of a query listing.
pub fn query_row(e: &Event) -> (r: String)
    requires
        clip_ok(e.timestamp@, 19),
        clip_ok(e.session_id@, 12),
    ensures
        r@ == query_row_text(*e),
{
    let mut out = String::new();
    push_padded_int(&mut out, e.id, 6);
    out.append(" ");
    push_padded(&mut out, truncate_timestamp(e.timestamp.as_str()), 22);
    out.append(" ");
    push_padded(&mut out, e.event_type.as_str(), 22);
    out.append(" ");
    push_padded(&mut out, opt_or(&e.tool_name, "-"), 16);
    out.append(" ");
    out.append(byte_prefix(e.session_id.as_str(), 12));
    proof {
        assert(out@ =~= query_row_text(*e));
    }
    out
}

/// One line of the token usage block: a label and a grouped count.
pub open spec fn token_line(label: Seq<char>, n: int) -> Seq<char> {
    "  "@ + padded(label, 16) + " "@ + thousands_text(n)
}

/// A one-line sequence when `b` holds.
pub open spec fn line_if(b: bool, l: Seq<char>) -> Seq<Seq<char>> {
    if b {
        seq![l]
    } else {
        Seq::empty()
    }
}

/// The sums of a usage record fit an `i64`, so that its total is defined.
pub open spec fn usage_total_fits(u: SessionUsage) -> bool {
    &&& i64::MIN <= u.input_tokens + u.output_tokens <= i64::MAX
    &&& i64::MIN <= u.input_tokens + u.output_tokens + u.cache_creation_tokens <= i64::MAX
    &&& i64::MIN <= u.total_spec() <= i64::MAX
}

/// Whether the total of a usage record is defined (see `usage_total_fits`).
pub fn usage_total_defined(u: &SessionUsage) -> (r: bool)
    ensures
        r == usage_total_fits(*u),
{
    let a = u.input_tokens as i128 + u.output_tokens as i128;
    let b = a + u.cache_creation_tokens as i128;
    let c = b + u.cache_read_tokens as i128;
    -9223372036854775808i128 <= a && a <= 9223372036854775807i128 && -9223372036854775808i128 <= b
        && b <= 9223372036854775807i128 && -9223372036854775808i128 <= c && c
        <= 9223372036854775807i128
}

/// The token usage block of the statistics: a blank line, a title, then one line per
/// counter; web searches and fetches only when there were any.
pub open spec fn token_usage_text(u: SessionUsage) -> Seq<Seq<char>> {
    seq![
        ""@,
        "Token usage:"@,
        token_line("Input"@, u.input_tokens as int),
        token_line("Output"@, u.output_tokens as int),
        token_line("Cache write"@, u.cache_creation_tokens as int),
        token_line("Cache read"@, u.cache_read_tokens as int),
        token_line("Total"@, u.total_spec()),
        token_line("API calls"@, u.api_calls as int),
    ] + line_if(u.web_search_requests > 0, token_line("Web searches"@, u.web_search_requests as int))
        + line_if(u.web_fetch_requests > 0, token_line("Web fetches"@, u.web_fetch_requests as int))
}

/// Appends a line to a list of lines.
pub fn push_line(out: &mut Vec<String>, l: String)
    ensures
        strings_view(final(out)@) == strings_view(old(out)@).push(l@),
{
    out.push(l);
    assert(strings_view(out@) =~= strings_view(old(out)@).push(l@));
}

fn token_line_exec(label: &str, n: i64) -> (r: String)
    ensures
        r@ == token_line(label@, n as int),
{
    let mut out = "  ".to_string();
    push_padded(&mut out, label, 16);
    out.append(" ");
    let g = group_thousands(n);
    out.append(g.as_str());
    out
}

/// Writes the token usage block (see `token_usage_text`).
pub fn token_usage_lines(u: &SessionUsage) -> (r: Vec<String>)
    requires
        usage_total_fits(*u),
    ensures
        strings_view(r@) == token_usage_text(*u),
{
    let mut out: Vec<String> = Vec::new();
    proof {
        assert(strings_view(out@) =~= Seq::<Seq<char>>::empty());
    }
    push_line(&mut out, String::new());
    push_line(&mut out, "Token usage:".to_string());
    proof {
        reveal_strlit("");
        assert(""@ =~= Seq::<char>::empty());
    }
    push_line(&mut out, token_line_exec("Input", u.input_tokens));
    push_line(&mut out, token_line_exec("Output", u.output_tokens));
    push_line(&mut out, token_line_exec("Cache write", u.cache_creation_tokens));
    push_line(&mut out, token_line_exec("Cache read", u.cache_read_tokens));
    push_line(&mut out, token_line_exec("Total", u.total_tokens()));
    push_line(&mut out, token_line_exec("API calls", u.api_calls));
    proof {
        reveal_strlit("");
        assert(strings_view(out@) =~= seq![
            ""@,
            "Token usage:"@,
            token_line("Input"@, u.input_tokens as int),
            token_line("Output"@, u.output_tokens as int),
            token_line("Cache write"@, u.cache_creation_tokens as int),
            token_line("Cache read"@, u.cache_read_tokens as int),
            token_line("Total"@, u.total_spec()),
            token_line("API calls"@, u.api_calls as int),
        ]);
    }
    let ghost base = strings_view(out@);
    if u.web_search_requests > 0 {
        push_line(&mut out, token_line_exec("Web searches", u.web_search_requests));
    }
    let ghost mid = strings_view(out@);
    proof {
        assert(mid =~= base + line_if(
            u.web_search_requests > 0,
            token_line("Web searches"@, u.web_search_requests as int),
        ));
    }
    if u.web_fetch_requests > 0 {
        push_line(&mut out, token_line_exec("Web fetches", u.web_fetch_requests));
    }
    proof {
        assert(strings_view(out@) =~= mid + line_if(
            u.web_fetch_requests > 0,
            token_line("Web fetches"@, u.web_fetch_requests as int),
        ));
        assert(strings_view(out@) =~= token_usage_text(*u));
    }
    out
}

/// One line of a breakdown by name: the name padded to 25 characters, then the count.
pub open spec fn count_line_text(name: Seq<char>, count: i64) -> Seq<char> {
    "  "@ + padded(name, 25) + " "@ + int_text(count as int)
}

/// Writes one line of a breakdown by name.
pub fn count_line(name: &str, count: i64) -> (r: String)
    ensures
        r@ == count_line_text(name@, count),
{
    let mut out = "  ".to_string();
    push_padded(&mut out, name, 25);
    out.append(" ");
    push_int(&mut out, count);
    out
}

/// What the statistics are of: a session, or everything.
pub fn stats_scope(session_id: Option<&str>) -> (r: String)
    ensures
        r@ == (match session_id {
            Some(s) => s@,
            None => "global"@,
        }),
{
    match session_id {
        Some(s) => s.to_string(),
        None => "global".to_string(),
    }
}

/// The narrative's text, line by line, with its time shown as `display_start` to
/// `display_end`.
pub open spec fn summary_text(s: SessionSummary, usage: Option<SessionUsage>, display_start: Seq<char>, display_end: Seq<char>) -> Seq<Seq<char>> {
    seq!["Session: "@ + s.session_id@] + (match s.model {
        Some(m) => seq!["Model:   "@ + m@],
        None => Seq::empty(),
    }) + seq![
        "CWD:     "@ + s.cwd@,
        "Period:  "@ + display_start + " to "@ + display_end + " ("@ + s.duration@ + ")"@,
        "Events:  "@ + nat_text(s.total_events as nat) + " total, "@ + nat_text(s.errors as nat)
            + " errors"@,
    ] + (match usage {
        Some(u) => seq![
            "Tokens:  "@ + thousands_text(u.input_tokens as int) + " in / "@ + thousands_text(
                u.output_tokens as int,
            ) + " out / "@ + thousands_text(u.total_spec()) + " total ("@ + thousands_text(
                u.api_calls as int,
            ) + " API calls)"@,
        ],
        None => Seq::empty(),
    }) + (if s.top_tools@.len() > 0 {
        seq![""@, "Top tools:"@] + s.top_tools@.map_values(
            |t: (String, u64)| "  "@ + t.0@ + " ("@ + nat_text(t.1 as nat) + ")"@,
        )
    } else {
        Seq::empty()
    })
}

/// The end of a session as a narrative shows it: its time of day (bytes 11 to 19) when the
/// text is longer than 8 bytes, else all of it.
pub open spec fn end_display(t: Seq<char>) -> Seq<char> {
    let b = vstd::utf8::encode_utf8(t);
    if b.len() > 8 {
        vstd::utf8::decode_utf8(b.subrange(11, if b.len() < 19 { b.len() as int } else { 19 }))
    } else {
        t
    }
}

/// The end can be cut that way without splitting a character.
pub open spec fn end_display_ok(t: Seq<char>) -> bool {
    let b = vstd::utf8::encode_utf8(t);
    b.len() <= 8 || (b.len() >= 11 && vstd::utf8::is_char_boundary(b, 11)
        && vstd::utf8::is_char_boundary(b, if b.len() < 19 { b.len() as int } else { 19 }))
}

proof fn lemma_prefix_boundary(b: Seq<u8>, stop: int, i: int)
    requires
        vstd::utf8::valid_utf8(b),
        vstd::utf8::is_char_boundary(b, stop),
        vstd::utf8::is_char_boundary(b, i),
        0 <= i <= stop <= b.len(),
    ensures
        vstd::utf8::is_char_boundary(b.subrange(0, stop), i),
{
    vstd::utf8::valid_utf8_split(b, stop);
    let h = b.subrange(0, stop);
    if i == stop || i == 0 {
        vstd::utf8::is_char_boundary_start_end_of_seq(h);
    } else {
        vstd::utf8::is_char_boundary_iff_not_is_continuation_byte(b, i);
        vstd::utf8::is_char_boundary_iff_not_is_continuation_byte(h, i);
    }
}

/// Whether the end of a session can be cut for display (see `end_display_ok`).
pub fn end_time_display_defined(t: &str) -> (r: bool)
    ensures
        r == end_display_ok(t@),
{
    let len: usize = t.as_bytes().len();
    if len <= 8 {
        return true;
    }
    let stop = if len < 19 { len } else { 19 };
    len >= 11 && t.is_char_boundary(11) && t.is_char_boundary(stop)
}

/// Cuts the end of a session for display (see `end_display`).
pub fn end_time_display(t: &str) -> (r: &str)
    requires
        end_display_ok(t@),
    ensures
        r@ == end_display(t@),
{
    let len: usize = t.as_bytes().len();
    if len > 8 {
        let stop = if len < 19 { len } else { 19 };
        let head = t.split_at(stop).0;
        proof {
            let b = vstd::utf8::encode_utf8(t@);
            assert(head.spec_bytes() =~= b.subrange(0, stop as int));
            vstd::utf8::encode_utf8_valid_utf8(t@);
            lemma_prefix_boundary(b, stop as int, 11);
        }
        let r = head.split_at(11).1;
        proof {
            let b = vstd::utf8::encode_utf8(t@);
            vstd::utf8::encode_utf8_decode_utf8(r@);
            assert(r.spec_bytes() =~= b.subrange(11, stop as int));
        }
        r
    } else {
        t
    }
}

/// An optional usage record, by value.
pub open spec fn opt_usage(u: Option<&SessionUsage>) -> Option<SessionUsage> {
    match u {
        Some(x) => Some(*x),
        None => None,
    }
}

fn tool_count_line(t: &(String, u64)) -> (r: String)
    ensures
        r@ == "  "@ + t.0@ + " ("@ + nat_text(t.1 as nat) + ")"@,
{
    let mut out = "  ".to_string();
    out.append(t.0.as_str());
    out.append(" (");
    push_nat(&mut out, t.1);
    out.append(")");
    out
}

/// Writes a session's narrative (see `summary_text`), its start cut to 19 bytes and its
/// end to the time of day.
pub fn summary_lines(s: &SessionSummary, usage: Option<&SessionUsage>) -> (r: Vec<String>)
    requires
        clip_ok(s.start@, 19),
        end_display_ok(s.end@),
        usage matches Some(u) ==> usage_total_fits(*u),
    ensures
        strings_view(r@) == summary_text(*s, opt_usage(usage), clip(s.start@, 19), end_display(s.end@)),
{
    let mut out: Vec<String> = Vec::new();
    proof {
        assert(strings_view(out@) =~= Seq::<Seq<char>>::empty());
    }
    let mut l = "Session: ".to_string();
    l.append(s.session_id.as_str());
    push_line(&mut out, l);
    if let Some(m) = &s.model {
        let mut l = "Model:   ".to_string();
        l.append(m.as_str());
        push_line(&mut out, l);
    }
    let mut l = "CWD:     ".to_string();
    l.append(s.cwd.as_str());
    push_line(&mut out, l);
    let mut l = "Period:  ".to_string();
    l.append(byte_prefix(s.start.as_str(), 19));
    l.append(" to ");
    l.append(end_time_display(s.end.as_str()));
    l.append(" (");
    l.append(s.duration.as_str());
    l.append(")");
    push_line(&mut out, l);
    let mut l = "Events:  ".to_string();
    push_nat(&mut l, s.total_events as u64);
    l.append(" total, ");
    push_nat(&mut l, s.errors);
    l.append(" errors");
    push_line(&mut out, l);
    if let Some(u) = usage {
        let mut l = "Tokens:  ".to_string();
        l.append(group_thousands(u.input_tokens).as_str());
        l.append(" in / ");
        l.append(group_thousands(u.output_tokens).as_str());
        l.append(" out / ");
        l.append(group_thousands(u.total_tokens()).as_str());
        l.append(" total (");
        l.append(group_thousands(u.api_calls).as_str());
        l.append(" API calls)");
        push_line(&mut out, l);
    }
    let n: usize = s.top_tools.len();
    if n > 0 {
        push_line(&mut out, String::new());
        push_line(&mut out, "Top tools:".to_string());
        let ghost d = strings_view(out@);
        let mut i: usize = 0;
        while i < n
            invariant
                n == s.top_tools@.len(),
                i <= n,
                strings_view(out@) == d + s.top_tools@.take(i as int).map_values(
                    |t: (String, u64)| "  "@ + t.0@ + " ("@ + nat_text(t.1 as nat) + ")"@,
                ),
            decreases n - i,
        {
            push_line(&mut out, tool_count_line(&s.top_tools[i]));
            proof {
                assert(s.top_tools@.take(i as int + 1).map_values(
                    |t: (String, u64)| "  "@ + t.0@ + " ("@ + nat_text(t.1 as nat) + ")"@,
                ) =~= s.top_tools@.take(i as int).map_values(
                    |t: (String, u64)| "  "@ + t.0@ + " ("@ + nat_text(t.1 as nat) + ")"@,
                ).push("  "@ + s.top_tools@[i as int].0@ + " ("@ + nat_text(s.top_tools@[i as int].1 as nat) + ")"@));
            }
            i = i + 1;
        }
        proof {
            reveal_strlit("");
            assert(""@ =~= Seq::<char>::empty());
            assert(s.top_tools@.take(n as int) =~= s.top_tools@);
        }
    }
    proof {
        assert(strings_view(out@) =~= summary_text(*s, opt_usage(usage), clip(s.start@, 19), end_display(s.end@)));
    }
    out
}

/// How many rows of a status report are wired.
pub open spec fn wired_count(rows: Seq<(&str, bool)>) -> nat
    decreases rows.len(),
{
    if rows.len() == 0 {
        0
    } else {
        wired_count(rows.drop_last()) + if rows.last().1 {
            1nat
        } else {
            0nat
        }
    }
}

/// One row of a status report: `[ok]` for a wired event, `[--]` for a missing one.
pub open spec fn status_row_text(r: (&str, bool)) -> Seq<char> {
    "  ["@ + (if r.1 {
        "ok"@
    } else {
        "--"@
    }) + "] "@ + r.0@
}

/// The name of a scope as messages show it.
pub open spec fn scope_label(s: Scope) -> Seq<char> {
    match s {
        Scope::User => "user"@,
        Scope::Project => "project"@,
    }
}

/// The hook status report: the scope and settings file, how many canonical events are
/// wired, one row per event, then the events outside the canonical list that run the
/// wrapper, if any.
pub open spec fn status_text(scope: Scope, settings: Seq<char>, rows: Seq<(&str, bool)>, unknown: Seq<String>) -> Seq<Seq<char>> {
    seq![
        "ivara hooks status ("@ + scope_label(scope) + " scope)"@,
        "  settings: "@ + settings,
        "  wired: "@ + nat_text(wired_count(rows)) + "/"@ + nat_text(rows.len()),
        ""@,
    ] + rows.map_values(|r: (&str, bool)| status_row_text(r)) + if unknown.len() > 0 {
        seq![""@, "  unknown events with ivara entry (canonical list may be stale):"@]
            + unknown.map_values(|e: String| "    - "@ + e@)
    } else {
        Seq::empty()
    }
}

fn status_row(r: &(&'static str, bool)) -> (t: String)
    ensures
        t@ == status_row_text(*r),
{
    let mut out = "  [".to_string();
    if r.1 {
        out.append("ok");
    } else {
        out.append("--");
    }
    out.append("] ");
    out.append(r.0);
    out
}

/// Writes the hook status report (see `status_text`).
pub fn status_lines(scope: Scope, settings: &str, rows: &Vec<(&'static str, bool)>, unknown: &Vec<String>) -> (r: Vec<String>)
    requires
        rows@.len() < u64::MAX,
    ensures
        strings_view(r@) == status_text(scope, settings@, rows@, unknown@),
{
    let n: usize = rows.len();
    let mut wired: u64 = 0;
    let mut i: usize = 0;
    while i < n
        invariant
            n == rows@.len(),
            n < u64::MAX,
            i <= n,
            wired == wired_count(rows@.take(i as int)),
            wired <= i,
        decreases n - i,
    {
        proof {
            assert(rows@.take(i as int + 1).drop_last() =~= rows@.take(i as int));
        }
        if rows[i].1 {
            wired = wired + 1;
        }
        i = i + 1;
    }
    proof {
        assert(rows@.take(n as int) =~= rows@);
    }
    let mut out: Vec<String> = Vec::new();
    proof {
        assert(strings_view(out@) =~= Seq::<Seq<char>>::empty());
    }
    let mut l = "ivara hooks status (".to_string();
    l.append(scope.label());
    l.append(" scope)");
    push_line(&mut out, l);
    let mut l = "  settings: ".to_string();
    l.append(settings);
    push_line(&mut out, l);
    let mut l = "  wired: ".to_string();
    push_nat(&mut l, wired);
    l.append("/");
    push_nat(&mut l, n as u64);
    push_line(&mut out, l);
    push_line(&mut out, String::new());
    let ghost head = strings_view(out@);
    let mut i: usize = 0;
    while i < n
        invariant
            n == rows@.len(),
            i <= n,
            strings_view(out@) == head + rows@.take(i as int).map_values(|r: (&str, bool)| status_row_text(r)),
        decreases n - i,
    {
        push_line(&mut out, status_row(&rows[i]));
        proof {
            assert(rows@.take(i as int + 1).map_values(|r: (&str, bool)| status_row_text(r))
                =~= rows@.take(i as int).map_values(|r: (&str, bool)| status_row_text(r)).push(
                status_row_text(rows@[i as int]),
            ));
        }
        i = i + 1;
    }
    proof {
        assert(rows@.take(n as int) =~= rows@);
    }
    let ghost body = strings_view(out@);
    let m: usize = unknown.len();
    if m > 0 {
        push_line(&mut out, String::new());
        push_line(&mut out, "  unknown events with ivara entry (canonical list may be stale):".to_string());
        let ghost mid = strings_view(out@);
        let mut j: usize = 0;
        while j < m
            invariant
                m == unknown@.len(),
                j <= m,
                strings_view(out@) == mid + unknown@.take(j as int).map_values(|e: String| "    - "@ + e@),
            decreases m - j,
        {
            let mut l = "    - ".to_string();
            l.append(unknown[j].as_str());
            push_line(&mut out, l);
            proof {
                assert(unknown@.take(j as int + 1).map_values(|e: String| "    - "@ + e@)
                    =~= unknown@.take(j as int).map_values(|e: String| "    - "@ + e@).push(
                    "    - "@ + unknown@[j as int]@,
                ));
            }
            j = j + 1;
        }
        proof {
            assert(unknown@.take(m as int) =~= unknown@);
        }
    }
    proof {
        reveal_strlit("");
        assert(""@ =~= Seq::<char>::empty());
        assert(strings_view(out@) =~= status_text(scope, settings@, rows@, unknown@));
    }
    out
}

/// What installing reports: the scope, the wrapper and settings files, how many events.
pub open spec fn install_text(scope: Scope, script: Seq<char>, settings: Seq<char>) -> Seq<Seq<char>> {
    seq![
        "Installed ivara hooks ("@ + scope_label(scope) + " scope)."@,
        "  wrapper:  "@ + script,
        "  settings: "@ + settings,
        "  events:   "@ + nat_text(25),
    ]
}

/// Writes what installing reports (see `install_text`).
pub fn install_lines(scope: Scope, script: &str, settings: &str) -> (r: Vec<String>)
    ensures
        strings_view(r@) == install_text(scope, script@, settings@),
{
    let mut out: Vec<String> = Vec::new();
    proof {
        assert(strings_view(out@) =~= Seq::<Seq<char>>::empty());
    }
    let mut l = "Installed ivara hooks (".to_string();
    l.append(scope.label());
    l.append(" scope).");
    push_line(&mut out, l);
    let mut l = "  wrapper:  ".to_string();
    l.append(script);
    push_line(&mut out, l);
    let mut l = "  settings: ".to_string();
    l.append(settings);
    push_line(&mut out, l);
    let mut l = "  events:   ".to_string();
    push_nat(&mut l, 25);
    push_line(&mut out, l);
    proof {
        assert(strings_view(out@) =~= install_text(scope, script@, settings@));
    }
    out
}

/// What uninstalling reports: nothing to remove without a settings file, else the scope,
/// the settings file and how many entries went.
pub open spec fn uninstall_text(scope: Scope, settings: Seq<char>, removed: Option<usize>) -> Seq<Seq<char>> {
    match removed {
        None => seq!["No settings.json at "@ + settings + " \u{2014} nothing to remove."@],
        Some(n) => seq![
            "Uninstalled ivara hooks ("@ + scope_label(scope) + " scope)."@,
            "  settings: "@ + settings,
            "  entries removed: "@ + nat_text(n as nat),
        ],
    }
}

/// Writes what uninstalling reports; `removed` is `None` when there was no settings file.
pub fn uninstall_lines(scope: Scope, settings: &str, removed: Option<usize>) -> (r: Vec<String>)
    ensures
        strings_view(r@) == uninstall_text(scope, settings@, removed),
{
    let mut out: Vec<String> = Vec::new();
    proof {
        assert(strings_view(out@) =~= Seq::<Seq<char>>::empty());
    }
    match removed {
        None => {
            let mut l = "No settings.json at ".to_string();
            l.append(settings);
            l.append(" \u{2014} nothing to remove.");
            push_line(&mut out, l);
        },
        Some(n) => {
            let mut l = "Uninstalled ivara hooks (".to_string();
            l.append(scope.label());
            l.append(" scope).");
            push_line(&mut out, l);
            let mut l = "  settings: ".to_string();
            l.append(settings);
            push_line(&mut out, l);
            let mut l = "  entries removed: ".to_string();
            push_nat(&mut l, n as u64);
            push_line(&mut out, l);
        },
    }
    proof {
        assert(strings_view(out@) =~= uninstall_text(scope, settings@, removed));
    }
    out
}

/// The opening lines of the statistics: scope, a rule, total and failed events.
pub open spec fn stats_head_text(scope: Seq<char>, total: i64, errors: i64) -> Seq<Seq<char>> {
    seq![
        "Stats: "@ + scope,
        repeated('=', 50),
        "Total events:  "@ + int_text(total as int),
        "Error events:  "@ + int_text(errors as int),
    ]
}

/// Writes the opening lines of the statistics (see `stats_head_text`).
pub fn stats_head_lines(scope: &str, total: i64, errors: i64) -> (r: Vec<String>)
    ensures
        strings_view(r@) == stats_head_text(scope@, total, errors),
{
    let mut out: Vec<String> = Vec::new();
    proof {
        assert(strings_view(out@) =~= Seq::<Seq<char>>::empty());
    }
    let mut l = "Stats: ".to_string();
    l.append(scope);
    push_line(&mut out, l);
    let mut rule = String::new();
    let mut i: usize = 0;
    while i < 50
        invariant
            i <= 50,
            rule@ == repeated('=', i as int),
        decreases 50 - i,
    {
        proof {
            reveal_strlit("=");
        }
        rule.append("=");
        proof {
            assert(rule@ =~= repeated('=', i as int + 1));
        }
        i = i + 1;
    }
    push_line(&mut out, rule);
    let mut l = "Total events:  ".to_string();
    push_int(&mut l, total);
    push_line(&mut out, l);
    let mut l = "Error events:  ".to_string();
    push_int(&mut l, errors);
    push_line(&mut out, l);
    proof {
        assert(strings_view(out@) =~= stats_head_text(scope@, total, errors));
    }
    out
}

/// Lines of a breakdown by name.
pub open spec fn count_lines_text(counts: Seq<(String, i64)>) -> Seq<Seq<char>> {
    counts.map_values(|c: (String, i64)| count_line_text(c.0@, c.1))
}

fn push_count_lines(out: &mut Vec<String>, counts: &Vec<(String, i64)>)
    ensures
        strings_view(final(out)@) == strings_view(old(out)@) + count_lines_text(counts@),
{
    let ghost start = strings_view(out@);
    let n: usize = counts.len();
    let mut i: usize = 0;
    while i < n
        invariant
            n == counts@.len(),
            i <= n,
            strings_view(out@) == start + count_lines_text(counts@.take(i as int)),
        decreases n - i,
    {
        push_line(out, count_line(counts[i].0.as_str(), counts[i].1));
        proof {
            assert(count_lines_text(counts@.take(i as int + 1)) =~= count_lines_text(counts@.take(i as int)).push(
                count_line_text(counts@[i as int].0@, counts@[i as int].1),
            ));
        }
        i = i + 1;
    }
    proof {
        assert(counts@.take(n as int) =~= counts@);
    }
}

/// The rest of the statistics: the duration when there is one, the events per type, and
/// the calls per tool when there are any.
pub open spec fn stats_body_text(duration: Option<Seq<char>>, event_types: Seq<(String, i64)>, tool_usage: Seq<(String, i64)>) -> Seq<Seq<char>> {
    (match duration {
        Some(d) => seq!["Duration:      "@ + d],
        None => Seq::empty(),
    }) + seq![""@, "Event types:"@] + count_lines_text(event_types) + if tool_usage.len() > 0 {
        seq![""@, "Tool usage:"@] + count_lines_text(tool_usage)
    } else {
        Seq::empty()
    }
}

/// Writes the rest of the statistics (see `stats_body_text`).
pub fn stats_body_lines(duration: Option<&str>, event_types: &Vec<(String, i64)>, tool_usage: &Vec<(String, i64)>) -> (r: Vec<String>)
    ensures
        strings_view(r@) == stats_body_text(
            match duration {
                Some(d) => Some(d@),
                None => None,
            },
            event_types@,
            tool_usage@,
        ),
{
    let mut out: Vec<String> = Vec::new();
    proof {
        assert(strings_view(out@) =~= Seq::<Seq<char>>::empty());
    }
    if let Some(d) = duration {
        let mut l = "Duration:      ".to_string();
        l.append(d);
        push_line(&mut out, l);
    }
    push_line(&mut out, String::new());
    push_line(&mut out, "Event types:".to_string());
    push_count_lines(&mut out, event_types);
    if tool_usage.len() > 0 {
        push_line(&mut out, String::new());
        push_line(&mut out, "Tool usage:".to_string());
        push_count_lines(&mut out, tool_usage);
    }
    proof {
        reveal_strlit("");
        assert(""@ =~= Seq::<char>::empty());
        assert(strings_view(out@) =~= stats_body_text(
            match duration {
                Some(d) => Some(d@),
                None => None,
            },
            event_types@,
            tool_usage@,
        ));
    }
    out
}

/// The fields that showing an event lists before its payload: id, uuid, session, type and
/// time, then the tool, the tool use id and the working directory when present.
pub open spec fn show_text(e: Event) -> Seq<Seq<char>> {
    seq![
        "Event ID:    "@ + int_text(e.id as int),
        "UUID:        "@ + e.event_uuid@,
        "Session:     "@ + e.session_id@,
        "Type:        "@ + e.event_type@,
        "Timestamp:   "@ + e.timestamp@,
    ] + (match e.tool_name {
        Some(t) => seq!["Tool:        "@ + t@],
        None => Seq::empty(),
    }) + (match e.tool_use_id {
        Some(t) => seq!["Tool Use ID: "@ + t@],
        None => Seq::empty(),
    }) + (match e.cwd {
        Some(c) => seq!["CWD:         "@ + c@],
        None => Seq::empty(),
    })
}

fn labeled(label: &str, value: &str) -> (r: String)
    ensures
        r@ == label@ + value@,
{
    let mut l = label.to_string();
    l.append(value);
    l
}

/// Writes the fields of an event (see `show_text`).
pub fn show_lines(e: &Event) -> (r: Vec<String>)
    ensures
        strings_view(r@) == show_text(*e),
{
    let mut out: Vec<String> = Vec::new();
    proof {
        assert(strings_view(out@) =~= Seq::<Seq<char>>::empty());
    }
    let mut l = "Event ID:    ".to_string();
    push_int(&mut l, e.id);
    push_line(&mut out, l);
    push_line(&mut out, labeled("UUID:        ", e.event_uuid.as_str()));
    push_line(&mut out, labeled("Session:     ", e.session_id.as_str()));
    push_line(&mut out, labeled("Type:        ", e.event_type.as_str()));
    push_line(&mut out, labeled("Timestamp:   ", e.timestamp.as_str()));
    if let Some(t) = &e.tool_name {
        push_line(&mut out, labeled("Tool:        ", t.as_str()));
    }
    if let Some(t) = &e.tool_use_id {
        push_line(&mut out, labeled("Tool Use ID: ", t.as_str()));
    }
    if let Some(c) = &e.cwd {
        push_line(&mut out, labeled("CWD:         ", c.as_str()));
    }
    proof {
        assert(strings_view(out@) =~= show_text(*e));
    }
    out
}

/// What pruning reports: the events deleted, then, when there were payload files, how many
/// of them went and how many could not be deleted.
pub open spec fn prune_text(events: usize, files: usize, file_errors: usize) -> Seq<Seq<char>> {
    seq!["Pruned "@ + nat_text(events as nat) + " events."@] + if files > 0 {
        seq![
            "Deleted "@ + nat_text((files - file_errors) as nat) + " payload files ("@ + nat_text(
                file_errors as nat,
            ) + " errors)."@,
        ]
    } else {
        Seq::empty()
    }
}

/// Writes what pruning reports (see `prune_text`).
pub fn prune_lines(events: usize, files: usize, file_errors: usize) -> (r: Vec<String>)
    requires
        file_errors <= files,
    ensures
        strings_view(r@) == prune_text(events, files, file_errors),
{
    let mut out: Vec<String> = Vec::new();
    proof {
        assert(strings_view(out@) =~= Seq::<Seq<char>>::empty());
    }
    let mut l = "Pruned ".to_string();
    push_nat(&mut l, events as u64);
    l.append(" events.");
    push_line(&mut out, l);
    if files > 0 {
        let mut l = "Deleted ".to_string();
        push_nat(&mut l, (files - file_errors) as u64);
        l.append(" payload files (");
        push_nat(&mut l, file_errors as u64);
        l.append(" errors).");
        push_line(&mut out, l);
    }
    proof {
        assert(strings_view(out@) =~= prune_text(events, files, file_errors));
    }
    out
}

} // verus!
