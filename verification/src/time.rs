//! Timestamps: spans between RFC 3339 texts, relative time arguments and cutoffs.

use vstd::prelude::*;
use vstd::string::*;
use vstd::utf8::{decode_utf8, encode_utf8, is_char_boundary};
use crate::format::{duration_text, format_duration_secs};
use crate::text::str_eq;

verus! {

/// Seconds from `start` to `end` when both are RFC 3339 timestamps, as chrono reckons them.
pub uninterp spec fn rfc3339_span(start: Seq<char>, end: Seq<char>) -> Option<i64>;

/// Parses both texts with `chrono::DateTime::parse_from_rfc3339` and returns the whole
/// seconds of `end - start` (`TimeDelta::num_seconds`); `None` when either does not parse.
/// The contract only names the result: chrono's parser is not restated here.
#[verifier::external_body]
fn seconds_between(start: &str, end: &str) -> (r: Option<i64>)
    ensures
        r == rfc3339_span(start@, end@),
{
    match (chrono::DateTime::parse_from_rfc3339(start), chrono::DateTime::parse_from_rfc3339(end)) {
        (Ok(s), Ok(e)) => Some((e - s).num_seconds()),
        _ => None,
    }
}

/// The largest number of whole seconds that a `chrono::TimeDelta` holds, either way.
pub const MAX_DELTA_SECS: i64 = 9223372036854775;

/// The RFC 3339 text of the instant `secs` seconds before the RFC 3339 timestamp `now`, as
/// chrono computes and writes it; `None` when `now` does not parse or that instant lies
/// outside chrono's range.
pub uninterp spec fn rfc3339_minus_span(now: Seq<char>, secs: i64) -> Option<Seq<char>>;

/// Parses `now` with `chrono::DateTime::parse_from_rfc3339`, subtracts `secs` seconds with
/// `checked_sub_signed(TimeDelta::seconds(secs))` and writes the result with `to_rfc3339`.
/// The contract only names the result: chrono's calendar arithmetic is not restated here.
#[verifier::external_body]
fn rfc3339_minus(now: &str, secs: i64) -> (r: Option<String>)
    requires
        -MAX_DELTA_SECS <= secs <= MAX_DELTA_SECS,
    ensures
        match r {
            Some(t) => rfc3339_minus_span(now@, secs) == Some(t@),
            None => rfc3339_minus_span(now@, secs) is None,
        },
{
    match chrono::DateTime::parse_from_rfc3339(now) {
        Ok(t) => match t.checked_sub_signed(chrono::TimeDelta::seconds(secs)) {
            Some(u) => Some(u.to_rfc3339()),
            None => None,
        },
        Err(_) => None,
    }
}

/// A span of seconds as display text, `-` when there is none.
pub open spec fn span_display_text(span: Option<i64>) -> Seq<char> {
    match span {
        Some(s) => duration_text(s as int),
        None => "-"@,
    }
}

/// Shows a span of seconds (see `span_display_text`).
pub fn span_display(span: Option<i64>) -> (r: String)
    ensures
        r@ == span_display_text(span),
{
    match span {
        Some(s) => format_duration_secs(s),
        None => "-".to_string(),
    }
}

/// The span from `start` to `end` as display text, when both are RFC 3339 timestamps.
pub fn duration_between(start: &str, end: &str) -> (r: Option<String>)
    ensures
        match r {
            Some(t) => rfc3339_span(start@, end@) is Some && t@ == duration_text(
                rfc3339_span(start@, end@)->0 as int,
            ),
            None => rfc3339_span(start@, end@) is None,
        },
{
    match seconds_between(start, end) {
        Some(s) => Some(format_duration_secs(s)),
        None => None,
    }
}

/// How long a session ran, first to last event: `-` when either timestamp is not RFC 3339.
pub fn duration_string(first_seen: &str, last_seen: &str) -> (r: String)
    ensures
        r@ == span_display_text(rfc3339_span(first_seen@, last_seen@)),
{
    span_display(seconds_between(first_seen, last_seen))
}

/// Time since the last event as display text: negative spans (clock skew) count as 0.
pub open spec fn idle_text(span: Option<i64>) -> Seq<char> {
    match span {
        Some(s) => duration_text(if s < 0 { 0 } else { s as int }),
        None => "-"@,
    }
}

proof fn lemma_digits_unsigned(n: nat)
    ensures
        !crate::text::nat_text(n).contains('-'),
    decreases n,
{
    let t = crate::text::nat_text(n);
    if n >= 10 {
        lemma_digits_unsigned(n / 10);
        let p = crate::text::nat_text(n / 10);
        let d = crate::text::digit_char((n % 10) as int);
        assert(t == p + seq![d]);
        assert forall|i: int| 0 <= i < t.len() implies t[i] != '-' by {
            if i < p.len() {
                assert(t[i] == p[i]);
            } else {
                assert(t[i] == d);
            }
        }
    } else {
        assert(t[0] == crate::text::digit_char(n as int));
    }
}

/// Idle time never shows a negative span: clock skew that puts the last event after `now`
/// shows as `0s`, and no idle text has a minus sign.
pub proof fn law_idle_never_negative(span: i64)
    ensures
        !idle_text(Some(span)).contains('-'),
        span < 0 ==> idle_text(Some(span)) == "0s"@,
{
    reveal_strlit("s");
    reveal_strlit("m ");
    reveal_strlit("h ");
    reveal_strlit("m");
    reveal_strlit("0s");
    let s: int = if span < 0 { 0 } else { span as int };
    let t = idle_text(Some(span));
    assert(t == duration_text(s));
    if s < 60 {
        lemma_digits_unsigned(s as nat);
        let a = crate::text::nat_text(s as nat);
        assert(crate::text::int_text(s) == a);
        assert forall|i: int| 0 <= i < t.len() implies t[i] != '-' by {
            if i < a.len() {
                assert(t[i] == a[i]);
            }
        }
        if span < 0 {
            assert(crate::text::nat_text(0) == seq!['0']);
            assert(t =~= "0s"@);
        }
    } else if s < 3600 {
        let a = crate::text::nat_text((s / 60) as nat);
        let b = crate::text::nat_text((s % 60) as nat);
        lemma_digits_unsigned((s / 60) as nat);
        lemma_digits_unsigned((s % 60) as nat);
        assert(t == a + "m "@ + b + "s"@);
        assert forall|i: int| 0 <= i < t.len() implies t[i] != '-' by {
            if i < a.len() {
                assert(t[i] == a[i]);
            } else if i < a.len() + 2 {
                assert(t[i] == "m "@[i - a.len()]);
            } else if i < a.len() + 2 + b.len() {
                assert(t[i] == b[i - a.len() - 2]);
            }
        }
    } else {
        let a = crate::text::nat_text((s / 3600) as nat);
        let b = crate::text::nat_text(((s % 3600) / 60) as nat);
        lemma_digits_unsigned((s / 3600) as nat);
        lemma_digits_unsigned(((s % 3600) / 60) as nat);
        assert(t == a + "h "@ + b + "m"@);
        assert forall|i: int| 0 <= i < t.len() implies t[i] != '-' by {
            if i < a.len() {
                assert(t[i] == a[i]);
            } else if i < a.len() + 2 {
                assert(t[i] == "h "@[i - a.len()]);
            } else if i < a.len() + 2 + b.len() {
                assert(t[i] == b[i - a.len() - 2]);
            }
        }
    }
}

/// Shows the time since the last event (see `idle_text`).
pub fn idle_display(span: Option<i64>) -> (r: String)
    ensures
        r@ == idle_text(span),
{
    match span {
        Some(s) => format_duration_secs(if s < 0 { 0 } else { s }),
        None => "-".to_string(),
    }
}

/// How long a session has been idle at `now`, both RFC 3339 timestamps.
pub fn idle_string(last_seen: &str, now: &str) -> (r: String)
    ensures
        r@ == idle_text(rfc3339_span(last_seen@, now@)),
{
    idle_display(seconds_between(last_seen, now))
}

} // verus!

verus! {

/// `c` is an ASCII digit.
pub open spec fn is_digit(c: char) -> bool {
    48 <= (c as int) <= 57
}

/// The decimal value of a string of digits.
pub open spec fn digits_value(d: Seq<char>) -> int
    decreases d.len(),
{
    if d.len() == 0 {
        0
    } else {
        digits_value(d.drop_last()) * 10 + ((d.last() as int) - 48)
    }
}

/// Length of the leading sign of `s`: 1 for `+` or `-`, else 0.
pub open spec fn sign_len(s: Seq<char>) -> int {
    if s.len() > 0 && (s[0] == '+' || s[0] == '-') {
        1
    } else {
        0
    }
}

/// Every character of `d` is an ASCII digit.
pub open spec fn all_digits(d: Seq<char>) -> bool {
    forall|i: int| 0 <= i < d.len() ==> is_digit(#[trigger] d[i])
}

/// `i64`'s `from_str`: an optional `+` or `-`, then one or more ASCII digits, in range.
pub open spec fn parse_i64_spec(s: Seq<char>) -> Option<i64> {
    let d = s.subrange(sign_len(s), s.len() as int);
    let v = if sign_len(s) == 1 && s[0] == '-' {
        -digits_value(d)
    } else {
        digits_value(d)
    };
    if d.len() == 0 || !all_digits(d) {
        None
    } else if i64::MIN <= v <= i64::MAX {
        Some(v as i64)
    } else {
        None
    }
}

proof fn lemma_digits_value_grows(d: Seq<char>, k: int)
    requires
        0 <= k <= d.len(),
        forall|i: int| 0 <= i < d.len() ==> is_digit(#[trigger] d[i]),
    ensures
        digits_value(d.subrange(0, k)) <= digits_value(d),
        0 <= digits_value(d),
    decreases d.len(),
{
    if d.len() > 0 {
        let p = d.drop_last();
        if k < d.len() {
            assert(p.subrange(0, k) =~= d.subrange(0, k));
            lemma_digits_value_grows(p, k);
        } else {
            assert(d.subrange(0, k) =~= d);
            lemma_digits_value_grows(p, 0);
        }
    }
}

fn digit_value(c: char) -> (r: Option<u32>)
    ensures
        match r {
            Some(v) => is_digit(c) && v == (c as int) - 48,
            None => !is_digit(c),
        },
{
    match c {
        '0' => Some(0),
        '1' => Some(1),
        '2' => Some(2),
        '3' => Some(3),
        '4' => Some(4),
        '5' => Some(5),
        '6' => Some(6),
        '7' => Some(7),
        '8' => Some(8),
        '9' => Some(9),
        _ => None,
    }
}

/// Parses a decimal `i64` as `str::parse::<i64>` does.
pub fn parse_i64(s: &str) -> (r: Option<i64>)
    ensures
        r == parse_i64_spec(s@),
{
    let n = s.unicode_len();
    if n == 0 {
        return None;
    }
    let first = s.get_char(0);
    let neg = first == '-';
    let start: usize = if first == '-' || first == '+' { 1 } else { 0 };
    let ghost d = s@.subrange(sign_len(s@), s@.len() as int);
    if start >= n {
        assert(d.len() == 0);
        return None;
    }
    let mut acc: i128 = 0;
    let mut i: usize = start;
    while i < n
        invariant
            n == s@.len(),
            start <= i <= n,
            start <= 1,
            d == s@.subrange(start as int, n as int),
            acc == digits_value(d.subrange(0, i - start)),
            0 <= acc <= 9223372036854775808,
            forall|j: int| 0 <= j < i - start ==> is_digit(#[trigger] d[j]),
            n > 0,
            (start == 1) == (s@[0] == '+' || s@[0] == '-'),
            neg == (s@[0] == '-'),
            d.len() > 0,
            start == sign_len(s@),
        decreases n - i,
    {
        let c = s.get_char(i);
        assert(c == d[i - start]);
        match digit_value(c) {
            None => {
                assert(!is_digit(d[i - start]));
                return None;
            },
            Some(v) => {
                proof {
                    let p = d.subrange(0, i - start + 1);
                    assert(p.drop_last() =~= d.subrange(0, i - start));
                }
                acc = acc * 10 + v as i128;
                if acc > 9223372036854775808 {
                    proof {
                        if forall|j: int| 0 <= j < d.len() ==> is_digit(#[trigger] d[j]) {
                            lemma_digits_value_grows(d, i - start + 1);
                        }
                    }
                    return None;
                }
            },
        }
        i = i + 1;
    }
    proof {
        assert(d.subrange(0, n - start) =~= d);
    }
    if neg {
        Some((0 - acc) as i64)
    } else if acc > 9223372036854775807 {
        None
    } else {
        Some(acc as i64)
    }
}

/// Seconds per unit of a relative time argument: `m`, `h`, `d`, `w`.
pub open spec fn unit_seconds(u: Seq<char>) -> Option<int> {
    if u == "m"@ {
        Some(60)
    } else if u == "h"@ {
        Some(3600)
    } else if u == "d"@ {
        Some(86400)
    } else if u == "w"@ {
        Some(604800)
    } else {
        None
    }
}

/// The text before the last byte of `s` and the text of that byte.
pub open spec fn split_last_byte(s: Seq<char>) -> (Seq<char>, Seq<char>) {
    let b = encode_utf8(s);
    (decode_utf8(b.subrange(0, b.len() - 1)), decode_utf8(b.subrange(b.len() - 1, b.len() as int)))
}

/// The span that a relative time argument such as `30m`, `2d` or `-1w` asks for, in seconds:
/// an `i64` followed by a unit. `None` for any other text.
pub open spec fn relative_offset(s: Seq<char>) -> Option<int> {
    if encode_utf8(s).len() >= 2 {
        match parse_i64_spec(split_last_byte(s).0) {
            Some(n) => match unit_seconds(split_last_byte(s).1) {
                Some(k) => Some(n * k),
                None => None,
            },
            None => None,
        }
    } else {
        None
    }
}

/// The text can be split before its last byte, and a relative span fits a `TimeDelta`.
pub open spec fn time_arg_valid(s: Seq<char>) -> bool {
    &&& (encode_utf8(s).len() < 2 || is_char_boundary(encode_utf8(s), encode_utf8(s).len() - 1))
    &&& match relative_offset(s) {
        Some(x) => -MAX_DELTA_SECS <= x <= MAX_DELTA_SECS,
        None => true,
    }
}

fn unit_value(u: &str) -> (r: Option<i64>)
    ensures
        match r {
            Some(k) => unit_seconds(u@) == Some(k as int) && 0 < k <= 604800,
            None => unit_seconds(u@) is None,
        },
{
    if str_eq(u, "m") {
        Some(60)
    } else if str_eq(u, "h") {
        Some(3600)
    } else if str_eq(u, "d") {
        Some(86400)
    } else if str_eq(u, "w") {
        Some(604800)
    } else {
        None
    }
}

/// The span in seconds of a relative time argument (see `relative_offset`).
pub fn relative_seconds(s: &str) -> (r: Option<i128>)
    requires
        encode_utf8(s@).len() < 2 || is_char_boundary(encode_utf8(s@), encode_utf8(s@).len() - 1),
    ensures
        match r {
            Some(x) => relative_offset(s@) == Some(x as int),
            None => relative_offset(s@) is None,
        },
{
    let len: usize = s.as_bytes().len();
    if len < 2 {
        return None;
    }
    let (num, unit) = s.split_at(len - 1);
    proof {
        vstd::utf8::encode_utf8_decode_utf8(num@);
        vstd::utf8::encode_utf8_decode_utf8(unit@);
        assert(num@ == split_last_byte(s@).0);
        assert(unit@ == split_last_byte(s@).1);
    }
    match parse_i64(num) {
        Some(n) => match unit_value(unit) {
            Some(k) => {
                assert(-604800 * 9223372036854775808 <= (n as int) * (k as int) <= 604800
                    * 9223372036854775808) by (nonlinear_arith)
                    requires
                        -9223372036854775808 <= n as int <= 9223372036854775807,
                        0 < k <= 604800,
                ;
                Some(n as i128 * k as i128)
            },
            None => None,
        },
        None => None,
    }
}

/// Whether `parse_time_arg` accepts `s` (see `time_arg_valid`).
pub fn time_arg_supported(s: &str) -> (r: bool)
    ensures
        r == time_arg_valid(s@),
{
    let len: usize = s.as_bytes().len();
    if len >= 2 && !s.is_char_boundary(len - 1) {
        return false;
    }
    match relative_seconds(s) {
        Some(x) => -9223372036854775i128 <= x && x <= 9223372036854775i128,
        None => true,
    }
}

/// A relative span reached past the instants that chrono represents.
#[derive(Clone, Copy, Debug, PartialEq, Eq, Structural)]
pub enum TimeArgError {
    OutOfRange,
}

/// What a `--since`/`--until` argument resolves to at `now`: a relative span becomes the
/// instant that long before `now`, as RFC 3339 text (`None` when chrono cannot represent it);
/// any other text is taken as a timestamp and kept unchanged.
pub open spec fn time_arg_at(s: Seq<char>, now: Seq<char>) -> Option<Seq<char>> {
    match relative_offset(s) {
        Some(x) => rfc3339_minus_span(now, x as i64),
        None => Some(s),
    }
}

/// Resolves a `--since`/`--until` argument against the RFC 3339 timestamp `now`: a relative
/// span such as `30m`, `1h`, `2d` or `1w` becomes the instant that long before `now`; any
/// other text is taken as a timestamp and passed on unchanged (see `time_arg_at`).
pub fn parse_time_arg(s: &str, now: &str) -> (r: Result<String, TimeArgError>)
    requires
        time_arg_valid(s@),
    ensures
        match time_arg_at(s@, now@) {
            Some(t) => r matches Ok(u) && u@ == t,
            None => r == Err::<String, TimeArgError>(TimeArgError::OutOfRange),
        },
{
    match relative_seconds(s) {
        Some(x) => match rfc3339_minus(now, x as i64) {
            Some(t) => Ok(t),
            None => Err(TimeArgError::OutOfRange),
        },
        None => Ok(s.to_string()),
    }
}

/// `d` read as an `i64` the way `d as i64` does: values past `i64::MAX` wrap around.
pub open spec fn wrap_i64(d: u64) -> int {
    if d <= i64::MAX as u64 {
        d as int
    } else {
        d - 18446744073709551616
    }
}

/// `--days d` asks for a span that fits a `TimeDelta`.
pub open spec fn days_valid(d: u64) -> bool {
    -MAX_DELTA_SECS <= wrap_i64(d) * 86400 <= MAX_DELTA_SECS
}

/// Whether a `--days` value is one that `prune_cutoff` accepts.
pub fn days_supported(d: u64) -> (r: bool)
    ensures
        r == days_valid(d),
{
    let x: i128 = if d <= 9223372036854775807u64 {
        d as i128
    } else {
        d as i128 - 18446744073709551616i128
    };
    let secs: i128 = x * 86400;
    -9223372036854775i128 <= secs && secs <= 9223372036854775i128
}

/// Why no prune cutoff could be formed.
#[derive(Clone, Copy, Debug, PartialEq, Eq, Structural)]
pub enum CutoffError {
    /// Neither a date nor a number of days was given.
    MissingBound,
    /// The span reached past the instants that chrono represents.
    OutOfRange,
}

impl CutoffError {
    /// The message shown for the error.
    pub fn message(&self) -> (r: &'static str)
        ensures
            r@ == (match self {
                CutoffError::MissingBound => "Specify --before <date> or --days <N>"@,
                CutoffError::OutOfRange => "`DateTime - TimeDelta` overflowed"@,
            }),
    {
        match self {
            CutoffError::MissingBound => "Specify --before <date> or --days <N>",
            CutoffError::OutOfRange => "`DateTime - TimeDelta` overflowed",
        }
    }
}

/// The instant `d` days before `now`, as `prune --days d` reckons it (see `wrap_i64`).
pub open spec fn days_before(d: u64, now: Seq<char>) -> Option<Seq<char>> {
    rfc3339_minus_span(now, (wrap_i64(d) * 86400) as i64)
}

/// The timestamp before which pruning deletes: midnight UTC of `before` (a `YYYY-MM-DD`
/// date, which wins when both are given), else `days` days before `now`.
pub fn prune_cutoff(before: Option<&str>, days: Option<u64>, now: &str) -> (r: Result<String, CutoffError>)
    requires
        before is None && days is Some ==> days_valid(days->0),
    ensures
        before matches Some(b) ==> (r matches Ok(t) && t@ == b@ + "T00:00:00Z"@),
        before is None && days is Some ==> match days_before(days->0, now@) {
            Some(t) => r matches Ok(u) && u@ == t,
            None => r == Err::<String, CutoffError>(CutoffError::OutOfRange),
        },
        before is None && days is None ==> r == Err::<String, CutoffError>(
            CutoffError::MissingBound,
        ),
{
    match (before, days) {
        (Some(date), _) => {
            let mut t = date.to_string();
            t.append("T00:00:00Z");
            Ok(t)
        },
        (None, Some(d)) => {
            let x: i64 = if d <= 9223372036854775807u64 {
                d as i64
            } else {
                (d as i128 - 18446744073709551616i128) as i64
            };
            match rfc3339_minus(now, x * 86400) {
                Some(t) => Ok(t),
                None => Err(CutoffError::OutOfRange),
            }
        },
        (None, None) => Err(CutoffError::MissingBound),
    }
}

} // verus!
