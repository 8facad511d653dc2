//! Display text: durations, grouped numbers and truncated fields.

use vstd::prelude::*;
use vstd::string::*;
use vstd::utf8::{decode_utf8, encode_utf8, is_char_boundary};
use crate::events::Event;
use crate::json::{as_text, get_member, member, opt_view, text_of, Json, JsonV};
use crate::text::{digit_char, int_text, nat_text, push_int, push_nat};

verus! {

/// A duration in seconds as shown to users: `45s`, `5m 12s`, `1h 23m`. Spans under a
/// minute, negative ones too, show as plain seconds.
pub open spec fn duration_text(secs: int) -> Seq<char> {
    if secs < 60 {
        int_text(secs) + "s"@
    } else if secs < 3600 {
        nat_text((secs / 60) as nat) + "m "@ + nat_text((secs % 60) as nat) + "s"@
    } else {
        nat_text((secs / 3600) as nat) + "h "@ + nat_text(((secs % 3600) / 60) as nat) + "m"@
    }
}

/// Formats a duration in seconds (see `duration_text`).
pub fn format_duration_secs(secs: i64) -> (r: String)
    ensures
        r@ == duration_text(secs as int),
{
    let mut out = String::new();
    if secs < 60 {
        push_int(&mut out, secs);
        out.append("s");
    } else if secs < 3600 {
        push_nat(&mut out, (secs / 60) as u64);
        out.append("m ");
        push_nat(&mut out, (secs % 60) as u64);
        out.append("s");
    } else {
        push_nat(&mut out, (secs / 3600) as u64);
        out.append("h ");
        push_nat(&mut out, ((secs % 3600) / 60) as u64);
        out.append("m");
    }
    proof {
        assert(Seq::<char>::empty() + int_text(secs as int) =~= int_text(secs as int));
    }
    out
}

/// A digit string with a comma before each group of three digits, counted from the right.
pub open spec fn grouped(d: Seq<char>) -> Seq<char>
    decreases d.len(),
{
    if d.len() <= 3 {
        d
    } else {
        grouped(d.subrange(0, d.len() - 3)) + seq![','] + d.subrange(d.len() - 3, d.len() as int)
    }
}

/// An integer with thousands separators: `1,234,567`, `-12,000`.
pub open spec fn thousands_text(n: int) -> Seq<char> {
    if n < 0 {
        seq!['-'] + grouped(nat_text((-n) as nat))
    } else {
        grouped(nat_text(n as nat))
    }
}

proof fn lemma_nat_text_len(n: nat)
    ensures
        nat_text(n).len() >= 1,
        n >= 10 ==> nat_text(n).len() >= 2,
        n >= 100 ==> nat_text(n).len() >= 3,
        n >= 1000 ==> nat_text(n).len() > 3,
        n < 10 ==> nat_text(n).len() == 1,
        n < 100 ==> nat_text(n).len() <= 2,
        n < 1000 ==> nat_text(n).len() <= 3,
    decreases n,
{
    if n >= 10 {
        lemma_nat_text_len(n / 10);
    }
}

proof fn lemma_nat_text_split(n: nat)
    requires
        n >= 1000,
    ensures
        nat_text(n) == nat_text(n / 1000) + seq![
            digit_char(((n / 100) % 10) as int),
            digit_char(((n / 10) % 10) as int),
            digit_char((n % 10) as int),
        ],
{
    let a = n / 10;
    let b = a / 10;
    assert(b / 10 == n / 1000);
    assert(a % 10 == (n / 10) % 10);
    assert(b % 10 == (n / 100) % 10);
    assert(nat_text(n) == nat_text(a) + seq![digit_char((n % 10) as int)]);
    assert(nat_text(a) == nat_text(b) + seq![digit_char((a % 10) as int)]);
    assert(nat_text(b) == nat_text(b / 10) + seq![digit_char((b % 10) as int)]);
    assert(nat_text(n) =~= nat_text(n / 1000) + seq![
        digit_char(((n / 100) % 10) as int),
        digit_char(((n / 10) % 10) as int),
        digit_char((n % 10) as int),
    ]);
}

fn push_digit(s: &mut String, d: u64)
    requires
        d < 10,
    ensures
        final(s)@ == old(s)@ + seq![digit_char(d as int)],
{
    push_nat(s, d);
}

/// Appends the digits of `n` with thousands separators.
fn push_grouped(s: &mut String, n: u64)
    ensures
        final(s)@ == old(s)@ + grouped(nat_text(n as nat)),
    decreases n,
{
    if n < 1000 {
        proof {
            lemma_nat_text_len(n as nat);
        }
        push_nat(s, n);
    } else {
        push_grouped(s, n / 1000);
        proof {
            reveal_strlit(",");
        }
        s.append(",");
        push_digit(s, (n / 100) % 10);
        push_digit(s, (n / 10) % 10);
        push_digit(s, n % 10);
        proof {
            lemma_nat_text_split(n as nat);
            lemma_nat_text_len(n as nat);
            let d = nat_text(n as nat);
            let p = nat_text((n / 1000) as nat);
            assert(d.subrange(0, d.len() - 3) =~= p);
            assert(d.subrange(d.len() - 3, d.len() as int) =~= seq![
                digit_char(((n / 100) % 10) as int),
                digit_char(((n / 10) % 10) as int),
                digit_char((n % 10) as int),
            ]);
        }
    }
}

/// `s` with its commas taken out.
pub open spec fn without_commas(s: Seq<char>) -> Seq<char>
    decreases s.len(),
{
    if s.len() == 0 {
        Seq::empty()
    } else if s.last() == ',' {
        without_commas(s.drop_last())
    } else {
        without_commas(s.drop_last()).push(s.last())
    }
}

proof fn lemma_without_commas_one(c: char)
    ensures
        without_commas(seq![c]) == if c == ',' {
            Seq::<char>::empty()
        } else {
            seq![c]
        },
{
    assert(seq![c].drop_last() =~= Seq::<char>::empty());
    assert(without_commas(Seq::<char>::empty()) == Seq::<char>::empty());
    assert(seq![c].last() == c);
    if c != ',' {
        assert(Seq::<char>::empty().push(c) =~= seq![c]);
    }
}

proof fn lemma_without_commas_concat(a: Seq<char>, b: Seq<char>)
    ensures
        without_commas(a + b) == without_commas(a) + without_commas(b),
    decreases b.len(),
{
    if b.len() == 0 {
        assert(a + b =~= a);
        assert(without_commas(a) + without_commas(b) =~= without_commas(a));
    } else {
        assert((a + b).drop_last() =~= a + b.drop_last());
        lemma_without_commas_concat(a, b.drop_last());
        if b.last() != ',' {
            assert(without_commas(a) + without_commas(b) =~= (without_commas(a) + without_commas(b.drop_last())).push(b.last()));
        }
    }
}

proof fn lemma_digits_have_no_commas(n: nat)
    ensures
        without_commas(nat_text(n)) == nat_text(n),
    decreases n,
{
    if n < 10 {
        lemma_without_commas_one(digit_char(n as int));
    } else {
        lemma_digits_have_no_commas(n / 10);
        let d = seq![digit_char((n % 10) as int)];
        lemma_without_commas_concat(nat_text(n / 10), d);
        lemma_without_commas_one(digit_char((n % 10) as int));
    }
}

proof fn lemma_grouped_keeps(d: Seq<char>)
    ensures
        without_commas(grouped(d)) == without_commas(d),
    decreases d.len(),
{
    if d.len() > 3 {
        let p = d.subrange(0, d.len() - 3);
        let q = d.subrange(d.len() - 3, d.len() as int);
        lemma_grouped_keeps(p);
        lemma_without_commas_concat(grouped(p) + seq![','], q);
        lemma_without_commas_concat(grouped(p), seq![',']);
        lemma_without_commas_one(',');
        assert(without_commas(grouped(p)) + Seq::<char>::empty() =~= without_commas(grouped(p)));
        assert(d =~= p + q);
        lemma_without_commas_concat(p, q);
    }
}

/// Grouping only adds separators: without its commas, a grouped number is the plain decimal
/// text of the number.
pub proof fn law_grouping_keeps_digits(n: int)
    ensures
        without_commas(thousands_text(n)) == int_text(n),
{
    let m: nat = if n < 0 { (-n) as nat } else { n as nat };
    lemma_grouped_keeps(nat_text(m));
    lemma_digits_have_no_commas(m);
    if n < 0 {
        lemma_without_commas_concat(seq!['-'], grouped(nat_text(m)));
        lemma_without_commas_one('-');
    }
}

/// Formats an integer with thousands separators (see `thousands_text`).
pub fn group_thousands(n: i64) -> (r: String)
    ensures
        r@ == thousands_text(n as int),
{
    let mut out = String::new();
    if n < 0 {
        proof {
            reveal_strlit("-");
        }
        out.append("-");
        let m: i128 = 0i128 - (n as i128);
        push_grouped(&mut out, m as u64);
    } else {
        push_grouped(&mut out, n as u64);
    }
    proof {
        assert(Seq::<char>::empty() + grouped(nat_text(n as nat)) =~= grouped(nat_text(n as nat)));
    }
    out
}

/// Cutting the UTF-8 encoding of `s` after `n` bytes does not split a character.
pub open spec fn clip_ok(s: Seq<char>, n: int) -> bool {
    encode_utf8(s).len() <= n || is_char_boundary(encode_utf8(s), n)
}

/// The text whose UTF-8 encoding is the first `n` bytes of that of `s`; all of `s` when it
/// is no longer.
pub open spec fn clip(s: Seq<char>, n: int) -> Seq<char> {
    if encode_utf8(s).len() > n {
        decode_utf8(encode_utf8(s).subrange(0, n))
    } else {
        s
    }
}

/// The first `n` bytes of `s` (all of `s` when it is no longer), as `&s[..n]` slices it.
pub fn byte_prefix(s: &str, n: usize) -> (r: &str)
    requires
        clip_ok(s@, n as int),
    ensures
        r@ == clip(s@, n as int),
{
    let len: usize = s.as_bytes().len();
    if len > n {
        let r = s.split_at(n).0;
        proof {
            vstd::utf8::encode_utf8_decode_utf8(r@);
        }
        r
    } else {
        s
    }
}

/// A timestamp cut to its first 19 bytes, `2026-03-30T12:34:56` of an RFC 3339 text.
pub fn truncate_timestamp(ts: &str) -> (r: &str)
    requires
        clip_ok(ts@, 19),
    ensures
        r@ == clip(ts@, 19),
{
    byte_prefix(ts, 19)
}

/// The metadata fields that a timeline shows for events without a tool, in order of preference.
pub open spec fn detail_key(i: int) -> Seq<char> {
    if i == 0 {
        "reason"@
    } else if i == 1 {
        "source"@
    } else if i == 2 {
        "model"@
    } else if i == 3 {
        "error"@
    } else if i == 4 {
        "prompt"@
    } else {
        "message"@
    }
}

/// The first field from position `i` of the preference list that holds a string, with that string.
pub open spec fn detail_field(meta: JsonV, i: int) -> Option<(Seq<char>, Seq<char>)>
    decreases 6 - i,
{
    if i < 0 || i >= 6 {
        None
    } else {
        match text_of(member(meta, detail_key(i))) {
            Some(s) => Some((detail_key(i), s)),
            None => detail_field(meta, i + 1),
        }
    }
}

/// What a timeline shows beside an event, given its parsed metadata: the tool name, else
/// `key: value` for the first preferred metadata field holding a string, its value cut to
/// 50 bytes, else nothing. `None` exactly where that cut would split a character.
pub open spec fn detail_text(tool: Option<Seq<char>>, meta: Option<JsonV>) -> Option<Seq<char>> {
    match tool {
        Some(t) => Some(t),
        None => match meta {
            None => Some(Seq::empty()),
            Some(m) => match detail_field(m, 0) {
                None => Some(Seq::empty()),
                Some((k, s)) => if clip_ok(s, 50) {
                    Some(k + ": "@ + clip(s, 50))
                } else {
                    None
                },
            },
        },
    }
}

fn detail_key_str(i: usize) -> (r: &'static str)
    requires
        i < 6,
    ensures
        r@ == detail_key(i as int),
{
    if i == 0 {
        "reason"
    } else if i == 1 {
        "source"
    } else if i == 2 {
        "model"
    } else if i == 3 {
        "error"
    } else if i == 4 {
        "prompt"
    } else {
        "message"
    }
}

/// Whether the bytes of `s` can be cut after `n` without splitting a character.
pub fn can_clip(s: &str, n: usize) -> (r: bool)
    ensures
        r == clip_ok(s@, n as int),
{
    let len: usize = s.as_bytes().len();
    len <= n || s.is_char_boundary(n)
}

/// The short detail a timeline shows for an event (see `detail_text`); `meta` is the event's
/// metadata, when it parses as JSON.
pub fn event_detail(e: &Event, meta: Option<&Json>) -> (r: Option<String>)
    ensures
        match r {
            Some(t) => detail_text(crate::events::opt_text(e.tool_name), opt_view(meta)) == Some(t@),
            None => detail_text(crate::events::opt_text(e.tool_name), opt_view(meta)) is None,
        },
{
    if let Some(tool) = &e.tool_name {
        return Some(tool.clone());
    }
    let m = match meta {
        Some(m) => m,
        None => return Some(String::new()),
    };
    let mut i: usize = 0;
    while i < 6
        invariant
            i <= 6,
            detail_field(m@, 0) == detail_field(m@, i as int),
            e.tool_name is None,
            opt_view(meta) == Some(m@),
        decreases 6 - i,
    {
        let key = detail_key_str(i);
        if let Some(s) = as_text(get_member(m, key)) {
            if !can_clip(s, 50) {
                return None;
            }
            let cut = byte_prefix(s, 50);
            let mut out = key.to_string();
            out.append(": ");
            out.append(cut);
            return Some(out);
        }
        i = i + 1;
    }
    Some(String::new())
}

/// What a timeline shows for an event without a tool when metadata field `key` is the one
/// picked: `key: value`, the value cut to 50 bytes, or nothing where the cut would split a
/// character.
pub open spec fn shows_field(meta: JsonV, key: Seq<char>) -> Option<Seq<char>> {
    let s = text_of(member(meta, key))->0;
    if clip_ok(s, 50) {
        Some(key + ": "@ + clip(s, 50))
    } else {
        None
    }
}

/// Metadata field `key` holds a string.
pub open spec fn has_text(meta: JsonV, key: Seq<char>) -> bool {
    text_of(member(meta, key)) is Some
}

/// Metadata field `key` holds no string.
pub open spec fn no_text(meta: JsonV, key: Seq<char>) -> bool {
    text_of(member(meta, key)) is None
}

/// For an event without a tool, the timeline detail is the first of the metadata fields
/// `reason`, `source`, `model`, `error`, `prompt` and `message` that holds a string, in that
/// order of preference, and empty when none does.
pub proof fn law_detail_field_preference(meta: JsonV)
    ensures
        ({
            let d = detail_text(None, Some(meta));
            let m = meta;
            &&& has_text(m, "reason"@) ==> d == shows_field(m, "reason"@)
            &&& no_text(m, "reason"@) && has_text(m, "source"@) ==> d == shows_field(m, "source"@)
            &&& no_text(m, "reason"@) && no_text(m, "source"@) && has_text(m, "model"@)
                ==> d == shows_field(m, "model"@)
            &&& no_text(m, "reason"@) && no_text(m, "source"@) && no_text(m, "model"@)
                && has_text(m, "error"@) ==> d == shows_field(m, "error"@)
            &&& no_text(m, "reason"@) && no_text(m, "source"@) && no_text(m, "model"@)
                && no_text(m, "error"@) && has_text(m, "prompt"@) ==> d == shows_field(m, "prompt"@)
            &&& no_text(m, "reason"@) && no_text(m, "source"@) && no_text(m, "model"@)
                && no_text(m, "error"@) && no_text(m, "prompt"@) && has_text(m, "message"@)
                ==> d == shows_field(m, "message"@)
            &&& no_text(m, "reason"@) && no_text(m, "source"@) && no_text(m, "model"@)
                && no_text(m, "error"@) && no_text(m, "prompt"@) && no_text(m, "message"@)
                ==> d == Some(Seq::<char>::empty())
        }),
{
    reveal_with_fuel(detail_field, 7);
}

} // verus!
