//! Token usage of a session: the sums over the assistant entries of its transcript.

use vstd::prelude::*;
use crate::json::{as_i64, as_text, get_member, i64_of, items_view, member, text_of, Json, JsonV};
use crate::tally::{count_keys, count_name, counts_match};
use crate::text::{str_eq, strings_view};

verus! {

broadcast use {
    vstd::std_specs::vec::group_vec_axioms,
    crate::json::group_json_view,
    vstd::seq_lib::group_to_multiset_ensures,
    vstd::multiset::group_multiset_axioms,
};

/// Aggregated token usage of one session, summed across every assistant message of its
/// transcript (main thread and subagent sidechains).
#[derive(Clone, Debug)]
pub struct SessionUsage {
    pub input_tokens: i64,
    pub output_tokens: i64,
    pub cache_creation_tokens: i64,
    pub cache_read_tokens: i64,
    pub web_search_requests: i64,
    pub web_fetch_requests: i64,
    /// Number of assistant messages (API requests) counted.
    pub api_calls: i64,
    /// The model behind the most API calls of the transcript.
    pub model: Option<String>,
}

impl SessionUsage {
    /// Input, output and both cache tiers.
    pub open spec fn total_spec(&self) -> int {
        self.input_tokens + self.output_tokens + self.cache_creation_tokens + self.cache_read_tokens
    }

    /// Total billable tokens: input, output and both cache tiers. Input repeats across
    /// API calls because each call is billed for its full input.
    pub fn total_tokens(&self) -> (r: i64)
        requires
            i64::MIN <= self.input_tokens + self.output_tokens <= i64::MAX,
            i64::MIN <= self.input_tokens + self.output_tokens + self.cache_creation_tokens
                <= i64::MAX,
            i64::MIN <= self.total_spec() <= i64::MAX,
        ensures
            r == self.total_spec(),
    {
        self.input_tokens + self.output_tokens + self.cache_creation_tokens + self.cache_read_tokens
    }
}

/// What the assistant entries of a transcript read so far add up to.
pub struct UsageTally {
    pub input: int,
    pub output: int,
    pub cache_creation: int,
    pub cache_read: int,
    pub web_search: int,
    pub web_fetch: int,
    /// The model of each counted entry, in order.
    pub models: Seq<Seq<char>>,
    /// The ids of the assistant entries read so far.
    pub seen: Set<Seq<char>>,
}

/// The tally of no entries.
pub open spec fn empty_tally() -> UsageTally {
    UsageTally {
        input: 0,
        output: 0,
        cache_creation: 0,
        cache_read: 0,
        web_search: 0,
        web_fetch: 0,
        models: Seq::empty(),
        seen: Set::empty(),
    }
}

/// An integer member of `v`, counting as 0 when absent or not an `i64`.
pub open spec fn count_field(v: JsonV, key: Seq<char>) -> int {
    match i64_of(member(v, key)) {
        Some(n) => n as int,
        None => 0,
    }
}

/// A server-tool counter of a usage block (0 without `server_tool_use`).
pub open spec fn server_count(u: JsonV, key: Seq<char>) -> int {
    match member(u, "server_tool_use"@) {
        Some(s) => count_field(s, key),
        None => 0,
    }
}

/// `t` with the usage block `u` of one counted message of `model` added.
pub open spec fn add_usage(t: UsageTally, u: JsonV, model: Seq<char>) -> UsageTally {
    UsageTally {
        input: t.input + count_field(u, "input_tokens"@),
        output: t.output + count_field(u, "output_tokens"@),
        cache_creation: t.cache_creation + count_field(u, "cache_creation_input_tokens"@),
        cache_read: t.cache_read + count_field(u, "cache_read_input_tokens"@),
        web_search: t.web_search + server_count(u, "web_search_requests"@),
        web_fetch: t.web_fetch + server_count(u, "web_fetch_requests"@),
        models: t.models.push(model),
        seen: t.seen,
    }
}

/// `t` with the id `id` recorded as seen.
pub open spec fn mark_seen(t: UsageTally, id: Seq<char>) -> UsageTally {
    UsageTally { seen: t.seen.insert(id), ..t }
}

/// The model named by a message, empty when it names none.
pub open spec fn message_model(m: JsonV) -> Seq<char> {
    match text_of(member(m, "model"@)) {
        Some(s) => s,
        None => Seq::empty(),
    }
}

/// A synthetic placeholder (API-error entries name a model such as `<synthetic>`) or no model.
pub open spec fn model_skipped(model: Seq<char>) -> bool {
    model.len() == 0 || model[0] == '<'
}

/// `t` after an assistant entry whose id, if any, was not seen before.
pub open spec fn counted_entry(t: UsageTally, e: JsonV) -> UsageTally {
    let t1 = match text_of(member(e, "uuid"@)) {
        Some(id) => mark_seen(t, id),
        None => t,
    };
    match member(e, "message"@) {
        None => t1,
        Some(m) => if model_skipped(message_model(m)) {
            t1
        } else {
            match member(m, "usage"@) {
                None => t1,
                Some(u) => add_usage(t1, u, message_model(m)),
            }
        },
    }
}

/// An entry repeats an assistant entry already read (same id).
pub open spec fn is_repeat(t: UsageTally, e: JsonV) -> bool {
    match text_of(member(e, "uuid"@)) {
        Some(id) => t.seen.contains(id),
        None => false,
    }
}

/// `t` after one transcript entry: only assistant entries count, each id once.
pub open spec fn entry_step(t: UsageTally, e: JsonV) -> UsageTally {
    if text_of(member(e, "type"@)) != Some("assistant"@) {
        t
    } else if is_repeat(t, e) {
        t
    } else {
        counted_entry(t, e)
    }
}

/// The tally of a transcript's entries, read in order.
pub open spec fn usage_tally(entries: Seq<JsonV>) -> UsageTally
    decreases entries.len(),
{
    if entries.len() == 0 {
        empty_tally()
    } else {
        entry_step(usage_tally(entries.drop_last()), entries.last())
    }
}

/// Each sum of the tally, and the number of counted calls, fits an `i64`.
pub open spec fn tally_fits(t: UsageTally) -> bool {
    &&& i64::MIN <= t.input <= i64::MAX
    &&& i64::MIN <= t.output <= i64::MAX
    &&& i64::MIN <= t.cache_creation <= i64::MAX
    &&& i64::MIN <= t.cache_read <= i64::MAX
    &&& i64::MIN <= t.web_search <= i64::MAX
    &&& i64::MIN <= t.web_fetch <= i64::MAX
    &&& t.models.len() <= i64::MAX
}

/// `m` drives the most calls among `models` (one of them, where several tie).
pub open spec fn is_dominant(models: Seq<Seq<char>>, m: Seq<char>) -> bool {
    &&& models.contains(m)
    &&& forall|x: Seq<char>| models.to_multiset().count(x) <= models.to_multiset().count(m)
}

/// Some sum of a transcript's usage does not fit an `i64`.
#[derive(Clone, Copy, Debug, PartialEq, Eq, Structural)]
pub struct UsageOverflow;

/// `x` lies within `n` times the span of an `i64` around 0.
pub open spec fn within(x: int, n: int) -> bool {
    -(n * 9223372036854775808) <= x <= n * 9223372036854775808
}

/// Running sums while a transcript is read.
struct TallyState {
    input: i128,
    output: i128,
    cache_creation: i128,
    cache_read: i128,
    web_search: i128,
    web_fetch: i128,
    calls: u64,
    seen: Vec<String>,
    counts: Vec<(String, u64)>,
}

impl TallyState {
    /// The running sums are those of tally `t`, after `n` entries.
    spec fn tracks(&self, t: UsageTally, n: int) -> bool {
        &&& self.input == t.input
        &&& self.output == t.output
        &&& self.cache_creation == t.cache_creation
        &&& self.cache_read == t.cache_read
        &&& self.web_search == t.web_search
        &&& self.web_fetch == t.web_fetch
        &&& within(t.input, n)
        &&& within(t.output, n)
        &&& within(t.cache_creation, n)
        &&& within(t.cache_read, n)
        &&& within(t.web_search, n)
        &&& within(t.web_fetch, n)
        &&& self.calls == t.models.len()
        &&& t.models.len() <= n
        &&& t.seen == strings_view(self.seen@).to_set()
        &&& counts_match(self.counts@, t.models)
    }
}

fn field(v: &Json, key: &str) -> (r: i64)
    ensures
        r == count_field(v@, key@),
{
    match as_i64(get_member(v, key)) {
        Some(n) => n,
        None => 0,
    }
}

fn seen_contains(seen: &Vec<String>, id: &str) -> (r: bool)
    ensures
        r == strings_view(seen@).contains(id@),
{
    let ghost tv = strings_view(seen@);
    let mut i: usize = 0;
    while i < seen.len()
        invariant
            i <= seen@.len(),
            tv == strings_view(seen@),
            tv.len() == seen@.len(),
            forall|j: int| 0 <= j < i ==> tv[j] != id@,
        decreases seen@.len() - i,
    {
        if str_eq(seen[i].as_str(), id) {
            assert(tv[i as int] == id@);
            return true;
        }
        i = i + 1;
    }
    false
}

proof fn lemma_within_step(x: int, v: int, n: int)
    requires
        0 <= n,
        within(x, n),
        i64::MIN <= v <= i64::MAX,
    ensures
        within(x + v, n + 1),
        within(x, n + 1),
{
}

impl TallyState {
    /// Adds the usage block `u` of a message of model `model`.
    fn add_block(&mut self, u: &Json, model: &str, Ghost(t): Ghost<UsageTally>, Ghost(n): Ghost<int>)
        requires
            old(self).tracks(t, n),
            0 <= n,
            n + 1 <= usize::MAX,
        ensures
            final(self).tracks(add_usage(t, u@, model@), n + 1),
    {
        let a = field(u, "input_tokens");
        let b = field(u, "output_tokens");
        let c = field(u, "cache_creation_input_tokens");
        let d = field(u, "cache_read_input_tokens");
        let (ws, wf) = match get_member(u, "server_tool_use") {
            Some(st) => (field(st, "web_search_requests"), field(st, "web_fetch_requests")),
            None => (0i64, 0i64),
        };
        proof {
            lemma_within_step(t.input, a as int, n);
            lemma_within_step(t.output, b as int, n);
            lemma_within_step(t.cache_creation, c as int, n);
            lemma_within_step(t.cache_read, d as int, n);
            lemma_within_step(t.web_search, ws as int, n);
            lemma_within_step(t.web_fetch, wf as int, n);
            assert((n + 1) * 9223372036854775808 <= 18446744073709551615 * 9223372036854775808);
        }
        self.input = self.input + a as i128;
        self.output = self.output + b as i128;
        self.cache_creation = self.cache_creation + c as i128;
        self.cache_read = self.cache_read + d as i128;
        self.web_search = self.web_search + ws as i128;
        self.web_fetch = self.web_fetch + wf as i128;
        self.calls = self.calls + 1;
        count_name(&mut self.counts, model, Ghost(t.models));
    }

    /// Reads one transcript entry.
    fn absorb(&mut self, e: &Json, Ghost(t): Ghost<UsageTally>, Ghost(n): Ghost<int>)
        requires
            old(self).tracks(t, n),
            0 <= n,
            n + 1 <= usize::MAX,
        ensures
            final(self).tracks(entry_step(t, e@), n + 1),
    {
        proof {
            reveal_strlit("assistant");
        }
        let assistant = match as_text(get_member(e, "type")) {
            Some(ty) => str_eq(ty, "assistant"),
            None => false,
        };
        if !assistant {
            return;
        }
        let ghost t1 = match text_of(member(e@, "uuid"@)) {
            Some(id) => mark_seen(t, id),
            None => t,
        };
        match as_text(get_member(e, "uuid")) {
            Some(id) => {
                if seen_contains(&self.seen, id) {
                    return;
                }
                self.seen.push(id.to_string());
                proof {
                    strings_view(old(self).seen@).lemma_push_to_set_commute(id@);
                    assert(strings_view(self.seen@) =~= strings_view(old(self).seen@).push(id@));
                }
            },
            None => {},
        }
        assert(self.tracks(t1, n));
        let m = match get_member(e, "message") {
            Some(m) => m,
            None => return,
        };
        let model = match as_text(get_member(m, "model")) {
            Some(s) => s,
            None => "",
        };
        proof {
            reveal_strlit("");
            assert(model@ == message_model(m@));
        }
        if model.unicode_len() == 0 || model.get_char(0) == '<' {
            return;
        }
        let u = match get_member(m, "usage") {
            Some(u) => u,
            None => return,
        };
        self.add_block(u, model, Ghost(t1), Ghost(n));
    }
}

/// Sums the usage blocks of a transcript's assistant entries, in order: entries of another
/// type, entries whose id was already read, synthetic placeholders (a model starting with
/// `<`) and messages without usage add nothing. `Err` when a sum leaves the `i64` range.
pub fn tally_transcript(entries: &Vec<Json>) -> (r: Result<SessionUsage, UsageOverflow>)
    ensures
        ({
            let t = usage_tally(items_view(entries@));
            match r {
                Ok(u) => {
                    &&& tally_fits(t)
                    &&& u.input_tokens == t.input
                    &&& u.output_tokens == t.output
                    &&& u.cache_creation_tokens == t.cache_creation
                    &&& u.cache_read_tokens == t.cache_read
                    &&& u.web_search_requests == t.web_search
                    &&& u.web_fetch_requests == t.web_fetch
                    &&& u.api_calls == t.models.len()
                    &&& match u.model {
                        None => t.models.len() == 0,
                        Some(m) => is_dominant(t.models, m@),
                    }
                },
                Err(_) => !tally_fits(t),
            }
        }),
{
    let ghost ev = items_view(entries@);
    let mut st = TallyState {
        input: 0,
        output: 0,
        cache_creation: 0,
        cache_read: 0,
        web_search: 0,
        web_fetch: 0,
        calls: 0,
        seen: Vec::new(),
        counts: Vec::new(),
    };
    proof {
        assert(strings_view(st.seen@).to_set() =~= Set::<Seq<char>>::empty());
        assert(count_keys(st.counts@) =~= Seq::<Seq<char>>::empty());
    }
    let n: usize = entries.len();
    let mut i: usize = 0;
    while i < n
        invariant
            n == entries@.len(),
            i <= n,
            ev == items_view(entries@),
            ev.len() == n,
            forall|j: int| 0 <= j < n ==> ev[j] == entries@[j]@,
            st.tracks(usage_tally(ev.take(i as int)), i as int),
        decreases n - i,
    {
        let ghost t = usage_tally(ev.take(i as int));
        proof {
            assert(ev.take(i as int + 1).drop_last() =~= ev.take(i as int));
        }
        st.absorb(&entries[i], Ghost(t), Ghost(i as int));
        i = i + 1;
    }
    proof {
        assert(ev.take(n as int) =~= ev);
    }
    let ghost t = usage_tally(ev);
    let model = dominant_model(&st.counts, Ghost(t.models));
    if st.input < -9223372036854775808i128 || st.input > 9223372036854775807i128
        || st.output < -9223372036854775808i128 || st.output > 9223372036854775807i128
        || st.cache_creation < -9223372036854775808i128
        || st.cache_creation > 9223372036854775807i128
        || st.cache_read < -9223372036854775808i128 || st.cache_read > 9223372036854775807i128
        || st.web_search < -9223372036854775808i128 || st.web_search > 9223372036854775807i128
        || st.web_fetch < -9223372036854775808i128 || st.web_fetch > 9223372036854775807i128
        || st.calls > 9223372036854775807u64 {
        return Err(UsageOverflow);
    }
    Ok(SessionUsage {
        input_tokens: st.input as i64,
        output_tokens: st.output as i64,
        cache_creation_tokens: st.cache_creation as i64,
        cache_read_tokens: st.cache_read as i64,
        web_search_requests: st.web_search as i64,
        web_fetch_requests: st.web_fetch as i64,
        api_calls: st.calls as i64,
        model,
    })
}

/// The model with the most calls in a table of counts (the first of those that tie).
fn dominant_model(counts: &Vec<(String, u64)>, Ghost(models): Ghost<Seq<Seq<char>>>) -> (r: Option<String>)
    requires
        counts_match(counts@, models),
    ensures
        match r {
            None => models.len() == 0,
            Some(m) => is_dominant(models, m@),
        },
{
    let ghost keys = count_keys(counts@);
    if counts.len() == 0 {
        proof {
            if models.len() > 0 {
                assert(models.contains(models[0]));
                assert(keys.contains(models[0]));
            }
        }
        return None;
    }
    let mut best: usize = 0;
    let mut i: usize = 1;
    while i < counts.len()
        invariant
            1 <= i <= counts@.len(),
            best < i,
            keys == count_keys(counts@),
            keys.len() == counts@.len(),
            forall|j: int| 0 <= j < i ==> counts@[j].1 <= counts@[best as int].1,
        decreases counts@.len() - i,
    {
        if counts[i].1 > counts[best].1 {
            best = i;
        }
        i = i + 1;
    }
    let m = counts[best].0.clone();
    proof {
        let mc = models.to_multiset();
        assert(counts@[best as int].1 == mc.count(keys[best as int]));
        assert(keys[best as int] == m@);
        assert(mc.count(m@) > 0);
        assert forall|x: Seq<char>| #[trigger] mc.count(x) <= mc.count(m@) by {
            if mc.count(x) > 0 {
                assert(models.contains(x));
                assert(keys.contains(x));
                let j = choose|j: int| 0 <= j < keys.len() && keys[j] == x;
                assert(counts@[j].1 == mc.count(keys[j]));
            }
        }
    }
    Some(m)
}

/// An entry is an assistant entry that carries the id `id`.
pub open spec fn assistant_with_id(e: JsonV, id: Seq<char>) -> bool {
    &&& text_of(member(e, "type"@)) == Some("assistant"@)
    &&& text_of(member(e, "uuid"@)) == Some(id)
}

proof fn lemma_seen_grows(t: UsageTally, e: JsonV)
    ensures
        t.seen.subset_of(entry_step(t, e).seen),
        forall|id: Seq<char>| assistant_with_id(e, id) ==> #[trigger] entry_step(t, e).seen.contains(id),
{
    let t2 = entry_step(t, e);
    if text_of(member(e, "type"@)) == Some("assistant"@) && !is_repeat(t, e) {
        let t1 = match text_of(member(e, "uuid"@)) {
            Some(id) => mark_seen(t, id),
            None => t,
        };
        assert(t2.seen == t1.seen);
    }
}

proof fn lemma_seen_ids(entries: Seq<JsonV>, j: int, id: Seq<char>)
    requires
        0 <= j < entries.len(),
        assistant_with_id(entries[j], id),
    ensures
        usage_tally(entries).seen.contains(id),
    decreases entries.len(),
{
    let d = entries.drop_last();
    lemma_seen_grows(usage_tally(d), entries.last());
    if j < entries.len() - 1 {
        assert(d[j] == entries[j]);
        lemma_seen_ids(d, j, id);
    }
}

/// A transcript entry that repeats the id of an earlier assistant entry adds nothing:
/// duplicated lines are counted once.
pub proof fn law_repeated_entry_ignored(entries: Seq<JsonV>, e: JsonV, j: int, id: Seq<char>)
    requires
        0 <= j < entries.len(),
        assistant_with_id(entries[j], id),
        text_of(member(e, "uuid"@)) == Some(id),
    ensures
        usage_tally(entries.push(e)) == usage_tally(entries),
{
    lemma_seen_ids(entries, j, id);
    assert(entries.push(e).drop_last() =~= entries);
}

/// Entries that are not assistant entries add nothing.
pub proof fn law_other_entries_ignored(entries: Seq<JsonV>, e: JsonV)
    requires
        text_of(member(e, "type"@)) != Some("assistant"@),
    ensures
        usage_tally(entries.push(e)) == usage_tally(entries),
{
    assert(entries.push(e).drop_last() =~= entries);
}

/// A message whose model is missing, empty or a placeholder in angle brackets adds no usage
/// and no call.
pub proof fn law_placeholder_models_ignored(entries: Seq<JsonV>, e: JsonV, m: JsonV)
    requires
        member(e, "message"@) == Some(m),
        model_skipped(message_model(m)),
    ensures
        usage_tally(entries.push(e)).models == usage_tally(entries).models,
        usage_tally(entries.push(e)).input == usage_tally(entries).input,
        usage_tally(entries.push(e)).output == usage_tally(entries).output,
        usage_tally(entries.push(e)).cache_creation == usage_tally(entries).cache_creation,
        usage_tally(entries.push(e)).cache_read == usage_tally(entries).cache_read,
        usage_tally(entries.push(e)).web_search == usage_tally(entries).web_search,
        usage_tally(entries.push(e)).web_fetch == usage_tally(entries).web_fetch,
{
    assert(entries.push(e).drop_last() =~= entries);
}

/// The integer a usage counter holds: its `i64` value, 0 when absent or not an `i64`.
pub open spec fn counter(v: Option<JsonV>) -> int {
    match i64_of(v) {
        Some(n) => n as int,
        None => 0,
    }
}

/// The integer counter `key` of the `server_tool_use` object of a usage block (0 when the
/// block has no such object).
pub open spec fn server_tool_counter(u: JsonV, key: Seq<char>) -> int {
    match member(u, "server_tool_use"@) {
        Some(st) => counter(member(st, key)),
        None => 0,
    }
}

proof fn lemma_seen_only_ids(entries: Seq<JsonV>, id: Seq<char>)
    requires
        usage_tally(entries).seen.contains(id),
    ensures
        exists|j: int| 0 <= j < entries.len() && assistant_with_id(#[trigger] entries[j], id),
    decreases entries.len(),
{
    if entries.len() > 0 {
        let d = entries.drop_last();
        let e = entries.last();
        let t = usage_tally(d);
        if t.seen.contains(id) {
            lemma_seen_only_ids(d, id);
            let j = choose|j: int| 0 <= j < d.len() && assistant_with_id(#[trigger] d[j], id);
            assert(entries[j] == d[j]);
        } else {
            assert(assistant_with_id(entries[entries.len() - 1], id));
        }
    }
}

/// A new assistant entry (its id, if any, not seen among earlier assistant entries) whose
/// message names a real model and carries a usage block adds that block to the sums: the
/// token counts under `usage`, the web searches and fetches under
/// `usage.server_tool_use`, and one call of its model. Counters that are absent or not
/// integers add 0.
pub proof fn law_new_entry_adds_its_usage(entries: Seq<JsonV>, e: JsonV, m: JsonV, u: JsonV, model: Seq<char>)
    requires
        text_of(member(e, "type"@)) == Some("assistant"@),
        forall|j: int|
            0 <= j < entries.len() && text_of(member(e, "uuid"@)) is Some ==> !assistant_with_id(
                #[trigger] entries[j],
                text_of(member(e, "uuid"@))->0,
            ),
        member(e, "message"@) == Some(m),
        text_of(member(m, "model"@)) == Some(model),
        model.len() > 0,
        model[0] != '<',
        member(m, "usage"@) == Some(u),
    ensures
        ({
            let before = usage_tally(entries);
            let after = usage_tally(entries.push(e));
            &&& after.input == before.input + counter(member(u, "input_tokens"@))
            &&& after.output == before.output + counter(member(u, "output_tokens"@))
            &&& after.cache_creation == before.cache_creation + counter(
                member(u, "cache_creation_input_tokens"@),
            )
            &&& after.cache_read == before.cache_read + counter(member(u, "cache_read_input_tokens"@))
            &&& after.web_search == before.web_search + server_tool_counter(u, "web_search_requests"@)
            &&& after.web_fetch == before.web_fetch + server_tool_counter(u, "web_fetch_requests"@)
            &&& after.models == before.models.push(model)
        }),
{
    assert(entries.push(e).drop_last() =~= entries);
    let t = usage_tally(entries);
    if let Some(id) = text_of(member(e, "uuid"@)) {
        if t.seen.contains(id) {
            lemma_seen_only_ids(entries, id);
        }
    }
}

} // verus!
