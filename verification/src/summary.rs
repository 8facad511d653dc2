//! A session's narrative: its span, errors, model and most used tools.

use vstd::prelude::*;
use crate::events::{opt_text, Event};
use crate::json::{as_text, get_member, member, opt_view, text_of, Json, JsonV};
use crate::tally::{count_keys, count_name, counts_match};
use crate::text::str_eq;

verus! {

broadcast use {
    vstd::std_specs::vec::group_vec_axioms,
    vstd::seq_lib::group_to_multiset_ensures,
    vstd::multiset::group_multiset_axioms,
};

/// The tool names of the events that have one, in order.
pub open spec fn tool_names(events: Seq<Event>) -> Seq<Seq<char>>
    decreases events.len(),
{
    if events.len() == 0 {
        Seq::empty()
    } else {
        let rest = tool_names(events.drop_last());
        match events.last().tool_name {
            Some(t) => rest.push(t@),
            None => rest,
        }
    }
}

/// Counts the events of each tool, tools in order of first use.
pub fn tool_counts(events: &Vec<Event>) -> (r: Vec<(String, u64)>)
    ensures
        counts_match(r@, tool_names(events@)),
{
    let mut counts: Vec<(String, u64)> = Vec::new();
    proof {
        assert(count_keys(counts@) =~= Seq::<Seq<char>>::empty());
    }
    let n: usize = events.len();
    let mut i: usize = 0;
    while i < n
        invariant
            n == events@.len(),
            i <= n,
            counts_match(counts@, tool_names(events@.take(i as int))),
            tool_names(events@.take(i as int)).len() <= i,
        decreases n - i,
    {
        proof {
            assert(events@.take(i as int + 1).drop_last() =~= events@.take(i as int));
        }
        if let Some(t) = &events[i].tool_name {
            count_name(&mut counts, t.as_str(), Ghost(tool_names(events@.take(i as int))));
        }
        i = i + 1;
    }
    proof {
        assert(events@.take(n as int) =~= events@);
    }
    counts
}

/// `r` lists the `k` most used tools of `names`, most used first, with their counts: each
/// tool once, and any tool left out used no more often than the last one listed. Tools
/// that tie may come in either order.
pub open spec fn is_top(r: Seq<(String, u64)>, names: Seq<Seq<char>>, k: nat) -> bool {
    &&& r.len() <= k
    &&& count_keys(r).no_duplicates()
    &&& forall|j: int| 0 <= j < r.len() ==> r[j].1 == names.to_multiset().count(#[trigger] count_keys(r)[j]) && r[j].1 > 0
    &&& forall|i: int, j: int| 0 <= i < j < r.len() ==> #[trigger] r[i].1 >= #[trigger] r[j].1
    &&& forall|x: Seq<char>| names.contains(x) && !count_keys(r).contains(x) ==> r.len() == k && (k
        == 0 || names.to_multiset().count(x) <= r[k - 1].1)
}

/// The `k` entries of a table of counts with the highest counts, highest first; of those
/// that tie, the earlier entry first.
pub(crate) fn top_counts(counts: &Vec<(String, u64)>, k: usize, Ghost(names): Ghost<Seq<Seq<char>>>) -> (r: Vec<(String, u64)>)
    requires
        counts_match(counts@, names),
    ensures
        is_top(r@, names, k as nat),
{
    let n: usize = counts.len();
    let ghost keys = count_keys(counts@);
    let mut taken: Vec<bool> = Vec::new();
    let mut j: usize = 0;
    while j < n
        invariant
            j <= n,
            taken@.len() == j,
            forall|q: int| 0 <= q < j ==> !taken@[q],
        decreases n - j,
    {
        taken.push(false);
        j = j + 1;
    }
    let mut out: Vec<(String, u64)> = Vec::new();
    let ghost mut picked: Seq<int> = Seq::empty();
    let mut done = false;
    while out.len() < k && !done
        invariant
            done ==> forall|q: int| 0 <= q < n ==> #[trigger] taken@[q],
            n == counts@.len(),
            keys == count_keys(counts@),
            counts_match(counts@, names),
            taken@.len() == n,
            out@.len() == picked.len(),
            out@.len() <= k,
            forall|p: int| 0 <= p < picked.len() ==> 0 <= #[trigger] picked[p] < n && taken@[picked[p]]
                && out@[p] == counts@[picked[p]],
            forall|q: int| 0 <= q < n && taken@[q] ==> exists|p: int| 0 <= p < picked.len() && #[trigger] picked[p] == q,
            forall|p1: int, p2: int| 0 <= p1 < p2 < picked.len() ==> #[trigger] picked[p1] != #[trigger] picked[p2],
            forall|p1: int, p2: int| 0 <= p1 < p2 < out@.len() ==> #[trigger] out@[p1].1 >= #[trigger] out@[p2].1,
            forall|p: int, q: int| 0 <= p < out@.len() && 0 <= q < n && !taken@[q] ==> #[trigger] out@[p].1 >= #[trigger] counts@[q].1,
        decreases k - out@.len(), if done { 0int } else { 1int },
    {
        let mut best: Option<usize> = None;
        let mut q: usize = 0;
        while q < n
            invariant
                n == counts@.len(),
                taken@.len() == n,
                q <= n,
                match best {
                    Some(b) => b < q && !taken@[b as int] && forall|x: int| 0 <= x < q && !taken@[x] ==> #[trigger] counts@[x].1 <= counts@[b as int].1,
                    None => forall|x: int| 0 <= x < q ==> #[trigger] taken@[x],
                },
            decreases n - q,
        {
            if !taken[q] {
                match best {
                    None => {
                        best = Some(q);
                    },
                    Some(b) => {
                        if counts[q].1 > counts[b].1 {
                            best = Some(q);
                        }
                    },
                }
            }
            q = q + 1;
        }
        match best {
            None => {
                done = true;
            },
            Some(b) => {
                let entry = (counts[b].0.clone(), counts[b].1);
                let ghost old_picked = picked;
                let ghost old_taken = taken@;
                let ghost old_out = out@;
                proof {
                    picked = picked.push(b as int);
                }
                out.push(entry);
                taken.set(b, true);
                proof {
                    assert forall|q: int| 0 <= q < n && taken@[q] implies exists|p: int|
                        0 <= p < picked.len() && #[trigger] picked[p] == q by {
                        if q == b {
                            assert(picked[picked.len() - 1] == q);
                        } else {
                            assert(old_taken[q]);
                            let p = choose|p: int| 0 <= p < old_picked.len() && #[trigger] old_picked[p] == q;
                            assert(picked[p] == q);
                        }
                    }
                    assert forall|p1: int, p2: int| 0 <= p1 < p2 < picked.len() implies #[trigger] picked[p1]
                        != #[trigger] picked[p2] by {
                        if p2 == picked.len() - 1 {
                            assert(old_taken[old_picked[p1]]);
                        }
                    }
                }
            },
        }
    }
    proof {
        let r = out@;
        let rk = count_keys(r);
        assert forall|p: int| 0 <= p < r.len() implies #[trigger] rk[p] == keys[picked[p]] by {}
        assert(rk.no_duplicates()) by {
            assert forall|p1: int, p2: int| 0 <= p1 < r.len() && 0 <= p2 < r.len() && p1 != p2 implies rk[p1] != rk[p2] by {
                assert(rk[p1] == keys[picked[p1]]);
                assert(rk[p2] == keys[picked[p2]]);
                if p1 < p2 {
                    assert(picked[p1] != picked[p2]);
                } else {
                    assert(picked[p2] != picked[p1]);
                }
            }
        }
        assert forall|x: Seq<char>| names.contains(x) && !rk.contains(x) implies r.len() == k && (k == 0
            || names.to_multiset().count(x) <= r[k - 1].1) by {
            assert(keys.contains(x));
            let q = choose|q: int| 0 <= q < keys.len() && keys[q] == x;
            if taken@[q] {
                let p = choose|p: int| 0 <= p < picked.len() && #[trigger] picked[p] == q;
                assert(rk[p] == x);
            }
            if k > 0 {
                assert(r[k - 1].1 >= counts@[q].1);
            }
        }
    }
    out
}

/// Event types that record a failure.
pub open spec fn is_error_type(t: Seq<char>) -> bool {
    t == "StopFailure"@ || t == "PostToolUseFailure"@
}

/// How many of the events record a failure.
pub open spec fn error_count(events: Seq<Event>) -> nat
    decreases events.len(),
{
    if events.len() == 0 {
        0
    } else {
        error_count(events.drop_last()) + if is_error_type(events.last().event_type@) {
            1nat
        } else {
            0nat
        }
    }
}

/// Whether an event type records a failure.
pub fn is_error_event_type(t: &str) -> (r: bool)
    ensures
        r == is_error_type(t@),
{
    str_eq(t, "StopFailure") || str_eq(t, "PostToolUseFailure")
}

/// Counts the events that record a failure.
pub fn count_errors(events: &Vec<Event>) -> (r: u64)
    ensures
        r == error_count(events@),
{
    let n: usize = events.len();
    let mut c: u64 = 0;
    let mut i: usize = 0;
    while i < n
        invariant
            n == events@.len(),
            i <= n,
            c == error_count(events@.take(i as int)),
            c <= i,
        decreases n - i,
    {
        proof {
            assert(events@.take(i as int + 1).drop_last() =~= events@.take(i as int));
        }
        if is_error_event_type(events[i].event_type.as_str()) {
            c = c + 1;
        }
        i = i + 1;
    }
    proof {
        assert(events@.take(n as int) =~= events@);
    }
    c
}

/// Finds the first `SessionStart` event, whose metadata names the session's model.
pub fn first_session_start(events: &Vec<Event>) -> (r: Option<usize>)
    ensures
        match r {
            Some(i) => i < events@.len() && events@[i as int].event_type@ == "SessionStart"@
                && forall|j: int| 0 <= j < i ==> events@[j].event_type@ != "SessionStart"@,
            None => forall|j: int| 0 <= j < events@.len() ==> events@[j].event_type@ != "SessionStart"@,
        },
{
    let n: usize = events.len();
    let mut i: usize = 0;
    while i < n
        invariant
            n == events@.len(),
            i <= n,
            forall|j: int| 0 <= j < i ==> events@[j].event_type@ != "SessionStart"@,
        decreases n - i,
    {
        if str_eq(events[i].event_type.as_str(), "SessionStart") {
            return Some(i);
        }
        i = i + 1;
    }
    None
}

/// A session's narrative.
#[derive(Debug)]
pub struct SessionSummary {
    pub session_id: String,
    /// Working directory of the first event, `unknown` without one.
    pub cwd: String,
    /// Model named by the first `SessionStart` event.
    pub model: Option<String>,
    pub start: String,
    pub end: String,
    /// First to last event as display text, `-` when a timestamp is not RFC 3339.
    pub duration: String,
    pub total_events: usize,
    pub errors: u64,
    /// The five most used tools with their counts, most used first.
    pub top_tools: Vec<(String, u64)>,
}

/// Summarizes a session's events, in timestamp order; `start_metadata` is the parsed
/// metadata of its first `SessionStart` event. `None` when there are no events.
pub fn summarize(session_id: &str, events: &Vec<Event>, start_metadata: Option<&Json>) -> (r: Option<SessionSummary>)
    ensures
        match r {
            None => events@.len() == 0,
            Some(s) => {
                let first = events@[0];
                let last = events@[events@.len() - 1];
                &&& events@.len() > 0
                &&& s.session_id@ == session_id@
                &&& s.cwd@ == (match first.cwd {
                    Some(c) => c@,
                    None => "unknown"@,
                })
                &&& opt_text(s.model) == (match start_metadata {
                    Some(m) => text_of(member(m@, "model"@)),
                    None => None,
                })
                &&& s.start@ == first.timestamp@
                &&& s.end@ == last.timestamp@
                &&& s.duration@ == crate::time::span_display_text(
                    crate::time::rfc3339_span(first.timestamp@, last.timestamp@),
                )
                &&& s.total_events == events@.len()
                &&& s.errors == error_count(events@)
                &&& is_top(s.top_tools@, tool_names(events@), 5)
            },
        },
{
    let n: usize = events.len();
    if n == 0 {
        return None;
    }
    let first = &events[0];
    let last = &events[n - 1];
    let cwd = match &first.cwd {
        Some(c) => c.clone(),
        None => "unknown".to_string(),
    };
    let model = match start_metadata {
        Some(m) => match as_text(get_member(m, "model")) {
            Some(t) => Some(t.to_string()),
            None => None,
        },
        None => None,
    };
    let counts = tool_counts(events);
    let top = top_counts(&counts, 5, Ghost(tool_names(events@)));
    let duration = crate::time::duration_string(first.timestamp.as_str(), last.timestamp.as_str());
    Some(SessionSummary {
        session_id: session_id.to_string(),
        cwd,
        model,
        start: first.timestamp.clone(),
        end: last.timestamp.clone(),
        duration,
        total_events: n,
        errors: count_errors(events),
        top_tools: top,
    })
}

/// The error count of a session counts exactly its `StopFailure` and `PostToolUseFailure`
/// events: none for no events, and one more for each further event of those two types.
pub proof fn law_errors_are_failure_events(events: Seq<Event>, e: Event)
    ensures
        error_count(Seq::<Event>::empty()) == 0,
        error_count(events.push(e)) == error_count(events) + if e.event_type@ == "StopFailure"@
            || e.event_type@ == "PostToolUseFailure"@ {
            1int
        } else {
            0int
        },
{
    assert(events.push(e).drop_last() =~= events);
}

} // verus!
