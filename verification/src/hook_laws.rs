//! What installing and uninstalling the hook entry guarantee, over whole documents.

use vstd::prelude::*;
use crate::events::{event_at, event_index, event_type_name, lemma_event_names_distinct, EventType};
use crate::hooks::{
    is_canonical, any_group_has_command, any_has_command, canonical_name, entry_has_command, event_wired,
    first_open_group, group_has_command, groups_have_command, hook_entry, install_event,
    install_groups, install_outcome, install_run, lemma_first_open_group, matcher_empty,
    new_group, removed_in_group, removed_in_groups, removed_in_member, removed_in_members,
    str_value, strip_entries, uninstall_group, uninstall_groups, uninstall_member,
    uninstall_members, uninstall_outcome, HookError,
};
use crate::json::{key_pos, lemma_key_pos, lemma_key_pos_at, member, JsonV, NumberV};

verus! {

/// Positions of the canonical order round-trip through `event_at`.
pub proof fn lemma_event_at_index(i: int)
    requires
        0 <= i < 25,
    ensures
        event_index(event_at(i)) == i,
{
}

/// Distinct positions of the canonical order have distinct names.
pub proof fn lemma_canonical_distinct(i: int, j: int)
    requires
        0 <= i < 25,
        0 <= j < 25,
        i != j,
    ensures
        canonical_name(i) != canonical_name(j),
{
    lemma_event_at_index(i);
    lemma_event_at_index(j);
    if canonical_name(i) == canonical_name(j) {
        lemma_event_names_distinct(event_at(i), event_at(j));
    }
}

/// The member names that hook entries and groups use differ from one another.
pub proof fn lemma_member_keys_distinct()
    ensures
        "hooks"@ != "matcher"@,
        "type"@ != "command"@,
{
    reveal_strlit("hooks");
    reveal_strlit("matcher");
    reveal_strlit("type");
    reveal_strlit("command");
    assert("hooks"@[0] != "matcher"@[0]);
    assert("type"@[0] != "command"@[0]);
}

/// Where a key sits after one more member is appended.
pub proof fn lemma_key_pos_push(h: Seq<(Seq<char>, JsonV)>, x: (Seq<char>, JsonV), k: Seq<char>)
    ensures
        key_pos(h.push(x), k) == if key_pos(h, k) >= 0 {
            key_pos(h, k)
        } else if x.0 == k {
            h.len() as int
        } else {
            -1
        },
{
    assert(h.push(x).drop_last() =~= h);
}

/// Replacing a member by one with the same key moves no key.
pub proof fn lemma_key_pos_same_keys(a: Seq<(Seq<char>, JsonV)>, b: Seq<(Seq<char>, JsonV)>, k: Seq<char>)
    requires
        a.len() == b.len(),
        forall|j: int| 0 <= j < a.len() ==> a[j].0 == b[j].0,
    ensures
        key_pos(a, k) == key_pos(b, k),
{
    lemma_key_pos(a, k);
    lemma_key_pos(b, k);
    let pa = key_pos(a, k);
    let pb = key_pos(b, k);
    if pa >= 0 && pb >= 0 {
        if pa < pb {
            assert(b[pa].0 == k);
        } else if pb < pa {
            assert(a[pb].0 == k);
        }
    } else if pa >= 0 {
        assert(b[pa].0 == k);
    } else if pb >= 0 {
        assert(a[pb].0 == k);
    }
}

/// Appending a member under another key leaves the value of `k` as it was.
pub proof fn lemma_member_push(m: Seq<(Seq<char>, JsonV)>, x: (Seq<char>, JsonV), k: Seq<char>)
    requires
        x.0 != k,
    ensures
        member(JsonV::Object(m.push(x)), k) == member(JsonV::Object(m), k),
{
    lemma_key_pos_push(m, x, k);
    lemma_key_pos(m, k);
    if key_pos(m, k) >= 0 {
        assert(m.push(x)[key_pos(m, k)] == m[key_pos(m, k)]);
    }
}

/// Replacing the member under another key leaves the value of `k` as it was.
pub proof fn lemma_member_update(m: Seq<(Seq<char>, JsonV)>, q: int, x: (Seq<char>, JsonV), k: Seq<char>)
    requires
        0 <= q < m.len(),
        x.0 == m[q].0,
        m[q].0 != k,
    ensures
        member(JsonV::Object(m.update(q, x)), k) == member(JsonV::Object(m), k),
{
    lemma_key_pos_same_keys(m, m.update(q, x), k);
    lemma_key_pos(m, k);
}

/// The first open group stays put when it is replaced by another open group.
pub proof fn lemma_first_open_update(gs: Seq<JsonV>, p: int, y: JsonV)
    requires
        p == first_open_group(gs),
        p >= 0,
        matcher_empty(y),
    ensures
        first_open_group(gs.update(p, y)) == p,
{
    lemma_first_open_group(gs);
    let g2 = gs.update(p, y);
    lemma_first_open_group(g2);
    let p2 = first_open_group(g2);
    if p2 < p {
        if p2 >= 0 {
            assert(g2[p2] == gs[p2]);
        } else {
            assert(matcher_empty(g2[p]));
        }
    } else if p2 > p {
        assert(matcher_empty(g2[p]));
    }
}

/// What a new matcher group holds: it matches every tool and runs `cmd`.
pub proof fn lemma_new_group_facts(cmd: Seq<char>, t: u64)
    ensures
        matcher_empty(new_group(cmd, t)),
        entry_has_command(hook_entry(cmd, t), cmd),
        any_has_command(seq![hook_entry(cmd, t)], cmd),
        member(new_group(cmd, t), "hooks"@) == Some(JsonV::Array(seq![hook_entry(cmd, t)])),
        group_has_command(new_group(cmd, t), cmd),
{
    lemma_member_keys_distinct();
    let gm = seq![
        ("matcher"@, JsonV::Str(Seq::<char>::empty())),
        ("hooks"@, JsonV::Array(seq![hook_entry(cmd, t)])),
    ];
    lemma_key_pos_at(gm, "matcher"@, 0);
    lemma_key_pos_at(gm, "hooks"@, 1);
    let em = seq![
        ("type"@, JsonV::Str("command"@)),
        ("command"@, JsonV::Str(cmd)),
        ("timeout"@, JsonV::Number(NumberV::PosInt(t))),
    ];
    lemma_key_pos_at(em, "command"@, 1);
    assert(entry_has_command(hook_entry(cmd, t), cmd));
    assert(seq![hook_entry(cmd, t)][0] == hook_entry(cmd, t));
}

/// A group list in which the first group that matches every tool already runs `cmd`.
pub open spec fn settled(gs: Seq<JsonV>, cmd: Seq<char>) -> bool {
    let p = first_open_group(gs);
    &&& p >= 0
    &&& gs[p] is Object
    &&& key_pos(gs[p]->Object_0, "hooks"@) >= 0
    &&& gs[p]->Object_0[key_pos(gs[p]->Object_0, "hooks"@)].1 is Array
    &&& any_has_command(gs[p]->Object_0[key_pos(gs[p]->Object_0, "hooks"@)].1->Array_0, cmd)
}

/// A settled group list runs `cmd`, and installing into it changes nothing.
pub proof fn lemma_settled_facts(gs: Seq<JsonV>, event: EventType, cmd: Seq<char>, t: u64)
    requires
        settled(gs, cmd),
    ensures
        install_groups(gs, event, cmd, t) == Ok::<Seq<JsonV>, HookError>(gs),
        any_group_has_command(gs, cmd),
{
    lemma_first_open_group(gs);
    let p = first_open_group(gs);
    assert(group_has_command(gs[p], cmd));
}

/// Whatever a successful install leaves in a group list is settled.
pub proof fn lemma_install_groups_settles(gs: Seq<JsonV>, event: EventType, cmd: Seq<char>, t: u64)
    requires
        install_groups(gs, event, cmd, t) is Ok,
    ensures
        settled(install_groups(gs, event, cmd, t)->Ok_0, cmd),
{
    lemma_first_open_group(gs);
    lemma_new_group_facts(cmd, t);
    lemma_member_keys_distinct();
    let p = first_open_group(gs);
    let g2 = install_groups(gs, event, cmd, t)->Ok_0;
    if p < 0 {
        assert(g2 == gs.push(new_group(cmd, t)));
        assert(g2.drop_last() =~= gs);
        assert(first_open_group(g2) == gs.len());
        let gm = seq![
            ("matcher"@, JsonV::Str(Seq::<char>::empty())),
            ("hooks"@, JsonV::Array(seq![hook_entry(cmd, t)])),
        ];
        lemma_key_pos_at(gm, "hooks"@, 1);
    } else {
        let gm = gs[p]->Object_0;
        let q = key_pos(gm, "hooks"@);
        lemma_key_pos(gm, "hooks"@);
        if q < 0 {
            let x = ("hooks"@, JsonV::Array(seq![hook_entry(cmd, t)]));
            let y = JsonV::Object(gm.push(x));
            lemma_member_push(gm, x, "matcher"@);
            lemma_first_open_update(gs, p, y);
            lemma_key_pos_push(gm, x, "hooks"@);
        } else {
            let hs = gm[q].1->Array_0;
            if any_has_command(hs, cmd) {
            } else {
                let x = ("hooks"@, JsonV::Array(hs.push(hook_entry(cmd, t))));
                let y = JsonV::Object(gm.update(q, x));
                lemma_member_update(gm, q, x, "matcher"@);
                lemma_first_open_update(gs, p, y);
                lemma_key_pos_same_keys(gm, gm.update(q, x), "hooks"@);
                assert(hs.push(hook_entry(cmd, t))[hs.len() as int] == hook_entry(cmd, t));
            }
        }
    }
}

/// The member holding `name` exists and its group list is settled.
pub open spec fn member_settled(h: Seq<(Seq<char>, JsonV)>, name: Seq<char>, cmd: Seq<char>) -> bool {
    let q = key_pos(h, name);
    &&& q >= 0
    &&& h[q].1 is Array
    &&& settled(h[q].1->Array_0, cmd)
}

/// Installing into event `k` settles it and keeps the events before it settled.
pub proof fn lemma_install_event_step(h: Seq<(Seq<char>, JsonV)>, k: int, cmd: Seq<char>, t: u64)
    requires
        0 <= k < 25,
        install_event(h, event_at(k), cmd, t) is Ok,
        forall|i: int| 0 <= i < k ==> member_settled(h, #[trigger] canonical_name(i), cmd),
    ensures
        forall|i: int|
            0 <= i <= k ==> member_settled(
                install_event(h, event_at(k), cmd, t)->Ok_0,
                #[trigger] canonical_name(i),
                cmd,
            ),
{
    let name = canonical_name(k);
    let e = event_at(k);
    let h2 = install_event(h, e, cmd, t)->Ok_0;
    let q = key_pos(h, name);
    lemma_key_pos(h, name);
    lemma_new_group_facts(cmd, t);
    if q < 0 {
        let x = (name, JsonV::Array(seq![new_group(cmd, t)]));
        assert(h2 == h.push(x));
        lemma_key_pos_push(h, x, name);
        let gs1 = seq![new_group(cmd, t)];
        assert(gs1.drop_last() =~= Seq::<JsonV>::empty());
        assert(first_open_group(Seq::<JsonV>::empty()) == -1);
        assert(gs1.last() == new_group(cmd, t));
        assert(first_open_group(gs1) == 0);
        let gm = seq![
            ("matcher"@, JsonV::Str(Seq::<char>::empty())),
            ("hooks"@, JsonV::Array(seq![hook_entry(cmd, t)])),
        ];
        lemma_member_keys_distinct();
        lemma_key_pos_at(gm, "hooks"@, 1);
        assert(member_settled(h2, name, cmd));
        assert forall|i: int| 0 <= i <= k implies member_settled(h2, #[trigger] canonical_name(i), cmd) by {
            if i < k {
                assert(member_settled(h, canonical_name(i), cmd));
                lemma_canonical_distinct(i, k);
                lemma_key_pos_push(h, x, canonical_name(i));
                lemma_key_pos(h, canonical_name(i));
                assert(h2[key_pos(h, canonical_name(i))] == h[key_pos(h, canonical_name(i))]);
            }
        }
    } else {
        let gs = h[q].1->Array_0;
        let g2 = install_groups(gs, e, cmd, t)->Ok_0;
        let x = (name, JsonV::Array(g2));
        assert(h2 == h.update(q, x));
        lemma_install_groups_settles(gs, e, cmd, t);
        lemma_key_pos_same_keys(h, h2, name);
        assert(member_settled(h2, name, cmd));
        assert forall|i: int| 0 <= i <= k implies member_settled(h2, #[trigger] canonical_name(i), cmd) by {
            if i < k {
                assert(member_settled(h, canonical_name(i), cmd));
                lemma_canonical_distinct(i, k);
                lemma_key_pos_same_keys(h, h2, canonical_name(i));
                lemma_key_pos(h, canonical_name(i));
                assert(key_pos(h, canonical_name(i)) != q);
            }
        }
    }
}

/// A run that has gone through `k` events without refusal leaves those events settled.
pub proof fn lemma_install_run_settles(h: Seq<(Seq<char>, JsonV)>, cmd: Seq<char>, t: u64, k: nat)
    requires
        k <= 25,
        install_run(h, cmd, t, k).1 is Ok,
    ensures
        forall|i: int| 0 <= i < k ==> member_settled(install_run(h, cmd, t, k).0, #[trigger] canonical_name(i), cmd),
    decreases k,
{
    if k > 0 {
        let prev = install_run(h, cmd, t, (k - 1) as nat);
        assert(prev.1 is Ok);
        lemma_install_run_settles(h, cmd, t, (k - 1) as nat);
        lemma_install_event_step(prev.0, k - 1, cmd, t);
    }
}

/// On a hooks object whose canonical events are all settled, every step leaves it as it is.
pub proof fn lemma_install_run_fixed(h: Seq<(Seq<char>, JsonV)>, cmd: Seq<char>, t: u64, k: nat)
    requires
        k <= 25,
        forall|i: int| 0 <= i < 25 ==> member_settled(h, #[trigger] canonical_name(i), cmd),
    ensures
        install_run(h, cmd, t, k) == (h, Ok::<(), HookError>(())),
    decreases k,
{
    if k > 0 {
        lemma_install_run_fixed(h, cmd, t, (k - 1) as nat);
        let i = k - 1;
        let name = canonical_name(i);
        assert(member_settled(h, name, cmd));
        let q = key_pos(h, name);
        lemma_key_pos(h, name);
        let gs = h[q].1->Array_0;
        lemma_settled_facts(gs, event_at(i), cmd, t);
        assert(h.update(q, (name, JsonV::Array(gs))) =~= h);
    }
}

/// After a successful install, every canonical event of the document runs the command.
pub proof fn law_install_wires_every_event(v: JsonV, cmd: Seq<char>, t: u64)
    requires
        install_outcome(v, cmd, t).1 is Ok,
    ensures
        forall|i: int| 0 <= i < 25 ==> event_wired(install_outcome(v, cmd, t).0, #[trigger] canonical_name(i), cmd),
{
    let w = install_outcome(v, cmd, t).0;
    let root = v->Object_0;
    let q = key_pos(root, "hooks"@);
    lemma_key_pos(root, "hooks"@);
    let h = if q < 0 { Seq::<(Seq<char>, JsonV)>::empty() } else { root[q].1->Object_0 };
    let run = install_run(h, cmd, t, 25);
    lemma_install_run_settles(h, cmd, t, 25);
    let x = ("hooks"@, JsonV::Object(run.0));
    if q < 0 {
        lemma_key_pos_push(root, x, "hooks"@);
    } else {
        lemma_key_pos_same_keys(root, root.update(q, x), "hooks"@);
    }
    assert(member(w, "hooks"@) == Some(JsonV::Object(run.0)));
    assert forall|i: int| 0 <= i < 25 implies event_wired(w, #[trigger] canonical_name(i), cmd) by {
        let name = canonical_name(i);
        assert(member_settled(run.0, name, cmd));
        let p = key_pos(run.0, name);
        let gs = run.0[p].1->Array_0;
        lemma_settled_facts(gs, event_at(i), cmd, t);
    }
}

/// Installing into a document that an install has already been applied to changes nothing.
pub proof fn law_install_idempotent(v: JsonV, cmd: Seq<char>, t: u64)
    requires
        install_outcome(v, cmd, t).1 is Ok,
    ensures
        install_outcome(install_outcome(v, cmd, t).0, cmd, t) == (
            install_outcome(v, cmd, t).0,
            Ok::<(), HookError>(()),
        ),
{
    let w = install_outcome(v, cmd, t).0;
    let root = v->Object_0;
    let q = key_pos(root, "hooks"@);
    lemma_key_pos(root, "hooks"@);
    let h = if q < 0 { Seq::<(Seq<char>, JsonV)>::empty() } else { root[q].1->Object_0 };
    let run = install_run(h, cmd, t, 25);
    lemma_install_run_settles(h, cmd, t, 25);
    lemma_install_run_fixed(run.0, cmd, t, 25);
    let x = ("hooks"@, JsonV::Object(run.0));
    let root2 = if q < 0 { root.push(x) } else { root.update(q, x) };
    assert(w == JsonV::Object(root2));
    let q2 = key_pos(root2, "hooks"@);
    if q < 0 {
        lemma_key_pos_push(root, x, "hooks"@);
    } else {
        lemma_key_pos_same_keys(root, root2, "hooks"@);
    }
    assert(root2[q2] == x);
    assert(root2.update(q2, x) =~= root2);
}

/// No entry that `strip_entries` keeps runs `cmd`, and it keeps all of a list that runs none.
pub proof fn lemma_strip_entries(hs: Seq<JsonV>, cmd: Seq<char>)
    ensures
        !any_has_command(strip_entries(hs, cmd), cmd),
        !any_has_command(hs, cmd) ==> strip_entries(hs, cmd) == hs,
    decreases hs.len(),
{
    if hs.len() > 0 {
        let d = hs.drop_last();
        lemma_strip_entries(d, cmd);
        let r = strip_entries(d, cmd);
        if !entry_has_command(hs.last(), cmd) {
            assert forall|i: int| 0 <= i < r.push(hs.last()).len() implies !entry_has_command(
                #[trigger] r.push(hs.last())[i],
                cmd,
            ) by {
                if i < r.len() {
                    assert(r.push(hs.last())[i] == r[i]);
                }
            }
        }
        if !any_has_command(hs, cmd) {
            assert forall|i: int| 0 <= i < d.len() implies !entry_has_command(#[trigger] d[i], cmd) by {
                assert(d[i] == hs[i]);
                assert(!entry_has_command(hs[i], cmd));
            }
            assert(!entry_has_command(hs[hs.len() - 1], cmd));
            assert(hs == d.push(hs.last()));
        }
    }
}

/// A group left by uninstalling runs no entry with `cmd`.
pub proof fn lemma_uninstalled_group_clear(g: JsonV, cmd: Seq<char>)
    requires
        uninstall_group(g, cmd) is Some,
    ensures
        !group_has_command(uninstall_group(g, cmd)->Some_0, cmd),
{
    match g {
        JsonV::Object(gm) => {
            let q = key_pos(gm, "hooks"@);
            lemma_key_pos(gm, "hooks"@);
            if q >= 0 {
                match gm[q].1 {
                    JsonV::Array(hs) => {
                        let kept = strip_entries(hs, cmd);
                        lemma_strip_entries(hs, cmd);
                        let x = ("hooks"@, JsonV::Array(kept));
                        lemma_key_pos_same_keys(gm, gm.update(q, x), "hooks"@);
                    },
                    _ => {},
                }
            }
        },
        _ => {},
    }
}

/// No group left by uninstalling runs `cmd`.
pub proof fn lemma_uninstalled_groups_clear(gs: Seq<JsonV>, cmd: Seq<char>)
    ensures
        forall|j: int|
            0 <= j < uninstall_groups(gs, cmd).len() ==> !group_has_command(
                #[trigger] uninstall_groups(gs, cmd)[j],
                cmd,
            ),
    decreases gs.len(),
{
    if gs.len() > 0 {
        let d = gs.drop_last();
        lemma_uninstalled_groups_clear(d, cmd);
        let r = uninstall_groups(d, cmd);
        match uninstall_group(gs.last(), cmd) {
            Some(g) => {
                lemma_uninstalled_group_clear(gs.last(), cmd);
                assert forall|j: int| 0 <= j < r.push(g).len() implies !group_has_command(
                    #[trigger] r.push(g)[j],
                    cmd,
                ) by {
                    if j < r.len() {
                        assert(r.push(g)[j] == r[j]);
                    }
                }
            },
            None => {},
        }
    }
}

/// No event left by uninstalling runs `cmd`.
pub proof fn lemma_uninstalled_members_clear(h: Seq<(Seq<char>, JsonV)>, cmd: Seq<char>)
    ensures
        forall|j: int|
            0 <= j < uninstall_members(h, cmd).len() ==> !groups_have_command(
                (#[trigger] uninstall_members(h, cmd)[j]).1,
                cmd,
            ),
    decreases h.len(),
{
    if h.len() > 0 {
        let d = h.drop_last();
        lemma_uninstalled_members_clear(d, cmd);
        let r = uninstall_members(d, cmd);
        match uninstall_member(h.last(), cmd) {
            Some(m) => {
                match h.last().1 {
                    JsonV::Array(gs) => {
                        lemma_uninstalled_groups_clear(gs, cmd);
                        let g2 = uninstall_groups(gs, cmd);
                        assert(!any_group_has_command(g2, cmd));
                    },
                    _ => {},
                }
                assert forall|j: int| 0 <= j < r.push(m).len() implies !groups_have_command(
                    (#[trigger] r.push(m)[j]).1,
                    cmd,
                ) by {
                    if j < r.len() {
                        assert(r.push(m)[j] == r[j]);
                    }
                }
            },
            None => {},
        }
    }
}

/// Each key occurs at most once among the members.
pub open spec fn keys_unique(m: Seq<(Seq<char>, JsonV)>) -> bool {
    forall|i: int, j: int| 0 <= i < j < m.len() ==> m[i].0 != m[j].0
}

/// After uninstalling, no event of the document runs the command.
pub proof fn law_uninstall_clears_every_event(v: JsonV, cmd: Seq<char>, name: Seq<char>)
    requires
        v is Object ==> keys_unique(v->Object_0),
    ensures
        !event_wired(uninstall_outcome(v, cmd).0, name, cmd),
{
    match v {
        JsonV::Object(root) => {
            let q = key_pos(root, "hooks"@);
            lemma_key_pos(root, "hooks"@);
            if q >= 0 {
                match root[q].1 {
                    JsonV::Object(h) => {
                        let h2 = uninstall_members(h, cmd);
                        lemma_uninstalled_members_clear(h, cmd);
                        if h2.len() == 0 {
                            let r2 = root.remove(q);
                            lemma_key_pos(r2, "hooks"@);
                            if key_pos(r2, "hooks"@) >= 0 {
                                let k = key_pos(r2, "hooks"@);
                                if k < q {
                                    assert(r2[k] == root[k]);
                                } else {
                                    assert(r2[k] == root[k + 1]);
                                }
                            }
                        } else {
                            let x = ("hooks"@, JsonV::Object(h2));
                            lemma_key_pos_same_keys(root, root.update(q, x), "hooks"@);
                            lemma_key_pos(h2, name);
                        }
                    },
                    _ => {},
                }
            }
        },
        _ => {},
    }
}

/// Replacing one group by another that uninstalls the same way leaves the result alike.
pub proof fn lemma_uninstall_groups_update(gs: Seq<JsonV>, p: int, y: JsonV, cmd: Seq<char>)
    requires
        0 <= p < gs.len(),
        uninstall_group(y, cmd) == uninstall_group(gs[p], cmd),
    ensures
        uninstall_groups(gs.update(p, y), cmd) == uninstall_groups(gs, cmd),
    decreases gs.len(),
{
    let g2 = gs.update(p, y);
    if p == gs.len() - 1 {
        assert(g2.drop_last() =~= gs.drop_last());
    } else {
        assert(g2.drop_last() =~= gs.drop_last().update(p, y));
        lemma_uninstall_groups_update(gs.drop_last(), p, y, cmd);
    }
}

/// Uninstalling commutes with replacing one member of the hooks object.
pub proof fn lemma_uninstall_members_update(
    h: Seq<(Seq<char>, JsonV)>,
    q: int,
    y: (Seq<char>, JsonV),
    cmd: Seq<char>,
)
    requires
        0 <= q < h.len(),
        uninstall_member(y, cmd) == uninstall_member(h[q], cmd),
    ensures
        uninstall_members(h.update(q, y), cmd) == uninstall_members(h, cmd),
    decreases h.len(),
{
    let h2 = h.update(q, y);
    if q == h.len() - 1 {
        assert(h2.drop_last() =~= h.drop_last());
    } else {
        assert(h2.drop_last() =~= h.drop_last().update(q, y));
        lemma_uninstall_members_update(h.drop_last(), q, y, cmd);
    }
}

/// The first group that matches every tool, if it is an object, has a `hooks` member:
/// the install then only appends to an existing entry list.
pub open spec fn install_ready(gs: Seq<JsonV>) -> bool {
    let p = first_open_group(gs);
    p < 0 || (gs[p] is Object && key_pos(gs[p]->Object_0, "hooks"@) >= 0)
}

/// The member for `name` is absent, or an array whose groups are ready.
pub open spec fn member_ready(h: Seq<(Seq<char>, JsonV)>, name: Seq<char>) -> bool {
    let q = key_pos(h, name);
    q < 0 || (h[q].1 is Array && install_ready(h[q].1->Array_0))
}

/// Uninstalling from a new group removes the group whole.
pub proof fn lemma_new_group_uninstalls(cmd: Seq<char>, t: u64)
    ensures
        uninstall_group(new_group(cmd, t), cmd) is None,
{
    lemma_new_group_facts(cmd, t);
    lemma_member_keys_distinct();
    let gm = seq![
        ("matcher"@, JsonV::Str(Seq::<char>::empty())),
        ("hooks"@, JsonV::Array(seq![hook_entry(cmd, t)])),
    ];
    lemma_key_pos_at(gm, "hooks"@, 1);
    let one = seq![hook_entry(cmd, t)];
    assert(one.drop_last() =~= Seq::<JsonV>::empty());
    assert(one.last() == hook_entry(cmd, t));
    assert(strip_entries(Seq::<JsonV>::empty(), cmd) == Seq::<JsonV>::empty());
    assert(entry_has_command(one.last(), cmd));
    assert(strip_entries(one, cmd) == strip_entries(one.drop_last(), cmd));
    assert(strip_entries(one, cmd) =~= Seq::<JsonV>::empty());
}

/// Uninstalling after installing into a ready group list gives what uninstalling alone gives.
pub proof fn lemma_uninstall_install_groups(gs: Seq<JsonV>, event: EventType, cmd: Seq<char>, t: u64)
    requires
        install_ready(gs),
        install_groups(gs, event, cmd, t) is Ok,
    ensures
        uninstall_groups(install_groups(gs, event, cmd, t)->Ok_0, cmd) == uninstall_groups(gs, cmd),
{
    lemma_first_open_group(gs);
    let p = first_open_group(gs);
    let g2 = install_groups(gs, event, cmd, t)->Ok_0;
    lemma_new_group_facts(cmd, t);
    if p < 0 {
        lemma_new_group_uninstalls(cmd, t);
        assert(g2.drop_last() =~= gs);
    } else {
        let gm = gs[p]->Object_0;
        let q = key_pos(gm, "hooks"@);
        lemma_key_pos(gm, "hooks"@);
        let hs = gm[q].1->Array_0;
        if !any_has_command(hs, cmd) {
            let e = hook_entry(cmd, t);
            let x = ("hooks"@, JsonV::Array(hs.push(e)));
            let gm2 = gm.update(q, x);
            let y = JsonV::Object(gm2);
            lemma_key_pos_same_keys(gm, gm2, "hooks"@);
            assert(hs.push(e).drop_last() =~= hs);
            assert(hs.push(e).last() == e);
            assert(strip_entries(hs.push(e), cmd) == strip_entries(hs, cmd));
            let kx = ("hooks"@, JsonV::Array(strip_entries(hs, cmd)));
            assert(gm2.update(q, kx) =~= gm.update(q, kx));
            lemma_uninstall_groups_update(gs, p, y, cmd);
        }
    }
}

/// Uninstalling undoes installing into one event of a restorable hooks object.
pub proof fn lemma_uninstall_install_event(h: Seq<(Seq<char>, JsonV)>, k: int, cmd: Seq<char>, t: u64)
    requires
        0 <= k < 25,
        member_ready(h, canonical_name(k)),
        install_event(h, event_at(k), cmd, t) is Ok,
    ensures
        uninstall_members(install_event(h, event_at(k), cmd, t)->Ok_0, cmd) == uninstall_members(h, cmd),
{
    let name = canonical_name(k);
    let e = event_at(k);
    let h2 = install_event(h, e, cmd, t)->Ok_0;
    let q = key_pos(h, name);
    lemma_key_pos(h, name);
    if q < 0 {
        lemma_new_group_uninstalls(cmd, t);
        let one = seq![new_group(cmd, t)];
        assert(one.drop_last() =~= Seq::<JsonV>::empty());
        assert(one.last() == new_group(cmd, t));
        assert(uninstall_groups(Seq::<JsonV>::empty(), cmd) == Seq::<JsonV>::empty());
        assert(uninstall_groups(one, cmd) == uninstall_groups(one.drop_last(), cmd));
        assert(uninstall_groups(one, cmd) =~= Seq::<JsonV>::empty());
        assert(h2.drop_last() =~= h);
    } else {
        let gs = h[q].1->Array_0;
        lemma_uninstall_install_groups(gs, e, cmd, t);
        let g2 = install_groups(gs, e, cmd, t)->Ok_0;
        lemma_uninstall_members_update(h, q, (name, JsonV::Array(g2)), cmd);
    }
}

/// Readiness of the events after `k` survives installing into event `k`.
pub proof fn lemma_ready_after_step(h: Seq<(Seq<char>, JsonV)>, k: int, j: int, cmd: Seq<char>, t: u64)
    requires
        0 <= k < j < 25,
        member_ready(h, canonical_name(j)),
        install_event(h, event_at(k), cmd, t) is Ok,
    ensures
        member_ready(install_event(h, event_at(k), cmd, t)->Ok_0, canonical_name(j)),
{
    let name = canonical_name(k);
    let other = canonical_name(j);
    lemma_canonical_distinct(k, j);
    let h2 = install_event(h, event_at(k), cmd, t)->Ok_0;
    let q = key_pos(h, name);
    lemma_key_pos(h, name);
    lemma_key_pos(h, other);
    if q < 0 {
        let x = (name, JsonV::Array(seq![new_group(cmd, t)]));
        lemma_key_pos_push(h, x, other);
        if key_pos(h, other) >= 0 {
            assert(h2[key_pos(h, other)] == h[key_pos(h, other)]);
        }
    } else {
        lemma_key_pos_same_keys(h, h2, other);
        if key_pos(h, other) >= 0 {
            assert(key_pos(h, other) != q);
        }
    }
}

/// Uninstalling undoes a run of installs over a restorable hooks object.
pub proof fn lemma_uninstall_install_run(h: Seq<(Seq<char>, JsonV)>, cmd: Seq<char>, t: u64, k: nat)
    requires
        k <= 25,
        forall|j: int| 0 <= j < 25 ==> member_ready(h, #[trigger] canonical_name(j)),
        install_run(h, cmd, t, k).1 is Ok,
    ensures
        uninstall_members(install_run(h, cmd, t, k).0, cmd) == uninstall_members(h, cmd),
        forall|j: int| k <= j < 25 ==> member_ready(install_run(h, cmd, t, k).0, #[trigger] canonical_name(j)),
    decreases k,
{
    if k > 0 {
        let prev = install_run(h, cmd, t, (k - 1) as nat);
        assert(prev.1 is Ok);
        lemma_uninstall_install_run(h, cmd, t, (k - 1) as nat);
        assert(member_ready(prev.0, canonical_name(k - 1)));
        lemma_uninstall_install_event(prev.0, k - 1, cmd, t);
        assert forall|j: int| k <= j < 25 implies member_ready(
            install_run(h, cmd, t, k).0,
            #[trigger] canonical_name(j),
        ) by {
            assert(member_ready(prev.0, canonical_name(j)));
            lemma_ready_after_step(prev.0, k - 1, j, cmd, t);
        }
    }
}

/// A group that uninstalling leaves as it is: no entry runs `cmd`, and its entry list,
/// when it has one, is not empty.
pub open spec fn group_clean(g: JsonV, cmd: Seq<char>) -> bool {
    match g {
        JsonV::Object(gm) => {
            let q = key_pos(gm, "hooks"@);
            q < 0 || match gm[q].1 {
                JsonV::Array(hs) => hs.len() > 0 && !any_has_command(hs, cmd),
                _ => true,
            }
        },
        _ => true,
    }
}

/// A non-empty group list whose groups uninstalling leaves as they are.
pub open spec fn groups_clean(gs: Seq<JsonV>, cmd: Seq<char>) -> bool {
    gs.len() > 0 && forall|i: int| 0 <= i < gs.len() ==> group_clean(#[trigger] gs[i], cmd)
}

/// A member of the hooks object that uninstalling leaves as it is.
pub open spec fn member_clean(m: (Seq<char>, JsonV), cmd: Seq<char>) -> bool {
    match m.1 {
        JsonV::Array(gs) => groups_clean(gs, cmd),
        _ => true,
    }
}

/// Uninstalling leaves a clean group list as it is.
pub proof fn lemma_clean_groups_unchanged(gs: Seq<JsonV>, cmd: Seq<char>)
    requires
        forall|i: int| 0 <= i < gs.len() ==> group_clean(#[trigger] gs[i], cmd),
    ensures
        uninstall_groups(gs, cmd) == gs,
    decreases gs.len(),
{
    if gs.len() > 0 {
        let d = gs.drop_last();
        assert forall|i: int| 0 <= i < d.len() implies group_clean(#[trigger] d[i], cmd) by {
            assert(d[i] == gs[i]);
        }
        lemma_clean_groups_unchanged(d, cmd);
        let g = gs.last();
        assert(group_clean(gs[gs.len() - 1], cmd));
        match g {
            JsonV::Object(gm) => {
                let q = key_pos(gm, "hooks"@);
                lemma_key_pos(gm, "hooks"@);
                if q >= 0 {
                    match gm[q].1 {
                        JsonV::Array(hs) => {
                            lemma_strip_entries(hs, cmd);
                            assert(gm.update(q, ("hooks"@, JsonV::Array(hs))) =~= gm);
                        },
                        _ => {},
                    }
                }
            },
            _ => {},
        }
        assert(d.push(g) =~= gs);
    }
}

/// Uninstalling leaves a hooks object of clean events as it is.
pub proof fn lemma_clean_members_unchanged(h: Seq<(Seq<char>, JsonV)>, cmd: Seq<char>)
    requires
        forall|j: int| 0 <= j < h.len() ==> member_clean(#[trigger] h[j], cmd),
    ensures
        uninstall_members(h, cmd) == h,
    decreases h.len(),
{
    if h.len() > 0 {
        let d = h.drop_last();
        assert forall|j: int| 0 <= j < d.len() implies member_clean(#[trigger] d[j], cmd) by {
            assert(d[j] == h[j]);
        }
        lemma_clean_members_unchanged(d, cmd);
        let m = h.last();
        assert(member_clean(h[h.len() - 1], cmd));
        match m.1 {
            JsonV::Array(gs) => {
                lemma_clean_groups_unchanged(gs, cmd);
            },
            _ => {},
        }
        assert(d.push(m) =~= h);
    }
}

/// A document that uninstalling restores after an install: `hooks`, when present, is a
/// non-empty object whose members uninstalling leaves as they are, and whose canonical
/// events are absent or have a ready group list.
pub open spec fn uninstall_restorable(v: JsonV, cmd: Seq<char>) -> bool {
    &&& v is Object
    &&& {
        let root = v->Object_0;
        let q = key_pos(root, "hooks"@);
        q < 0 || (root[q].1 is Object && hooks_restorable(root[q].1->Object_0, cmd))
    }
}

/// A hooks object that uninstalling restores after an install (see `uninstall_restorable`).
pub open spec fn hooks_restorable(h: Seq<(Seq<char>, JsonV)>, cmd: Seq<char>) -> bool {
    &&& h.len() > 0
    &&& forall|j: int| 0 <= j < h.len() ==> member_clean(#[trigger] h[j], cmd)
    &&& forall|i: int| 0 <= i < 25 ==> member_ready(h, #[trigger] canonical_name(i))
}

/// Uninstalling after a successful install gives back the document as it was, for every
/// document that held no entry running the command and nothing that uninstalling prunes.
pub proof fn law_uninstall_undoes_install(v: JsonV, cmd: Seq<char>, t: u64)
    requires
        uninstall_restorable(v, cmd),
        install_outcome(v, cmd, t).1 is Ok,
    ensures
        uninstall_outcome(install_outcome(v, cmd, t).0, cmd).0 == v,
{
    let root = v->Object_0;
    let q = key_pos(root, "hooks"@);
    lemma_key_pos(root, "hooks"@);
    if q < 0 {
        let h = Seq::<(Seq<char>, JsonV)>::empty();
        let run = install_run(h, cmd, t, 25);
        assert forall|j: int| 0 <= j < 25 implies member_ready(h, #[trigger] canonical_name(j)) by {
            lemma_key_pos(h, canonical_name(j));
        }
        lemma_uninstall_install_run(h, cmd, t, 25);
        let x = ("hooks"@, JsonV::Object(run.0));
        lemma_key_pos_push(root, x, "hooks"@);
        assert(root.push(x).remove(root.len() as int) =~= root);
    } else {
        let h = root[q].1->Object_0;
        let run = install_run(h, cmd, t, 25);
        lemma_uninstall_install_run(h, cmd, t, 25);
        lemma_clean_members_unchanged(h, cmd);
        let x = ("hooks"@, JsonV::Object(run.0));
        let root2 = root.update(q, x);
        lemma_key_pos_same_keys(root, root2, "hooks"@);
        let y = ("hooks"@, JsonV::Object(h));
        assert(root2.update(q, y) =~= root);
    }
}

/// The hook entries of group `a` are the first entries of group `b`.
pub open spec fn group_kept(a: JsonV, b: JsonV) -> bool {
    match member(a, "hooks"@) {
        Some(JsonV::Array(hs)) => match member(b, "hooks"@) {
            Some(JsonV::Array(hs2)) => hs.len() <= hs2.len() && forall|j: int|
                0 <= j < hs.len() ==> #[trigger] hs2[j] == hs[j],
            _ => false,
        },
        _ => true,
    }
}

/// Each group of `gs` keeps its entries in the group at the same place of `gs2`.
pub open spec fn groups_kept(gs: Seq<JsonV>, gs2: Seq<JsonV>) -> bool {
    gs.len() <= gs2.len() && forall|i: int| 0 <= i < gs.len() ==> #[trigger] group_kept(gs[i], gs2[i])
}

/// An event's group list keeps its entries in `b`.
pub open spec fn event_kept(a: JsonV, b: JsonV) -> bool {
    match a {
        JsonV::Array(gs) => match b {
            JsonV::Array(gs2) => groups_kept(gs, gs2),
            _ => false,
        },
        _ => true,
    }
}

/// Every event of the hooks object `h` keeps its entries in `h2`.
pub open spec fn members_kept(h: Seq<(Seq<char>, JsonV)>, h2: Seq<(Seq<char>, JsonV)>) -> bool {
    forall|k: Seq<char>| #[trigger] member(JsonV::Object(h), k) is Some ==> member(JsonV::Object(h2), k) is Some
        && event_kept(member(JsonV::Object(h), k)->0, member(JsonV::Object(h2), k)->0)
}

/// Every hook entry of the settings document `v` is in `v2`, at the same place: same event,
/// same matcher group, same position in the group.
pub open spec fn entries_kept(v: JsonV, v2: JsonV) -> bool {
    match member(v, "hooks"@) {
        Some(JsonV::Object(h)) => match member(v2, "hooks"@) {
            Some(JsonV::Object(h2)) => members_kept(h, h2),
            _ => false,
        },
        _ => true,
    }
}

proof fn lemma_group_kept_refl(g: JsonV)
    ensures
        group_kept(g, g),
{
}

proof fn lemma_groups_kept_refl(gs: Seq<JsonV>)
    ensures
        groups_kept(gs, gs),
{
    assert forall|i: int| 0 <= i < gs.len() implies #[trigger] group_kept(gs[i], gs[i]) by {
        lemma_group_kept_refl(gs[i]);
    }
}

proof fn lemma_event_kept_refl(a: JsonV)
    ensures
        event_kept(a, a),
{
    if a is Array {
        lemma_groups_kept_refl(a->Array_0);
    }
}

proof fn lemma_members_kept_refl(h: Seq<(Seq<char>, JsonV)>)
    ensures
        members_kept(h, h),
{
    assert forall|k: Seq<char>| #[trigger] member(JsonV::Object(h), k) is Some implies member(
        JsonV::Object(h),
        k,
    ) is Some && event_kept(member(JsonV::Object(h), k)->0, member(JsonV::Object(h), k)->0) by {
        lemma_event_kept_refl(member(JsonV::Object(h), k)->0);
    }
}

proof fn lemma_group_kept_trans(a: JsonV, b: JsonV, c: JsonV)
    requires
        group_kept(a, b),
        group_kept(b, c),
    ensures
        group_kept(a, c),
{
    if member(a, "hooks"@) is Some && member(a, "hooks"@)->0 is Array {
        let hs = member(a, "hooks"@)->0->Array_0;
        let hs2 = member(b, "hooks"@)->0->Array_0;
        let hs3 = member(c, "hooks"@)->0->Array_0;
        assert forall|j: int| 0 <= j < hs.len() implies #[trigger] hs3[j] == hs[j] by {
            assert(hs2[j] == hs[j]);
        }
    }
}

proof fn lemma_event_kept_trans(a: JsonV, b: JsonV, c: JsonV)
    requires
        event_kept(a, b),
        event_kept(b, c),
    ensures
        event_kept(a, c),
{
    if let JsonV::Array(gs) = a {
        let gs2 = b->Array_0;
        let gs3 = c->Array_0;
        assert forall|i: int| 0 <= i < gs.len() implies #[trigger] group_kept(gs[i], gs3[i]) by {
            assert(group_kept(gs[i], gs2[i]));
            assert(group_kept(gs2[i], gs3[i]));
            lemma_group_kept_trans(gs[i], gs2[i], gs3[i]);
        }
    }
}

proof fn lemma_members_kept_trans(a: Seq<(Seq<char>, JsonV)>, b: Seq<(Seq<char>, JsonV)>, c: Seq<(Seq<char>, JsonV)>)
    requires
        members_kept(a, b),
        members_kept(b, c),
    ensures
        members_kept(a, c),
{
    assert forall|k: Seq<char>| #[trigger] member(JsonV::Object(a), k) is Some implies member(
        JsonV::Object(c),
        k,
    ) is Some && event_kept(member(JsonV::Object(a), k)->0, member(JsonV::Object(c), k)->0) by {
        assert(member(JsonV::Object(b), k) is Some);
        lemma_event_kept_trans(
            member(JsonV::Object(a), k)->0,
            member(JsonV::Object(b), k)->0,
            member(JsonV::Object(c), k)->0,
        );
    }
}

proof fn lemma_install_groups_keeps(gs: Seq<JsonV>, event: EventType, cmd: Seq<char>, t: u64)
    requires
        install_groups(gs, event, cmd, t) is Ok,
    ensures
        groups_kept(gs, install_groups(gs, event, cmd, t)->Ok_0),
{
    let g2 = install_groups(gs, event, cmd, t)->Ok_0;
    let p = first_open_group(gs);
    lemma_first_open_group(gs);
    assert forall|i: int| 0 <= i < gs.len() implies #[trigger] group_kept(gs[i], g2[i]) by {
        if i != p || g2[i] == gs[i] {
            lemma_group_kept_refl(gs[i]);
        } else {
            let gm = gs[p]->Object_0;
            let q = key_pos(gm, "hooks"@);
            lemma_key_pos(gm, "hooks"@);
            if q < 0 {
                assert(member(gs[i], "hooks"@) is None);
            } else {
                let hs = gm[q].1->Array_0;
                let x = ("hooks"@, JsonV::Array(hs.push(hook_entry(cmd, t))));
                let gm2 = gm.update(q, x);
                lemma_key_pos_same_keys(gm, gm2, "hooks"@);
                assert(member(g2[i], "hooks"@) == Some(JsonV::Array(hs.push(hook_entry(cmd, t)))));
            }
        }
    }
}

proof fn lemma_install_event_keeps(h: Seq<(Seq<char>, JsonV)>, event: EventType, cmd: Seq<char>, t: u64)
    requires
        install_event(h, event, cmd, t) is Ok,
    ensures
        members_kept(h, install_event(h, event, cmd, t)->Ok_0),
{
    let h2 = install_event(h, event, cmd, t)->Ok_0;
    let name = event_type_name(event);
    let q = key_pos(h, name);
    lemma_key_pos(h, name);
    assert forall|k: Seq<char>| #[trigger] member(JsonV::Object(h), k) is Some implies member(
        JsonV::Object(h2),
        k,
    ) is Some && event_kept(member(JsonV::Object(h), k)->0, member(JsonV::Object(h2), k)->0) by {
        lemma_key_pos(h, k);
        if q < 0 {
            let x = (name, JsonV::Array(seq![new_group(cmd, t)]));
            lemma_key_pos_push(h, x, k);
            assert(h2[key_pos(h, k)] == h[key_pos(h, k)]);
            lemma_event_kept_refl(member(JsonV::Object(h), k)->0);
        } else {
            let gs = h[q].1->Array_0;
            let g2 = install_groups(gs, event, cmd, t)->Ok_0;
            lemma_key_pos_same_keys(h, h2, k);
            if key_pos(h, k) == q {
                lemma_install_groups_keeps(gs, event, cmd, t);
            } else {
                assert(h2[key_pos(h, k)] == h[key_pos(h, k)]);
                lemma_event_kept_refl(member(JsonV::Object(h), k)->0);
            }
        }
    }
}

proof fn lemma_install_run_keeps(h: Seq<(Seq<char>, JsonV)>, cmd: Seq<char>, t: u64, k: nat)
    ensures
        members_kept(h, install_run(h, cmd, t, k).0),
    decreases k,
{
    if k == 0 {
        lemma_members_kept_refl(h);
    } else {
        lemma_install_run_keeps(h, cmd, t, (k - 1) as nat);
        let prev = install_run(h, cmd, t, (k - 1) as nat);
        if prev.1 is Ok {
            if install_event(prev.0, event_at(k - 1), cmd, t) is Ok {
                lemma_install_event_keeps(prev.0, event_at(k - 1), cmd, t);
                lemma_members_kept_trans(h, prev.0, install_run(h, cmd, t, k).0);
            }
        }
    }
}

/// Installing only appends: every hook entry of the document, the wrapper's or another
/// tool's, is still there afterwards, in the same event and matcher group and at the same
/// position, whether or not the install succeeded.
pub proof fn law_install_keeps_entries(v: JsonV, cmd: Seq<char>, t: u64)
    ensures
        entries_kept(v, install_outcome(v, cmd, t).0),
{
    if let JsonV::Object(root) = v {
        let q = key_pos(root, "hooks"@);
        lemma_key_pos(root, "hooks"@);
        if q >= 0 {
            if let JsonV::Object(h) = root[q].1 {
                let run = install_run(h, cmd, t, 25);
                let x = ("hooks"@, JsonV::Object(run.0));
                lemma_key_pos_same_keys(root, root.update(q, x), "hooks"@);
                lemma_install_run_keeps(h, cmd, t, 25);
            }
        }
    }
}

/// A group left by uninstalling is one that uninstalling leaves as it is.
proof fn lemma_uninstalled_group_clean(g: JsonV, cmd: Seq<char>)
    requires
        uninstall_group(g, cmd) is Some,
    ensures
        group_clean(uninstall_group(g, cmd)->Some_0, cmd),
{
    if let JsonV::Object(gm) = g {
        let q = key_pos(gm, "hooks"@);
        lemma_key_pos(gm, "hooks"@);
        if q >= 0 {
            if let JsonV::Array(hs) = gm[q].1 {
                let kept = strip_entries(hs, cmd);
                lemma_strip_entries(hs, cmd);
                let x = ("hooks"@, JsonV::Array(kept));
                lemma_key_pos_same_keys(gm, gm.update(q, x), "hooks"@);
            }
        }
    }
}

/// Every group left by uninstalling is one that uninstalling leaves as it is.
proof fn lemma_uninstalled_groups_clean(gs: Seq<JsonV>, cmd: Seq<char>)
    ensures
        forall|j: int|
            0 <= j < uninstall_groups(gs, cmd).len() ==> group_clean(
                #[trigger] uninstall_groups(gs, cmd)[j],
                cmd,
            ),
    decreases gs.len(),
{
    if gs.len() > 0 {
        let d = gs.drop_last();
        lemma_uninstalled_groups_clean(d, cmd);
        let r = uninstall_groups(d, cmd);
        if let Some(g) = uninstall_group(gs.last(), cmd) {
            lemma_uninstalled_group_clean(gs.last(), cmd);
            assert forall|j: int| 0 <= j < r.push(g).len() implies group_clean(
                #[trigger] r.push(g)[j],
                cmd,
            ) by {
                if j < r.len() {
                    assert(r.push(g)[j] == r[j]);
                }
            }
        }
    }
}

/// Every event left by uninstalling is one that uninstalling leaves as it is.
proof fn lemma_uninstalled_members_clean(h: Seq<(Seq<char>, JsonV)>, cmd: Seq<char>)
    ensures
        forall|j: int|
            0 <= j < uninstall_members(h, cmd).len() ==> member_clean(
                #[trigger] uninstall_members(h, cmd)[j],
                cmd,
            ),
    decreases h.len(),
{
    if h.len() > 0 {
        let d = h.drop_last();
        lemma_uninstalled_members_clean(d, cmd);
        let r = uninstall_members(d, cmd);
        if let Some(m) = uninstall_member(h.last(), cmd) {
            if let JsonV::Array(gs) = h.last().1 {
                lemma_uninstalled_groups_clean(gs, cmd);
            }
            assert forall|j: int| 0 <= j < r.push(m).len() implies member_clean(
                #[trigger] r.push(m)[j],
                cmd,
            ) by {
                if j < r.len() {
                    assert(r.push(m)[j] == r[j]);
                }
            }
        }
    }
}

/// Uninstalling removes nothing from groups that it leaves as they are.
proof fn lemma_clean_groups_remove_nothing(gs: Seq<JsonV>, cmd: Seq<char>)
    requires
        forall|i: int| 0 <= i < gs.len() ==> group_clean(#[trigger] gs[i], cmd),
    ensures
        removed_in_groups(gs, cmd) == 0,
    decreases gs.len(),
{
    if gs.len() > 0 {
        let d = gs.drop_last();
        assert forall|i: int| 0 <= i < d.len() implies group_clean(#[trigger] d[i], cmd) by {
            assert(d[i] == gs[i]);
        }
        lemma_clean_groups_remove_nothing(d, cmd);
        let g = gs.last();
        assert(group_clean(gs[gs.len() - 1], cmd));
        if let JsonV::Object(gm) = g {
            let q = key_pos(gm, "hooks"@);
            if q >= 0 {
                if let JsonV::Array(hs) = gm[q].1 {
                    lemma_strip_entries(hs, cmd);
                }
            }
        }
    }
}

/// Uninstalling removes nothing from events that it leaves as they are.
proof fn lemma_clean_members_remove_nothing(h: Seq<(Seq<char>, JsonV)>, cmd: Seq<char>)
    requires
        forall|j: int| 0 <= j < h.len() ==> member_clean(#[trigger] h[j], cmd),
    ensures
        removed_in_members(h, cmd) == 0,
    decreases h.len(),
{
    if h.len() > 0 {
        let d = h.drop_last();
        assert forall|j: int| 0 <= j < d.len() implies member_clean(#[trigger] d[j], cmd) by {
            assert(d[j] == h[j]);
        }
        lemma_clean_members_remove_nothing(d, cmd);
        assert(member_clean(h[h.len() - 1], cmd));
        if let JsonV::Array(gs) = h.last().1 {
            lemma_clean_groups_remove_nothing(gs, cmd);
        }
    }
}

/// Uninstalling twice is uninstalling once: the second pass removes nothing and changes
/// nothing, for every document whose objects have distinct keys.
pub proof fn law_uninstall_idempotent(v: JsonV, cmd: Seq<char>)
    requires
        v is Object ==> keys_unique(v->Object_0),
    ensures
        uninstall_outcome(uninstall_outcome(v, cmd).0, cmd) == (uninstall_outcome(v, cmd).0, 0nat),
{
    if let JsonV::Object(root) = v {
        let q = key_pos(root, "hooks"@);
        lemma_key_pos(root, "hooks"@);
        if q >= 0 {
            if let JsonV::Object(h) = root[q].1 {
                let h2 = uninstall_members(h, cmd);
                lemma_uninstalled_members_clean(h, cmd);
                if h2.len() == 0 {
                    let r2 = root.remove(q);
                    lemma_key_pos(r2, "hooks"@);
                    if key_pos(r2, "hooks"@) >= 0 {
                        let k = key_pos(r2, "hooks"@);
                        if k < q {
                            assert(r2[k] == root[k]);
                        } else {
                            assert(r2[k] == root[k + 1]);
                        }
                    }
                } else {
                    let x = ("hooks"@, JsonV::Object(h2));
                    let root2 = root.update(q, x);
                    lemma_key_pos_same_keys(root, root2, "hooks"@);
                    lemma_clean_members_unchanged(h2, cmd);
                    lemma_clean_members_remove_nothing(h2, cmd);
                    assert(root2.update(q, x) =~= root2);
                }
            }
        }
    }
}

/// How many entries of `hs` run `cmd`.
pub open spec fn command_count(hs: Seq<JsonV>, cmd: Seq<char>) -> nat
    decreases hs.len(),
{
    if hs.len() == 0 {
        0
    } else {
        command_count(hs.drop_last(), cmd) + if entry_has_command(hs.last(), cmd) {
            1nat
        } else {
            0nat
        }
    }
}

/// How many entries of a matcher group's `hooks` array run `cmd`.
pub open spec fn group_command_count(g: JsonV, cmd: Seq<char>) -> nat {
    match member(g, "hooks"@) {
        Some(JsonV::Array(hs)) => command_count(hs, cmd),
        _ => 0,
    }
}

/// How many entries of the groups in `gs` run `cmd`.
pub open spec fn groups_command_count(gs: Seq<JsonV>, cmd: Seq<char>) -> nat
    decreases gs.len(),
{
    if gs.len() == 0 {
        0
    } else {
        groups_command_count(gs.drop_last(), cmd) + group_command_count(gs.last(), cmd)
    }
}

/// How many entries of the events of a hooks object run `cmd`; events that are not arrays
/// hold none.
pub open spec fn events_command_count(h: Seq<(Seq<char>, JsonV)>, cmd: Seq<char>) -> nat
    decreases h.len(),
{
    if h.len() == 0 {
        0
    } else {
        events_command_count(h.drop_last(), cmd) + match h.last().1 {
            JsonV::Array(gs) => groups_command_count(gs, cmd),
            _ => 0,
        }
    }
}

/// How many hook entries of the settings document run `cmd`: those in the `hooks` arrays
/// of the matcher groups of the events of its `hooks` object.
pub open spec fn document_command_count(v: JsonV, cmd: Seq<char>) -> nat {
    match member(v, "hooks"@) {
        Some(JsonV::Object(h)) => events_command_count(h, cmd),
        _ => 0,
    }
}

proof fn lemma_strip_count(hs: Seq<JsonV>, cmd: Seq<char>)
    ensures
        hs.len() - strip_entries(hs, cmd).len() == command_count(hs, cmd),
    decreases hs.len(),
{
    if hs.len() > 0 {
        lemma_strip_count(hs.drop_last(), cmd);
    }
}

proof fn lemma_removed_in_groups_count(gs: Seq<JsonV>, cmd: Seq<char>)
    ensures
        removed_in_groups(gs, cmd) == groups_command_count(gs, cmd),
    decreases gs.len(),
{
    if gs.len() > 0 {
        lemma_removed_in_groups_count(gs.drop_last(), cmd);
        let g = gs.last();
        if let JsonV::Object(gm) = g {
            lemma_key_pos(gm, "hooks"@);
            let q = key_pos(gm, "hooks"@);
            if q >= 0 {
                if let JsonV::Array(hs) = gm[q].1 {
                    lemma_strip_count(hs, cmd);
                }
            }
        }
    }
}

proof fn lemma_removed_in_members_count(h: Seq<(Seq<char>, JsonV)>, cmd: Seq<char>)
    ensures
        removed_in_members(h, cmd) == events_command_count(h, cmd),
    decreases h.len(),
{
    if h.len() > 0 {
        lemma_removed_in_members_count(h.drop_last(), cmd);
        if let JsonV::Array(gs) = h.last().1 {
            lemma_removed_in_groups_count(gs, cmd);
        }
    }
}

/// Uninstalling reports exactly how many hook entries of the document ran the command.
pub proof fn law_uninstall_counts_removed_entries(v: JsonV, cmd: Seq<char>)
    ensures
        uninstall_outcome(v, cmd).1 == document_command_count(v, cmd),
{
    if let JsonV::Object(root) = v {
        lemma_key_pos(root, "hooks"@);
        let q = key_pos(root, "hooks"@);
        if q >= 0 {
            if let JsonV::Object(h) = root[q].1 {
                lemma_removed_in_members_count(h, cmd);
            }
        }
    }
}

/// The entries of a matcher group's `hooks` array (none when it has no such array).
pub open spec fn group_entries(g: JsonV) -> Seq<JsonV> {
    match member(g, "hooks"@) {
        Some(JsonV::Array(hs)) => hs,
        _ => Seq::empty(),
    }
}

/// The entries of the groups in `gs`, group after group.
pub open spec fn groups_entries(gs: Seq<JsonV>) -> Seq<JsonV>
    decreases gs.len(),
{
    if gs.len() == 0 {
        Seq::empty()
    } else {
        groups_entries(gs.drop_last()) + group_entries(gs.last())
    }
}

/// The entries of the events of a hooks object, event after event; events that are not
/// arrays hold none.
pub open spec fn events_entries(h: Seq<(Seq<char>, JsonV)>) -> Seq<JsonV>
    decreases h.len(),
{
    if h.len() == 0 {
        Seq::empty()
    } else {
        events_entries(h.drop_last()) + event_entries(h.last().1)
    }
}

/// The entries of one event's group list (none when it is not an array).
pub open spec fn event_entries(x: JsonV) -> Seq<JsonV> {
    match x {
        JsonV::Array(gs) => groups_entries(gs),
        _ => Seq::empty(),
    }
}

/// Every hook entry of the settings document, in document order.
pub open spec fn document_entries(v: JsonV) -> Seq<JsonV> {
    match member(v, "hooks"@) {
        Some(JsonV::Object(h)) => events_entries(h),
        _ => Seq::empty(),
    }
}

proof fn lemma_strip_concat(a: Seq<JsonV>, b: Seq<JsonV>, cmd: Seq<char>)
    ensures
        strip_entries(a + b, cmd) == strip_entries(a, cmd) + strip_entries(b, cmd),
    decreases b.len(),
{
    if b.len() == 0 {
        assert(a + b =~= a);
        assert(strip_entries(a, cmd) + strip_entries(b, cmd) =~= strip_entries(a, cmd));
    } else {
        let d = b.drop_last();
        lemma_strip_concat(a, d, cmd);
        assert((a + b).drop_last() =~= a + d);
        assert((a + b).last() == b.last());
        let sa = strip_entries(a, cmd);
        let sd = strip_entries(d, cmd);
        if !entry_has_command(b.last(), cmd) {
            assert((sa + sd).push(b.last()) =~= sa + sd.push(b.last()));
        }
    }
}

proof fn lemma_uninstall_group_entries(g: JsonV, cmd: Seq<char>)
    ensures
        match uninstall_group(g, cmd) {
            Some(g2) => group_entries(g2) == strip_entries(group_entries(g), cmd),
            None => strip_entries(group_entries(g), cmd).len() == 0,
        },
{
    if let JsonV::Object(gm) = g {
        let q = key_pos(gm, "hooks"@);
        lemma_key_pos(gm, "hooks"@);
        if q >= 0 {
            if let JsonV::Array(hs) = gm[q].1 {
                let x = ("hooks"@, JsonV::Array(strip_entries(hs, cmd)));
                lemma_key_pos_same_keys(gm, gm.update(q, x), "hooks"@);
            } else {
                assert(strip_entries(Seq::<JsonV>::empty(), cmd).len() == 0);
            }
        } else {
            assert(strip_entries(Seq::<JsonV>::empty(), cmd).len() == 0);
        }
    } else {
        assert(strip_entries(Seq::<JsonV>::empty(), cmd).len() == 0);
    }
}

proof fn lemma_uninstall_groups_entries(gs: Seq<JsonV>, cmd: Seq<char>)
    ensures
        groups_entries(uninstall_groups(gs, cmd)) == strip_entries(groups_entries(gs), cmd),
    decreases gs.len(),
{
    if gs.len() > 0 {
        let d = gs.drop_last();
        lemma_uninstall_groups_entries(d, cmd);
        lemma_uninstall_group_entries(gs.last(), cmd);
        lemma_strip_concat(groups_entries(d), group_entries(gs.last()), cmd);
        let r = uninstall_groups(d, cmd);
        match uninstall_group(gs.last(), cmd) {
            Some(g2) => {
                assert(r.push(g2).drop_last() =~= r);
            },
            None => {
                let e = strip_entries(group_entries(gs.last()), cmd);
                assert(e =~= Seq::<JsonV>::empty());
                assert(strip_entries(groups_entries(d), cmd) + e =~= strip_entries(groups_entries(d), cmd));
            },
        }
    } else {
        assert(strip_entries(Seq::<JsonV>::empty(), cmd) =~= Seq::<JsonV>::empty());
    }
}

proof fn lemma_uninstall_members_entries(h: Seq<(Seq<char>, JsonV)>, cmd: Seq<char>)
    ensures
        events_entries(uninstall_members(h, cmd)) == strip_entries(events_entries(h), cmd),
    decreases h.len(),
{
    if h.len() > 0 {
        let d = h.drop_last();
        lemma_uninstall_members_entries(d, cmd);
        let m = h.last();
        let own = event_entries(m.1);
        lemma_strip_concat(events_entries(d), own, cmd);
        let r = uninstall_members(d, cmd);
        match m.1 {
            JsonV::Array(gs) => {
                lemma_uninstall_groups_entries(gs, cmd);
                let g2 = uninstall_groups(gs, cmd);
                if g2.len() == 0 {
                    assert(groups_entries(g2) =~= Seq::<JsonV>::empty());
                    assert(strip_entries(events_entries(d), cmd) + strip_entries(own, cmd)
                        =~= strip_entries(events_entries(d), cmd));
                } else {
                    let m2 = (m.0, JsonV::Array(g2));
                    assert(r.push(m2).drop_last() =~= r);
                }
            },
            _ => {
                assert(r.push(m).drop_last() =~= r);
                assert(strip_entries(own, cmd) =~= Seq::<JsonV>::empty());
                assert(strip_entries(events_entries(d), cmd) + strip_entries(own, cmd)
                    =~= strip_entries(events_entries(d), cmd));
            },
        }
    } else {
        assert(strip_entries(Seq::<JsonV>::empty(), cmd) =~= Seq::<JsonV>::empty());
    }
}

/// Uninstalling takes out exactly the entries that run the command: the hook entries left,
/// read in document order, are the ones before with those entries removed. Every other
/// entry stays, in its order. Stated for documents whose objects have distinct keys.
pub proof fn law_uninstall_keeps_other_entries(v: JsonV, cmd: Seq<char>)
    requires
        v is Object ==> keys_unique(v->Object_0),
    ensures
        document_entries(uninstall_outcome(v, cmd).0) == strip_entries(document_entries(v), cmd),
{
    let empty = Seq::<JsonV>::empty();
    assert(strip_entries(empty, cmd) =~= empty);
    if let JsonV::Object(root) = v {
        let q = key_pos(root, "hooks"@);
        lemma_key_pos(root, "hooks"@);
        if q >= 0 {
            if let JsonV::Object(h) = root[q].1 {
                let h2 = uninstall_members(h, cmd);
                lemma_uninstall_members_entries(h, cmd);
                if h2.len() == 0 {
                    let r2 = root.remove(q);
                    lemma_key_pos(r2, "hooks"@);
                    if key_pos(r2, "hooks"@) >= 0 {
                        let k = key_pos(r2, "hooks"@);
                        if k < q {
                            assert(r2[k] == root[k]);
                        } else {
                            assert(r2[k] == root[k + 1]);
                        }
                    }
                    assert(events_entries(h2) =~= empty);
                } else {
                    let x = ("hooks"@, JsonV::Object(h2));
                    lemma_key_pos_same_keys(root, root.update(q, x), "hooks"@);
                }
            }
        }
    }
}

/// `a` and `b` hold the same entries apart from ones that run `cmd`.
pub open spec fn same_but_cmd(a: Seq<JsonV>, b: Seq<JsonV>, cmd: Seq<char>) -> bool {
    strip_entries(a, cmd) == strip_entries(b, cmd)
}

proof fn lemma_strip_new_entry(a: Seq<JsonV>, cmd: Seq<char>, t: u64)
    ensures
        strip_entries(a.push(hook_entry(cmd, t)), cmd) == strip_entries(a, cmd),
        strip_entries(seq![hook_entry(cmd, t)], cmd) == Seq::<JsonV>::empty(),
{
    lemma_new_group_facts(cmd, t);
    assert(a.push(hook_entry(cmd, t)).drop_last() =~= a);
    let one = seq![hook_entry(cmd, t)];
    assert(one.drop_last() =~= Seq::<JsonV>::empty());
    assert(one.last() == hook_entry(cmd, t));
    assert(strip_entries(Seq::<JsonV>::empty(), cmd) =~= Seq::<JsonV>::empty());
}

proof fn lemma_groups_update_strip(gs: Seq<JsonV>, p: int, y: JsonV, cmd: Seq<char>)
    requires
        0 <= p < gs.len(),
        same_but_cmd(group_entries(y), group_entries(gs[p]), cmd),
    ensures
        same_but_cmd(groups_entries(gs.update(p, y)), groups_entries(gs), cmd),
    decreases gs.len(),
{
    let u = gs.update(p, y);
    let d = gs.drop_last();
    assert(u.drop_last() =~= if p == gs.len() - 1 { d } else { d.update(p, y) });
    lemma_strip_concat(groups_entries(u.drop_last()), group_entries(u.last()), cmd);
    lemma_strip_concat(groups_entries(d), group_entries(gs.last()), cmd);
    if p < gs.len() - 1 {
        lemma_groups_update_strip(d, p, y, cmd);
    }
}

proof fn lemma_events_update_strip(h: Seq<(Seq<char>, JsonV)>, q: int, y: (Seq<char>, JsonV), cmd: Seq<char>)
    requires
        0 <= q < h.len(),
        same_but_cmd(event_entries(y.1), event_entries(h[q].1), cmd),
    ensures
        same_but_cmd(events_entries(h.update(q, y)), events_entries(h), cmd),
    decreases h.len(),
{
    let u = h.update(q, y);
    let d = h.drop_last();
    assert(u.drop_last() =~= if q == h.len() - 1 { d } else { d.update(q, y) });
    lemma_strip_concat(events_entries(u.drop_last()), event_entries(u.last().1), cmd);
    lemma_strip_concat(events_entries(d), event_entries(h.last().1), cmd);
    if q < h.len() - 1 {
        lemma_events_update_strip(d, q, y, cmd);
    }
}

proof fn lemma_install_groups_strip(gs: Seq<JsonV>, event: EventType, cmd: Seq<char>, t: u64)
    requires
        install_groups(gs, event, cmd, t) is Ok,
    ensures
        same_but_cmd(groups_entries(install_groups(gs, event, cmd, t)->Ok_0), groups_entries(gs), cmd),
{
    let g2 = install_groups(gs, event, cmd, t)->Ok_0;
    let p = first_open_group(gs);
    lemma_first_open_group(gs);
    lemma_new_group_facts(cmd, t);
    lemma_strip_new_entry(Seq::<JsonV>::empty(), cmd, t);
    if p < 0 {
        let ng = new_group(cmd, t);
        assert(gs.push(ng).drop_last() =~= gs);
        lemma_strip_concat(groups_entries(gs), group_entries(ng), cmd);
        assert(strip_entries(groups_entries(gs), cmd) + Seq::<JsonV>::empty() =~= strip_entries(
            groups_entries(gs),
            cmd,
        ));
    } else if g2 != gs {
        let gm = gs[p]->Object_0;
        let q = key_pos(gm, "hooks"@);
        lemma_key_pos(gm, "hooks"@);
        if q < 0 {
            let x = ("hooks"@, JsonV::Array(seq![hook_entry(cmd, t)]));
            lemma_key_pos_push(gm, x, "hooks"@);
            assert(strip_entries(Seq::<JsonV>::empty(), cmd) =~= Seq::<JsonV>::empty());
            lemma_groups_update_strip(gs, p, JsonV::Object(gm.push(x)), cmd);
        } else {
            let hs = gm[q].1->Array_0;
            let x = ("hooks"@, JsonV::Array(hs.push(hook_entry(cmd, t))));
            lemma_key_pos_same_keys(gm, gm.update(q, x), "hooks"@);
            lemma_strip_new_entry(hs, cmd, t);
            lemma_groups_update_strip(gs, p, JsonV::Object(gm.update(q, x)), cmd);
        }
    }
}

proof fn lemma_install_event_strip(h: Seq<(Seq<char>, JsonV)>, event: EventType, cmd: Seq<char>, t: u64)
    requires
        install_event(h, event, cmd, t) is Ok,
    ensures
        same_but_cmd(events_entries(install_event(h, event, cmd, t)->Ok_0), events_entries(h), cmd),
{
    let name = event_type_name(event);
    let q = key_pos(h, name);
    lemma_key_pos(h, name);
    if q < 0 {
        let ng = new_group(cmd, t);
        let x = (name, JsonV::Array(seq![ng]));
        assert(h.push(x).drop_last() =~= h);
        let one = seq![ng];
        assert(one.drop_last() =~= Seq::<JsonV>::empty());
        lemma_new_group_facts(cmd, t);
        lemma_strip_new_entry(Seq::<JsonV>::empty(), cmd, t);
        assert(one.last() == ng);
        assert(group_entries(ng) == seq![hook_entry(cmd, t)]);
        assert(groups_entries(one.drop_last()) =~= Seq::<JsonV>::empty());
        assert(Seq::<JsonV>::empty() + seq![hook_entry(cmd, t)] =~= seq![hook_entry(cmd, t)]);
        assert(groups_entries(one) =~= seq![hook_entry(cmd, t)]);
        lemma_strip_concat(events_entries(h), event_entries(x.1), cmd);
        assert(strip_entries(events_entries(h), cmd) + Seq::<JsonV>::empty() =~= strip_entries(
            events_entries(h),
            cmd,
        ));
    } else {
        let gs = h[q].1->Array_0;
        lemma_install_groups_strip(gs, event, cmd, t);
        let g2 = install_groups(gs, event, cmd, t)->Ok_0;
        lemma_events_update_strip(h, q, (name, JsonV::Array(g2)), cmd);
    }
}

proof fn lemma_install_run_strip(h: Seq<(Seq<char>, JsonV)>, cmd: Seq<char>, t: u64, k: nat)
    ensures
        same_but_cmd(events_entries(install_run(h, cmd, t, k).0), events_entries(h), cmd),
    decreases k,
{
    if k > 0 {
        lemma_install_run_strip(h, cmd, t, (k - 1) as nat);
        let prev = install_run(h, cmd, t, (k - 1) as nat);
        if prev.1 is Ok && install_event(prev.0, event_at(k - 1), cmd, t) is Ok {
            lemma_install_event_strip(prev.0, event_at(k - 1), cmd, t);
        }
    }
}

/// Installing adds nothing but entries that run the command: with those taken out, the
/// hook entries of the document, read in document order, are the same before and after,
/// whether or not the install succeeded. No other tool's entry is added, removed,
/// changed or moved.
pub proof fn law_install_adds_only_its_entries(v: JsonV, cmd: Seq<char>, t: u64)
    ensures
        strip_entries(document_entries(install_outcome(v, cmd, t).0), cmd) == strip_entries(
            document_entries(v),
            cmd,
        ),
{
    if let JsonV::Object(root) = v {
        let q = key_pos(root, "hooks"@);
        lemma_key_pos(root, "hooks"@);
        if q < 0 {
            let e = Seq::<(Seq<char>, JsonV)>::empty();
            let run = install_run(e, cmd, t, 25);
            lemma_install_run_strip(e, cmd, t, 25);
            let x = ("hooks"@, JsonV::Object(run.0));
            lemma_key_pos_push(root, x, "hooks"@);
            assert(events_entries(e) =~= Seq::<JsonV>::empty());
        } else if let JsonV::Object(h) = root[q].1 {
            let run = install_run(h, cmd, t, 25);
            lemma_install_run_strip(h, cmd, t, 25);
            let x = ("hooks"@, JsonV::Object(run.0));
            lemma_key_pos_same_keys(root, root.update(q, x), "hooks"@);
        }
    }
}

/// The members of the document's `hooks` object (none when it has no such object).
pub open spec fn hooks_members(v: JsonV) -> Seq<(Seq<char>, JsonV)> {
    match member(v, "hooks"@) {
        Some(JsonV::Object(h)) => h,
        _ => Seq::empty(),
    }
}

proof fn lemma_install_event_other_keys(h: Seq<(Seq<char>, JsonV)>, event: EventType, cmd: Seq<char>, t: u64, k: Seq<char>)
    requires
        install_event(h, event, cmd, t) is Ok,
        k != event_type_name(event),
    ensures
        member(JsonV::Object(install_event(h, event, cmd, t)->Ok_0), k) == member(JsonV::Object(h), k),
{
    let name = event_type_name(event);
    let q = key_pos(h, name);
    lemma_key_pos(h, name);
    if q < 0 {
        lemma_member_push(h, (name, JsonV::Array(seq![new_group(cmd, t)])), k);
    } else {
        let g2 = install_groups(h[q].1->Array_0, event, cmd, t)->Ok_0;
        lemma_member_update(h, q, (name, JsonV::Array(g2)), k);
    }
}

proof fn lemma_install_run_other_keys(h: Seq<(Seq<char>, JsonV)>, cmd: Seq<char>, t: u64, n: nat, k: Seq<char>)
    requires
        n <= 25,
        !is_canonical(k),
    ensures
        member(JsonV::Object(install_run(h, cmd, t, n).0), k) == member(JsonV::Object(h), k),
    decreases n,
{
    if n > 0 {
        lemma_install_run_other_keys(h, cmd, t, (n - 1) as nat, k);
        let prev = install_run(h, cmd, t, (n - 1) as nat);
        if prev.1 is Ok && install_event(prev.0, event_at(n - 1), cmd, t) is Ok {
            assert(canonical_name(n - 1) == event_type_name(event_at(n - 1)));
            lemma_install_event_other_keys(prev.0, event_at(n - 1), cmd, t, k);
        }
    }
}

/// Installing touches nothing but the canonical events: every member of the document
/// other than `hooks`, and every event of `hooks` that is not canonical, keeps its value,
/// whether or not the install succeeded.
pub proof fn law_install_touches_only_canonical_events(v: JsonV, cmd: Seq<char>, t: u64, k: Seq<char>)
    ensures
        k != "hooks"@ ==> member(install_outcome(v, cmd, t).0, k) == member(v, k),
        !is_canonical(k) ==> member(JsonV::Object(hooks_members(install_outcome(v, cmd, t).0)), k)
            == member(JsonV::Object(hooks_members(v)), k),
{
    if let JsonV::Object(root) = v {
        let q = key_pos(root, "hooks"@);
        lemma_key_pos(root, "hooks"@);
        if q < 0 {
            let e = Seq::<(Seq<char>, JsonV)>::empty();
            let run = install_run(e, cmd, t, 25);
            let x = ("hooks"@, JsonV::Object(run.0));
            if k != "hooks"@ {
                lemma_member_push(root, x, k);
            }
            lemma_key_pos_push(root, x, "hooks"@);
            if !is_canonical(k) {
                lemma_install_run_other_keys(e, cmd, t, 25, k);
            }
        } else if let JsonV::Object(h) = root[q].1 {
            let run = install_run(h, cmd, t, 25);
            let x = ("hooks"@, JsonV::Object(run.0));
            if k != "hooks"@ {
                lemma_member_update(root, q, x, k);
            }
            lemma_key_pos_same_keys(root, root.update(q, x), "hooks"@);
            if !is_canonical(k) {
                lemma_install_run_other_keys(h, cmd, t, 25, k);
            }
        }
    }
}

/// The matcher groups that the hooks object `h` holds for event `name`: none when the event
/// is absent; `None` when its value is not an array.
pub open spec fn event_groups(h: Seq<(Seq<char>, JsonV)>, name: Seq<char>) -> Option<Seq<JsonV>> {
    match member(JsonV::Object(h), name) {
        None => Some(Seq::empty()),
        Some(JsonV::Array(gs)) => Some(gs),
        _ => None,
    }
}

/// Installing into one event's groups adds at most one entry, and only to the first group
/// that matches every tool: that group gets the command's entry appended to its entry list
/// unless one of its entries already runs the command, and keeps its other members; every
/// other group stays as it was. When no group matches every tool, one new group holding
/// only the entry is appended.
pub proof fn law_install_groups_frame(gs: Seq<JsonV>, event: EventType, cmd: Seq<char>, t: u64)
    requires
        install_groups(gs, event, cmd, t) is Ok,
    ensures
        ({
            let g2 = install_groups(gs, event, cmd, t)->Ok_0;
            let p = first_open_group(gs);
            &&& p < 0 ==> g2 == gs.push(new_group(cmd, t))
            &&& p >= 0 ==> {
                &&& g2.len() == gs.len()
                &&& forall|i: int| 0 <= i < gs.len() && i != p ==> #[trigger] g2[i] == gs[i]
                &&& any_has_command(group_entries(gs[p]), cmd) ==> g2 == gs
                &&& !any_has_command(group_entries(gs[p]), cmd) ==> group_entries(g2[p])
                    == group_entries(gs[p]).push(hook_entry(cmd, t))
                &&& forall|k: Seq<char>| k != "hooks"@ ==> #[trigger] member(g2[p], k) == member(gs[p], k)
            }
        }),
{
    let g2 = install_groups(gs, event, cmd, t)->Ok_0;
    let p = first_open_group(gs);
    lemma_first_open_group(gs);
    if p >= 0 {
        let gm = gs[p]->Object_0;
        let q = key_pos(gm, "hooks"@);
        lemma_key_pos(gm, "hooks"@);
        let he = hook_entry(cmd, t);
        if q < 0 {
            let x = ("hooks"@, JsonV::Array(seq![he]));
            lemma_key_pos_push(gm, x, "hooks"@);
            assert(group_entries(gs[p]) =~= Seq::<JsonV>::empty());
            assert(!any_has_command(Seq::<JsonV>::empty(), cmd));
            assert(Seq::<JsonV>::empty().push(he) =~= seq![he]);
            assert forall|k: Seq<char>| k != "hooks"@ implies #[trigger] member(g2[p], k) == member(gs[p], k) by {
                lemma_member_push(gm, x, k);
            }
        } else {
            let hs = gm[q].1->Array_0;
            assert(group_entries(gs[p]) == hs);
            if !any_has_command(hs, cmd) {
                let x = ("hooks"@, JsonV::Array(hs.push(he)));
                lemma_key_pos_same_keys(gm, gm.update(q, x), "hooks"@);
                assert forall|k: Seq<char>| k != "hooks"@ implies #[trigger] member(g2[p], k) == member(gs[p], k) by {
                    lemma_member_update(gm, q, x, k);
                }
            }
        }
    }
}

proof fn lemma_install_run_frame(h: Seq<(Seq<char>, JsonV)>, cmd: Seq<char>, t: u64, n: nat)
    requires
        n <= 25,
        install_run(h, cmd, t, n).1 is Ok,
    ensures
        forall|i: int| 0 <= i < n ==> {
            &&& event_groups(h, #[trigger] canonical_name(i)) is Some
            &&& install_groups(event_groups(h, canonical_name(i))->Some_0, event_at(i), cmd, t) is Ok
            &&& member(JsonV::Object(install_run(h, cmd, t, n).0), canonical_name(i)) == Some(
                JsonV::Array(install_groups(event_groups(h, canonical_name(i))->Some_0, event_at(i), cmd, t)->Ok_0),
            )
        },
        forall|i: int| n <= i < 25 ==> member(JsonV::Object(install_run(h, cmd, t, n).0), #[trigger] canonical_name(i))
            == member(JsonV::Object(h), canonical_name(i)),
    decreases n,
{
    if n > 0 {
        let m = (n - 1) as nat;
        let prev = install_run(h, cmd, t, m);
        if prev.1 is Err {
            crate::hooks::lemma_install_run_stops(h, cmd, t, m, n);
        }
        lemma_install_run_frame(h, cmd, t, m);
        let e = event_at(m as int);
        let name = canonical_name(m as int);
        assert(event_type_name(e) == name);
        let out = install_run(h, cmd, t, n).0;
        assert(install_event(prev.0, e, cmd, t) is Ok);
        assert(member(JsonV::Object(prev.0), name) == member(JsonV::Object(h), name));
        let q = key_pos(prev.0, name);
        lemma_key_pos(prev.0, name);
        lemma_key_pos(h, name);
        if q < 0 {
            let ng = new_group(cmd, t);
            let x = (name, JsonV::Array(seq![ng]));
            lemma_key_pos_push(prev.0, x, name);
            assert(event_groups(h, name)->Some_0 =~= Seq::<JsonV>::empty());
            lemma_first_open_group(Seq::<JsonV>::empty());
            assert(Seq::<JsonV>::empty().push(ng) =~= seq![ng]);
        } else {
            let gs = prev.0[q].1->Array_0;
            let g2 = install_groups(gs, e, cmd, t)->Ok_0;
            lemma_key_pos_same_keys(prev.0, prev.0.update(q, (name, JsonV::Array(g2))), name);
        }
        assert forall|i: int| 0 <= i < 25 && i != m implies member(JsonV::Object(out), #[trigger] canonical_name(i))
            == member(JsonV::Object(prev.0), canonical_name(i)) by {
            lemma_canonical_distinct(i, m as int);
            lemma_install_event_other_keys(prev.0, e, cmd, t, canonical_name(i));
        }
    }
}

/// The frame of an install that succeeded: every member of the document other than
/// `hooks` and every event that is not canonical keep their values, and each canonical
/// event's groups are what installing into its own groups gives (see
/// `law_install_groups_frame`), whatever the other events hold.
pub proof fn law_install_frame(v: JsonV, cmd: Seq<char>, t: u64)
    requires
        install_outcome(v, cmd, t).1 is Ok,
    ensures
        forall|k: Seq<char>| k != "hooks"@ ==> #[trigger] member(install_outcome(v, cmd, t).0, k) == member(v, k),
        forall|k: Seq<char>| !is_canonical(k) ==> #[trigger] member(
            JsonV::Object(hooks_members(install_outcome(v, cmd, t).0)),
            k,
        ) == member(JsonV::Object(hooks_members(v)), k),
        forall|i: int| 0 <= i < 25 ==> {
            &&& event_groups(hooks_members(v), #[trigger] canonical_name(i)) is Some
            &&& install_groups(event_groups(hooks_members(v), canonical_name(i))->Some_0, event_at(i), cmd, t) is Ok
            &&& member(JsonV::Object(hooks_members(install_outcome(v, cmd, t).0)), canonical_name(i)) == Some(
                JsonV::Array(
                    install_groups(event_groups(hooks_members(v), canonical_name(i))->Some_0, event_at(i), cmd, t)->Ok_0,
                ),
            )
        },
{
    assert forall|k: Seq<char>| k != "hooks"@ implies #[trigger] member(install_outcome(v, cmd, t).0, k) == member(v, k) by {
        law_install_touches_only_canonical_events(v, cmd, t, k);
    }
    assert forall|k: Seq<char>| !is_canonical(k) implies #[trigger] member(
        JsonV::Object(hooks_members(install_outcome(v, cmd, t).0)),
        k,
    ) == member(JsonV::Object(hooks_members(v)), k) by {
        law_install_touches_only_canonical_events(v, cmd, t, k);
    }
    let root = v->Object_0;
    let q = key_pos(root, "hooks"@);
    lemma_key_pos(root, "hooks"@);
    if q < 0 {
        let e = Seq::<(Seq<char>, JsonV)>::empty();
        let run = install_run(e, cmd, t, 25);
        lemma_install_run_frame(e, cmd, t, 25);
        let x = ("hooks"@, JsonV::Object(run.0));
        lemma_key_pos_push(root, x, "hooks"@);
    } else {
        let h = root[q].1->Object_0;
        let run = install_run(h, cmd, t, 25);
        lemma_install_run_frame(h, cmd, t, 25);
        let x = ("hooks"@, JsonV::Object(run.0));
        lemma_key_pos_same_keys(root, root.update(q, x), "hooks"@);
    }
}

/// Installing and uninstalling keep the document's member keys distinct: a document read
/// from JSON text has distinct keys, and so does every document the two merges make of it,
/// so the laws stated for such documents apply to their results too.
pub proof fn law_merges_keep_keys_unique(v: JsonV, cmd: Seq<char>, t: u64)
    requires
        v is Object ==> keys_unique(v->Object_0),
    ensures
        install_outcome(v, cmd, t).0 is Object ==> keys_unique(install_outcome(v, cmd, t).0->Object_0),
        uninstall_outcome(v, cmd).0 is Object ==> keys_unique(uninstall_outcome(v, cmd).0->Object_0),
{
    if let JsonV::Object(root) = v {
        let q = key_pos(root, "hooks"@);
        lemma_key_pos(root, "hooks"@);
        if q < 0 {
            let run = install_run(Seq::<(Seq<char>, JsonV)>::empty(), cmd, t, 25);
            let r2 = root.push(("hooks"@, JsonV::Object(run.0)));
            assert forall|i: int, j: int| 0 <= i < j < r2.len() implies r2[i].0 != r2[j].0 by {
                if j == root.len() {
                    assert(r2[i] == root[i]);
                } else {
                    assert(r2[i] == root[i] && r2[j] == root[j]);
                }
            }
        } else {
            if let JsonV::Object(h) = root[q].1 {
                let run = install_run(h, cmd, t, 25);
                let r2 = root.update(q, ("hooks"@, JsonV::Object(run.0)));
                assert forall|i: int, j: int| 0 <= i < j < r2.len() implies r2[i].0 != r2[j].0 by {
                    assert(r2[i].0 == root[i].0 && r2[j].0 == root[j].0);
                }
                let h2 = uninstall_members(h, cmd);
                if h2.len() == 0 {
                    let r3 = root.remove(q);
                    assert forall|i: int, j: int| 0 <= i < j < r3.len() implies r3[i].0 != r3[j].0 by {
                        let a = if i < q { i } else { i + 1 };
                        let b = if j < q { j } else { j + 1 };
                        assert(r3[i] == root[a] && r3[j] == root[b]);
                    }
                } else {
                    let r3 = root.update(q, ("hooks"@, JsonV::Object(h2)));
                    assert forall|i: int, j: int| 0 <= i < j < r3.len() implies r3[i].0 != r3[j].0 by {
                        assert(r3[i].0 == root[i].0 && r3[j].0 == root[j].0);
                    }
                }
            }
        }
    }
}

} // verus!
