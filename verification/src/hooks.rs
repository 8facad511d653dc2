//! Wiring the capture wrapper into the hook settings of the coding assistant.
//!
//! Settings layout: `hooks.<Event> = [{matcher, hooks: [{type, command, timeout}, ...]}, ...]`.
//! Installing only appends: entries of other tools stay as they are. Uninstalling removes
//! only the hook entries whose `command` is the wrapper's command.

use vstd::prelude::*;
use crate::events::{event_at, event_index, event_type_name, EventType};
use crate::json::{find_member, items_view, key_pos, lemma_key_pos, lemma_key_pos_at, member, members_view, Json, JsonNumber, JsonV, NumberV};
use crate::text::{str_eq, strings_view};

verus! {

broadcast use vstd::std_specs::vec::group_vec_axioms, crate::json::group_json_view;

/// Default timeout for each hook invocation (seconds).
pub const HOOK_TIMEOUT: u64 = 5;

/// Where the hook settings live.
#[derive(Clone, Copy, Debug, PartialEq, Eq, Structural)]
pub enum Scope {
    /// The user's own settings directory.
    User,
    /// The settings directory of the current project.
    Project,
}

impl Scope {
    /// The scope's name as messages show it.
    pub fn label(self) -> (r: &'static str)
        ensures
            r@ == (match self {
                Scope::User => "user"@,
                Scope::Project => "project"@,
            }),
    {
        match self {
            Scope::User => "user",
            Scope::Project => "project",
        }
    }
}

/// A settings document whose shape the installer refuses.
#[derive(Clone, Copy, Debug, PartialEq, Eq, Structural)]
pub enum HookError {
    /// The document's root is not an object.
    RootNotObject,
    /// `hooks` is not an object.
    HooksNotObject,
    /// `hooks.<event>` is not an array.
    EventNotArray(EventType),
    /// `hooks.<event>[i]` is not an object.
    GroupNotObject(EventType, usize),
    /// `hooks.<event>[i].hooks` is not an array.
    GroupHooksNotArray(EventType, usize),
}

/// The text of an error of the installer, naming the part of the document at fault.
pub open spec fn hook_error_text(e: HookError) -> Seq<char> {
    match e {
        HookError::RootNotObject => "settings root must be object"@,
        HookError::HooksNotObject => "settings.hooks must be object"@,
        HookError::EventNotArray(ev) => "settings.hooks."@ + event_type_name(ev) + " must be array"@,
        HookError::GroupNotObject(ev, i) => "settings.hooks."@ + event_type_name(ev) + "["@
            + crate::text::nat_text(i as nat) + "] must be object"@,
        HookError::GroupHooksNotArray(ev, i) => "settings.hooks."@ + event_type_name(ev) + "["@
            + crate::text::nat_text(i as nat) + "].hooks must be array"@,
    }
}

impl HookError {
    /// The message shown for the error (see `hook_error_text`).
    pub fn message(&self) -> (r: String)
        ensures
            r@ == hook_error_text(*self),
    {
        match self {
            HookError::RootNotObject => "settings root must be object".to_string(),
            HookError::HooksNotObject => "settings.hooks must be object".to_string(),
            HookError::EventNotArray(ev) => {
                let mut s = "settings.hooks.".to_string();
                s.append(ev.as_str());
                s.append(" must be array");
                s
            },
            HookError::GroupNotObject(ev, i) => {
                let mut s = "settings.hooks.".to_string();
                s.append(ev.as_str());
                s.append("[");
                crate::text::push_nat(&mut s, *i as u64);
                s.append("] must be object");
                s
            },
            HookError::GroupHooksNotArray(ev, i) => {
                let mut s = "settings.hooks.".to_string();
                s.append(ev.as_str());
                s.append("[");
                crate::text::push_nat(&mut s, *i as u64);
                s.append("].hooks must be array");
                s
            },
        }
    }
}

/// `c` is white space as `char::is_whitespace` has it: the Unicode `White_Space` property.
pub open spec fn is_white_space(c: char) -> bool {
    let n = c as int;
    (0x9 <= n <= 0xD) || n == 0x20 || n == 0x85 || n == 0xA0 || n == 0x1680 || (0x2000 <= n
        <= 0x200A) || n == 0x2028 || n == 0x2029 || n == 0x202F || n == 0x205F || n == 0x3000
}

fn white_space(c: char) -> (r: bool)
    ensures
        r == is_white_space(c),
{
    let n = c as u32;
    (0x9 <= n && n <= 0xD) || n == 0x20 || n == 0x85 || n == 0xA0 || n == 0x1680 || (0x2000 <= n
        && n <= 0x200A) || n == 0x2028 || n == 0x2029 || n == 0x202F || n == 0x205F || n == 0x3000
}

/// Whether a settings file's text is blank (`trim` leaves nothing): it then reads as an
/// empty object.
pub fn settings_text_blank(text: &str) -> (r: bool)
    ensures
        r == forall|i: int| 0 <= i < text@.len() ==> is_white_space(#[trigger] text@[i]),
{
    let n = text.unicode_len();
    let mut i: usize = 0;
    while i < n
        invariant
            n == text@.len(),
            i <= n,
            forall|j: int| 0 <= j < i ==> is_white_space(#[trigger] text@[j]),
        decreases n - i,
    {
        if !white_space(text.get_char(i)) {
            return false;
        }
        i = i + 1;
    }
    true
}

/// A settings document whose root is not an object.
#[derive(Clone, Copy, Debug, PartialEq, Eq, Structural)]
pub struct RootNotObject;

impl RootNotObject {
    /// The message shown for the error.
    pub fn message(&self) -> (r: &'static str)
        ensures
            r@ == "settings.json root must be a JSON object"@,
    {
        "settings.json root must be a JSON object"
    }
}

/// Accepts a parsed settings document only when its root is an object.
pub fn check_settings_root(v: Json) -> (r: Result<Json, RootNotObject>)
    ensures
        match r {
            Ok(x) => x@ == v@ && v@ is Object,
            Err(_) => !(v@ is Object),
        },
{
    match v {
        Json::Object(m) => Ok(Json::Object(m)),
        _ => Err(RootNotObject),
    }
}

/// The name of the canonical event at position `i`.
pub open spec fn canonical_name(i: int) -> Seq<char> {
    event_type_name(event_at(i))
}

/// `name` is one of the canonical event names.
pub open spec fn is_canonical(name: Seq<char>) -> bool {
    exists|i: int| 0 <= i < 25 && canonical_name(i) == name
}

/// The string held by an optional value, when it is a string.
pub open spec fn str_value(v: Option<JsonV>) -> Option<Seq<char>> {
    match v {
        Some(JsonV::Str(s)) => Some(s),
        _ => None,
    }
}

/// A hook entry runs `cmd`: its `command` member is the string `cmd`.
pub open spec fn entry_has_command(h: JsonV, cmd: Seq<char>) -> bool {
    str_value(member(h, "command"@)) == Some(cmd)
}

/// Some entry of `hs` runs `cmd`.
pub open spec fn any_has_command(hs: Seq<JsonV>, cmd: Seq<char>) -> bool {
    exists|i: int| 0 <= i < hs.len() && #[trigger] entry_has_command(hs[i], cmd)
}

/// A matcher group matches every tool: its `matcher` is the empty string, or not a string.
pub open spec fn matcher_empty(g: JsonV) -> bool {
    match str_value(member(g, "matcher"@)) {
        Some(s) => s.len() == 0,
        None => true,
    }
}

/// The hook entry that runs `cmd`.
pub open spec fn hook_entry(cmd: Seq<char>, timeout: u64) -> JsonV {
    JsonV::Object(
        seq![
            ("type"@, JsonV::Str("command"@)),
            ("command"@, JsonV::Str(cmd)),
            ("timeout"@, JsonV::Number(NumberV::PosInt(timeout))),
        ],
    )
}

/// A matcher group for every tool, holding only the entry that runs `cmd`.
pub open spec fn new_group(cmd: Seq<char>, timeout: u64) -> JsonV {
    JsonV::Object(
        seq![
            ("matcher"@, JsonV::Str(Seq::empty())),
            ("hooks"@, JsonV::Array(seq![hook_entry(cmd, timeout)])),
        ],
    )
}

/// Position of the first group that matches every tool, or -1.
pub open spec fn first_open_group(gs: Seq<JsonV>) -> int
    decreases gs.len(),
{
    if gs.len() == 0 {
        -1
    } else {
        let p = first_open_group(gs.drop_last());
        if p >= 0 {
            p
        } else if matcher_empty(gs.last()) {
            gs.len() - 1
        } else {
            -1
        }
    }
}

/// The first group that matches every tool: no earlier group does.
pub proof fn lemma_first_open_group(gs: Seq<JsonV>)
    ensures
        -1 <= first_open_group(gs) < gs.len(),
        first_open_group(gs) >= 0 ==> matcher_empty(gs[first_open_group(gs)]),
        forall|j: int| 0 <= j < first_open_group(gs) ==> !matcher_empty(gs[j]),
        first_open_group(gs) < 0 ==> forall|j: int| 0 <= j < gs.len() ==> !matcher_empty(gs[j]),
    decreases gs.len(),
{
    if gs.len() > 0 {
        let d = gs.drop_last();
        lemma_first_open_group(d);
        assert(forall|j: int| 0 <= j < d.len() ==> d[j] == gs[j]);
    }
}

/// Installing the entry that runs `cmd` into the matcher groups of `event`: the entry is
/// appended to the first group that matches every tool (one is appended when there is
/// none), unless that group already runs `cmd`.
pub open spec fn install_groups(gs: Seq<JsonV>, event: EventType, cmd: Seq<char>, timeout: u64) -> Result<
    Seq<JsonV>,
    HookError,
> {
    let p = first_open_group(gs);
    if p < 0 {
        Ok(gs.push(new_group(cmd, timeout)))
    } else {
        match gs[p] {
            JsonV::Object(gm) => {
                let q = key_pos(gm, "hooks"@);
                if q < 0 {
                    Ok(
                        gs.update(
                            p,
                            JsonV::Object(gm.push(("hooks"@, JsonV::Array(seq![hook_entry(cmd, timeout)])))),
                        ),
                    )
                } else {
                    match gm[q].1 {
                        JsonV::Array(hs) => if any_has_command(hs, cmd) {
                            Ok(gs)
                        } else {
                            Ok(
                                gs.update(
                                    p,
                                    JsonV::Object(
                                        gm.update(q, ("hooks"@, JsonV::Array(hs.push(hook_entry(cmd, timeout))))),
                                    ),
                                ),
                            )
                        },
                        _ => Err(HookError::GroupHooksNotArray(event, p as usize)),
                    }
                }
            },
            _ => Err(HookError::GroupNotObject(event, p as usize)),
        }
    }
}

/// Installing into the member of the hooks object that holds `event`'s groups.
pub open spec fn install_event(h: Seq<(Seq<char>, JsonV)>, event: EventType, cmd: Seq<char>, timeout: u64) -> Result<
    Seq<(Seq<char>, JsonV)>,
    HookError,
> {
    let name = event_type_name(event);
    let q = key_pos(h, name);
    if q < 0 {
        Ok(h.push((name, JsonV::Array(seq![new_group(cmd, timeout)]))))
    } else {
        match h[q].1 {
            JsonV::Array(gs) => match install_groups(gs, event, cmd, timeout) {
                Ok(g2) => Ok(h.update(q, (name, JsonV::Array(g2)))),
                Err(e) => Err(e),
            },
            _ => Err(HookError::EventNotArray(event)),
        }
    }
}

/// The hooks object after installing into the first `k` canonical events, in order; the
/// run stops at the first refusal, keeping what the earlier events received.
pub open spec fn install_run(h: Seq<(Seq<char>, JsonV)>, cmd: Seq<char>, timeout: u64, k: nat) -> (
    Seq<(Seq<char>, JsonV)>,
    Result<(), HookError>,
)
    decreases k,
{
    if k == 0 {
        (h, Ok(()))
    } else {
        let prev = install_run(h, cmd, timeout, (k - 1) as nat);
        match prev.1 {
            Err(e) => prev,
            Ok(_) => match install_event(prev.0, event_at(k - 1), cmd, timeout) {
                Ok(h2) => (h2, Ok(())),
                Err(e) => (prev.0, Err(e)),
            },
        }
    }
}

/// The settings document after installing the entry that runs `cmd` into every
/// canonical event, and whether that succeeded.
pub open spec fn install_outcome(v: JsonV, cmd: Seq<char>, timeout: u64) -> (JsonV, Result<(), HookError>) {
    match v {
        JsonV::Object(root) => {
            let q = key_pos(root, "hooks"@);
            if q < 0 {
                let run = install_run(Seq::empty(), cmd, timeout, 25);
                (JsonV::Object(root.push(("hooks"@, JsonV::Object(run.0)))), run.1)
            } else {
                match root[q].1 {
                    JsonV::Object(h) => {
                        let run = install_run(h, cmd, timeout, 25);
                        (JsonV::Object(root.update(q, ("hooks"@, JsonV::Object(run.0)))), run.1)
                    },
                    _ => (v, Err(HookError::HooksNotObject)),
                }
            }
        },
        _ => (v, Err(HookError::RootNotObject)),
    }
}

/// Once a run has been refused, later steps leave it as it is.
pub proof fn lemma_install_run_stops(h: Seq<(Seq<char>, JsonV)>, cmd: Seq<char>, timeout: u64, i: nat, j: nat)
    requires
        i <= j,
        install_run(h, cmd, timeout, i).1 is Err,
    ensures
        install_run(h, cmd, timeout, j) == install_run(h, cmd, timeout, i),
    decreases j - i,
{
    if i < j {
        lemma_install_run_stops(h, cmd, timeout, i, (j - 1) as nat);
    }
}

fn str_json(s: &str) -> (r: Json)
    ensures
        r@ == JsonV::Str(s@),
{
    Json::Str(String::from_str(s))
}

fn make_hook_entry(cmd: &str, timeout: u64) -> (r: Json)
    ensures
        r@ == hook_entry(cmd@, timeout),
{
    let mut m: Vec<(String, Json)> = Vec::new();
    m.push((String::from_str("type"), str_json("command")));
    m.push((String::from_str("command"), str_json(cmd)));
    m.push((String::from_str("timeout"), Json::Number(JsonNumber::PosInt(timeout))));
    assert(members_view(m@) =~= seq![
        ("type"@, JsonV::Str("command"@)),
        ("command"@, JsonV::Str(cmd@)),
        ("timeout"@, JsonV::Number(NumberV::PosInt(timeout))),
    ]);
    Json::Object(m)
}

fn make_new_group(cmd: &str, timeout: u64) -> (r: Json)
    ensures
        r@ == new_group(cmd@, timeout),
{
    let mut hs: Vec<Json> = Vec::new();
    hs.push(make_hook_entry(cmd, timeout));
    assert(items_view(hs@) =~= seq![hook_entry(cmd@, timeout)]);
    proof {
        reveal_strlit("");
    }
    assert(""@ =~= Seq::<char>::empty());
    let e = str_json("");
    assert(e@ == JsonV::Str(Seq::empty()));
    let a = Json::Array(hs);
    assert(a@ == JsonV::Array(seq![hook_entry(cmd@, timeout)]));
    let mut m: Vec<(String, Json)> = Vec::new();
    m.push((String::from_str("matcher"), e));
    m.push((String::from_str("hooks"), a));
    assert(members_view(m@) =~= seq![
        ("matcher"@, JsonV::Str(Seq::empty())),
        ("hooks"@, JsonV::Array(seq![hook_entry(cmd@, timeout)])),
    ]);
    Json::Object(m)
}

fn is_matcher_empty(g: &Json) -> (r: bool)
    ensures
        r == matcher_empty(g@),
{
    match g {
        Json::Object(m) => match find_member(m, "matcher") {
            Some(i) => match &m[i].1 {
                Json::Str(s) => s.as_str().is_empty(),
                _ => true,
            },
            None => true,
        },
        _ => true,
    }
}

fn entry_runs(h: &Json, cmd: &str) -> (r: bool)
    ensures
        r == entry_has_command(h@, cmd@),
{
    match h {
        Json::Object(m) => match find_member(m, "command") {
            Some(i) => match &m[i].1 {
                Json::Str(s) => str_eq(s.as_str(), cmd),
                _ => false,
            },
            None => false,
        },
        _ => false,
    }
}

fn any_runs(hs: &Vec<Json>, cmd: &str) -> (r: bool)
    ensures
        r == any_has_command(items_view(hs@), cmd@),
{
    let ghost iv = items_view(hs@);
    let mut i: usize = 0;
    while i < hs.len()
        invariant
            i <= hs@.len(),
            iv == items_view(hs@),
            iv.len() == hs@.len(),
            forall|j: int| 0 <= j < hs@.len() ==> iv[j] == hs@[j]@,
            forall|j: int| 0 <= j < i ==> !entry_has_command(iv[j], cmd@),
        decreases hs@.len() - i,
    {
        if entry_runs(&hs[i], cmd) {
            assert(entry_has_command(iv[i as int], cmd@));
            return true;
        }
        i = i + 1;
    }
    false
}

fn first_open(gs: &Vec<Json>) -> (r: Option<usize>)
    ensures
        match r {
            Some(p) => p as int == first_open_group(items_view(gs@)) && p < gs@.len(),
            None => first_open_group(items_view(gs@)) < 0,
        },
{
    let ghost iv = items_view(gs@);
    let mut i: usize = 0;
    while i < gs.len()
        invariant
            i <= gs@.len(),
            iv == items_view(gs@),
            iv.len() == gs@.len(),
            forall|j: int| 0 <= j < gs@.len() ==> iv[j] == gs@[j]@,
            forall|j: int| 0 <= j < i ==> !matcher_empty(iv[j]),
        decreases gs@.len() - i,
    {
        if is_matcher_empty(&gs[i]) {
            proof {
                lemma_first_open_group(iv);
                assert(matcher_empty(iv[i as int]));
                let fo = first_open_group(iv);
                if fo < i {
                    if fo >= 0 {
                        assert(!matcher_empty(iv[fo]));
                    }
                }
            }
            return Some(i);
        }
        i = i + 1;
    }
    proof {
        lemma_first_open_group(iv);
    }
    None
}

fn install_into_groups(gs: &mut Vec<Json>, event: EventType, cmd: &str, timeout: u64) -> (r: Result<(), HookError>)
    ensures
        match install_groups(items_view(old(gs)@), event, cmd@, timeout) {
            Ok(g2) => r == Ok::<(), HookError>(()) && items_view(final(gs)@) == g2,
            Err(e) => r == Err::<(), HookError>(e) && items_view(final(gs)@) == items_view(old(gs)@),
        },
{
    let ghost iv0 = items_view(gs@);
    match first_open(gs) {
        None => {
            gs.push(make_new_group(cmd, timeout));
            assert(items_view(gs@) =~= iv0.push(new_group(cmd@, timeout)));
            Ok(())
        },
        Some(p) => {
            let g = gs.remove(p);
            match g {
                Json::Object(mut gm) => {
                    let ghost gv = members_view(gm@);
                    assert(iv0[p as int] == JsonV::Object(gv));
                    proof {
                        lemma_key_pos(gv, "hooks"@);
                    }
                    match find_member(&gm, "hooks") {
                        None => {
                            let mut hs: Vec<Json> = Vec::new();
                            hs.push(make_hook_entry(cmd, timeout));
                            assert(items_view(hs@) =~= seq![hook_entry(cmd@, timeout)]);
                            gm.push((String::from_str("hooks"), Json::Array(hs)));
                            assert(members_view(gm@) =~= gv.push(
                                ("hooks"@, JsonV::Array(seq![hook_entry(cmd@, timeout)])),
                            ));
                            gs.insert(p, Json::Object(gm));
                            assert(items_view(gs@) =~= iv0.update(
                                p as int,
                                JsonV::Object(gv.push(("hooks"@, JsonV::Array(seq![hook_entry(cmd@, timeout)])))),
                            ));
                            Ok(())
                        },
                        Some(q) => {
                            let (k, hv) = gm.remove(q);
                            match hv {
                                Json::Array(mut hs) => {
                                    let ghost hsv = items_view(hs@);
                                    assert(gv[q as int] == (k@, JsonV::Array(hsv)));
                                    if any_runs(&hs, cmd) {
                                        gm.insert(q, (k, Json::Array(hs)));
                                        assert(members_view(gm@) =~= gv);
                                        gs.insert(p, Json::Object(gm));
                                        assert(items_view(gs@) =~= iv0);
                                        Ok(())
                                    } else {
                                        hs.push(make_hook_entry(cmd, timeout));
                                        assert(items_view(hs@) =~= hsv.push(hook_entry(cmd@, timeout)));
                                        gm.insert(q, (k, Json::Array(hs)));
                                        assert(members_view(gm@) =~= gv.update(
                                            q as int,
                                            ("hooks"@, JsonV::Array(hsv.push(hook_entry(cmd@, timeout)))),
                                        ));
                                        gs.insert(p, Json::Object(gm));
                                        assert(items_view(gs@) =~= iv0.update(
                                            p as int,
                                            JsonV::Object(
                                                gv.update(
                                                    q as int,
                                                    ("hooks"@, JsonV::Array(hsv.push(hook_entry(cmd@, timeout)))),
                                                ),
                                            ),
                                        ));
                                        Ok(())
                                    }
                                },
                                other => {
                                    gm.insert(q, (k, other));
                                    assert(members_view(gm@) =~= gv);
                                    gs.insert(p, Json::Object(gm));
                                    assert(items_view(gs@) =~= iv0);
                                    Err(HookError::GroupHooksNotArray(event, p))
                                },
                            }
                        },
                    }
                },
                other => {
                    gs.insert(p, other);
                    assert(items_view(gs@) =~= iv0);
                    Err(HookError::GroupNotObject(event, p))
                },
            }
        },
    }
}

fn install_into_event(h: &mut Vec<(String, Json)>, event: EventType, cmd: &str, timeout: u64) -> (r: Result<(), HookError>)
    ensures
        match install_event(members_view(old(h)@), event, cmd@, timeout) {
            Ok(h2) => r == Ok::<(), HookError>(()) && members_view(final(h)@) == h2,
            Err(e) => r == Err::<(), HookError>(e) && members_view(final(h)@) == members_view(old(h)@),
        },
{
    let ghost hv0 = members_view(h@);
    let name = event.as_str();
    match find_member(h, name) {
        None => {
            let mut gs: Vec<Json> = Vec::new();
            gs.push(make_new_group(cmd, timeout));
            assert(items_view(gs@) =~= seq![new_group(cmd@, timeout)]);
            h.push((String::from_str(name), Json::Array(gs)));
            assert(members_view(h@) =~= hv0.push((name@, JsonV::Array(seq![new_group(cmd@, timeout)]))));
            Ok(())
        },
        Some(q) => {
            proof {
                lemma_key_pos(hv0, name@);
            }
            let (k, v) = h.remove(q);
            match v {
                Json::Array(mut gs) => {
                    let ghost gv = items_view(gs@);
                    assert(hv0[q as int] == (k@, JsonV::Array(gv)));
                    let r = install_into_groups(&mut gs, event, cmd, timeout);
                    let ghost gv2 = items_view(gs@);
                    h.insert(q, (k, Json::Array(gs)));
                    assert(members_view(h@) =~= hv0.update(q as int, (name@, JsonV::Array(gv2))));
                    proof {
                        if r is Err {
                            assert(members_view(h@) =~= hv0);
                        }
                    }
                    r
                },
                other => {
                    h.insert(q, (k, other));
                    assert(members_view(h@) =~= hv0);
                    Err(HookError::EventNotArray(event))
                },
            }
        },
    }
}

fn install_all(h: &mut Vec<(String, Json)>, cmd: &str, timeout: u64) -> (r: Result<(), HookError>)
    ensures
        members_view(final(h)@) == install_run(members_view(old(h)@), cmd@, timeout, 25).0,
        r == install_run(members_view(old(h)@), cmd@, timeout, 25).1,
{
    let ghost h0 = members_view(h@);
    let mut i: usize = 0;
    while i < 25
        invariant
            i <= 25,
            h0 == members_view(old(h)@),
            install_run(h0, cmd@, timeout, i as nat).1 is Ok,
            members_view(h@) == install_run(h0, cmd@, timeout, i as nat).0,
        decreases 25 - i,
    {
        let event = EventType::at_index(i);
        let ghost prev = install_run(h0, cmd@, timeout, i as nat);
        let r = install_into_event(h, event, cmd, timeout);
        assert(install_run(h0, cmd@, timeout, (i + 1) as nat) == (members_view(h@), r));
        if r.is_err() {
            proof {
                lemma_install_run_stops(h0, cmd@, timeout, (i + 1) as nat, 25);
            }
            return r;
        }
        i = i + 1;
    }
    Ok(())
}

/// Installs the hook entry that runs `command` into every canonical event of the settings
/// document `value`. Installing only appends: no existing entry changes place or goes
/// (`law_install_keeps_entries`).
pub fn merge_install(value: &mut Json, command: &str, timeout: u64) -> (r: Result<(), HookError>)
    ensures
        final(value)@ == install_outcome(old(value)@, command@, timeout).0,
        r == install_outcome(old(value)@, command@, timeout).1,
{
    let mut v = Json::Null;
    std::mem::swap(&mut v, value);
    let ghost v0 = v@;
    match v {
        Json::Object(mut root) => {
            let ghost rv = members_view(root@);
            match find_member(&root, "hooks") {
                None => {
                    let mut h: Vec<(String, Json)> = Vec::new();
                    assert(members_view(h@) =~= Seq::<(Seq<char>, JsonV)>::empty());
                    let r = install_all(&mut h, command, timeout);
                    let ghost hv = members_view(h@);
                    root.push((String::from_str("hooks"), Json::Object(h)));
                    assert(members_view(root@) =~= rv.push(("hooks"@, JsonV::Object(hv))));
                    *value = Json::Object(root);
                    r
                },
                Some(q) => {
                    proof {
                        lemma_key_pos(rv, "hooks"@);
                    }
                    let (k, hv) = root.remove(q);
                    match hv {
                        Json::Object(mut h) => {
                            assert(rv[q as int] == (k@, JsonV::Object(members_view(h@))));
                            let r = install_all(&mut h, command, timeout);
                            let ghost hv2 = members_view(h@);
                            root.insert(q, (k, Json::Object(h)));
                            assert(members_view(root@) =~= rv.update(q as int, ("hooks"@, JsonV::Object(hv2))));
                            *value = Json::Object(root);
                            r
                        },
                        other => {
                            root.insert(q, (k, other));
                            assert(members_view(root@) =~= rv);
                            *value = Json::Object(root);
                            Err(HookError::HooksNotObject)
                        },
                    }
                },
            }
        },
        other => {
            *value = other;
            Err(HookError::RootNotObject)
        },
    }
}

/// The entries of `hs` that do not run `cmd`, in order.
pub open spec fn strip_entries(hs: Seq<JsonV>, cmd: Seq<char>) -> Seq<JsonV>
    decreases hs.len(),
{
    if hs.len() == 0 {
        Seq::empty()
    } else {
        let r = strip_entries(hs.drop_last(), cmd);
        if entry_has_command(hs.last(), cmd) {
            r
        } else {
            r.push(hs.last())
        }
    }
}

/// Stripping entries never lengthens a list.
pub proof fn lemma_strip_entries_len(hs: Seq<JsonV>, cmd: Seq<char>)
    ensures
        strip_entries(hs, cmd).len() <= hs.len(),
    decreases hs.len(),
{
    if hs.len() > 0 {
        lemma_strip_entries_len(hs.drop_last(), cmd);
    }
}

/// A matcher group after removing the entries that run `cmd`; `None` when the group's
/// entry list became empty and the group is dropped.
pub open spec fn uninstall_group(g: JsonV, cmd: Seq<char>) -> Option<JsonV> {
    match g {
        JsonV::Object(gm) => {
            let q = key_pos(gm, "hooks"@);
            if q < 0 {
                Some(g)
            } else {
                match gm[q].1 {
                    JsonV::Array(hs) => {
                        let kept = strip_entries(hs, cmd);
                        if kept.len() == 0 {
                            None
                        } else {
                            Some(JsonV::Object(gm.update(q, ("hooks"@, JsonV::Array(kept)))))
                        }
                    },
                    _ => Some(g),
                }
            }
        },
        _ => Some(g),
    }
}

/// Number of entries that uninstalling removes from one matcher group.
pub open spec fn removed_in_group(g: JsonV, cmd: Seq<char>) -> nat {
    match g {
        JsonV::Object(gm) => {
            let q = key_pos(gm, "hooks"@);
            if q < 0 {
                0
            } else {
                match gm[q].1 {
                    JsonV::Array(hs) => (hs.len() - strip_entries(hs, cmd).len()) as nat,
                    _ => 0,
                }
            }
        },
        _ => 0,
    }
}

/// An event's matcher groups after uninstalling: the groups that are not dropped, in order.
pub open spec fn uninstall_groups(gs: Seq<JsonV>, cmd: Seq<char>) -> Seq<JsonV>
    decreases gs.len(),
{
    if gs.len() == 0 {
        Seq::empty()
    } else {
        let r = uninstall_groups(gs.drop_last(), cmd);
        match uninstall_group(gs.last(), cmd) {
            Some(g) => r.push(g),
            None => r,
        }
    }
}

/// How many entries uninstalling removes from a group list.
pub open spec fn removed_in_groups(gs: Seq<JsonV>, cmd: Seq<char>) -> nat
    decreases gs.len(),
{
    if gs.len() == 0 {
        0
    } else {
        removed_in_groups(gs.drop_last(), cmd) + removed_in_group(gs.last(), cmd)
    }
}

/// A member of the hooks object after uninstalling; `None` when the event is dropped
/// because no matcher group remains.
pub open spec fn uninstall_member(m: (Seq<char>, JsonV), cmd: Seq<char>) -> Option<(Seq<char>, JsonV)> {
    match m.1 {
        JsonV::Array(gs) => {
            let g2 = uninstall_groups(gs, cmd);
            if g2.len() == 0 {
                None
            } else {
                Some((m.0, JsonV::Array(g2)))
            }
        },
        _ => Some(m),
    }
}

/// How many entries uninstalling removes from one event member.
pub open spec fn removed_in_member(m: (Seq<char>, JsonV), cmd: Seq<char>) -> nat {
    match m.1 {
        JsonV::Array(gs) => removed_in_groups(gs, cmd),
        _ => 0,
    }
}

/// The hooks object's members after uninstalling, in order.
pub open spec fn uninstall_members(h: Seq<(Seq<char>, JsonV)>, cmd: Seq<char>) -> Seq<(Seq<char>, JsonV)>
    decreases h.len(),
{
    if h.len() == 0 {
        Seq::empty()
    } else {
        let r = uninstall_members(h.drop_last(), cmd);
        match uninstall_member(h.last(), cmd) {
            Some(m) => r.push(m),
            None => r,
        }
    }
}

/// How many entries uninstalling removes from a hooks object.
pub open spec fn removed_in_members(h: Seq<(Seq<char>, JsonV)>, cmd: Seq<char>) -> nat
    decreases h.len(),
{
    if h.len() == 0 {
        0
    } else {
        removed_in_members(h.drop_last(), cmd) + removed_in_member(h.last(), cmd)
    }
}

/// The settings document after removing every hook entry that runs `cmd`, and the
/// number of entries removed. Emptied groups, events and the `hooks` object go too.
pub open spec fn uninstall_outcome(v: JsonV, cmd: Seq<char>) -> (JsonV, nat) {
    match v {
        JsonV::Object(root) => {
            let q = key_pos(root, "hooks"@);
            if q < 0 {
                (v, 0)
            } else {
                match root[q].1 {
                    JsonV::Object(h) => {
                        let h2 = uninstall_members(h, cmd);
                        let n = removed_in_members(h, cmd);
                        if h2.len() == 0 {
                            (JsonV::Object(root.remove(q)), n)
                        } else {
                            (JsonV::Object(root.update(q, ("hooks"@, JsonV::Object(h2)))), n)
                        }
                    },
                    _ => (v, 0),
                }
            }
        },
        _ => (v, 0),
    }
}

/// The count over a prefix one longer adds the count of its last group.
pub proof fn lemma_removed_in_groups_prefix(gs: Seq<JsonV>, cmd: Seq<char>, i: int)
    requires
        0 <= i <= gs.len(),
    ensures
        removed_in_groups(gs.take(i), cmd) <= removed_in_groups(gs, cmd),
    decreases gs.len(),
{
    if i < gs.len() {
        assert(gs.drop_last().take(i) =~= gs.take(i));
        lemma_removed_in_groups_prefix(gs.drop_last(), cmd, i);
    } else {
        assert(gs.take(i) =~= gs);
    }
}

/// The count over a prefix one longer adds the count of its last member.
pub proof fn lemma_removed_in_members_prefix(h: Seq<(Seq<char>, JsonV)>, cmd: Seq<char>, i: int)
    requires
        0 <= i <= h.len(),
    ensures
        removed_in_members(h.take(i), cmd) <= removed_in_members(h, cmd),
    decreases h.len(),
{
    if i < h.len() {
        assert(h.drop_last().take(i) =~= h.take(i));
        lemma_removed_in_members_prefix(h.drop_last(), cmd, i);
    } else {
        assert(h.take(i) =~= h);
    }
}

fn strip_runs(hs: Vec<Json>, cmd: &str) -> (r: Vec<Json>)
    ensures
        items_view(r@) == strip_entries(items_view(hs@), cmd@),
{
    let ghost all = items_view(hs@);
    let n: usize = hs.len();
    let mut rest = hs;
    let mut kept: Vec<Json> = Vec::new();
    let mut i: usize = 0;
    assert(all.take(0) =~= Seq::<JsonV>::empty());
    assert(items_view(kept@) =~= Seq::<JsonV>::empty());
    while rest.len() > 0
        invariant
            all.len() == n,
            n <= usize::MAX,
            i + rest@.len() == n,
            items_view(rest@) == all.subrange(i as int, n as int),
            items_view(kept@) == strip_entries(all.take(i as int), cmd@),
        decreases rest@.len(),
    {
        let ghost old_rest = rest@;
        let ghost rv = items_view(rest@);
        proof {
            crate::json::lemma_items_view(old_rest);
        }
        let x = rest.remove(0);
        assert(x == old_rest[0]);
        assert(rv[0] == x@);
        assert(items_view(rest@) =~= rv.subrange(1, rv.len() as int));
        assert(all.take(i + 1).drop_last() =~= all.take(i as int));
        assert(all.take(i + 1).last() == x@);
        let ghost kv = items_view(kept@);
        if !entry_runs(&x, cmd) {
            kept.push(x);
            assert(items_view(kept@) =~= kv.push(x@));
        }
        i = i + 1;
    }
    assert(all.take(n as int) =~= all);
    kept
}

fn uninstall_one_group(g: Json, cmd: &str) -> (r: (Option<Json>, usize))
    ensures
        match uninstall_group(g@, cmd@) {
            Some(g2) => r.0 is Some && r.0->0@ == g2,
            None => r.0 is None,
        },
        r.1 == removed_in_group(g@, cmd@),
{
    let ghost gv0 = g@;
    match g {
        Json::Object(mut gm) => {
            let ghost gv = members_view(gm@);
            proof {
                lemma_key_pos(gv, "hooks"@);
            }
            match find_member(&gm, "hooks") {
                None => (Some(Json::Object(gm)), 0),
                Some(q) => {
                    let (k, hv) = gm.remove(q);
                    match hv {
                        Json::Array(hs) => {
                            let ghost hsv = items_view(hs@);
                            assert(gv[q as int] == (k@, JsonV::Array(hsv)));
                            let before = hs.len();
                            let kept = strip_runs(hs, cmd);
                            proof {
                                lemma_strip_entries_len(hsv, cmd@);
                            }
                            let after = kept.len();
                            let removed = before - after;
                            if after == 0 {
                                (None, removed)
                            } else {
                                let ghost kv = items_view(kept@);
                                gm.insert(q, (k, Json::Array(kept)));
                                assert(members_view(gm@) =~= gv.update(q as int, ("hooks"@, JsonV::Array(kv))));
                                (Some(Json::Object(gm)), removed)
                            }
                        },
                        other => {
                            gm.insert(q, (k, other));
                            assert(members_view(gm@) =~= gv);
                            (Some(Json::Object(gm)), 0)
                        },
                    }
                },
            }
        },
        other => (Some(other), 0),
    }
}

fn uninstall_group_list(gs: Vec<Json>, cmd: &str) -> (r: (Vec<Json>, usize))
    requires
        removed_in_groups(items_view(gs@), cmd@) <= usize::MAX,
    ensures
        items_view(r.0@) == uninstall_groups(items_view(gs@), cmd@),
        r.1 == removed_in_groups(items_view(gs@), cmd@),
{
    let ghost all = items_view(gs@);
    let n: usize = gs.len();
    let mut rest = gs;
    let mut kept: Vec<Json> = Vec::new();
    let mut removed: usize = 0;
    let mut i: usize = 0;
    assert(all.take(0) =~= Seq::<JsonV>::empty());
    assert(items_view(kept@) =~= Seq::<JsonV>::empty());
    while rest.len() > 0
        invariant
            all.len() == n,
            n <= usize::MAX,
            i + rest@.len() == n,
            removed_in_groups(all, cmd@) <= usize::MAX,
            items_view(rest@) == all.subrange(i as int, n as int),
            items_view(kept@) == uninstall_groups(all.take(i as int), cmd@),
            removed == removed_in_groups(all.take(i as int), cmd@),
        decreases rest@.len(),
    {
        let ghost old_rest = rest@;
        let ghost rv = items_view(rest@);
        proof {
            crate::json::lemma_items_view(old_rest);
        }
        let x = rest.remove(0);
        assert(x == old_rest[0]);
        assert(rv[0] == x@);
        assert(items_view(rest@) =~= rv.subrange(1, rv.len() as int));
        assert(all.take(i + 1).drop_last() =~= all.take(i as int));
        assert(all.take(i + 1).last() == x@);
        proof {
            lemma_removed_in_groups_prefix(all, cmd@, i + 1);
        }
        let ghost kv = items_view(kept@);
        let (g2, k) = uninstall_one_group(x, cmd);
        removed = removed + k;
        match g2 {
            Some(g) => {
                kept.push(g);
                assert(items_view(kept@) =~= kv.push(g@));
            },
            None => {},
        }
        i = i + 1;
    }
    assert(all.take(n as int) =~= all);
    (kept, removed)
}

fn uninstall_member_list(h: Vec<(String, Json)>, cmd: &str) -> (r: (Vec<(String, Json)>, usize))
    requires
        removed_in_members(members_view(h@), cmd@) <= usize::MAX,
    ensures
        members_view(r.0@) == uninstall_members(members_view(h@), cmd@),
        r.1 == removed_in_members(members_view(h@), cmd@),
{
    let ghost all = members_view(h@);
    let n: usize = h.len();
    let mut rest = h;
    let mut kept: Vec<(String, Json)> = Vec::new();
    let mut removed: usize = 0;
    let mut i: usize = 0;
    assert(all.take(0) =~= Seq::<(Seq<char>, JsonV)>::empty());
    assert(members_view(kept@) =~= Seq::<(Seq<char>, JsonV)>::empty());
    while rest.len() > 0
        invariant
            all.len() == n,
            n <= usize::MAX,
            i + rest@.len() == n,
            removed_in_members(all, cmd@) <= usize::MAX,
            members_view(rest@) == all.subrange(i as int, n as int),
            members_view(kept@) == uninstall_members(all.take(i as int), cmd@),
            removed == removed_in_members(all.take(i as int), cmd@),
        decreases rest@.len(),
    {
        let ghost old_rest = rest@;
        let ghost rv = members_view(rest@);
        proof {
            crate::json::lemma_members_view(old_rest);
        }
        let (k, v) = rest.remove(0);
        assert((k, v) == old_rest[0]);
        assert(rv[0] == (k@, v@));
        assert(members_view(rest@) =~= rv.subrange(1, rv.len() as int));
        assert(all.take(i + 1).drop_last() =~= all.take(i as int));
        assert(all.take(i + 1).last() == (k@, v@));
        proof {
            lemma_removed_in_members_prefix(all, cmd@, i + 1);
        }
        let ghost kv = members_view(kept@);
        match v {
            Json::Array(gs) => {
                let ghost gsv = items_view(gs@);
                let (g2, c) = uninstall_group_list(gs, cmd);
                removed = removed + c;
                if g2.len() > 0 {
                    let ghost g2v = items_view(g2@);
                    let ghost old_kept = kept@;
                    kept.push((k, Json::Array(g2)));
                    proof {
                        crate::json::lemma_members_view(old_kept);
                        crate::json::lemma_members_view(kept@);
                        assert(kept@.drop_last() =~= old_kept);
                    }
                    assert(members_view(kept@) =~= kv.push((k@, JsonV::Array(g2v))));
                }
            },
            other => {
                let ghost old_kept = kept@;
                kept.push((k, other));
                proof {
                    crate::json::lemma_members_view(old_kept);
                    crate::json::lemma_members_view(kept@);
                    assert(kept@.drop_last() =~= old_kept);
                }
                assert(members_view(kept@) =~= kv.push((k@, other@)));
            },
        }
        i = i + 1;
    }
    assert(all.take(n as int) =~= all);
    (kept, removed)
}

/// Removes every hook entry that runs `command` from the settings document `value`;
/// returns how many were removed. Groups, events and the `hooks` object that become
/// empty are removed as well; all other content is kept.
pub fn merge_uninstall(value: &mut Json, command: &str) -> (r: usize)
    requires
        uninstall_outcome(old(value)@, command@).1 <= usize::MAX,
    ensures
        final(value)@ == uninstall_outcome(old(value)@, command@).0,
        r == uninstall_outcome(old(value)@, command@).1,
{
    let mut v = Json::Null;
    std::mem::swap(&mut v, value);
    match v {
        Json::Object(mut root) => {
            let ghost rv = members_view(root@);
            proof {
                lemma_key_pos(rv, "hooks"@);
            }
            match find_member(&root, "hooks") {
                None => {
                    *value = Json::Object(root);
                    0
                },
                Some(q) => {
                    let (k, hv) = root.remove(q);
                    match hv {
                        Json::Object(h) => {
                            assert(rv[q as int] == (k@, JsonV::Object(members_view(h@))));
                            let (h2, n) = uninstall_member_list(h, command);
                            if h2.len() == 0 {
                                assert(root@.len() == rv.len() - 1);
                                assert(members_view(root@) =~= rv.remove(q as int));
                            } else {
                                let ghost h2v = members_view(h2@);
                                root.insert(q, (k, Json::Object(h2)));
                                assert(members_view(root@) =~= rv.update(q as int, ("hooks"@, JsonV::Object(h2v))));
                            }
                            *value = Json::Object(root);
                            n
                        },
                        other => {
                            root.insert(q, (k, other));
                            assert(members_view(root@) =~= rv);
                            *value = Json::Object(root);
                            0
                        },
                    }
                },
            }
        },
        other => {
            *value = other;
            0
        },
    }
}

/// One matcher group runs `cmd`: its `hooks` member is an array with an entry that runs it.
pub open spec fn group_has_command(g: JsonV, cmd: Seq<char>) -> bool {
    match member(g, "hooks"@) {
        Some(JsonV::Array(hs)) => any_has_command(hs, cmd),
        _ => false,
    }
}

/// An event's value is an array of matcher groups, one of which runs `cmd`.
pub open spec fn groups_have_command(groups: JsonV, cmd: Seq<char>) -> bool {
    match groups {
        JsonV::Array(gs) => any_group_has_command(gs, cmd),
        _ => false,
    }
}

/// Some group of `gs` runs `cmd`.
pub open spec fn any_group_has_command(gs: Seq<JsonV>, cmd: Seq<char>) -> bool {
    exists|i: int| 0 <= i < gs.len() && #[trigger] group_has_command(gs[i], cmd)
}

/// `event` is wired in the settings document: `hooks.<event>` has a group that runs `cmd`.
pub open spec fn event_wired(v: JsonV, event: Seq<char>, cmd: Seq<char>) -> bool {
    match member(v, "hooks"@) {
        Some(h) => match member(h, event) {
            Some(groups) => groups_have_command(groups, cmd),
            None => false,
        },
        None => false,
    }
}

fn group_runs(g: &Json, command: &str) -> (r: bool)
    ensures
        r == group_has_command(g@, command@),
{
    match g {
        Json::Object(m) => match find_member(m, "hooks") {
            Some(i) => match &m[i].1 {
                Json::Array(hs) => any_runs(hs, command),
                _ => false,
            },
            None => false,
        },
        _ => false,
    }
}

proof fn lemma_groups_have_command(gv: Seq<JsonV>, c: Seq<char>, i: int)
    requires
        0 <= i < gv.len(),
        group_has_command(gv[i], c),
    ensures
        groups_have_command(JsonV::Array(gv), c),
{
}

/// Whether the value of an event member is an array of matcher groups one of which has
/// an entry running `command`.
pub fn event_has_command_in_groups(groups: &Json, command: &str) -> (r: bool)
    ensures
        r == groups_have_command(groups@, command@),
{
    match groups {
        Json::Array(gs) => {
            let ghost gv = items_view(gs@);
            let mut i: usize = 0;
            while i < gs.len()
                invariant
                    i <= gs@.len(),
                    gv == items_view(gs@),
                    groups@ == JsonV::Array(gv),
                    gv.len() == gs@.len(),
                    forall|j: int| 0 <= j < gs@.len() ==> gv[j] == gs@[j]@,
                    forall|j: int| 0 <= j < i ==> !group_has_command(gv[j], command@),
                decreases gs@.len() - i,
            {
                if group_runs(&gs[i], command) {
                    proof {
                        lemma_groups_have_command(gv, command@, i as int);
                    }
                    return true;
                }
                i = i + 1;
            }
            false
        },
        _ => false,
    }
}

/// Whether `hooks.<event>` of the settings document has an entry running `command`.
pub fn event_has_command(value: &Json, event: &str, command: &str) -> (r: bool)
    ensures
        r == event_wired(value@, event@, command@),
{
    match value {
        Json::Object(root) => {
            proof {
                lemma_key_pos(members_view(root@), "hooks"@);
            }
            match find_member(root, "hooks") {
                Some(q) => match &root[q].1 {
                    Json::Object(h) => {
                        proof {
                            lemma_key_pos(members_view(h@), event@);
                        }
                        match find_member(h, event) {
                            Some(e) => event_has_command_in_groups(&h[e].1, command),
                            None => false,
                        }
                    },
                    _ => false,
                },
                None => false,
            }
        },
        _ => false,
    }
}

/// For each canonical event, in order, its name and whether it is wired to `command`.
pub fn enumerate_status(value: &Json, command: &str) -> (r: Vec<(&'static str, bool)>)
    ensures
        r@.len() == 25,
        forall|i: int|
            0 <= i < 25 ==> (#[trigger] r@[i]).0@ == canonical_name(i) && r@[i].1 == event_wired(
                value@,
                canonical_name(i),
                command@,
            ),
{
    let mut out: Vec<(&'static str, bool)> = Vec::new();
    let mut i: usize = 0;
    while i < 25
        invariant
            i <= 25,
            out@.len() == i,
            forall|j: int|
                0 <= j < i ==> (#[trigger] out@[j]).0@ == canonical_name(j) && out@[j].1 == event_wired(
                    value@,
                    canonical_name(j),
                    command@,
                ),
        decreases 25 - i,
    {
        let name = EventType::at_index(i).as_str();
        let wired = event_has_command(value, name, command);
        out.push((name, wired));
        i = i + 1;
    }
    out
}

} // verus!

verus! {

/// The canonical event names, in order: the events the wrapper is wired to.
pub fn canonical_events() -> (r: Vec<&'static str>)
    ensures
        r@.len() == 25,
        forall|i: int| 0 <= i < 25 ==> (#[trigger] r@[i])@ == canonical_name(i),
{
    let mut out: Vec<&'static str> = Vec::new();
    let mut i: usize = 0;
    while i < 25
        invariant
            i <= 25,
            out@.len() == i,
            forall|j: int| 0 <= j < i ==> (#[trigger] out@[j])@ == canonical_name(j),
        decreases 25 - i,
    {
        out.push(EventType::at_index(i).as_str());
        i = i + 1;
    }
    out
}

/// Whether `name` is one of the canonical event names.
fn is_canonical_name(name: &str) -> (r: bool)
    ensures
        r == is_canonical(name@),
{
    match EventType::from_hook_name(name) {
        Some(e) => {
            proof {
                crate::events::lemma_event_index_roundtrip(e);
                assert(canonical_name(event_index(e)) == name@);
            }
            true
        },
        None => {
            proof {
                assert forall|i: int| 0 <= i < 25 implies canonical_name(i) != name@ by {
                    assert(event_type_name(event_at(i)) != name@);
                }
            }
            false
        },
    }
}

/// The members of `hooks` outside the canonical list whose groups run `cmd`, in order.
pub open spec fn unknown_names(h: Seq<(Seq<char>, JsonV)>, cmd: Seq<char>) -> Seq<Seq<char>>
    decreases h.len(),
{
    if h.len() == 0 {
        Seq::empty()
    } else {
        let rest = unknown_names(h.drop_last(), cmd);
        if !is_canonical(h.last().0) && groups_have_command(h.last().1, cmd) {
            rest.push(h.last().0)
        } else {
            rest
        }
    }
}

/// The events of a settings document outside the canonical list that run `cmd`, in order.
pub open spec fn unknown_event_names(v: JsonV, cmd: Seq<char>) -> Seq<Seq<char>> {
    match member(v, "hooks"@) {
        Some(JsonV::Object(h)) => unknown_names(h, cmd),
        _ => Seq::empty(),
    }
}

proof fn lemma_insert_to_multiset<A>(s: Seq<A>, p: int, x: A)
    requires
        0 <= p <= s.len(),
    ensures
        s.insert(p, x).to_multiset() == s.to_multiset().insert(x),
{
    broadcast use vstd::seq_lib::group_to_multiset_ensures, vstd::multiset::group_multiset_axioms;

    let t = s.insert(p, x);
    assert(t.remove(p) =~= s);
    vstd::seq_lib::to_multiset_remove(t, p);
    assert(t.contains(x)) by {
        assert(t[p] == x);
    }
    assert(t.to_multiset().count(x) > 0);
    assert(t.to_multiset() =~= s.to_multiset().insert(x));
}

/// Inserts `x` into the sorted `out`, after the strings that sort before or equal to it.
fn insert_sorted(out: &mut Vec<String>, x: String)
    requires
        vstd::relations::sorted_by(strings_view(old(out)@), crate::text::lex_order()),
    ensures
        vstd::relations::sorted_by(strings_view(final(out)@), crate::text::lex_order()),
        strings_view(final(out)@).to_multiset() == strings_view(old(out)@).to_multiset().insert(
            x@,
        ),
{
    let ghost s = strings_view(out@);
    let ghost r = crate::text::lex_order();
    proof {
        crate::text::lemma_lex_total_ordering();
    }
    let n: usize = out.len();
    let mut p: usize = 0;
    while p < n && crate::text::str_le(out[p].as_str(), x.as_str())
        invariant
            n == out@.len(),
            p <= n,
            s == strings_view(out@),
            s.len() == n,
            r == crate::text::lex_order(),
            forall|j: int| 0 <= j < p ==> #[trigger] r(s[j], x@),
        decreases n - p,
    {
        p = p + 1;
    }
    proof {
        if p < n {
            crate::text::lemma_lex_total(s[p as int], x@, 0);
            assert(r(x@, s[p as int]));
            assert forall|j: int| p <= j < n implies #[trigger] r(x@, s[j]) by {
                if j > p {
                    assert(r(s[p as int], s[j]));
                }
            }
        }
    }
    out.insert(p, x);
    proof {
        let t = strings_view(out@);
        assert(t =~= s.insert(p as int, x@));
        lemma_insert_to_multiset(s, p as int, x@);
        assert forall|i: int, j: int| 0 <= i < j < t.len() implies #[trigger] r(t[i], t[j]) by {
            if j < p {
                assert(r(s[i], s[j]));
            } else if j == p {
            } else if i < p {
                assert(r(s[i], x@));
                assert(r(x@, s[j - 1]));
            } else if i == p {
            } else {
                assert(r(s[i - 1], s[j - 1]));
            }
        }
    }
}

/// The events that hold an entry running `command` in the settings document but are not in
/// the canonical list, sorted: drift between this library's list and the settings.
pub fn unknown_events(value: &Json, command: &str) -> (r: Vec<String>)
    ensures
        strings_view(r@) == unknown_event_names(value@, command@).sort_by(
            crate::text::lex_order(),
        ),
{
    let mut out: Vec<String> = Vec::new();
    let ghost r = crate::text::lex_order();
    let ghost names: Seq<Seq<char>> = Seq::empty();
    proof {
        crate::text::lemma_lex_total_ordering();
        assert(strings_view(out@) =~= Seq::<Seq<char>>::empty());
    }
    match value {
        Json::Object(root) => {
            proof {
                lemma_key_pos(members_view(root@), "hooks"@);
            }
            match find_member(root, "hooks") {
                Some(q) => match &root[q].1 {
                    Json::Object(h) => {
                        let ghost hv = members_view(h@);
                        proof {
                            crate::json::lemma_members_view(h@);
                        }
                        let n: usize = h.len();
                        let mut i: usize = 0;
                        while i < n
                            invariant
                                n == h@.len(),
                                i <= n,
                                hv == members_view(h@),
                                hv.len() == n,
                                forall|j: int| 0 <= j < n ==> hv[j] == (h@[j].0@, h@[j].1@),
                                r == crate::text::lex_order(),
                                vstd::relations::sorted_by(strings_view(out@), r),
                                strings_view(out@).to_multiset() == unknown_names(
                                    hv.take(i as int),
                                    command@,
                                ).to_multiset(),
                            decreases n - i,
                        {
                            let ghost before = hv.take(i as int);
                            proof {
                                assert(hv.take(i as int + 1).drop_last() =~= before);
                                assert(hv.take(i as int + 1).last() == hv[i as int]);
                            }
                            let name = &h[i].0;
                            if !is_canonical_name(name.as_str()) && event_has_command_in_groups(
                                &h[i].1,
                                command,
                            ) {
                                insert_sorted(&mut out, name.clone());
                                proof {
                                    vstd::seq_lib::to_multiset_build(
                                        unknown_names(before, command@),
                                        name@,
                                    );
                                }
                            }
                            i = i + 1;
                        }
                        proof {
                            assert(hv.take(n as int) =~= hv);
                            names = unknown_names(hv, command@);
                        }
                    },
                    _ => {},
                },
                None => {},
            }
        },
        _ => {},
    }
    proof {
        assert(names == unknown_event_names(value@, command@));
        names.lemma_sort_by_ensures(r);
        vstd::seq_lib::lemma_sorted_unique(strings_view(out@), names.sort_by(r), r);
    }
    out
}

} // verus!
