//! The hook input read from stdin, and what of it is kept beside an event.

use vstd::prelude::*;
use crate::events::{event_type_name, EventType};
use crate::json::{clone_items, items_view, key_pos, lemma_key_pos, lemma_members_view, member, members_view, Json, JsonV};

verus! {

broadcast use vstd::std_specs::vec::group_vec_axioms, crate::json::group_json_view;

/// The JSON object that a hook receives, field by field. Fields that the sender leaves out
/// are `None`.
#[derive(Debug)]
pub struct HookInput {
    pub session_id: String,
    pub transcript_path: Option<String>,
    pub cwd: Option<String>,
    pub permission_mode: Option<String>,
    pub hook_event_name: String,
    // Tool events
    pub tool_name: Option<String>,
    pub tool_input: Option<Json>,
    pub tool_use_id: Option<String>,
    pub tool_response: Option<Json>,
    // Session events
    pub source: Option<String>,
    pub model: Option<String>,
    pub reason: Option<String>,
    // Stop events
    pub stop_hook_active: Option<bool>,
    pub last_assistant_message: Option<String>,
    // StopFailure
    pub error: Option<String>,
    pub error_details: Option<String>,
    pub is_interrupt: Option<bool>,
    // User prompt
    pub prompt: Option<String>,
    // Subagent events
    pub agent_id: Option<String>,
    pub agent_type: Option<String>,
    pub agent_transcript_path: Option<String>,
    // Task events
    pub task_id: Option<String>,
    pub task_subject: Option<String>,
    pub task_description: Option<String>,
    pub teammate_name: Option<String>,
    pub team_name: Option<String>,
    // File events
    pub file_path: Option<String>,
    pub change_type: Option<String>,
    // Compaction events
    pub compaction_trigger: Option<String>,
    // Elicitation events
    pub mcp_server_name: Option<String>,
    pub fields: Option<Vec<Json>>,
    // ElicitationResult
    pub result_action: Option<String>,
    pub result_content: Option<Json>,
    // Notification
    pub message: Option<String>,
    pub title: Option<String>,
    pub notification_type: Option<String>,
}

/// A hook event name that is not one of the event types.
#[derive(Clone, Debug)]
pub struct UnknownHookEvent {
    pub name: String,
}

impl UnknownHookEvent {
    /// The message shown for the error.
    pub fn message(&self) -> (r: String)
        ensures
            r@ == "Unknown hook event: "@ + self.name@,
    {
        let mut out = "Unknown hook event: ".to_string();
        out.append(self.name.as_str());
        out
    }
}

/// A member `key` holding the string `v`, when there is one.
pub open spec fn str_member(key: Seq<char>, v: Option<String>) -> Seq<(Seq<char>, JsonV)> {
    match v {
        Some(s) => seq![(key, JsonV::Str(s@))],
        None => Seq::empty(),
    }
}

/// A member `key` holding the boolean `v`, when there is one.
pub open spec fn bool_member(key: Seq<char>, v: Option<bool>) -> Seq<(Seq<char>, JsonV)> {
    match v {
        Some(b) => seq![(key, JsonV::Bool(b))],
        None => Seq::empty(),
    }
}

/// A member `key` holding the array `v`, when there is one.
pub open spec fn array_member(key: Seq<char>, v: Option<Vec<Json>>) -> Seq<(Seq<char>, JsonV)> {
    match v {
        Some(a) => seq![(key, JsonV::Array(items_view(a@)))],
        None => Seq::empty(),
    }
}

/// A member `key` holding the value `v`, when there is one.
pub open spec fn value_member(key: Seq<char>, v: Option<Json>) -> Seq<(Seq<char>, JsonV)> {
    match v {
        Some(x) => seq![(key, x@)],
        None => Seq::empty(),
    }
}

/// The members of an event's metadata: the small fields that the hook input has, in this
/// order. The large ones (`tool_input`, `tool_response`, `last_assistant_message`) and the
/// fields stored in columns of their own are left out.
pub open spec fn metadata_members(h: HookInput) -> Seq<(Seq<char>, JsonV)> {
        str_member("transcript_path"@, h.transcript_path)
        + str_member("permission_mode"@, h.permission_mode)
        + str_member("source"@, h.source)
        + str_member("model"@, h.model)
        + str_member("reason"@, h.reason)
        + bool_member("stop_hook_active"@, h.stop_hook_active)
        + str_member("error"@, h.error)
        + str_member("error_details"@, h.error_details)
        + bool_member("is_interrupt"@, h.is_interrupt)
        + str_member("prompt"@, h.prompt)
        + str_member("agent_id"@, h.agent_id)
        + str_member("agent_type"@, h.agent_type)
        + str_member("agent_transcript_path"@, h.agent_transcript_path)
        + str_member("task_id"@, h.task_id)
        + str_member("task_subject"@, h.task_subject)
        + str_member("task_description"@, h.task_description)
        + str_member("teammate_name"@, h.teammate_name)
        + str_member("team_name"@, h.team_name)
        + str_member("file_path"@, h.file_path)
        + str_member("change_type"@, h.change_type)
        + str_member("compaction_trigger"@, h.compaction_trigger)
        + str_member("mcp_server_name"@, h.mcp_server_name)
        + array_member("fields"@, h.fields)
        + str_member("result_action"@, h.result_action)
        + value_member("result_content"@, h.result_content)
        + str_member("message"@, h.message)
        + str_member("title"@, h.title)
        + str_member("notification_type"@, h.notification_type)
}

fn push_str(m: &mut Vec<(String, Json)>, key: &str, v: &Option<String>)
    ensures
        members_view(final(m)@) == members_view(old(m)@) + str_member(key@, *v),
{
    proof {
        lemma_members_view(old(m)@);
    }
    if let Some(s) = v {
        m.push((key.to_string(), Json::Str(s.clone())));
        proof {
            lemma_members_view(m@);
            assert(members_view(m@) =~= members_view(old(m)@) + str_member(key@, *v));
        }
    } else {
        assert(members_view(m@) =~= members_view(old(m)@) + str_member(key@, *v));
    }
}

fn push_bool(m: &mut Vec<(String, Json)>, key: &str, v: Option<bool>)
    ensures
        members_view(final(m)@) == members_view(old(m)@) + bool_member(key@, v),
{
    proof {
        lemma_members_view(old(m)@);
    }
    if let Some(b) = v {
        m.push((key.to_string(), Json::Bool(b)));
        proof {
            lemma_members_view(m@);
            assert(members_view(m@) =~= members_view(old(m)@) + bool_member(key@, v));
        }
    } else {
        assert(members_view(m@) =~= members_view(old(m)@) + bool_member(key@, v));
    }
}

fn push_array(m: &mut Vec<(String, Json)>, key: &str, v: &Option<Vec<Json>>)
    ensures
        members_view(final(m)@) == members_view(old(m)@) + array_member(key@, *v),
{
    proof {
        lemma_members_view(old(m)@);
    }
    if let Some(a) = v {
        m.push((key.to_string(), Json::Array(clone_items(a))));
        proof {
            lemma_members_view(m@);
            assert(members_view(m@) =~= members_view(old(m)@) + array_member(key@, *v));
        }
    } else {
        assert(members_view(m@) =~= members_view(old(m)@) + array_member(key@, *v));
    }
}

fn push_value(m: &mut Vec<(String, Json)>, key: &str, v: &Option<Json>)
    ensures
        members_view(final(m)@) == members_view(old(m)@) + value_member(key@, *v),
{
    proof {
        lemma_members_view(old(m)@);
    }
    if let Some(x) = v {
        m.push((key.to_string(), x.deep_clone()));
        proof {
            lemma_members_view(m@);
            assert(members_view(m@) =~= members_view(old(m)@) + value_member(key@, *v));
        }
    } else {
        assert(members_view(m@) =~= members_view(old(m)@) + value_member(key@, *v));
    }
}

impl HookInput {
    /// The event type that `hook_event_name` names.
    pub fn event_type(&self) -> (r: Result<EventType, UnknownHookEvent>)
        ensures
            match r {
                Ok(e) => event_type_name(e) == self.hook_event_name@,
                Err(u) => u.name@ == self.hook_event_name@ && forall|e: EventType|
                    event_type_name(e) != self.hook_event_name@,
            },
    {
        match EventType::from_hook_name(self.hook_event_name.as_str()) {
            Some(e) => Ok(e),
            None => Err(UnknownHookEvent { name: self.hook_event_name.clone() }),
        }
    }

    /// The metadata kept beside the event: an object of the small fields present (see
    /// `metadata_members`).
    pub fn metadata(&self) -> (r: Json)
        ensures
            r@ == JsonV::Object(metadata_members(*self)),
    {
        let mut m: Vec<(String, Json)> = Vec::new();
        proof {
            lemma_members_view(m@);
            assert(members_view(m@) =~= Seq::<(Seq<char>, JsonV)>::empty());
        }
        push_str(&mut m, "transcript_path", &self.transcript_path);
        push_str(&mut m, "permission_mode", &self.permission_mode);
        push_str(&mut m, "source", &self.source);
        push_str(&mut m, "model", &self.model);
        push_str(&mut m, "reason", &self.reason);
        push_bool(&mut m, "stop_hook_active", self.stop_hook_active);
        push_str(&mut m, "error", &self.error);
        push_str(&mut m, "error_details", &self.error_details);
        push_bool(&mut m, "is_interrupt", self.is_interrupt);
        push_str(&mut m, "prompt", &self.prompt);
        push_str(&mut m, "agent_id", &self.agent_id);
        push_str(&mut m, "agent_type", &self.agent_type);
        push_str(&mut m, "agent_transcript_path", &self.agent_transcript_path);
        push_str(&mut m, "task_id", &self.task_id);
        push_str(&mut m, "task_subject", &self.task_subject);
        push_str(&mut m, "task_description", &self.task_description);
        push_str(&mut m, "teammate_name", &self.teammate_name);
        push_str(&mut m, "team_name", &self.team_name);
        push_str(&mut m, "file_path", &self.file_path);
        push_str(&mut m, "change_type", &self.change_type);
        push_str(&mut m, "compaction_trigger", &self.compaction_trigger);
        push_str(&mut m, "mcp_server_name", &self.mcp_server_name);
        push_array(&mut m, "fields", &self.fields);
        push_str(&mut m, "result_action", &self.result_action);
        push_value(&mut m, "result_content", &self.result_content);
        push_str(&mut m, "message", &self.message);
        push_str(&mut m, "title", &self.title);
        push_str(&mut m, "notification_type", &self.notification_type);
        proof {
            assert(members_view(m@) =~= metadata_members(*self));
        }
        Json::Object(m)
    }
}

/// No member of `m` has key `k`.
pub open spec fn lacks_key(m: Seq<(Seq<char>, JsonV)>, k: Seq<char>) -> bool {
    forall|j: int| 0 <= j < m.len() ==> #[trigger] m[j].0 != k
}

proof fn lacks_append(a: Seq<(Seq<char>, JsonV)>, b: Seq<(Seq<char>, JsonV)>, k: Seq<char>) -> (r: Seq<(Seq<char>, JsonV)>)
    requires
        lacks_key(a, k),
        lacks_key(b, k),
    ensures
        r == a + b,
        lacks_key(r, k),
{
    assert forall|j: int| 0 <= j < (a + b).len() implies #[trigger] (a + b)[j].0 != k by {
        if j < a.len() {
            assert((a + b)[j] == a[j]);
        } else {
            assert((a + b)[j] == b[j - a.len()]);
        }
    }
    a + b
}

/// The members of the metadata all have keys from its list of small fields.
proof fn lemma_metadata_lacks(h: HookInput, k: Seq<char>)
    requires
        "transcript_path"@ != k,
        "permission_mode"@ != k,
        "source"@ != k,
        "model"@ != k,
        "reason"@ != k,
        "stop_hook_active"@ != k,
        "error"@ != k,
        "error_details"@ != k,
        "is_interrupt"@ != k,
        "prompt"@ != k,
        "agent_id"@ != k,
        "agent_type"@ != k,
        "agent_transcript_path"@ != k,
        "task_id"@ != k,
        "task_subject"@ != k,
        "task_description"@ != k,
        "teammate_name"@ != k,
        "team_name"@ != k,
        "file_path"@ != k,
        "change_type"@ != k,
        "compaction_trigger"@ != k,
        "mcp_server_name"@ != k,
        "fields"@ != k,
        "result_action"@ != k,
        "result_content"@ != k,
        "message"@ != k,
        "title"@ != k,
        "notification_type"@ != k,
    ensures
        lacks_key(metadata_members(h), k),
{
    let mut acc = str_member("transcript_path"@, h.transcript_path);
    acc = lacks_append(acc, str_member("permission_mode"@, h.permission_mode), k);
    acc = lacks_append(acc, str_member("source"@, h.source), k);
    acc = lacks_append(acc, str_member("model"@, h.model), k);
    acc = lacks_append(acc, str_member("reason"@, h.reason), k);
    acc = lacks_append(acc, bool_member("stop_hook_active"@, h.stop_hook_active), k);
    acc = lacks_append(acc, str_member("error"@, h.error), k);
    acc = lacks_append(acc, str_member("error_details"@, h.error_details), k);
    acc = lacks_append(acc, bool_member("is_interrupt"@, h.is_interrupt), k);
    acc = lacks_append(acc, str_member("prompt"@, h.prompt), k);
    acc = lacks_append(acc, str_member("agent_id"@, h.agent_id), k);
    acc = lacks_append(acc, str_member("agent_type"@, h.agent_type), k);
    acc = lacks_append(acc, str_member("agent_transcript_path"@, h.agent_transcript_path), k);
    acc = lacks_append(acc, str_member("task_id"@, h.task_id), k);
    acc = lacks_append(acc, str_member("task_subject"@, h.task_subject), k);
    acc = lacks_append(acc, str_member("task_description"@, h.task_description), k);
    acc = lacks_append(acc, str_member("teammate_name"@, h.teammate_name), k);
    acc = lacks_append(acc, str_member("team_name"@, h.team_name), k);
    acc = lacks_append(acc, str_member("file_path"@, h.file_path), k);
    acc = lacks_append(acc, str_member("change_type"@, h.change_type), k);
    acc = lacks_append(acc, str_member("compaction_trigger"@, h.compaction_trigger), k);
    acc = lacks_append(acc, str_member("mcp_server_name"@, h.mcp_server_name), k);
    acc = lacks_append(acc, array_member("fields"@, h.fields), k);
    acc = lacks_append(acc, str_member("result_action"@, h.result_action), k);
    acc = lacks_append(acc, value_member("result_content"@, h.result_content), k);
    acc = lacks_append(acc, str_member("message"@, h.message), k);
    acc = lacks_append(acc, str_member("title"@, h.title), k);
    acc = lacks_append(acc, str_member("notification_type"@, h.notification_type), k);
    assert(acc == metadata_members(h));
}

/// None of the large fields shares its key with a small field of the metadata.
proof fn lemma_not_a_small_field(k: Seq<char>)
    requires
        k == "tool_input"@ || k == "tool_response"@ || k == "last_assistant_message"@,
    ensures
        "transcript_path"@ != k,
        "permission_mode"@ != k,
        "source"@ != k,
        "model"@ != k,
        "reason"@ != k,
        "stop_hook_active"@ != k,
        "error"@ != k,
        "error_details"@ != k,
        "is_interrupt"@ != k,
        "prompt"@ != k,
        "agent_id"@ != k,
        "agent_type"@ != k,
        "agent_transcript_path"@ != k,
        "task_id"@ != k,
        "task_subject"@ != k,
        "task_description"@ != k,
        "teammate_name"@ != k,
        "team_name"@ != k,
        "file_path"@ != k,
        "change_type"@ != k,
        "compaction_trigger"@ != k,
        "mcp_server_name"@ != k,
        "fields"@ != k,
        "result_action"@ != k,
        "result_content"@ != k,
        "message"@ != k,
        "title"@ != k,
        "notification_type"@ != k,
{
    reveal_strlit("tool_input");
    reveal_strlit("tool_response");
    reveal_strlit("last_assistant_message");
    reveal_strlit("transcript_path");
    reveal_strlit("permission_mode");
    reveal_strlit("source");
    reveal_strlit("model");
    reveal_strlit("reason");
    reveal_strlit("stop_hook_active");
    reveal_strlit("error");
    reveal_strlit("error_details");
    reveal_strlit("is_interrupt");
    reveal_strlit("prompt");
    reveal_strlit("agent_id");
    reveal_strlit("agent_type");
    reveal_strlit("agent_transcript_path");
    reveal_strlit("task_id");
    reveal_strlit("task_subject");
    reveal_strlit("task_description");
    reveal_strlit("teammate_name");
    reveal_strlit("team_name");
    reveal_strlit("file_path");
    reveal_strlit("change_type");
    reveal_strlit("compaction_trigger");
    reveal_strlit("mcp_server_name");
    reveal_strlit("fields");
    reveal_strlit("result_action");
    reveal_strlit("result_content");
    reveal_strlit("message");
    reveal_strlit("title");
    reveal_strlit("notification_type");
    if k == "tool_input"@ {
        assert("transcript_path"@.len() != k.len());
        assert("permission_mode"@.len() != k.len());
        assert("source"@.len() != k.len());
        assert("model"@.len() != k.len());
        assert("reason"@.len() != k.len());
        assert("stop_hook_active"@.len() != k.len());
        assert("error"@.len() != k.len());
        assert("error_details"@.len() != k.len());
        assert("is_interrupt"@.len() != k.len());
        assert("prompt"@.len() != k.len());
        assert("agent_id"@.len() != k.len());
        assert("agent_type"@[0] != k[0]);
        assert("agent_transcript_path"@.len() != k.len());
        assert("task_id"@.len() != k.len());
        assert("task_subject"@.len() != k.len());
        assert("task_description"@.len() != k.len());
        assert("teammate_name"@.len() != k.len());
        assert("team_name"@.len() != k.len());
        assert("file_path"@.len() != k.len());
        assert("change_type"@.len() != k.len());
        assert("compaction_trigger"@.len() != k.len());
        assert("mcp_server_name"@.len() != k.len());
        assert("fields"@.len() != k.len());
        assert("result_action"@.len() != k.len());
        assert("result_content"@.len() != k.len());
        assert("message"@.len() != k.len());
        assert("title"@.len() != k.len());
        assert("notification_type"@.len() != k.len());
    } else if k == "tool_response"@ {
        assert("transcript_path"@.len() != k.len());
        assert("permission_mode"@.len() != k.len());
        assert("source"@.len() != k.len());
        assert("model"@.len() != k.len());
        assert("reason"@.len() != k.len());
        assert("stop_hook_active"@.len() != k.len());
        assert("error"@.len() != k.len());
        assert("error_details"@[0] != k[0]);
        assert("is_interrupt"@.len() != k.len());
        assert("prompt"@.len() != k.len());
        assert("agent_id"@.len() != k.len());
        assert("agent_type"@.len() != k.len());
        assert("agent_transcript_path"@.len() != k.len());
        assert("task_id"@.len() != k.len());
        assert("task_subject"@.len() != k.len());
        assert("task_description"@.len() != k.len());
        assert("teammate_name"@[1] != k[1]);
        assert("team_name"@.len() != k.len());
        assert("file_path"@.len() != k.len());
        assert("change_type"@.len() != k.len());
        assert("compaction_trigger"@.len() != k.len());
        assert("mcp_server_name"@.len() != k.len());
        assert("fields"@.len() != k.len());
        assert("result_action"@[0] != k[0]);
        assert("result_content"@.len() != k.len());
        assert("message"@.len() != k.len());
        assert("title"@.len() != k.len());
        assert("notification_type"@.len() != k.len());
    } else if k == "last_assistant_message"@ {
        assert("transcript_path"@.len() != k.len());
        assert("permission_mode"@.len() != k.len());
        assert("source"@.len() != k.len());
        assert("model"@.len() != k.len());
        assert("reason"@.len() != k.len());
        assert("stop_hook_active"@.len() != k.len());
        assert("error"@.len() != k.len());
        assert("error_details"@.len() != k.len());
        assert("is_interrupt"@.len() != k.len());
        assert("prompt"@.len() != k.len());
        assert("agent_id"@.len() != k.len());
        assert("agent_type"@.len() != k.len());
        assert("agent_transcript_path"@.len() != k.len());
        assert("task_id"@.len() != k.len());
        assert("task_subject"@.len() != k.len());
        assert("task_description"@.len() != k.len());
        assert("teammate_name"@.len() != k.len());
        assert("team_name"@.len() != k.len());
        assert("file_path"@.len() != k.len());
        assert("change_type"@.len() != k.len());
        assert("compaction_trigger"@.len() != k.len());
        assert("mcp_server_name"@.len() != k.len());
        assert("fields"@.len() != k.len());
        assert("result_action"@.len() != k.len());
        assert("result_content"@.len() != k.len());
        assert("message"@.len() != k.len());
        assert("title"@.len() != k.len());
        assert("notification_type"@.len() != k.len());
    }
}

/// The metadata leaves out the large fields of the input: the tool's input and response and
/// the last assistant message never go into it.
pub proof fn law_metadata_leaves_out_large_fields(h: HookInput)
    ensures
        member(JsonV::Object(metadata_members(h)), "tool_input"@) is None,
        member(JsonV::Object(metadata_members(h)), "tool_response"@) is None,
        member(JsonV::Object(metadata_members(h)), "last_assistant_message"@) is None,
{
    let m = metadata_members(h);
    lemma_not_a_small_field("tool_input"@);
    lemma_not_a_small_field("tool_response"@);
    lemma_not_a_small_field("last_assistant_message"@);
    lemma_metadata_lacks(h, "tool_input"@);
    lemma_metadata_lacks(h, "tool_response"@);
    lemma_metadata_lacks(h, "last_assistant_message"@);
    lemma_key_pos(m, "tool_input"@);
    lemma_key_pos(m, "tool_response"@);
    lemma_key_pos(m, "last_assistant_message"@);
}

/// The keys of the small fields, in the order the metadata lists them.
pub open spec fn small_keys() -> Seq<Seq<char>> {
    seq![
        "transcript_path"@,
        "permission_mode"@,
        "source"@,
        "model"@,
        "reason"@,
        "stop_hook_active"@,
        "error"@,
        "error_details"@,
        "is_interrupt"@,
        "prompt"@,
        "agent_id"@,
        "agent_type"@,
        "agent_transcript_path"@,
        "task_id"@,
        "task_subject"@,
        "task_description"@,
        "teammate_name"@,
        "team_name"@,
        "file_path"@,
        "change_type"@,
        "compaction_trigger"@,
        "mcp_server_name"@,
        "fields"@,
        "result_action"@,
        "result_content"@,
        "message"@,
        "title"@,
        "notification_type"@,
    ]
}

/// The metadata's members field by field: each small field's member, or nothing.
pub open spec fn metadata_terms(h: HookInput) -> Seq<Seq<(Seq<char>, JsonV)>> {
    seq![
        str_member("transcript_path"@, h.transcript_path),
        str_member("permission_mode"@, h.permission_mode),
        str_member("source"@, h.source),
        str_member("model"@, h.model),
        str_member("reason"@, h.reason),
        bool_member("stop_hook_active"@, h.stop_hook_active),
        str_member("error"@, h.error),
        str_member("error_details"@, h.error_details),
        bool_member("is_interrupt"@, h.is_interrupt),
        str_member("prompt"@, h.prompt),
        str_member("agent_id"@, h.agent_id),
        str_member("agent_type"@, h.agent_type),
        str_member("agent_transcript_path"@, h.agent_transcript_path),
        str_member("task_id"@, h.task_id),
        str_member("task_subject"@, h.task_subject),
        str_member("task_description"@, h.task_description),
        str_member("teammate_name"@, h.teammate_name),
        str_member("team_name"@, h.team_name),
        str_member("file_path"@, h.file_path),
        str_member("change_type"@, h.change_type),
        str_member("compaction_trigger"@, h.compaction_trigger),
        str_member("mcp_server_name"@, h.mcp_server_name),
        array_member("fields"@, h.fields),
        str_member("result_action"@, h.result_action),
        value_member("result_content"@, h.result_content),
        str_member("message"@, h.message),
        str_member("title"@, h.title),
        str_member("notification_type"@, h.notification_type),
    ]
}

/// The member lists of `ts` one after another.
pub open spec fn concat_members(ts: Seq<Seq<(Seq<char>, JsonV)>>) -> Seq<(Seq<char>, JsonV)>
    decreases ts.len(),
{
    if ts.len() == 0 {
        Seq::empty()
    } else {
        concat_members(ts.drop_last()) + ts.last()
    }
}

/// The small field keys differ from one another.
proof fn lemma_small_keys_distinct(i: int, j: int)
    requires
        0 <= j < i < 28,
    ensures
        small_keys()[j] != small_keys()[i],
{
    reveal_strlit("transcript_path");
    reveal_strlit("permission_mode");
    reveal_strlit("source");
    reveal_strlit("model");
    reveal_strlit("reason");
    reveal_strlit("stop_hook_active");
    reveal_strlit("error");
    reveal_strlit("error_details");
    reveal_strlit("is_interrupt");
    reveal_strlit("prompt");
    reveal_strlit("agent_id");
    reveal_strlit("agent_type");
    reveal_strlit("agent_transcript_path");
    reveal_strlit("task_id");
    reveal_strlit("task_subject");
    reveal_strlit("task_description");
    reveal_strlit("teammate_name");
    reveal_strlit("team_name");
    reveal_strlit("file_path");
    reveal_strlit("change_type");
    reveal_strlit("compaction_trigger");
    reveal_strlit("mcp_server_name");
    reveal_strlit("fields");
    reveal_strlit("result_action");
    reveal_strlit("result_content");
    reveal_strlit("message");
    reveal_strlit("title");
    reveal_strlit("notification_type");
    if i == 1 {
        if j == 0 {
            assert("transcript_path"@[0] != "permission_mode"@[0]);
        }
    } else if i == 2 {
        if j == 0 {
            assert("transcript_path"@.len() != "source"@.len());
        } else if j == 1 {
            assert("permission_mode"@.len() != "source"@.len());
        }
    } else if i == 3 {
        if j == 0 {
            assert("transcript_path"@.len() != "model"@.len());
        } else if j == 1 {
            assert("permission_mode"@.len() != "model"@.len());
        } else if j == 2 {
            assert("source"@.len() != "model"@.len());
        }
    } else if i == 4 {
        if j == 0 {
            assert("transcript_path"@.len() != "reason"@.len());
        } else if j == 1 {
            assert("permission_mode"@.len() != "reason"@.len());
        } else if j == 2 {
            assert("source"@[0] != "reason"@[0]);
        } else if j == 3 {
            assert("model"@.len() != "reason"@.len());
        }
    } else if i == 5 {
        if j == 0 {
            assert("transcript_path"@.len() != "stop_hook_active"@.len());
        } else if j == 1 {
            assert("permission_mode"@.len() != "stop_hook_active"@.len());
        } else if j == 2 {
            assert("source"@.len() != "stop_hook_active"@.len());
        } else if j == 3 {
            assert("model"@.len() != "stop_hook_active"@.len());
        } else if j == 4 {
            assert("reason"@.len() != "stop_hook_active"@.len());
        }
    } else if i == 6 {
        if j == 0 {
            assert("transcript_path"@.len() != "error"@.len());
        } else if j == 1 {
            assert("permission_mode"@.len() != "error"@.len());
        } else if j == 2 {
            assert("source"@.len() != "error"@.len());
        } else if j == 3 {
            assert("model"@[0] != "error"@[0]);
        } else if j == 4 {
            assert("reason"@.len() != "error"@.len());
        } else if j == 5 {
            assert("stop_hook_active"@.len() != "error"@.len());
        }
    } else if i == 7 {
        if j == 0 {
            assert("transcript_path"@.len() != "error_details"@.len());
        } else if j == 1 {
            assert("permission_mode"@.len() != "error_details"@.len());
        } else if j == 2 {
            assert("source"@.len() != "error_details"@.len());
        } else if j == 3 {
            assert("model"@.len() != "error_details"@.len());
        } else if j == 4 {
            assert("reason"@.len() != "error_details"@.len());
        } else if j == 5 {
            assert("stop_hook_active"@.len() != "error_details"@.len());
        } else if j == 6 {
            assert("error"@.len() != "error_details"@.len());
        }
    } else if i == 8 {
        if j == 0 {
            assert("transcript_path"@.len() != "is_interrupt"@.len());
        } else if j == 1 {
            assert("permission_mode"@.len() != "is_interrupt"@.len());
        } else if j == 2 {
            assert("source"@.len() != "is_interrupt"@.len());
        } else if j == 3 {
            assert("model"@.len() != "is_interrupt"@.len());
        } else if j == 4 {
            assert("reason"@.len() != "is_interrupt"@.len());
        } else if j == 5 {
            assert("stop_hook_active"@.len() != "is_interrupt"@.len());
        } else if j == 6 {
            assert("error"@.len() != "is_interrupt"@.len());
        } else if j == 7 {
            assert("error_details"@.len() != "is_interrupt"@.len());
        }
    } else if i == 9 {
        if j == 0 {
            assert("transcript_path"@.len() != "prompt"@.len());
        } else if j == 1 {
            assert("permission_mode"@.len() != "prompt"@.len());
        } else if j == 2 {
            assert("source"@[0] != "prompt"@[0]);
        } else if j == 3 {
            assert("model"@.len() != "prompt"@.len());
        } else if j == 4 {
            assert("reason"@[0] != "prompt"@[0]);
        } else if j == 5 {
            assert("stop_hook_active"@.len() != "prompt"@.len());
        } else if j == 6 {
            assert("error"@.len() != "prompt"@.len());
        } else if j == 7 {
            assert("error_details"@.len() != "prompt"@.len());
        } else if j == 8 {
            assert("is_interrupt"@.len() != "prompt"@.len());
        }
    } else if i == 10 {
        if j == 0 {
            assert("transcript_path"@.len() != "agent_id"@.len());
        } else if j == 1 {
            assert("permission_mode"@.len() != "agent_id"@.len());
        } else if j == 2 {
            assert("source"@.len() != "agent_id"@.len());
        } else if j == 3 {
            assert("model"@.len() != "agent_id"@.len());
        } else if j == 4 {
            assert("reason"@.len() != "agent_id"@.len());
        } else if j == 5 {
            assert("stop_hook_active"@.len() != "agent_id"@.len());
        } else if j == 6 {
            assert("error"@.len() != "agent_id"@.len());
        } else if j == 7 {
            assert("error_details"@.len() != "agent_id"@.len());
        } else if j == 8 {
            assert("is_interrupt"@.len() != "agent_id"@.len());
        } else if j == 9 {
            assert("prompt"@.len() != "agent_id"@.len());
        }
    } else if i == 11 {
        if j == 0 {
            assert("transcript_path"@.len() != "agent_type"@.len());
        } else if j == 1 {
            assert("permission_mode"@.len() != "agent_type"@.len());
        } else if j == 2 {
            assert("source"@.len() != "agent_type"@.len());
        } else if j == 3 {
            assert("model"@.len() != "agent_type"@.len());
        } else if j == 4 {
            assert("reason"@.len() != "agent_type"@.len());
        } else if j == 5 {
            assert("stop_hook_active"@.len() != "agent_type"@.len());
        } else if j == 6 {
            assert("error"@.len() != "agent_type"@.len());
        } else if j == 7 {
            assert("error_details"@.len() != "agent_type"@.len());
        } else if j == 8 {
            assert("is_interrupt"@.len() != "agent_type"@.len());
        } else if j == 9 {
            assert("prompt"@.len() != "agent_type"@.len());
        } else if j == 10 {
            assert("agent_id"@.len() != "agent_type"@.len());
        }
    } else if i == 12 {
        if j == 0 {
            assert("transcript_path"@.len() != "agent_transcript_path"@.len());
        } else if j == 1 {
            assert("permission_mode"@.len() != "agent_transcript_path"@.len());
        } else if j == 2 {
            assert("source"@.len() != "agent_transcript_path"@.len());
        } else if j == 3 {
            assert("model"@.len() != "agent_transcript_path"@.len());
        } else if j == 4 {
            assert("reason"@.len() != "agent_transcript_path"@.len());
        } else if j == 5 {
            assert("stop_hook_active"@.len() != "agent_transcript_path"@.len());
        } else if j == 6 {
            assert("error"@.len() != "agent_transcript_path"@.len());
        } else if j == 7 {
            assert("error_details"@.len() != "agent_transcript_path"@.len());
        } else if j == 8 {
            assert("is_interrupt"@.len() != "agent_transcript_path"@.len());
        } else if j == 9 {
            assert("prompt"@.len() != "agent_transcript_path"@.len());
        } else if j == 10 {
            assert("agent_id"@.len() != "agent_transcript_path"@.len());
        } else if j == 11 {
            assert("agent_type"@.len() != "agent_transcript_path"@.len());
        }
    } else if i == 13 {
        if j == 0 {
            assert("transcript_path"@.len() != "task_id"@.len());
        } else if j == 1 {
            assert("permission_mode"@.len() != "task_id"@.len());
        } else if j == 2 {
            assert("source"@.len() != "task_id"@.len());
        } else if j == 3 {
            assert("model"@.len() != "task_id"@.len());
        } else if j == 4 {
            assert("reason"@.len() != "task_id"@.len());
        } else if j == 5 {
            assert("stop_hook_active"@.len() != "task_id"@.len());
        } else if j == 6 {
            assert("error"@.len() != "task_id"@.len());
        } else if j == 7 {
            assert("error_details"@.len() != "task_id"@.len());
        } else if j == 8 {
            assert("is_interrupt"@.len() != "task_id"@.len());
        } else if j == 9 {
            assert("prompt"@.len() != "task_id"@.len());
        } else if j == 10 {
            assert("agent_id"@.len() != "task_id"@.len());
        } else if j == 11 {
            assert("agent_type"@.len() != "task_id"@.len());
        } else if j == 12 {
            assert("agent_transcript_path"@.len() != "task_id"@.len());
        }
    } else if i == 14 {
        if j == 0 {
            assert("transcript_path"@.len() != "task_subject"@.len());
        } else if j == 1 {
            assert("permission_mode"@.len() != "task_subject"@.len());
        } else if j == 2 {
            assert("source"@.len() != "task_subject"@.len());
        } else if j == 3 {
            assert("model"@.len() != "task_subject"@.len());
        } else if j == 4 {
            assert("reason"@.len() != "task_subject"@.len());
        } else if j == 5 {
            assert("stop_hook_active"@.len() != "task_subject"@.len());
        } else if j == 6 {
            assert("error"@.len() != "task_subject"@.len());
        } else if j == 7 {
            assert("error_details"@.len() != "task_subject"@.len());
        } else if j == 8 {
            assert("is_interrupt"@[0] != "task_subject"@[0]);
        } else if j == 9 {
            assert("prompt"@.len() != "task_subject"@.len());
        } else if j == 10 {
            assert("agent_id"@.len() != "task_subject"@.len());
        } else if j == 11 {
            assert("agent_type"@.len() != "task_subject"@.len());
        } else if j == 12 {
            assert("agent_transcript_path"@.len() != "task_subject"@.len());
        } else if j == 13 {
            assert("task_id"@.len() != "task_subject"@.len());
        }
    } else if i == 15 {
        if j == 0 {
            assert("transcript_path"@.len() != "task_description"@.len());
        } else if j == 1 {
            assert("permission_mode"@.len() != "task_description"@.len());
        } else if j == 2 {
            assert("source"@.len() != "task_description"@.len());
        } else if j == 3 {
            assert("model"@.len() != "task_description"@.len());
        } else if j == 4 {
            assert("reason"@.len() != "task_description"@.len());
        } else if j == 5 {
            assert("stop_hook_active"@[0] != "task_description"@[0]);
        } else if j == 6 {
            assert("error"@.len() != "task_description"@.len());
        } else if j == 7 {
            assert("error_details"@.len() != "task_description"@.len());
        } else if j == 8 {
            assert("is_interrupt"@.len() != "task_description"@.len());
        } else if j == 9 {
            assert("prompt"@.len() != "task_description"@.len());
        } else if j == 10 {
            assert("agent_id"@.len() != "task_description"@.len());
        } else if j == 11 {
            assert("agent_type"@.len() != "task_description"@.len());
        } else if j == 12 {
            assert("agent_transcript_path"@.len() != "task_description"@.len());
        } else if j == 13 {
            assert("task_id"@.len() != "task_description"@.len());
        } else if j == 14 {
            assert("task_subject"@.len() != "task_description"@.len());
        }
    } else if i == 16 {
        if j == 0 {
            assert("transcript_path"@.len() != "teammate_name"@.len());
        } else if j == 1 {
            assert("permission_mode"@.len() != "teammate_name"@.len());
        } else if j == 2 {
            assert("source"@.len() != "teammate_name"@.len());
        } else if j == 3 {
            assert("model"@.len() != "teammate_name"@.len());
        } else if j == 4 {
            assert("reason"@.len() != "teammate_name"@.len());
        } else if j == 5 {
            assert("stop_hook_active"@.len() != "teammate_name"@.len());
        } else if j == 6 {
            assert("error"@.len() != "teammate_name"@.len());
        } else if j == 7 {
            assert("error_details"@[0] != "teammate_name"@[0]);
        } else if j == 8 {
            assert("is_interrupt"@.len() != "teammate_name"@.len());
        } else if j == 9 {
            assert("prompt"@.len() != "teammate_name"@.len());
        } else if j == 10 {
            assert("agent_id"@.len() != "teammate_name"@.len());
        } else if j == 11 {
            assert("agent_type"@.len() != "teammate_name"@.len());
        } else if j == 12 {
            assert("agent_transcript_path"@.len() != "teammate_name"@.len());
        } else if j == 13 {
            assert("task_id"@.len() != "teammate_name"@.len());
        } else if j == 14 {
            assert("task_subject"@.len() != "teammate_name"@.len());
        } else if j == 15 {
            assert("task_description"@.len() != "teammate_name"@.len());
        }
    } else if i == 17 {
        if j == 0 {
            assert("transcript_path"@.len() != "team_name"@.len());
        } else if j == 1 {
            assert("permission_mode"@.len() != "team_name"@.len());
        } else if j == 2 {
            assert("source"@.len() != "team_name"@.len());
        } else if j == 3 {
            assert("model"@.len() != "team_name"@.len());
        } else if j == 4 {
            assert("reason"@.len() != "team_name"@.len());
        } else if j == 5 {
            assert("stop_hook_active"@.len() != "team_name"@.len());
        } else if j == 6 {
            assert("error"@.len() != "team_name"@.len());
        } else if j == 7 {
            assert("error_details"@.len() != "team_name"@.len());
        } else if j == 8 {
            assert("is_interrupt"@.len() != "team_name"@.len());
        } else if j == 9 {
            assert("prompt"@.len() != "team_name"@.len());
        } else if j == 10 {
            assert("agent_id"@.len() != "team_name"@.len());
        } else if j == 11 {
            assert("agent_type"@.len() != "team_name"@.len());
        } else if j == 12 {
            assert("agent_transcript_path"@.len() != "team_name"@.len());
        } else if j == 13 {
            assert("task_id"@.len() != "team_name"@.len());
        } else if j == 14 {
            assert("task_subject"@.len() != "team_name"@.len());
        } else if j == 15 {
            assert("task_description"@.len() != "team_name"@.len());
        } else if j == 16 {
            assert("teammate_name"@.len() != "team_name"@.len());
        }
    } else if i == 18 {
        if j == 0 {
            assert("transcript_path"@.len() != "file_path"@.len());
        } else if j == 1 {
            assert("permission_mode"@.len() != "file_path"@.len());
        } else if j == 2 {
            assert("source"@.len() != "file_path"@.len());
        } else if j == 3 {
            assert("model"@.len() != "file_path"@.len());
        } else if j == 4 {
            assert("reason"@.len() != "file_path"@.len());
        } else if j == 5 {
            assert("stop_hook_active"@.len() != "file_path"@.len());
        } else if j == 6 {
            assert("error"@.len() != "file_path"@.len());
        } else if j == 7 {
            assert("error_details"@.len() != "file_path"@.len());
        } else if j == 8 {
            assert("is_interrupt"@.len() != "file_path"@.len());
        } else if j == 9 {
            assert("prompt"@.len() != "file_path"@.len());
        } else if j == 10 {
            assert("agent_id"@.len() != "file_path"@.len());
        } else if j == 11 {
            assert("agent_type"@.len() != "file_path"@.len());
        } else if j == 12 {
            assert("agent_transcript_path"@.len() != "file_path"@.len());
        } else if j == 13 {
            assert("task_id"@.len() != "file_path"@.len());
        } else if j == 14 {
            assert("task_subject"@.len() != "file_path"@.len());
        } else if j == 15 {
            assert("task_description"@.len() != "file_path"@.len());
        } else if j == 16 {
            assert("teammate_name"@.len() != "file_path"@.len());
        } else if j == 17 {
            assert("team_name"@[0] != "file_path"@[0]);
        }
    } else if i == 19 {
        if j == 0 {
            assert("transcript_path"@.len() != "change_type"@.len());
        } else if j == 1 {
            assert("permission_mode"@.len() != "change_type"@.len());
        } else if j == 2 {
            assert("source"@.len() != "change_type"@.len());
        } else if j == 3 {
            assert("model"@.len() != "change_type"@.len());
        } else if j == 4 {
            assert("reason"@.len() != "change_type"@.len());
        } else if j == 5 {
            assert("stop_hook_active"@.len() != "change_type"@.len());
        } else if j == 6 {
            assert("error"@.len() != "change_type"@.len());
        } else if j == 7 {
            assert("error_details"@.len() != "change_type"@.len());
        } else if j == 8 {
            assert("is_interrupt"@.len() != "change_type"@.len());
        } else if j == 9 {
            assert("prompt"@.len() != "change_type"@.len());
        } else if j == 10 {
            assert("agent_id"@.len() != "change_type"@.len());
        } else if j == 11 {
            assert("agent_type"@.len() != "change_type"@.len());
        } else if j == 12 {
            assert("agent_transcript_path"@.len() != "change_type"@.len());
        } else if j == 13 {
            assert("task_id"@.len() != "change_type"@.len());
        } else if j == 14 {
            assert("task_subject"@.len() != "change_type"@.len());
        } else if j == 15 {
            assert("task_description"@.len() != "change_type"@.len());
        } else if j == 16 {
            assert("teammate_name"@.len() != "change_type"@.len());
        } else if j == 17 {
            assert("team_name"@.len() != "change_type"@.len());
        } else if j == 18 {
            assert("file_path"@.len() != "change_type"@.len());
        }
    } else if i == 20 {
        if j == 0 {
            assert("transcript_path"@.len() != "compaction_trigger"@.len());
        } else if j == 1 {
            assert("permission_mode"@.len() != "compaction_trigger"@.len());
        } else if j == 2 {
            assert("source"@.len() != "compaction_trigger"@.len());
        } else if j == 3 {
            assert("model"@.len() != "compaction_trigger"@.len());
        } else if j == 4 {
            assert("reason"@.len() != "compaction_trigger"@.len());
        } else if j == 5 {
            assert("stop_hook_active"@.len() != "compaction_trigger"@.len());
        } else if j == 6 {
            assert("error"@.len() != "compaction_trigger"@.len());
        } else if j == 7 {
            assert("error_details"@.len() != "compaction_trigger"@.len());
        } else if j == 8 {
            assert("is_interrupt"@.len() != "compaction_trigger"@.len());
        } else if j == 9 {
            assert("prompt"@.len() != "compaction_trigger"@.len());
        } else if j == 10 {
            assert("agent_id"@.len() != "compaction_trigger"@.len());
        } else if j == 11 {
            assert("agent_type"@.len() != "compaction_trigger"@.len());
        } else if j == 12 {
            assert("agent_transcript_path"@.len() != "compaction_trigger"@.len());
        } else if j == 13 {
            assert("task_id"@.len() != "compaction_trigger"@.len());
        } else if j == 14 {
            assert("task_subject"@.len() != "compaction_trigger"@.len());
        } else if j == 15 {
            assert("task_description"@.len() != "compaction_trigger"@.len());
        } else if j == 16 {
            assert("teammate_name"@.len() != "compaction_trigger"@.len());
        } else if j == 17 {
            assert("team_name"@.len() != "compaction_trigger"@.len());
        } else if j == 18 {
            assert("file_path"@.len() != "compaction_trigger"@.len());
        } else if j == 19 {
            assert("change_type"@.len() != "compaction_trigger"@.len());
        }
    } else if i == 21 {
        if j == 0 {
            assert("transcript_path"@[0] != "mcp_server_name"@[0]);
        } else if j == 1 {
            assert("permission_mode"@[0] != "mcp_server_name"@[0]);
        } else if j == 2 {
            assert("source"@.len() != "mcp_server_name"@.len());
        } else if j == 3 {
            assert("model"@.len() != "mcp_server_name"@.len());
        } else if j == 4 {
            assert("reason"@.len() != "mcp_server_name"@.len());
        } else if j == 5 {
            assert("stop_hook_active"@.len() != "mcp_server_name"@.len());
        } else if j == 6 {
            assert("error"@.len() != "mcp_server_name"@.len());
        } else if j == 7 {
            assert("error_details"@.len() != "mcp_server_name"@.len());
        } else if j == 8 {
            assert("is_interrupt"@.len() != "mcp_server_name"@.len());
        } else if j == 9 {
            assert("prompt"@.len() != "mcp_server_name"@.len());
        } else if j == 10 {
            assert("agent_id"@.len() != "mcp_server_name"@.len());
        } else if j == 11 {
            assert("agent_type"@.len() != "mcp_server_name"@.len());
        } else if j == 12 {
            assert("agent_transcript_path"@.len() != "mcp_server_name"@.len());
        } else if j == 13 {
            assert("task_id"@.len() != "mcp_server_name"@.len());
        } else if j == 14 {
            assert("task_subject"@.len() != "mcp_server_name"@.len());
        } else if j == 15 {
            assert("task_description"@.len() != "mcp_server_name"@.len());
        } else if j == 16 {
            assert("teammate_name"@.len() != "mcp_server_name"@.len());
        } else if j == 17 {
            assert("team_name"@.len() != "mcp_server_name"@.len());
        } else if j == 18 {
            assert("file_path"@.len() != "mcp_server_name"@.len());
        } else if j == 19 {
            assert("change_type"@.len() != "mcp_server_name"@.len());
        } else if j == 20 {
            assert("compaction_trigger"@.len() != "mcp_server_name"@.len());
        }
    } else if i == 22 {
        if j == 0 {
            assert("transcript_path"@.len() != "fields"@.len());
        } else if j == 1 {
            assert("permission_mode"@.len() != "fields"@.len());
        } else if j == 2 {
            assert("source"@[0] != "fields"@[0]);
        } else if j == 3 {
            assert("model"@.len() != "fields"@.len());
        } else if j == 4 {
            assert("reason"@[0] != "fields"@[0]);
        } else if j == 5 {
            assert("stop_hook_active"@.len() != "fields"@.len());
        } else if j == 6 {
            assert("error"@.len() != "fields"@.len());
        } else if j == 7 {
            assert("error_details"@.len() != "fields"@.len());
        } else if j == 8 {
            assert("is_interrupt"@.len() != "fields"@.len());
        } else if j == 9 {
            assert("prompt"@[0] != "fields"@[0]);
        } else if j == 10 {
            assert("agent_id"@.len() != "fields"@.len());
        } else if j == 11 {
            assert("agent_type"@.len() != "fields"@.len());
        } else if j == 12 {
            assert("agent_transcript_path"@.len() != "fields"@.len());
        } else if j == 13 {
            assert("task_id"@.len() != "fields"@.len());
        } else if j == 14 {
            assert("task_subject"@.len() != "fields"@.len());
        } else if j == 15 {
            assert("task_description"@.len() != "fields"@.len());
        } else if j == 16 {
            assert("teammate_name"@.len() != "fields"@.len());
        } else if j == 17 {
            assert("team_name"@.len() != "fields"@.len());
        } else if j == 18 {
            assert("file_path"@.len() != "fields"@.len());
        } else if j == 19 {
            assert("change_type"@.len() != "fields"@.len());
        } else if j == 20 {
            assert("compaction_trigger"@.len() != "fields"@.len());
        } else if j == 21 {
            assert("mcp_server_name"@.len() != "fields"@.len());
        }
    } else if i == 23 {
        if j == 0 {
            assert("transcript_path"@.len() != "result_action"@.len());
        } else if j == 1 {
            assert("permission_mode"@.len() != "result_action"@.len());
        } else if j == 2 {
            assert("source"@.len() != "result_action"@.len());
        } else if j == 3 {
            assert("model"@.len() != "result_action"@.len());
        } else if j == 4 {
            assert("reason"@.len() != "result_action"@.len());
        } else if j == 5 {
            assert("stop_hook_active"@.len() != "result_action"@.len());
        } else if j == 6 {
            assert("error"@.len() != "result_action"@.len());
        } else if j == 7 {
            assert("error_details"@[0] != "result_action"@[0]);
        } else if j == 8 {
            assert("is_interrupt"@.len() != "result_action"@.len());
        } else if j == 9 {
            assert("prompt"@.len() != "result_action"@.len());
        } else if j == 10 {
            assert("agent_id"@.len() != "result_action"@.len());
        } else if j == 11 {
            assert("agent_type"@.len() != "result_action"@.len());
        } else if j == 12 {
            assert("agent_transcript_path"@.len() != "result_action"@.len());
        } else if j == 13 {
            assert("task_id"@.len() != "result_action"@.len());
        } else if j == 14 {
            assert("task_subject"@.len() != "result_action"@.len());
        } else if j == 15 {
            assert("task_description"@.len() != "result_action"@.len());
        } else if j == 16 {
            assert("teammate_name"@[0] != "result_action"@[0]);
        } else if j == 17 {
            assert("team_name"@.len() != "result_action"@.len());
        } else if j == 18 {
            assert("file_path"@.len() != "result_action"@.len());
        } else if j == 19 {
            assert("change_type"@.len() != "result_action"@.len());
        } else if j == 20 {
            assert("compaction_trigger"@.len() != "result_action"@.len());
        } else if j == 21 {
            assert("mcp_server_name"@.len() != "result_action"@.len());
        } else if j == 22 {
            assert("fields"@.len() != "result_action"@.len());
        }
    } else if i == 24 {
        if j == 0 {
            assert("transcript_path"@.len() != "result_content"@.len());
        } else if j == 1 {
            assert("permission_mode"@.len() != "result_content"@.len());
        } else if j == 2 {
            assert("source"@.len() != "result_content"@.len());
        } else if j == 3 {
            assert("model"@.len() != "result_content"@.len());
        } else if j == 4 {
            assert("reason"@.len() != "result_content"@.len());
        } else if j == 5 {
            assert("stop_hook_active"@.len() != "result_content"@.len());
        } else if j == 6 {
            assert("error"@.len() != "result_content"@.len());
        } else if j == 7 {
            assert("error_details"@.len() != "result_content"@.len());
        } else if j == 8 {
            assert("is_interrupt"@.len() != "result_content"@.len());
        } else if j == 9 {
            assert("prompt"@.len() != "result_content"@.len());
        } else if j == 10 {
            assert("agent_id"@.len() != "result_content"@.len());
        } else if j == 11 {
            assert("agent_type"@.len() != "result_content"@.len());
        } else if j == 12 {
            assert("agent_transcript_path"@.len() != "result_content"@.len());
        } else if j == 13 {
            assert("task_id"@.len() != "result_content"@.len());
        } else if j == 14 {
            assert("task_subject"@.len() != "result_content"@.len());
        } else if j == 15 {
            assert("task_description"@.len() != "result_content"@.len());
        } else if j == 16 {
            assert("teammate_name"@.len() != "result_content"@.len());
        } else if j == 17 {
            assert("team_name"@.len() != "result_content"@.len());
        } else if j == 18 {
            assert("file_path"@.len() != "result_content"@.len());
        } else if j == 19 {
            assert("change_type"@.len() != "result_content"@.len());
        } else if j == 20 {
            assert("compaction_trigger"@.len() != "result_content"@.len());
        } else if j == 21 {
            assert("mcp_server_name"@.len() != "result_content"@.len());
        } else if j == 22 {
            assert("fields"@.len() != "result_content"@.len());
        } else if j == 23 {
            assert("result_action"@.len() != "result_content"@.len());
        }
    } else if i == 25 {
        if j == 0 {
            assert("transcript_path"@.len() != "message"@.len());
        } else if j == 1 {
            assert("permission_mode"@.len() != "message"@.len());
        } else if j == 2 {
            assert("source"@.len() != "message"@.len());
        } else if j == 3 {
            assert("model"@.len() != "message"@.len());
        } else if j == 4 {
            assert("reason"@.len() != "message"@.len());
        } else if j == 5 {
            assert("stop_hook_active"@.len() != "message"@.len());
        } else if j == 6 {
            assert("error"@.len() != "message"@.len());
        } else if j == 7 {
            assert("error_details"@.len() != "message"@.len());
        } else if j == 8 {
            assert("is_interrupt"@.len() != "message"@.len());
        } else if j == 9 {
            assert("prompt"@.len() != "message"@.len());
        } else if j == 10 {
            assert("agent_id"@.len() != "message"@.len());
        } else if j == 11 {
            assert("agent_type"@.len() != "message"@.len());
        } else if j == 12 {
            assert("agent_transcript_path"@.len() != "message"@.len());
        } else if j == 13 {
            assert("task_id"@[0] != "message"@[0]);
        } else if j == 14 {
            assert("task_subject"@.len() != "message"@.len());
        } else if j == 15 {
            assert("task_description"@.len() != "message"@.len());
        } else if j == 16 {
            assert("teammate_name"@.len() != "message"@.len());
        } else if j == 17 {
            assert("team_name"@.len() != "message"@.len());
        } else if j == 18 {
            assert("file_path"@.len() != "message"@.len());
        } else if j == 19 {
            assert("change_type"@.len() != "message"@.len());
        } else if j == 20 {
            assert("compaction_trigger"@.len() != "message"@.len());
        } else if j == 21 {
            assert("mcp_server_name"@.len() != "message"@.len());
        } else if j == 22 {
            assert("fields"@.len() != "message"@.len());
        } else if j == 23 {
            assert("result_action"@.len() != "message"@.len());
        } else if j == 24 {
            assert("result_content"@.len() != "message"@.len());
        }
    } else if i == 26 {
        if j == 0 {
            assert("transcript_path"@.len() != "title"@.len());
        } else if j == 1 {
            assert("permission_mode"@.len() != "title"@.len());
        } else if j == 2 {
            assert("source"@.len() != "title"@.len());
        } else if j == 3 {
            assert("model"@[0] != "title"@[0]);
        } else if j == 4 {
            assert("reason"@.len() != "title"@.len());
        } else if j == 5 {
            assert("stop_hook_active"@.len() != "title"@.len());
        } else if j == 6 {
            assert("error"@[0] != "title"@[0]);
        } else if j == 7 {
            assert("error_details"@.len() != "title"@.len());
        } else if j == 8 {
            assert("is_interrupt"@.len() != "title"@.len());
        } else if j == 9 {
            assert("prompt"@.len() != "title"@.len());
        } else if j == 10 {
            assert("agent_id"@.len() != "title"@.len());
        } else if j == 11 {
            assert("agent_type"@.len() != "title"@.len());
        } else if j == 12 {
            assert("agent_transcript_path"@.len() != "title"@.len());
        } else if j == 13 {
            assert("task_id"@.len() != "title"@.len());
        } else if j == 14 {
            assert("task_subject"@.len() != "title"@.len());
        } else if j == 15 {
            assert("task_description"@.len() != "title"@.len());
        } else if j == 16 {
            assert("teammate_name"@.len() != "title"@.len());
        } else if j == 17 {
            assert("team_name"@.len() != "title"@.len());
        } else if j == 18 {
            assert("file_path"@.len() != "title"@.len());
        } else if j == 19 {
            assert("change_type"@.len() != "title"@.len());
        } else if j == 20 {
            assert("compaction_trigger"@.len() != "title"@.len());
        } else if j == 21 {
            assert("mcp_server_name"@.len() != "title"@.len());
        } else if j == 22 {
            assert("fields"@.len() != "title"@.len());
        } else if j == 23 {
            assert("result_action"@.len() != "title"@.len());
        } else if j == 24 {
            assert("result_content"@.len() != "title"@.len());
        } else if j == 25 {
            assert("message"@.len() != "title"@.len());
        }
    } else if i == 27 {
        if j == 0 {
            assert("transcript_path"@.len() != "notification_type"@.len());
        } else if j == 1 {
            assert("permission_mode"@.len() != "notification_type"@.len());
        } else if j == 2 {
            assert("source"@.len() != "notification_type"@.len());
        } else if j == 3 {
            assert("model"@.len() != "notification_type"@.len());
        } else if j == 4 {
            assert("reason"@.len() != "notification_type"@.len());
        } else if j == 5 {
            assert("stop_hook_active"@.len() != "notification_type"@.len());
        } else if j == 6 {
            assert("error"@.len() != "notification_type"@.len());
        } else if j == 7 {
            assert("error_details"@.len() != "notification_type"@.len());
        } else if j == 8 {
            assert("is_interrupt"@.len() != "notification_type"@.len());
        } else if j == 9 {
            assert("prompt"@.len() != "notification_type"@.len());
        } else if j == 10 {
            assert("agent_id"@.len() != "notification_type"@.len());
        } else if j == 11 {
            assert("agent_type"@.len() != "notification_type"@.len());
        } else if j == 12 {
            assert("agent_transcript_path"@.len() != "notification_type"@.len());
        } else if j == 13 {
            assert("task_id"@.len() != "notification_type"@.len());
        } else if j == 14 {
            assert("task_subject"@.len() != "notification_type"@.len());
        } else if j == 15 {
            assert("task_description"@.len() != "notification_type"@.len());
        } else if j == 16 {
            assert("teammate_name"@.len() != "notification_type"@.len());
        } else if j == 17 {
            assert("team_name"@.len() != "notification_type"@.len());
        } else if j == 18 {
            assert("file_path"@.len() != "notification_type"@.len());
        } else if j == 19 {
            assert("change_type"@.len() != "notification_type"@.len());
        } else if j == 20 {
            assert("compaction_trigger"@.len() != "notification_type"@.len());
        } else if j == 21 {
            assert("mcp_server_name"@.len() != "notification_type"@.len());
        } else if j == 22 {
            assert("fields"@.len() != "notification_type"@.len());
        } else if j == 23 {
            assert("result_action"@.len() != "notification_type"@.len());
        } else if j == 24 {
            assert("result_content"@.len() != "notification_type"@.len());
        } else if j == 25 {
            assert("message"@.len() != "notification_type"@.len());
        } else if j == 26 {
            assert("title"@.len() != "notification_type"@.len());
        }
    }
}

/// Each field's member list is empty or holds one member under that field's key, and the
/// metadata is those lists one after another.
proof fn lemma_metadata_terms(h: HookInput)
    ensures
        metadata_terms(h).len() == 28,
        metadata_members(h) == concat_members(metadata_terms(h)),
        forall|j: int|
            0 <= j < 28 ==> (#[trigger] metadata_terms(h)[j]).len() == 0 || (metadata_terms(h)[j].len()
                == 1 && metadata_terms(h)[j][0].0 == small_keys()[j]),
{
    let ts = metadata_terms(h);
    reveal_with_fuel(concat_members, 29);
    assert(metadata_members(h) =~= concat_members(ts));
    assert forall|j: int|
        0 <= j < 28 implies (#[trigger] metadata_terms(h)[j]).len() == 0 || (metadata_terms(h)[j].len()
            == 1 && metadata_terms(h)[j][0].0 == small_keys()[j]) by {
        if j == 0 {
        } else if j == 1 {
        } else if j == 2 {
        } else if j == 3 {
        } else if j == 4 {
        } else if j == 5 {
        } else if j == 6 {
        } else if j == 7 {
        } else if j == 8 {
        } else if j == 9 {
        } else if j == 10 {
        } else if j == 11 {
        } else if j == 12 {
        } else if j == 13 {
        } else if j == 14 {
        } else if j == 15 {
        } else if j == 16 {
        } else if j == 17 {
        } else if j == 18 {
        } else if j == 19 {
        } else if j == 20 {
        } else if j == 21 {
        } else if j == 22 {
        } else if j == 23 {
        } else if j == 24 {
        } else if j == 25 {
        } else if j == 26 {
        } else if j == 27 {
        }
    }
}

/// Once a key is found, appending members leaves its value.
proof fn lemma_member_append(a: Seq<(Seq<char>, JsonV)>, b: Seq<(Seq<char>, JsonV)>, k: Seq<char>)
    requires
        key_pos(a, k) >= 0,
    ensures
        member(JsonV::Object(a + b), k) == member(JsonV::Object(a), k),
{
    lemma_key_pos(a, k);
    let p = key_pos(a, k);
    assert((a + b)[p] == a[p]);
    assert forall|j: int| 0 <= j < p implies (a + b)[j].0 != k by {
        assert((a + b)[j] == a[j]);
    }
    crate::json::lemma_key_pos_at(a + b, k, p);
}

/// The member lists of `ts` that all lack `k` make a list that lacks it.
proof fn lemma_concat_lacks(ts: Seq<Seq<(Seq<char>, JsonV)>>, k: Seq<char>)
    requires
        forall|j: int| 0 <= j < ts.len() ==> lacks_key(#[trigger] ts[j], k),
    ensures
        lacks_key(concat_members(ts), k),
    decreases ts.len(),
{
    if ts.len() > 0 {
        let d = ts.drop_last();
        assert forall|j: int| 0 <= j < d.len() implies lacks_key(#[trigger] d[j], k) by {
            assert(d[j] == ts[j]);
        }
        lemma_concat_lacks(d, k);
        assert(lacks_key(ts[ts.len() - 1], k));
        lacks_append(concat_members(d), ts.last(), k);
    }
}

/// The value of `k` in the lists of `ts` one after another is `v` when the list at `i` is
/// the single member `(k, v)` and no earlier list has `k`.
proof fn lemma_member_concat(ts: Seq<Seq<(Seq<char>, JsonV)>>, i: int, k: Seq<char>, v: JsonV)
    requires
        0 <= i < ts.len(),
        ts[i] == seq![(k, v)],
        forall|j: int| 0 <= j < i ==> lacks_key(#[trigger] ts[j], k),
    ensures
        member(JsonV::Object(concat_members(ts)), k) == Some(v),
        key_pos(concat_members(ts), k) >= 0,
    decreases ts.len(),
{
    let d = ts.drop_last();
    if i == ts.len() - 1 {
        assert forall|j: int| 0 <= j < d.len() implies lacks_key(#[trigger] d[j], k) by {
            assert(d[j] == ts[j]);
        }
        lemma_concat_lacks(d, k);
        let a = concat_members(d);
        let c = a + seq![(k, v)];
        assert(c[a.len() as int] == (k, v));
        assert forall|j: int| 0 <= j < a.len() implies c[j].0 != k by {
            assert(c[j] == a[j]);
        }
        crate::json::lemma_key_pos_at(c, k, a.len() as int);
    } else {
        assert forall|j: int| 0 <= j < i implies lacks_key(#[trigger] d[j], k) by {
            assert(d[j] == ts[j]);
        }
        lemma_member_concat(d, i, k, v);
        lemma_member_append(concat_members(d), ts.last(), k);
        lemma_key_pos(concat_members(d) + ts.last(), k);
    }
}

/// A small field present in the input is a member of the metadata with its value.
proof fn lemma_small_field_kept(h: HookInput, i: int, v: JsonV)
    requires
        0 <= i < 28,
        metadata_terms(h)[i] == seq![(small_keys()[i], v)],
    ensures
        member(JsonV::Object(metadata_members(h)), small_keys()[i]) == Some(v),
{
    lemma_metadata_terms(h);
    let ts = metadata_terms(h);
    let k = small_keys()[i];
    assert forall|j: int| 0 <= j < i implies lacks_key(#[trigger] ts[j], k) by {
        lemma_small_keys_distinct(i, j);
        assert(ts[j].len() == 0 || ts[j][0].0 == small_keys()[j]);
    }
    lemma_member_concat(ts, i, k, v);
}

proof fn lemma_small_fields_kept_0(h: HookInput)
    ensures
        h.transcript_path matches Some(x) ==> member(JsonV::Object(metadata_members(h)), "transcript_path"@) == Some(JsonV::Str(x@)),
        h.permission_mode matches Some(x) ==> member(JsonV::Object(metadata_members(h)), "permission_mode"@) == Some(JsonV::Str(x@)),
        h.source matches Some(x) ==> member(JsonV::Object(metadata_members(h)), "source"@) == Some(JsonV::Str(x@)),
        h.model matches Some(x) ==> member(JsonV::Object(metadata_members(h)), "model"@) == Some(JsonV::Str(x@)),
        h.reason matches Some(x) ==> member(JsonV::Object(metadata_members(h)), "reason"@) == Some(JsonV::Str(x@)),
        h.stop_hook_active matches Some(x) ==> member(JsonV::Object(metadata_members(h)), "stop_hook_active"@) == Some(JsonV::Bool(x)),
        h.error matches Some(x) ==> member(JsonV::Object(metadata_members(h)), "error"@) == Some(JsonV::Str(x@)),
{
    if let Some(x) = h.transcript_path {
        lemma_small_field_kept(h, 0, JsonV::Str(x@));
    }
    if let Some(x) = h.permission_mode {
        lemma_small_field_kept(h, 1, JsonV::Str(x@));
    }
    if let Some(x) = h.source {
        lemma_small_field_kept(h, 2, JsonV::Str(x@));
    }
    if let Some(x) = h.model {
        lemma_small_field_kept(h, 3, JsonV::Str(x@));
    }
    if let Some(x) = h.reason {
        lemma_small_field_kept(h, 4, JsonV::Str(x@));
    }
    if let Some(x) = h.stop_hook_active {
        lemma_small_field_kept(h, 5, JsonV::Bool(x));
    }
    if let Some(x) = h.error {
        lemma_small_field_kept(h, 6, JsonV::Str(x@));
    }
}

proof fn lemma_small_fields_kept_1(h: HookInput)
    ensures
        h.error_details matches Some(x) ==> member(JsonV::Object(metadata_members(h)), "error_details"@) == Some(JsonV::Str(x@)),
        h.is_interrupt matches Some(x) ==> member(JsonV::Object(metadata_members(h)), "is_interrupt"@) == Some(JsonV::Bool(x)),
        h.prompt matches Some(x) ==> member(JsonV::Object(metadata_members(h)), "prompt"@) == Some(JsonV::Str(x@)),
        h.agent_id matches Some(x) ==> member(JsonV::Object(metadata_members(h)), "agent_id"@) == Some(JsonV::Str(x@)),
        h.agent_type matches Some(x) ==> member(JsonV::Object(metadata_members(h)), "agent_type"@) == Some(JsonV::Str(x@)),
        h.agent_transcript_path matches Some(x) ==> member(JsonV::Object(metadata_members(h)), "agent_transcript_path"@) == Some(JsonV::Str(x@)),
        h.task_id matches Some(x) ==> member(JsonV::Object(metadata_members(h)), "task_id"@) == Some(JsonV::Str(x@)),
{
    if let Some(x) = h.error_details {
        lemma_small_field_kept(h, 7, JsonV::Str(x@));
    }
    if let Some(x) = h.is_interrupt {
        lemma_small_field_kept(h, 8, JsonV::Bool(x));
    }
    if let Some(x) = h.prompt {
        lemma_small_field_kept(h, 9, JsonV::Str(x@));
    }
    if let Some(x) = h.agent_id {
        lemma_small_field_kept(h, 10, JsonV::Str(x@));
    }
    if let Some(x) = h.agent_type {
        lemma_small_field_kept(h, 11, JsonV::Str(x@));
    }
    if let Some(x) = h.agent_transcript_path {
        lemma_small_field_kept(h, 12, JsonV::Str(x@));
    }
    if let Some(x) = h.task_id {
        lemma_small_field_kept(h, 13, JsonV::Str(x@));
    }
}

proof fn lemma_small_fields_kept_2(h: HookInput)
    ensures
        h.task_subject matches Some(x) ==> member(JsonV::Object(metadata_members(h)), "task_subject"@) == Some(JsonV::Str(x@)),
        h.task_description matches Some(x) ==> member(JsonV::Object(metadata_members(h)), "task_description"@) == Some(JsonV::Str(x@)),
        h.teammate_name matches Some(x) ==> member(JsonV::Object(metadata_members(h)), "teammate_name"@) == Some(JsonV::Str(x@)),
        h.team_name matches Some(x) ==> member(JsonV::Object(metadata_members(h)), "team_name"@) == Some(JsonV::Str(x@)),
        h.file_path matches Some(x) ==> member(JsonV::Object(metadata_members(h)), "file_path"@) == Some(JsonV::Str(x@)),
        h.change_type matches Some(x) ==> member(JsonV::Object(metadata_members(h)), "change_type"@) == Some(JsonV::Str(x@)),
        h.compaction_trigger matches Some(x) ==> member(JsonV::Object(metadata_members(h)), "compaction_trigger"@) == Some(JsonV::Str(x@)),
{
    if let Some(x) = h.task_subject {
        lemma_small_field_kept(h, 14, JsonV::Str(x@));
    }
    if let Some(x) = h.task_description {
        lemma_small_field_kept(h, 15, JsonV::Str(x@));
    }
    if let Some(x) = h.teammate_name {
        lemma_small_field_kept(h, 16, JsonV::Str(x@));
    }
    if let Some(x) = h.team_name {
        lemma_small_field_kept(h, 17, JsonV::Str(x@));
    }
    if let Some(x) = h.file_path {
        lemma_small_field_kept(h, 18, JsonV::Str(x@));
    }
    if let Some(x) = h.change_type {
        lemma_small_field_kept(h, 19, JsonV::Str(x@));
    }
    if let Some(x) = h.compaction_trigger {
        lemma_small_field_kept(h, 20, JsonV::Str(x@));
    }
}

proof fn lemma_small_fields_kept_3(h: HookInput)
    ensures
        h.mcp_server_name matches Some(x) ==> member(JsonV::Object(metadata_members(h)), "mcp_server_name"@) == Some(JsonV::Str(x@)),
        h.fields matches Some(x) ==> member(JsonV::Object(metadata_members(h)), "fields"@) == Some(JsonV::Array(items_view(x@))),
        h.result_action matches Some(x) ==> member(JsonV::Object(metadata_members(h)), "result_action"@) == Some(JsonV::Str(x@)),
        h.result_content matches Some(x) ==> member(JsonV::Object(metadata_members(h)), "result_content"@) == Some(x@),
        h.message matches Some(x) ==> member(JsonV::Object(metadata_members(h)), "message"@) == Some(JsonV::Str(x@)),
        h.title matches Some(x) ==> member(JsonV::Object(metadata_members(h)), "title"@) == Some(JsonV::Str(x@)),
        h.notification_type matches Some(x) ==> member(JsonV::Object(metadata_members(h)), "notification_type"@) == Some(JsonV::Str(x@)),
{
    if let Some(x) = h.mcp_server_name {
        lemma_small_field_kept(h, 21, JsonV::Str(x@));
    }
    if let Some(x) = h.fields {
        lemma_small_field_kept(h, 22, JsonV::Array(items_view(x@)));
    }
    if let Some(x) = h.result_action {
        lemma_small_field_kept(h, 23, JsonV::Str(x@));
    }
    if let Some(x) = h.result_content {
        lemma_small_field_kept(h, 24, x@);
    }
    if let Some(x) = h.message {
        lemma_small_field_kept(h, 25, JsonV::Str(x@));
    }
    if let Some(x) = h.title {
        lemma_small_field_kept(h, 26, JsonV::Str(x@));
    }
    if let Some(x) = h.notification_type {
        lemma_small_field_kept(h, 27, JsonV::Str(x@));
    }
}

/// The metadata keeps every small field that the hook input has, under its own name and
/// with its value.
pub proof fn law_metadata_keeps_small_fields(h: HookInput)
    ensures
        h.transcript_path matches Some(x) ==> member(JsonV::Object(metadata_members(h)), "transcript_path"@) == Some(JsonV::Str(x@)),
        h.permission_mode matches Some(x) ==> member(JsonV::Object(metadata_members(h)), "permission_mode"@) == Some(JsonV::Str(x@)),
        h.source matches Some(x) ==> member(JsonV::Object(metadata_members(h)), "source"@) == Some(JsonV::Str(x@)),
        h.model matches Some(x) ==> member(JsonV::Object(metadata_members(h)), "model"@) == Some(JsonV::Str(x@)),
        h.reason matches Some(x) ==> member(JsonV::Object(metadata_members(h)), "reason"@) == Some(JsonV::Str(x@)),
        h.stop_hook_active matches Some(x) ==> member(JsonV::Object(metadata_members(h)), "stop_hook_active"@) == Some(JsonV::Bool(x)),
        h.error matches Some(x) ==> member(JsonV::Object(metadata_members(h)), "error"@) == Some(JsonV::Str(x@)),
        h.error_details matches Some(x) ==> member(JsonV::Object(metadata_members(h)), "error_details"@) == Some(JsonV::Str(x@)),
        h.is_interrupt matches Some(x) ==> member(JsonV::Object(metadata_members(h)), "is_interrupt"@) == Some(JsonV::Bool(x)),
        h.prompt matches Some(x) ==> member(JsonV::Object(metadata_members(h)), "prompt"@) == Some(JsonV::Str(x@)),
        h.agent_id matches Some(x) ==> member(JsonV::Object(metadata_members(h)), "agent_id"@) == Some(JsonV::Str(x@)),
        h.agent_type matches Some(x) ==> member(JsonV::Object(metadata_members(h)), "agent_type"@) == Some(JsonV::Str(x@)),
        h.agent_transcript_path matches Some(x) ==> member(JsonV::Object(metadata_members(h)), "agent_transcript_path"@) == Some(JsonV::Str(x@)),
        h.task_id matches Some(x) ==> member(JsonV::Object(metadata_members(h)), "task_id"@) == Some(JsonV::Str(x@)),
        h.task_subject matches Some(x) ==> member(JsonV::Object(metadata_members(h)), "task_subject"@) == Some(JsonV::Str(x@)),
        h.task_description matches Some(x) ==> member(JsonV::Object(metadata_members(h)), "task_description"@) == Some(JsonV::Str(x@)),
        h.teammate_name matches Some(x) ==> member(JsonV::Object(metadata_members(h)), "teammate_name"@) == Some(JsonV::Str(x@)),
        h.team_name matches Some(x) ==> member(JsonV::Object(metadata_members(h)), "team_name"@) == Some(JsonV::Str(x@)),
        h.file_path matches Some(x) ==> member(JsonV::Object(metadata_members(h)), "file_path"@) == Some(JsonV::Str(x@)),
        h.change_type matches Some(x) ==> member(JsonV::Object(metadata_members(h)), "change_type"@) == Some(JsonV::Str(x@)),
        h.compaction_trigger matches Some(x) ==> member(JsonV::Object(metadata_members(h)), "compaction_trigger"@) == Some(JsonV::Str(x@)),
        h.mcp_server_name matches Some(x) ==> member(JsonV::Object(metadata_members(h)), "mcp_server_name"@) == Some(JsonV::Str(x@)),
        h.fields matches Some(x) ==> member(JsonV::Object(metadata_members(h)), "fields"@) == Some(JsonV::Array(items_view(x@))),
        h.result_action matches Some(x) ==> member(JsonV::Object(metadata_members(h)), "result_action"@) == Some(JsonV::Str(x@)),
        h.result_content matches Some(x) ==> member(JsonV::Object(metadata_members(h)), "result_content"@) == Some(x@),
        h.message matches Some(x) ==> member(JsonV::Object(metadata_members(h)), "message"@) == Some(JsonV::Str(x@)),
        h.title matches Some(x) ==> member(JsonV::Object(metadata_members(h)), "title"@) == Some(JsonV::Str(x@)),
        h.notification_type matches Some(x) ==> member(JsonV::Object(metadata_members(h)), "notification_type"@) == Some(JsonV::Str(x@)),
{
    lemma_small_fields_kept_0(h);
    lemma_small_fields_kept_1(h);
    lemma_small_fields_kept_2(h);
    lemma_small_fields_kept_3(h);
}

} // verus!
