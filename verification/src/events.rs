//! Event types and stored rows.

use vstd::prelude::*;
use crate::text::str_eq;

verus! {

/// The hook event types, in their canonical order.
#[derive(Clone, Copy, Debug, PartialEq, Eq, Hash, Structural)]
pub enum EventType {
    SessionStart,
    SessionEnd,
    CwdChanged,
    ConfigChange,
    InstructionsLoaded,
    UserPromptSubmit,
    Stop,
    StopFailure,
    PreToolUse,
    PostToolUse,
    PostToolUseFailure,
    PermissionRequest,
    SubagentStart,
    SubagentStop,
    TaskCreated,
    TaskCompleted,
    TeammateIdle,
    FileChanged,
    WorktreeCreate,
    WorktreeRemove,
    PreCompact,
    PostCompact,
    Elicitation,
    ElicitationResult,
    Notification,
}

/// The name of an event type, as hooks report it.
pub open spec fn event_type_name(e: EventType) -> Seq<char> {
    match e {
        EventType::SessionStart => "SessionStart"@,
        EventType::SessionEnd => "SessionEnd"@,
        EventType::CwdChanged => "CwdChanged"@,
        EventType::ConfigChange => "ConfigChange"@,
        EventType::InstructionsLoaded => "InstructionsLoaded"@,
        EventType::UserPromptSubmit => "UserPromptSubmit"@,
        EventType::Stop => "Stop"@,
        EventType::StopFailure => "StopFailure"@,
        EventType::PreToolUse => "PreToolUse"@,
        EventType::PostToolUse => "PostToolUse"@,
        EventType::PostToolUseFailure => "PostToolUseFailure"@,
        EventType::PermissionRequest => "PermissionRequest"@,
        EventType::SubagentStart => "SubagentStart"@,
        EventType::SubagentStop => "SubagentStop"@,
        EventType::TaskCreated => "TaskCreated"@,
        EventType::TaskCompleted => "TaskCompleted"@,
        EventType::TeammateIdle => "TeammateIdle"@,
        EventType::FileChanged => "FileChanged"@,
        EventType::WorktreeCreate => "WorktreeCreate"@,
        EventType::WorktreeRemove => "WorktreeRemove"@,
        EventType::PreCompact => "PreCompact"@,
        EventType::PostCompact => "PostCompact"@,
        EventType::Elicitation => "Elicitation"@,
        EventType::ElicitationResult => "ElicitationResult"@,
        EventType::Notification => "Notification"@,
    }
}

/// Position of an event type in the canonical order.
pub open spec fn event_index(e: EventType) -> int {
    match e {
        EventType::SessionStart => 0,
        EventType::SessionEnd => 1,
        EventType::CwdChanged => 2,
        EventType::ConfigChange => 3,
        EventType::InstructionsLoaded => 4,
        EventType::UserPromptSubmit => 5,
        EventType::Stop => 6,
        EventType::StopFailure => 7,
        EventType::PreToolUse => 8,
        EventType::PostToolUse => 9,
        EventType::PostToolUseFailure => 10,
        EventType::PermissionRequest => 11,
        EventType::SubagentStart => 12,
        EventType::SubagentStop => 13,
        EventType::TaskCreated => 14,
        EventType::TaskCompleted => 15,
        EventType::TeammateIdle => 16,
        EventType::FileChanged => 17,
        EventType::WorktreeCreate => 18,
        EventType::WorktreeRemove => 19,
        EventType::PreCompact => 20,
        EventType::PostCompact => 21,
        EventType::Elicitation => 22,
        EventType::ElicitationResult => 23,
        EventType::Notification => 24,
    }
}

/// The event type at a position of the canonical order.
pub open spec fn event_at(i: int) -> EventType {
    if i == 0 {
        EventType::SessionStart
    } else if i == 1 {
        EventType::SessionEnd
    } else if i == 2 {
        EventType::CwdChanged
    } else if i == 3 {
        EventType::ConfigChange
    } else if i == 4 {
        EventType::InstructionsLoaded
    } else if i == 5 {
        EventType::UserPromptSubmit
    } else if i == 6 {
        EventType::Stop
    } else if i == 7 {
        EventType::StopFailure
    } else if i == 8 {
        EventType::PreToolUse
    } else if i == 9 {
        EventType::PostToolUse
    } else if i == 10 {
        EventType::PostToolUseFailure
    } else if i == 11 {
        EventType::PermissionRequest
    } else if i == 12 {
        EventType::SubagentStart
    } else if i == 13 {
        EventType::SubagentStop
    } else if i == 14 {
        EventType::TaskCreated
    } else if i == 15 {
        EventType::TaskCompleted
    } else if i == 16 {
        EventType::TeammateIdle
    } else if i == 17 {
        EventType::FileChanged
    } else if i == 18 {
        EventType::WorktreeCreate
    } else if i == 19 {
        EventType::WorktreeRemove
    } else if i == 20 {
        EventType::PreCompact
    } else if i == 21 {
        EventType::PostCompact
    } else if i == 22 {
        EventType::Elicitation
    } else if i == 23 {
        EventType::ElicitationResult
    } else {
        EventType::Notification
    }
}

impl EventType {
    /// The event type's name.
    pub fn as_str(&self) -> (r: &'static str)
        ensures
            r@ == event_type_name(*self),
    {
        match self {
            EventType::SessionStart => "SessionStart",
            EventType::SessionEnd => "SessionEnd",
            EventType::CwdChanged => "CwdChanged",
            EventType::ConfigChange => "ConfigChange",
            EventType::InstructionsLoaded => "InstructionsLoaded",
            EventType::UserPromptSubmit => "UserPromptSubmit",
            EventType::Stop => "Stop",
            EventType::StopFailure => "StopFailure",
            EventType::PreToolUse => "PreToolUse",
            EventType::PostToolUse => "PostToolUse",
            EventType::PostToolUseFailure => "PostToolUseFailure",
            EventType::PermissionRequest => "PermissionRequest",
            EventType::SubagentStart => "SubagentStart",
            EventType::SubagentStop => "SubagentStop",
            EventType::TaskCreated => "TaskCreated",
            EventType::TaskCompleted => "TaskCompleted",
            EventType::TeammateIdle => "TeammateIdle",
            EventType::FileChanged => "FileChanged",
            EventType::WorktreeCreate => "WorktreeCreate",
            EventType::WorktreeRemove => "WorktreeRemove",
            EventType::PreCompact => "PreCompact",
            EventType::PostCompact => "PostCompact",
            EventType::Elicitation => "Elicitation",
            EventType::ElicitationResult => "ElicitationResult",
            EventType::Notification => "Notification",
        }
    }

    /// The event type at position `i` of the canonical order.
    pub fn at_index(i: usize) -> (r: EventType)
        requires
            i < 25,
        ensures
            r == event_at(i as int),
            event_index(r) == i,
    {
        if i == 0 {
            EventType::SessionStart
        } else if i == 1 {
            EventType::SessionEnd
        } else if i == 2 {
            EventType::CwdChanged
        } else if i == 3 {
            EventType::ConfigChange
        } else if i == 4 {
            EventType::InstructionsLoaded
        } else if i == 5 {
            EventType::UserPromptSubmit
        } else if i == 6 {
            EventType::Stop
        } else if i == 7 {
            EventType::StopFailure
        } else if i == 8 {
            EventType::PreToolUse
        } else if i == 9 {
            EventType::PostToolUse
        } else if i == 10 {
            EventType::PostToolUseFailure
        } else if i == 11 {
            EventType::PermissionRequest
        } else if i == 12 {
            EventType::SubagentStart
        } else if i == 13 {
            EventType::SubagentStop
        } else if i == 14 {
            EventType::TaskCreated
        } else if i == 15 {
            EventType::TaskCompleted
        } else if i == 16 {
            EventType::TeammateIdle
        } else if i == 17 {
            EventType::FileChanged
        } else if i == 18 {
            EventType::WorktreeCreate
        } else if i == 19 {
            EventType::WorktreeRemove
        } else if i == 20 {
            EventType::PreCompact
        } else if i == 21 {
            EventType::PostCompact
        } else if i == 22 {
            EventType::Elicitation
        } else if i == 23 {
            EventType::ElicitationResult
        } else {
            EventType::Notification
        }
    }

    /// The event type that a hook name denotes, if any.
    pub fn from_hook_name(name: &str) -> (r: Option<EventType>)
        ensures
            r == named_event(name@),
            match r {
                Some(e) => event_type_name(e) == name@,
                None => forall|e: EventType| event_type_name(e) != name@,
            },
    {
        let r = Self::lookup_name(name);
        proof {
            if let Some(e) = r {
                let c = choose|c: EventType| event_type_name(c) == name@;
                lemma_event_names_distinct(c, e);
            }
        }
        r
    }

    fn lookup_name(name: &str) -> (r: Option<EventType>)
        ensures
            match r {
                Some(e) => event_type_name(e) == name@,
                None => forall|e: EventType| event_type_name(e) != name@,
            },
    {
        if str_eq(name, "SessionStart") {
            return Some(EventType::SessionStart);
        }
        if str_eq(name, "SessionEnd") {
            return Some(EventType::SessionEnd);
        }
        if str_eq(name, "CwdChanged") {
            return Some(EventType::CwdChanged);
        }
        if str_eq(name, "ConfigChange") {
            return Some(EventType::ConfigChange);
        }
        if str_eq(name, "InstructionsLoaded") {
            return Some(EventType::InstructionsLoaded);
        }
        if str_eq(name, "UserPromptSubmit") {
            return Some(EventType::UserPromptSubmit);
        }
        if str_eq(name, "Stop") {
            return Some(EventType::Stop);
        }
        if str_eq(name, "StopFailure") {
            return Some(EventType::StopFailure);
        }
        if str_eq(name, "PreToolUse") {
            return Some(EventType::PreToolUse);
        }
        if str_eq(name, "PostToolUse") {
            return Some(EventType::PostToolUse);
        }
        if str_eq(name, "PostToolUseFailure") {
            return Some(EventType::PostToolUseFailure);
        }
        if str_eq(name, "PermissionRequest") {
            return Some(EventType::PermissionRequest);
        }
        if str_eq(name, "SubagentStart") {
            return Some(EventType::SubagentStart);
        }
        if str_eq(name, "SubagentStop") {
            return Some(EventType::SubagentStop);
        }
        if str_eq(name, "TaskCreated") {
            return Some(EventType::TaskCreated);
        }
        if str_eq(name, "TaskCompleted") {
            return Some(EventType::TaskCompleted);
        }
        if str_eq(name, "TeammateIdle") {
            return Some(EventType::TeammateIdle);
        }
        if str_eq(name, "FileChanged") {
            return Some(EventType::FileChanged);
        }
        if str_eq(name, "WorktreeCreate") {
            return Some(EventType::WorktreeCreate);
        }
        if str_eq(name, "WorktreeRemove") {
            return Some(EventType::WorktreeRemove);
        }
        if str_eq(name, "PreCompact") {
            return Some(EventType::PreCompact);
        }
        if str_eq(name, "PostCompact") {
            return Some(EventType::PostCompact);
        }
        if str_eq(name, "Elicitation") {
            return Some(EventType::Elicitation);
        }
        if str_eq(name, "ElicitationResult") {
            return Some(EventType::ElicitationResult);
        }
        if str_eq(name, "Notification") {
            return Some(EventType::Notification);
        }
        proof {
            assert forall|e: EventType| event_type_name(e) != name@ by {
                match e {
                    EventType::SessionStart => {}
                    EventType::SessionEnd => {}
                    EventType::CwdChanged => {}
                    EventType::ConfigChange => {}
                    EventType::InstructionsLoaded => {}
                    EventType::UserPromptSubmit => {}
                    EventType::Stop => {}
                    EventType::StopFailure => {}
                    EventType::PreToolUse => {}
                    EventType::PostToolUse => {}
                    EventType::PostToolUseFailure => {}
                    EventType::PermissionRequest => {}
                    EventType::SubagentStart => {}
                    EventType::SubagentStop => {}
                    EventType::TaskCreated => {}
                    EventType::TaskCompleted => {}
                    EventType::TeammateIdle => {}
                    EventType::FileChanged => {}
                    EventType::WorktreeCreate => {}
                    EventType::WorktreeRemove => {}
                    EventType::PreCompact => {}
                    EventType::PostCompact => {}
                    EventType::Elicitation => {}
                    EventType::ElicitationResult => {}
                    EventType::Notification => {}
                }
            }
        }
        None
    }
}

/// An event type sits at its own position of the canonical order.
pub proof fn lemma_event_index_roundtrip(e: EventType)
    ensures
        0 <= event_index(e) < 25,
        event_at(event_index(e)) == e,
{
}

/// The event type that `name` names, if any.
pub open spec fn named_event(name: Seq<char>) -> Option<EventType> {
    if exists|e: EventType| event_type_name(e) == name {
        Some(choose|e: EventType| event_type_name(e) == name)
    } else {
        None
    }
}

/// Reading an event type's name gives back that event type: `from_hook_name` undoes
/// `as_str`.
pub proof fn law_event_name_roundtrip(e: EventType)
    ensures
        named_event(event_type_name(e)) == Some(e),
{
    let c = choose|c: EventType| event_type_name(c) == event_type_name(e);
    lemma_event_names_distinct(c, e);
}

/// Each name denotes one event type.
pub proof fn lemma_event_names_distinct(a: EventType, b: EventType)
    requires
        event_type_name(a) == event_type_name(b),
    ensures
        a == b,
{
    reveal_strlit("SessionStart");
    reveal_strlit("SessionEnd");
    reveal_strlit("CwdChanged");
    reveal_strlit("ConfigChange");
    reveal_strlit("InstructionsLoaded");
    reveal_strlit("UserPromptSubmit");
    reveal_strlit("Stop");
    reveal_strlit("StopFailure");
    reveal_strlit("PreToolUse");
    reveal_strlit("PostToolUse");
    reveal_strlit("PostToolUseFailure");
    reveal_strlit("PermissionRequest");
    reveal_strlit("SubagentStart");
    reveal_strlit("SubagentStop");
    reveal_strlit("TaskCreated");
    reveal_strlit("TaskCompleted");
    reveal_strlit("TeammateIdle");
    reveal_strlit("FileChanged");
    reveal_strlit("WorktreeCreate");
    reveal_strlit("WorktreeRemove");
    reveal_strlit("PreCompact");
    reveal_strlit("PostCompact");
    reveal_strlit("Elicitation");
    reveal_strlit("ElicitationResult");
    reveal_strlit("Notification");
    let na = event_type_name(a);
    let nb = event_type_name(b);
    assert(na.len() == nb.len());
    assert(0 < na.len() ==> na[0] == nb[0]);
    assert(1 < na.len() ==> na[1] == nb[1]);
    assert(2 < na.len() ==> na[2] == nb[2]);
    assert(3 < na.len() ==> na[3] == nb[3]);
    assert(4 < na.len() ==> na[4] == nb[4]);
    assert(5 < na.len() ==> na[5] == nb[5]);
    assert(6 < na.len() ==> na[6] == nb[6]);
    assert(7 < na.len() ==> na[7] == nb[7]);
    assert(8 < na.len() ==> na[8] == nb[8]);
    assert(9 < na.len() ==> na[9] == nb[9]);
    assert(10 < na.len() ==> na[10] == nb[10]);
    assert(11 < na.len() ==> na[11] == nb[11]);
    assert(12 < na.len() ==> na[12] == nb[12]);
    assert(13 < na.len() ==> na[13] == nb[13]);
    assert(14 < na.len() ==> na[14] == nb[14]);
    assert(15 < na.len() ==> na[15] == nb[15]);
    assert(16 < na.len() ==> na[16] == nb[16]);
    assert(17 < na.len() ==> na[17] == nb[17]);
}

/// A stored event row, as the database returns it.
#[derive(Clone, Debug)]
pub struct Event {
    pub id: i64,
    pub event_uuid: String,
    pub session_id: String,
    pub event_type: String,
    pub timestamp: String,
    pub tool_name: Option<String>,
    pub tool_use_id: Option<String>,
    pub cwd: Option<String>,
    pub payload_path: Option<String>,
    pub metadata_json: Option<String>,
}

/// A session summary row.
#[derive(Clone, Debug)]
pub struct Session {
    pub session_id: String,
    pub first_seen: String,
    pub last_seen: String,
    pub event_count: i64,
    pub cwd: Option<String>,
    pub model: Option<String>,
}

/// A live session as the listing of active sessions shows it.
#[derive(Clone, Debug)]
pub struct ActiveSession {
    pub session_id: String,
    pub last_seen: String,
    /// First to last event, as display text.
    pub duration: String,
    pub event_count: i64,
    pub cwd: Option<String>,
    /// Time since the last event, as display text.
    pub idle: String,
    /// The tool of the latest call still in flight.
    pub tool: Option<String>,
    pub model: Option<String>,
}

/// The text of an optional string.
pub open spec fn opt_text(s: Option<String>) -> Option<Seq<char>> {
    match s {
        Some(t) => Some(t@),
        None => None,
    }
}

} // verus!
