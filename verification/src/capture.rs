//! What storing one hook event involves, decided from its input.

use vstd::prelude::*;
use crate::events::{event_type_name, EventType};
use crate::hook_input::{metadata_members, HookInput, UnknownHookEvent};
use crate::json::{Json, JsonV};
use crate::paths::PAYLOAD_THRESHOLD;

verus! {

/// How to store one captured event.
#[derive(Debug)]
pub struct CapturePlan {
    pub event_type: EventType,
    /// The payload goes to a file of its own, and only the metadata is kept inline;
    /// otherwise the whole input is kept inline.
    pub to_file: bool,
    /// The metadata kept inline beside a payload file.
    pub metadata: Option<Json>,
    /// The transcript to read the session's token usage from: the session ended and
    /// named one.
    pub usage_transcript: Option<String>,
}

/// Plans the capture of a hook input whose payload serializes to `payload_size` bytes:
/// unknown event names are refused; payloads over the threshold go to a file with the
/// metadata kept inline; a `SessionEnd` that names a transcript has its usage read.
pub fn plan_capture(hook: &HookInput, payload_size: usize) -> (r: Result<CapturePlan, UnknownHookEvent>)
    ensures
        match r {
            Ok(p) => {
                &&& event_type_name(p.event_type) == hook.hook_event_name@
                &&& p.to_file == (payload_size > PAYLOAD_THRESHOLD)
                &&& match p.metadata {
                    Some(m) => p.to_file && m@ == JsonV::Object(metadata_members(*hook)),
                    None => !p.to_file,
                }
                &&& match p.usage_transcript {
                    Some(t) => p.event_type == EventType::SessionEnd && crate::events::opt_text(
                        hook.transcript_path,
                    ) == Some(t@),
                    None => p.event_type != EventType::SessionEnd || hook.transcript_path is None,
                }
            },
            Err(u) => u.name@ == hook.hook_event_name@ && forall|e: EventType|
                event_type_name(e) != hook.hook_event_name@,
        },
{
    let event_type = match hook.event_type() {
        Ok(e) => e,
        Err(u) => return Err(u),
    };
    let to_file = payload_size > PAYLOAD_THRESHOLD;
    let metadata = if to_file {
        Some(hook.metadata())
    } else {
        None
    };
    let usage_transcript = match event_type {
        EventType::SessionEnd => match &hook.transcript_path {
            Some(t) => Some(t.clone()),
            None => None,
        },
        _ => None,
    };
    Ok(CapturePlan { event_type, to_file, metadata, usage_transcript })
}

} // verus!
