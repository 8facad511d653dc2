//! The commands of the command line, as plain data.

use vstd::prelude::*;
use crate::hooks::Scope;

verus! {

/// Settings scope as the command line names it.
#[derive(Clone, Copy, Debug, PartialEq, Eq, Structural)]
pub enum ScopeArg {
    /// User-level settings, in the home directory.
    User,
    /// Project-level settings, in the current directory.
    Project,
}

impl From<ScopeArg> for Scope {
    fn from(s: ScopeArg) -> (r: Scope) {
        match s {
            ScopeArg::User => Scope::User,
            ScopeArg::Project => Scope::Project,
        }
    }
}

impl vstd::std_specs::convert::FromSpecImpl<ScopeArg> for Scope {
    open spec fn obeys_from_spec() -> bool {
        true
    }

    open spec fn from_spec(s: ScopeArg) -> Scope {
        match s {
            ScopeArg::User => Scope::User,
            ScopeArg::Project => Scope::Project,
        }
    }
}

/// The subcommands of `hooks`.
#[derive(Clone, Debug)]
pub enum HooksAction {
    /// Which canonical events are wired in the settings.
    Status { scope: ScopeArg },
}

/// A command and its arguments.
#[derive(Clone, Debug)]
pub enum Commands {
    /// Capture a hook event from stdin JSON.
    Capture,
    /// List sessions.
    Sessions { json: bool, limit: i64 },
    /// List live sessions: started and not ended.
    Active { json: bool, limit: i64 },
    /// Chronological events of a session.
    Timeline { session: String, json: bool, event_type: Option<String> },
    /// One event in full, payload included.
    Show { event_id: i64, json: bool },
    /// Query and filter events.
    Query {
        event_type: Option<String>,
        tool: Option<String>,
        session: Option<String>,
        since: Option<String>,
        until: Option<String>,
        has_error: bool,
        limit: i64,
        json: bool,
    },
    /// Statistics, global or of one session.
    Stats { session: Option<String>, json: bool },
    /// A session's narrative.
    Summary { session: String, json: bool },
    /// Delete old data.
    Prune { before: Option<String>, days: Option<u64> },
    /// A session as JSON, payloads inlined.
    Export { session: String },
    /// Replay a session's events, then follow new ones.
    Stream { session: String },
    /// Read token usage from transcripts of sessions that lack it.
    BackfillUsage { session: Option<String>, force: bool },
    /// Wire the capture wrapper into the settings.
    InstallHooks { scope: ScopeArg },
    /// Remove the capture wrapper's entries from the settings.
    UninstallHooks { scope: ScopeArg },
    /// Hook wiring subcommands.
    Hooks { action: HooksAction },
}

/// The parsed command line.
#[derive(Clone, Debug)]
pub struct Cli {
    pub command: Commands,
}

/// Whether a command works on the event database (the hook commands only touch settings).
pub fn needs_database(c: &Commands) -> (r: bool)
    ensures
        r == !(c is InstallHooks || c is UninstallHooks || c is Hooks),
{
    match c {
        Commands::InstallHooks { .. } | Commands::UninstallHooks { .. } | Commands::Hooks { .. } => false,
        _ => true,
    }
}

} // verus!
