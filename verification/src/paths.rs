//! File-system locations of the database, payload files, settings and the wrapper script,
//! as paths under directories that the caller resolves.

use vstd::prelude::*;
use vstd::string::*;

verus! {

/// File name of the capture wrapper script.
pub const SCRIPT_NAME: &'static str = "ivara-capture.sh";

/// Payloads larger than this many bytes are written to a file of their own.
pub const PAYLOAD_THRESHOLD: usize = 4096;

/// `base` joined with `name` as a path: an absolute `name` replaces `base`; otherwise a `/`
/// separates them unless `base` is empty or already ends in one.
pub open spec fn path_join(base: Seq<char>, name: Seq<char>) -> Seq<char> {
    if name.len() > 0 && name[0] == '/' {
        name
    } else if base.len() == 0 || base.last() == '/' {
        base + name
    } else {
        base + seq!['/'] + name
    }
}

/// Joins `name` onto the path `base` (see `path_join`).
pub fn join(base: &str, name: &str) -> (r: String)
    ensures
        r@ == path_join(base@, name@),
{
    let nlen = name.unicode_len();
    if nlen > 0 && name.get_char(0) == '/' {
        return name.to_string();
    }
    let blen = base.unicode_len();
    let mut out = base.to_string();
    if blen > 0 && base.get_char(blen - 1) != '/' {
        proof {
            reveal_strlit("/");
        }
        out.append("/");
    }
    out.append(name);
    out
}

/// Location of the settings file in a settings directory.
pub fn settings_path(settings_dir: &str) -> (r: String)
    ensures
        r@ == path_join(settings_dir@, "settings.json"@),
{
    join(settings_dir, "settings.json")
}

/// Location of the hook scripts directory in a settings directory.
pub fn script_dir(settings_dir: &str) -> (r: String)
    ensures
        r@ == path_join(settings_dir@, "hook-scripts"@),
{
    join(settings_dir, "hook-scripts")
}

/// Location of the capture wrapper in a settings directory.
pub fn script_path(settings_dir: &str) -> (r: String)
    ensures
        r@ == path_join(path_join(settings_dir@, "hook-scripts"@), SCRIPT_NAME@),
{
    let dir = script_dir(settings_dir);
    join(dir.as_str(), SCRIPT_NAME)
}

/// The command that settings entries run: `bash` and the wrapper's path.
pub fn hook_command(settings_dir: &str) -> (r: String)
    ensures
        r@ == "bash "@ + path_join(path_join(settings_dir@, "hook-scripts"@), SCRIPT_NAME@),
{
    let path = script_path(settings_dir);
    let mut out = "bash ".to_string();
    out.append(path.as_str());
    out
}

/// Location of the database file in the data directory.
pub fn db_path(data_dir: &str) -> (r: String)
    ensures
        r@ == path_join(data_dir@, "ivara.db"@),
{
    join(data_dir, "ivara.db")
}

/// Root of the payload files in the data directory.
pub fn payloads_dir(data_dir: &str) -> (r: String)
    ensures
        r@ == path_join(data_dir@, "payloads"@),
{
    join(data_dir, "payloads")
}

/// Directory of one session's payload files.
pub fn session_payload_dir(data_dir: &str, session_id: &str) -> (r: String)
    ensures
        r@ == path_join(path_join(data_dir@, "payloads"@), session_id@),
{
    let root = payloads_dir(data_dir);
    join(root.as_str(), session_id)
}

/// File holding the payload of one event: `<event_uuid>.json` in the session's directory.
pub fn payload_file_path(data_dir: &str, session_id: &str, event_uuid: &str) -> (r: String)
    ensures
        r@ == path_join(
            path_join(path_join(data_dir@, "payloads"@), session_id@),
            event_uuid@ + ".json"@,
        ),
{
    let dir = session_payload_dir(data_dir, session_id);
    let mut file = event_uuid.to_string();
    file.append(".json");
    join(dir.as_str(), file.as_str())
}

} // verus!

