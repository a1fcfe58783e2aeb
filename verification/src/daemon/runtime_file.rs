//! Per-daemon runtime info file (`runtime.json` under the state
//! directory): the URL and bearer token a fresh client needs to attach to
//! the running daemon. This module holds its shape, its location and how
//! read / parse outcomes map to the load result.
use vstd::prelude::*;

use crate::paths::{join_path, join_path_string};
use crate::text::owned;

verus! {

/// Schema version; bumped on a breaking change.
pub const RUNTIME_SCHEMA_VERSION: u32 = 1;

/// Unix permission bits of the runtime file: owner read/write only, since
/// it holds the bearer token in plain text.
pub const RUNTIME_FILE_MODE: u32 = 0o600;

/// On-disk shape of `runtime.json`.
#[derive(Debug, PartialEq, Eq)]
pub struct RuntimeInfo {
    /// Schema version (the current one when absent on disk).
    pub schema_version: u32,
    /// Control-plane URL, e.g. `http://127.0.0.1:11436`.
    pub ipc_url: String,
    /// Per-daemon bearer token.
    pub ipc_token: String,
    /// Daemon start time, seconds since the Unix epoch.
    pub started_at_unix: u64,
    /// PID of the daemon owning the file.
    pub daemon_pid: i32,
}

/// The schema version a file without one is read as.
pub fn current_schema_version() -> (r: u32)
    ensures
        r == RUNTIME_SCHEMA_VERSION,
{
    RUNTIME_SCHEMA_VERSION
}

/// The file's location under a state directory.
pub open spec fn runtime_path(state_dir: Seq<char>) -> Seq<char> {
    join_path(state_dir, "runtime.json"@)
}

/// Path of the runtime info file under `state_dir`.
pub fn path(state_dir: &str) -> (r: String)
    ensures
        r@ == runtime_path(state_dir@),
{
    join_path_string(state_dir, "runtime.json")
}

/// Why loading failed.
#[derive(Debug)]
pub enum LoadError {
    Io { path: String, error: String },
    Parse { path: String, error: String },
}

/// Why saving failed.
#[derive(Debug)]
pub enum SaveError {
    Io { path: String, error: String },
    Serialise(String),
}

/// What reading the file gave.
#[derive(Debug)]
pub enum ReadOutcome {
    /// The file's text.
    Contents(String),
    /// No such file: no daemon is running.
    Absent,
    /// Any other I/O failure, described.
    Failed(String),
}

/// First step of a load: an absent file means "no daemon" (`Ok(None)`),
/// other read failures are I/O errors at the file's path, and present
/// text goes on to parsing.
pub fn read_result(state_dir: &str, read: ReadOutcome) -> (r: Result<Option<String>, LoadError>)
    ensures
        match read {
            ReadOutcome::Contents(s) => r == Ok::<Option<String>, LoadError>(Some(s)),
            ReadOutcome::Absent => r == Ok::<Option<String>, LoadError>(None),
            ReadOutcome::Failed(e) => r matches Err(LoadError::Io { path, error }) && path@
                == runtime_path(state_dir@) && error == e,
        },
{
    match read {
        ReadOutcome::Contents(s) => Ok(Some(s)),
        ReadOutcome::Absent => Ok(None),
        ReadOutcome::Failed(e) => Err(LoadError::Io { path: path(state_dir), error: e }),
    }
}

/// Second step of a load: a parse failure is surfaced (not masked) as a
/// parse error at the file's path.
pub fn parse_result(state_dir: &str, parsed: Result<RuntimeInfo, String>) -> (r: Result<
    Option<RuntimeInfo>,
    LoadError,
>)
    ensures
        match parsed {
            Ok(info) => r == Ok::<Option<RuntimeInfo>, LoadError>(Some(info)),
            Err(e) => r matches Err(LoadError::Parse { path, error }) && path@ == runtime_path(
                state_dir@,
            ) && error == e,
        },
{
    match parsed {
        Ok(info) => Ok(Some(info)),
        Err(e) => Err(LoadError::Parse { path: path(state_dir), error: e }),
    }
}

/// The error for a failed write of the file under `state_dir`.
pub fn save_io_error(state_dir: &str, error: String) -> (r: SaveError)
    ensures
        r matches SaveError::Io { path, error: e } && path@ == runtime_path(state_dir@) && e
            == error,
{
    SaveError::Io { path: path(state_dir), error }
}

impl LoadError {
    /// The user-facing description of the error.
    pub fn message(&self) -> (r: String)
        ensures
            match *self {
                LoadError::Io { path, error } => r@ == "runtime-info I/O at "@ + path@ + ": "@
                    + error@,
                LoadError::Parse { path, error } => r@ == "runtime-info parse at "@ + path@
                    + ": "@ + error@,
            },
    {
        let (mut s, p, e) = match self {
            LoadError::Io { path, error } => (owned("runtime-info I/O at "), path, error),
            LoadError::Parse { path, error } => (owned("runtime-info parse at "), path, error),
        };
        s.append(p.as_str());
        s.append(": ");
        s.append(e.as_str());
        s
    }
}

impl SaveError {
    /// The user-facing description of the error.
    pub fn message(&self) -> (r: String)
        ensures
            match *self {
                SaveError::Io { path, error } => r@ == "runtime-info I/O at "@ + path@ + ": "@
                    + error@,
                SaveError::Serialise(e) => r@ == "runtime-info serialise: "@ + e@,
            },
    {
        match self {
            SaveError::Io { path, error } => {
                let mut s = owned("runtime-info I/O at ");
                s.append(path.as_str());
                s.append(": ");
                s.append(error.as_str());
                s
            },
            SaveError::Serialise(e) => {
                let mut s = owned("runtime-info serialise: ");
                s.append(e.as_str());
                s
            },
        }
    }
}

} // verus!
