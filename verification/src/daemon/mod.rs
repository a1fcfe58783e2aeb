//! Daemon-side state shared with the proxy and the CLI.
use vstd::prelude::*;

pub mod runtime_file;

verus! {

/// Lifecycle state of a supervised `llama-server` child.
#[derive(Debug, Clone, Copy, PartialEq, Eq, Structural)]
pub enum ManagedState {
    Launching,
    Loading,
    Ready,
    Error,
    Stopping,
    Stopped,
}

} // verus!
