//! Verified core of the llamastash launcher: catalog resolution, proxy
//! routing decisions, `llama-server` argv composition, title-strip hint
//! fitting and the text rendering helpers they share.
pub mod text;
pub mod paths;
pub mod cli;
pub mod daemon;
pub mod discovery;
pub mod proxy;
pub mod launch;
pub mod tui;
