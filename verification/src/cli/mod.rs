//! Command-line surfaces: the catalog row shape, picker decisions and the
//! `show` renderers.
pub mod picker;
pub mod resolve;
pub mod show;
