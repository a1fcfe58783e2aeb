//! Launch surface: locating `llama-server` and composing its argv.
pub mod binary;
pub mod params;
