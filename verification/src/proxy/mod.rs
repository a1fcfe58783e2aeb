//! OpenAI-compatible proxy: request routing and forwarding plans.
pub mod route;
pub mod router;
