//! A verified core for a minimal text-completion API client.
//!
//! The library validates client configuration, enforces a per-model input
//! token budget, builds the outgoing completion request, and extracts the
//! generated text from the response body.  The network transport itself is
//! left to the surrounding application.

pub mod client;
pub mod json;
pub mod text;
pub mod tokenize;
