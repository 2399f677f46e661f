//! Whether the transcription runtime can be used, and what to say when it cannot.

pub mod health;
pub mod probe;
pub mod readiness;
