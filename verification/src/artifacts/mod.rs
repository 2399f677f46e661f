//! Transcripts and what is made of them.

pub mod ask;
pub mod audio;
pub mod chat;
pub mod confidence;
pub mod diarization;
pub mod export;
pub mod language;
pub mod markers;
pub mod optimize;
pub mod payloads;
pub mod prompts;
pub mod requests;
pub mod words;
