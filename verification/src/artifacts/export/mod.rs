//! Exports of a transcript.

pub mod content;
pub mod document;
pub mod docx;
pub mod html;
pub mod pdf;
pub mod prepare;
pub mod segments;
pub mod speakers;
