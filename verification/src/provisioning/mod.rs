//! Installation of the managed runtime, the diarization assets and the models.

pub mod archive_install;
pub mod assets;
pub mod batch;
pub mod catalog;
pub mod digest;
pub mod download;
pub mod install_actions;
pub mod managed_python;
pub mod manifests;
pub mod pyannote_install;
pub mod pyannote_plan;
pub mod runtime_install;
pub mod runtime_provision;
pub mod runtime_recovery;
