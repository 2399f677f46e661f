//! The engines, devices and health reports that the commands decide on.

use vstd::prelude::*;

verus! {

/// A transcription engine.
#[derive(Clone, Copy, PartialEq, Eq, Structural, Debug)]
pub enum TranscriptionEngine {
    WhisperCpp,
    ParakeetCpp,
}

/// The device on which a transcription is computed.
#[derive(Clone, Copy, PartialEq, Eq, Structural, Debug)]
pub enum TranscriptionComputeDevice {
    Auto,
    Gpu,
    Cpu,
}

/// What an artifact was made from.
#[derive(Clone, Copy, PartialEq, Eq, Structural, Debug)]
pub enum ArtifactKind {
    File,
    Realtime,
}

/// Where the audio of an artifact came from.
#[derive(Clone, Copy, PartialEq, Eq, Structural, Debug)]
pub enum ArtifactSourceOrigin {
    Imported,
    Realtime,
}

/// The health of one managed binary.
#[derive(Debug)]
pub struct ManagedRuntimeBinaryHealth {
    pub resolved_path: String,
    pub available: bool,
    pub failure_reason: String,
    pub failure_message: String,
}

/// The health of the managed runtime.
#[derive(Debug)]
pub struct ManagedRuntimeHealth {
    pub source: String,
    pub ready: bool,
    pub ffmpeg: ManagedRuntimeBinaryHealth,
    pub whisper_cli: ManagedRuntimeBinaryHealth,
    pub whisper_stream: ManagedRuntimeBinaryHealth,
    pub parakeet_cli: ManagedRuntimeBinaryHealth,
}

/// The health of the diarization runtime.
#[derive(Debug)]
pub struct PyannoteRuntimeHealth {
    pub enabled: bool,
    pub ready: bool,
    pub runtime_installed: bool,
    pub model_installed: bool,
    pub runtime_dir: String,
    pub arch: String,
    pub device: String,
    pub source: String,
    pub reason_code: String,
    pub message: String,
}

/// The health of everything that a transcription needs.
#[derive(Debug)]
pub struct RuntimeHealth {
    pub host_os: String,
    pub host_arch: String,
    pub is_apple_silicon: bool,
    pub preferred_engine: TranscriptionEngine,
    pub configured_engine: TranscriptionEngine,
    pub runtime_source: String,
    pub managed_runtime_required: bool,
    pub managed_runtime: ManagedRuntimeHealth,
    pub ffmpeg_path: String,
    pub ffmpeg_resolved: String,
    pub ffmpeg_available: bool,
    pub whisper_cli_path: String,
    pub whisper_cli_resolved: String,
    pub whisper_cli_available: bool,
    pub whisper_stream_path: String,
    pub whisper_stream_resolved: String,
    pub whisper_stream_available: bool,
    pub parakeet_cli_path: String,
    pub parakeet_cli_resolved: String,
    pub parakeet_cli_available: bool,
    pub models_dir_configured: String,
    pub models_dir_resolved: String,
    pub parakeet_models_dir_configured: String,
    pub parakeet_models_dir_resolved: String,
    pub model_filename: String,
    pub model_present: bool,
    pub parakeet_model_filename: String,
    pub parakeet_model_present: bool,
    pub missing_parakeet_models: Vec<String>,
    pub coreml_encoder_present: bool,
    pub missing_models: Vec<String>,
    pub missing_encoders: Vec<String>,
    pub pyannote: PyannoteRuntimeHealth,
    pub setup_complete: bool,
}

/// Whether every release binary of the managed runtime can be used. All of them are needed
/// whichever engine is selected, so that the engine can be changed without a new setup.
pub open spec fn all_binaries_available(m: ManagedRuntimeHealth) -> bool {
    m.ffmpeg.available && m.whisper_cli.available && m.whisper_stream.available
        && m.parakeet_cli.available
}

/// Whether the binaries that a transcription needs can be used: all the managed ones where the
/// managed runtime is required, else those of the configured engine.
pub open spec fn toolchain_ready(h: RuntimeHealth) -> bool {
    if h.managed_runtime_required {
        all_binaries_available(h.managed_runtime)
    } else {
        match h.configured_engine {
            TranscriptionEngine::WhisperCpp => h.ffmpeg_available && h.whisper_cli_available
                && h.whisper_stream_available,
            TranscriptionEngine::ParakeetCpp => h.ffmpeg_available && h.parakeet_cli_available,
        }
    }
}

/// Checks whether the binaries that a transcription needs can be used.
pub fn check_toolchain(health: &RuntimeHealth) -> (r: bool)
    ensures
        r == toolchain_ready(*health),
{
    if health.managed_runtime_required {
        return health.managed_runtime.ffmpeg.available
            && health.managed_runtime.whisper_cli.available
            && health.managed_runtime.whisper_stream.available
            && health.managed_runtime.parakeet_cli.available;
    }
    match health.configured_engine {
        TranscriptionEngine::WhisperCpp => health.ffmpeg_available && health.whisper_cli_available
            && health.whisper_stream_available,
        TranscriptionEngine::ParakeetCpp => health.ffmpeg_available
            && health.parakeet_cli_available,
    }
}

} // verus!
