//! Live sessions.

use sbobino_commands::domain::{
    ArtifactKind, ArtifactSourceOrigin, TranscriptionComputeDevice, TranscriptionEngine,
};
use sbobino_commands::error::ApplicationError;
use sbobino_commands::paths::PathStyle;
use sbobino_commands::realtime::{
    announce_start, announce_started, announce_stop, build_realtime_artifact, clean_optional_title,
    clear_completed_realtime_session, confirm_realtime_start, ensure_parakeet_live_device_supported,
    ensure_realtime_start_allowed, enter_realtime_session, fail_realtime_start,
    finish_realtime_save, hold_realtime_engine, listening_progress, load_realtime_session,
    parakeet_live_target_lang, pause_realtime, realtime_session_title,
    reject_if_realtime_stop_in_progress, release_realtime_stop, reserve_realtime_stop,
    resolve_parakeet_live_library_path, resolve_parakeet_live_library_path_for_platform,
    resolve_parakeet_live_runtime_paths, resolve_realtime_engine, resume_realtime,
    retain_failed_parakeet_session, select_parakeet_live_model, settle_realtime_stop,
    start_realtime, stop_model, stop_realtime, stop_response, telemetry_event, JobStage, LiveModel,
    LiveModelChoice, LiveStep, ParakeetLiveLibraryPlatform, RealtimeArtifactInput, RealtimeDefaults,
    RealtimeSession, RealtimeStart, RealtimeStops, StartFailure, StopDefaults, StopFollowUp,
    StopRealtimePayload,
};

fn session(job_id: Option<&str>) -> RealtimeSession {
    RealtimeSession {
        active_job_id: job_id.map(str::to_string),
        session_name: Some("Retry me".to_string()),
        model_filename: Some("nemotron-3.5-asr-streaming-0.6b-q8_0.gguf".to_string()),
        model: Some("base".to_string()),
        language: Some("auto".to_string()),
        language_code: "auto".to_string(),
        active_engine: TranscriptionEngine::ParakeetCpp,
        parakeet_engine: None,
    }
}

fn artifact_input(job_id: &str, title: &str, transcript: &str) -> RealtimeArtifactInput {
    RealtimeArtifactInput {
        job_id: job_id.to_string(),
        session_title: title.to_string(),
        language_code: "it".to_string(),
        model_filename: "ggml-large-v3-turbo.bin".to_string(),
        processing_engine: "whisper_stream".to_string(),
        elapsed_seconds: Some(3725),
        transcript: transcript.to_string(),
        saved_audio: None,
        processing_language: "und".to_string(),
        detected_languages: "[]".to_string(),
        timeline: None,
    }
}

#[test]
fn build_realtime_artifact_preserves_live_job_metadata() {
    let artifact = build_realtime_artifact(&RealtimeArtifactInput {
        saved_audio: Some((
            "/tmp/sbobino-live/session.wav".to_string(),
            Some("session.wav".to_string()),
        )),
        ..artifact_input("live-job-1", "Daily standup", "Ciao a tutti.")
    }, &None)
    .expect("realtime artifact should be valid");

    assert_eq!(artifact.job_id, "live-job-1");
    assert_eq!(artifact.title, "Daily standup");
    assert_eq!(artifact.kind, ArtifactKind::Realtime);
    assert_eq!(artifact.source_origin, ArtifactSourceOrigin::Realtime);
    assert_eq!(artifact.source_label, "session.wav");
    assert_eq!(artifact.raw_transcript, "Ciao a tutti.");
    assert_eq!(artifact.processing_engine.as_deref(), Some("whisper_stream"));
    assert_eq!(artifact.processing_model.as_deref(), Some("ggml-large-v3-turbo.bin"));
    assert_eq!(artifact.processing_language.as_deref(), Some("und"));
    assert_eq!(artifact.metadata.get("preferred_language"), Some("it"));
    assert_eq!(artifact.metadata.get("language"), Some("und"));
    assert_eq!(artifact.audio_duration_seconds, Some(3725));
    assert_eq!(artifact.metadata.get("duration_seconds"), Some("3725"));
    assert_eq!(artifact.metadata.get("audio_saved"), Some("true"));
}

#[test]
fn build_realtime_artifact_rejects_empty_live_transcript() {
    let error = build_realtime_artifact(&RealtimeArtifactInput {
        language_code: "en".to_string(),
        model_filename: "ggml-base.bin".to_string(),
        elapsed_seconds: None,
        ..artifact_input("live-job-2", "Empty live", "  ")
    }, &None)
    .err()
    .expect("empty live transcript should not produce an artifact");

    match error {
        ApplicationError::Validation(message) => assert!(message.contains("transcript")),
        other => panic!("unexpected error: {other:?}"),
    }
}

#[test]
fn build_realtime_artifact_persists_parakeet_timeline_metadata() {
    let artifact = build_realtime_artifact(&RealtimeArtifactInput {
        model_filename: "nemotron-3.5-asr-streaming-0.6b-q8.gguf".to_string(),
        processing_engine: "parakeet_cpp".to_string(),
        elapsed_seconds: Some(42),
        timeline: Some("{\"version\":2}".to_string()),
        ..artifact_input("live-job-3", "Parakeet live", "Segmento uno.")
    }, &None)
    .expect("parakeet realtime artifact should be valid");

    assert_eq!(artifact.processing_engine.as_deref(), Some("parakeet_cpp"));
    assert!(artifact.metadata.contains("timeline_v2"));
    assert_eq!(artifact.source_label, "Parakeet live.wav");
    let progress = finish_realtime_save(&artifact, &Ok(())).expect("saved");
    assert_eq!(progress.stage, JobStage::Completed);
    assert_eq!(progress.percentage, 100);
    assert_eq!(finish_realtime_save(&artifact, &Err("disk".to_string())).err().as_deref(), Some("disk"));
}

#[test]
fn parakeet_live_rejects_devices_that_cannot_keep_realtime() {
    for device in [
        TranscriptionComputeDevice::Cpu,
        TranscriptionComputeDevice::Auto,
        TranscriptionComputeDevice::Gpu,
    ] {
        let error = ensure_parakeet_live_device_supported(device)
            .expect_err("Parakeet live must fail fast instead of accumulating backlog");
        assert_eq!(error.code, "parakeet_live_realtime_unsupported");
        assert!(error.message.contains("Whisper"));
        assert!(error.message.contains("Parakeet file transcription"));
    }
}

fn model(filename: &str, multilingual_streaming: bool, installed: bool) -> LiveModel {
    LiveModel { filename: filename.to_string(), multilingual_streaming, installed }
}

#[test]
fn parakeet_live_uses_installed_multilingual_model_when_tdt_is_selected() {
    let candidates =
        vec![model("nemotron-q8.gguf", true, false), model("nemotron-q4.gguf", true, true)];
    let selected = select_parakeet_live_model("/models", &model("tdt.gguf", false, false), &candidates)
        .ok()
        .expect("selected");
    assert!(matches!(selected, LiveModelChoice::Candidate(1)));
}

#[test]
fn parakeet_live_fails_closed_without_realtime_model() {
    let candidates =
        vec![model("nemotron-q8.gguf", true, false), model("nemotron-q4.gguf", true, false)];
    let error = select_parakeet_live_model("/models", &model("tdt.gguf", false, true), &candidates)
        .err()
        .expect("tdt-only live should fail");
    let message = format!("{error:?}");
    assert!(message.contains("requires the NVIDIA Nemotron live model"), "{message}");
}

#[test]
fn parakeet_live_uses_nemotron_for_non_english_or_auto_language() {
    let candidates = vec![model("nemotron-q4.gguf", true, true)];
    let selected = select_parakeet_live_model("/models", &model("tdt.gguf", false, false), &candidates);
    assert!(matches!(selected, Ok(LiveModelChoice::Candidate(0))));
    let requested = select_parakeet_live_model("/models", &model("nemotron-q4.gguf", true, true), &candidates);
    assert!(matches!(requested, Ok(LiveModelChoice::Requested)));
    assert_eq!(parakeet_live_target_lang(), "auto");
}

fn library(cli_path: &str, platform: ParakeetLiveLibraryPlatform, files: &[&str]) -> String {
    let candidates = resolve_parakeet_live_library_path(cli_path, platform, PathStyle::Unix);
    let existing: Vec<bool> = candidates.iter().map(|c| files.contains(&c.as_str())).collect();
    let index = resolve_parakeet_live_library_path_for_platform(&candidates, &existing);
    candidates[index].clone()
}

#[test]
fn parakeet_live_library_resolution_supports_managed_runtime_layout() {
    let found = library(
        "/t/runtime/bin/parakeet-cli",
        ParakeetLiveLibraryPlatform::MacOs,
        &["/t/runtime/lib/libparakeet.dylib"],
    );
    assert_eq!(found, "/t/runtime/lib/libparakeet.dylib");
}

#[test]
fn parakeet_live_library_resolution_supports_dev_sidecar_layout() {
    let found = library(
        "/t/src-tauri/binaries/parakeet-cli",
        ParakeetLiveLibraryPlatform::MacOs,
        &["/t/src-tauri/lib/libparakeet.dylib"],
    );
    assert_eq!(found, "/t/src-tauri/lib/libparakeet.dylib");
}

#[test]
fn parakeet_live_library_resolution_supports_direct_sibling_layout() {
    let found = library(
        "/t/dev-runtime/parakeet-cli",
        ParakeetLiveLibraryPlatform::MacOs,
        &["/t/dev-runtime/libparakeet.dylib"],
    );
    assert_eq!(found, "/t/dev-runtime/libparakeet.dylib");
}

#[test]
fn parakeet_live_library_resolution_supports_windows_packaged_runtime_layout() {
    let location = "/t/runtime/bin/parakeet-cli";
    let both = ["/t/runtime/bin/parakeet.dll", "/t/runtime/lib/parakeet.dll"];
    let windows = ParakeetLiveLibraryPlatform::Windows;
    assert_eq!(library(location, windows, &both), both[0]);
    assert_eq!(library(location, windows, &both[1..]), both[1]);
}

#[test]
fn parakeet_live_library_resolution_returns_expected_missing_path() {
    let location = "/t/runtime/bin/parakeet-cli";
    let resolved = library(location, ParakeetLiveLibraryPlatform::MacOs, &[]);
    assert!(resolved.ends_with("lib/libparakeet.dylib"), "{resolved}");
    let windows = library(location, ParakeetLiveLibraryPlatform::Windows, &[]);
    assert!(windows.ends_with("parakeet.dll"), "{windows}");
}

#[test]
fn failed_parakeet_stop_keeps_same_session_for_retry() {
    let mut realtime = session(Some("live-retry-job"));

    retain_failed_parakeet_session(&mut realtime, "live-retry-job", 1);

    assert!(realtime.parakeet_engine.is_some());
    assert_eq!(realtime.active_job_id.as_deref(), Some("live-retry-job"));
    assert_eq!(realtime.session_name.as_deref(), Some("Retry me"));
    assert_eq!(
        realtime.model_filename.as_deref(),
        Some("nemotron-3.5-asr-streaming-0.6b-q8_0.gguf")
    );

    realtime.active_job_id = Some("new-job".to_string());
    retain_failed_parakeet_session(&mut realtime, "live-retry-job", 2);
    assert_eq!(realtime.parakeet_engine, Some(1));
    clear_completed_realtime_session(
        &mut realtime,
        TranscriptionEngine::ParakeetCpp,
        "live-retry-job",
    );
    assert!(realtime.parakeet_engine.is_some());
    assert_eq!(realtime.active_job_id.as_deref(), Some("new-job"));
}

#[test]
fn a_failed_stop_of_an_ended_session_keeps_no_engine() {
    let mut ended = session(None);
    retain_failed_parakeet_session(&mut ended, "live-retry-job", 3);
    assert_eq!(ended.parakeet_engine, None);
    assert_eq!(ended.active_job_id, None);
    assert_eq!(ended.session_name.as_deref(), Some("Retry me"));
}

#[test]
fn an_artifact_that_the_application_refuses_is_not_built() {
    let input = artifact_input("live-job-4", "Refused", "Ciao.");
    let error = build_realtime_artifact(&input, &Some("title is reserved".to_string()))
        .err()
        .expect("a refusal");
    match error {
        ApplicationError::Validation(message) => assert_eq!(message, "title is reserved"),
        other => panic!("unexpected error: {other:?}"),
    }
}

#[test]
fn a_library_is_looked_for_once_at_each_place() {
    let windows = resolve_parakeet_live_library_path(
        "C:\\app\\bin\\parakeet-cli.exe",
        ParakeetLiveLibraryPlatform::Windows,
        PathStyle::Windows,
    );
    assert_eq!(
        windows,
        vec![
            "C:\\app\\bin\\parakeet.dll",
            "C:\\app\\bin\\../lib/parakeet.dll",
            "C:\\app\\lib/parakeet.dll",
            "C:\\app\\parakeet.dll",
            "C:\\app\\../lib/parakeet.dll",
        ]
    );
    let bare = resolve_parakeet_live_library_path(
        "",
        ParakeetLiveLibraryPlatform::MacOs,
        PathStyle::Unix,
    );
    assert_eq!(bare, vec!["libparakeet.dylib"]);
    let beside = resolve_parakeet_live_library_path(
        "parakeet-cli",
        ParakeetLiveLibraryPlatform::MacOs,
        PathStyle::Unix,
    );
    assert_eq!(beside, vec!["libparakeet.dylib"]);
}

#[test]
fn duplicate_stop_reservation_allows_only_one_finalizer() {
    let mut stops = RealtimeStops::new();
    let marker = reserve_realtime_stop(&mut stops, "duplicate-stop").ok().expect("first stop");
    let rejected = reserve_realtime_stop(&mut stops, "duplicate-stop")
        .err()
        .expect("duplicate stops must not both finalize");
    assert_eq!(rejected.code, "realtime_stop_in_progress");

    release_realtime_stop(&mut stops, marker);
    assert!(reserve_realtime_stop(&mut stops, "duplicate-stop").is_ok());
}

#[test]
fn start_during_stop_finalization_is_rejected_until_marker_drops() {
    let mut stops = RealtimeStops::new();
    let marker = reserve_realtime_stop(&mut stops, "start-during-stop").ok().expect("a stop");
    let error = reject_if_realtime_stop_in_progress(&stops)
        .expect_err("new start must wait for stop/finalization");
    assert_eq!(error.code, "realtime_stop_in_progress");
    release_realtime_stop(&mut stops, marker);
    assert!(reject_if_realtime_stop_in_progress(&stops).is_ok());
    assert!(reserve_realtime_stop(&mut stops, "start-during-stop").is_ok());
}

fn stop_defaults() -> StopDefaults {
    StopDefaults {
        model: "base".to_string(),
        model_filename: "ggml-base.bin".to_string(),
        language: "en".to_string(),
        new_job_id: "new".to_string(),
        fallback_title: "live_01012026_000000".to_string(),
    }
}

#[test]
fn a_stop_is_reserved_announced_and_settled() {
    let mut stops = RealtimeStops::new();
    let mut live = session(Some("job-1"));
    live.active_engine = TranscriptionEngine::WhisperCpp;
    let payload = Some(StopRealtimePayload {
        save: None,
        title: Some("  Standup ".to_string()),
        elapsed_seconds: Some(12),
    });
    let stop = stop_realtime(&mut stops, &live, &payload, &stop_defaults()).ok().expect("a stop");
    assert!(stop.save);
    assert_eq!(stop.job_id, "job-1");
    assert_eq!(stop.session_title, "Standup");
    assert_eq!(stop.processing_engine, "whisper_stream");
    assert_eq!((stop.progress.stage, stop.progress.percentage), (JobStage::Persisting, 90));
    assert!(ensure_realtime_start_allowed(&stops, &live).is_err());
    assert!(stop_realtime(&mut stops, &live, &payload, &stop_defaults()).is_err());
    let answer = stop_response(&stop.job_id);
    assert!(answer.queued && !answer.saved);

    match settle_realtime_stop(&mut live, &stop, 1, &Ok("  ".to_string())) {
        StopFollowUp::Discarded(progress) => {
            assert_eq!(progress.message, "Live transcription stopped with no captured speech")
        }
        _ => panic!("nothing was said"),
    }
    assert!(live.active_job_id.is_none());
    let again = settle_realtime_stop(&mut live, &stop, 1, &Ok("Ciao".to_string()));
    assert!(matches!(again, StopFollowUp::Save));
    assert!(matches!(
        settle_realtime_stop(&mut live, &stop, 1, &Err("lost".to_string())),
        StopFollowUp::Failed(message) if message == "lost"
    ));
}

#[test]
fn a_stop_without_a_file_takes_that_of_the_sessions_own_model() {
    let file_of = |model: &str| format!("ggml-{model}.bin");
    let stopped = |live: &RealtimeSession| {
        let mut defaults = stop_defaults();
        defaults.model_filename = file_of(&stop_model(live, &defaults.model));
        let stop = stop_realtime(&mut RealtimeStops::new(), live, &None, &defaults);
        let stop = stop.ok().expect("a stop");
        (stop.model, stop.model_filename)
    };
    let mut live = session(Some("job-1"));
    live.active_engine = TranscriptionEngine::WhisperCpp;
    live.model = Some("large".to_string());
    assert_eq!(stopped(&live).1, "nemotron-3.5-asr-streaming-0.6b-q8_0.gguf");
    live.model_filename = None;
    assert_eq!(stopped(&live), ("large".to_string(), "ggml-large.bin".to_string()));
    live.model = None;
    assert_eq!(stopped(&live), ("base".to_string(), "ggml-base.bin".to_string()));
}

#[test]
fn a_parakeet_session_without_an_engine_cannot_stop() {
    let mut stops = RealtimeStops::new();
    let error = stop_realtime(&mut stops, &session(Some("job-1")), &None, &stop_defaults())
        .err()
        .expect("no engine");
    assert_eq!(error.message, "Parakeet live is not running");
    assert!(reject_if_realtime_stop_in_progress(&stops).is_ok());
}

fn described(steps: &[LiveStep]) -> Vec<String> {
    steps
        .iter()
        .map(|step| match step {
            LiveStep::Engine => "engine".to_string(),
            LiveStep::Level(e) => format!("level {} {}", e.state, e.message),
            LiveStep::Status(e) => format!("status {} {}", e.state, e.message),
        })
        .collect()
}

#[test]
fn pauses_and_stops_are_announced_in_order() {
    assert_eq!(
        described(&pause_realtime()),
        vec!["engine", "level paused Microphone preview paused.", "status paused Live paused"]
    );
    let whisper = described(&resume_realtime(TranscriptionEngine::WhisperCpp));
    assert_eq!(whisper[1], "engine");
    let parakeet = described(&resume_realtime(TranscriptionEngine::ParakeetCpp));
    assert_eq!(parakeet[0], "engine");
    assert_eq!(whisper[2], "status running Live resumed");
    assert_eq!(
        described(&announce_stop()),
        vec!["level idle Microphone preview stopped.", "status stopped Live stopped"]
    );
    assert_eq!(listening_progress("job-1").message, "Live listening");
}

#[test]
fn sessions_start_once_and_under_a_title() {
    let defaults = RealtimeDefaults {
        engine: TranscriptionEngine::WhisperCpp,
        model: "base".to_string(),
        language: "it".to_string(),
    };
    let device = TranscriptionComputeDevice::Auto;
    let stops = RealtimeStops::new();
    let mut idle = session(None);
    let start = start_realtime(&stops, &idle, &None, &defaults, device).ok().expect("a start");
    assert_eq!((start.model.as_str(), start.language.as_str()), ("base", "it"));
    assert!(start_realtime(&stops, &session(Some("job-1")), &None, &defaults, device).is_err());

    assert_eq!(realtime_session_title(&None, &None, "live_x").ok().as_deref(), Some("live_x"));
    let resumed = Some(Some("Monday".to_string()));
    assert_eq!(realtime_session_title(&None, &resumed, "live_x").ok().as_deref(), Some("Monday"));
    let missing = realtime_session_title(&None, &Some(None), "live_x").err().expect("missing");
    assert_eq!(missing.code, "not_found");
    assert_eq!(clean_optional_title(&Some("   ".to_string())), None);

    load_realtime_session(&mut idle, Some("Tuesday"));
    assert_eq!(idle.session_name.as_deref(), Some("Tuesday"));
    let failed = confirm_realtime_start(&mut idle, false, &vec!["a".to_string(), "b".to_string()], "j");
    assert!(matches!(failed, Err(ApplicationError::SpeechToText(text)) if text == "a b"));
    assert!(idle.session_name.is_none());
    assert!(confirm_realtime_start(&mut idle, true, &Vec::new(), "j").is_ok());
    assert_eq!(resolve_realtime_engine(&None, true).ok(), Some(true));
}

#[test]
fn a_started_session_is_entered_and_keeps_its_engine_state() {
    let mut entered = session(None);
    enter_realtime_session(
        &mut entered,
        &RealtimeStart {
            engine: TranscriptionEngine::WhisperCpp,
            model: "small".to_string(),
            language: "it".to_string(),
            requested_title: None,
            resume_artifact_id: None,
        },
        "job-7",
        "Standup",
    );
    assert_eq!(entered.active_job_id.as_deref(), Some("job-7"));
    assert_eq!(entered.session_name.as_deref(), Some("Standup"));
    assert_eq!(entered.model.as_deref(), Some("small"));
    assert_eq!(entered.language.as_deref(), Some("it"));
    assert_eq!(entered.language_code, "it");
    assert_eq!(entered.active_engine, TranscriptionEngine::WhisperCpp);
    assert_eq!(
        entered.model_filename.as_deref(),
        Some("nemotron-3.5-asr-streaming-0.6b-q8_0.gguf"),
    );
}

#[test]
fn a_missing_live_library_is_named() {
    assert!(resolve_parakeet_live_runtime_paths("/r/lib/libparakeet.so", true).is_ok());
    match resolve_parakeet_live_runtime_paths("/r/lib/libparakeet.so", false) {
        Err(ApplicationError::SpeechToText(message)) => assert_eq!(
            message,
            "Parakeet live library not found at /r/lib/libparakeet.so. Reinstall the local runtime from Settings > Local Models.",
        ),
        other => panic!("unexpected: {other:?}"),
    }
}

#[test]
fn a_start_that_fails_is_told_of_and_forgotten() {
    assert!(announce_start(TranscriptionEngine::WhisperCpp).is_empty());
    assert_eq!(announce_start(TranscriptionEngine::ParakeetCpp).len(), 1);

    let mut live = session(Some("job-1"));
    hold_realtime_engine(&mut live, "ggml-base.bin", 4);
    assert_eq!(live.parakeet_engine, Some(4));
    assert_eq!(live.model_filename.as_deref(), Some("ggml-base.bin"));
    live.active_engine = TranscriptionEngine::WhisperCpp;
    hold_realtime_engine(&mut live, "ggml-base.bin", 5);
    assert_eq!(live.parakeet_engine, None);

    let message = |steps: Vec<LiveStep>| match steps.as_slice() {
        [] => None,
        [LiveStep::Level(event)] => {
            assert_eq!(event.state, "idle");
            Some(event.message.clone())
        }
        _ => panic!("one level at most"),
    };
    let fail = |live: &mut RealtimeSession, engine, failure| {
        message(fail_realtime_start(live, engine, failure, "no device"))
    };
    let whisper = TranscriptionEngine::WhisperCpp;
    let parakeet = TranscriptionEngine::ParakeetCpp;
    assert_eq!(fail(&mut live, whisper, StartFailure::Preparing), None);
    assert!(live.active_job_id.is_none() && live.model_filename.is_none());
    assert!(ensure_realtime_start_allowed(&RealtimeStops::new(), &live).is_ok());
    assert_eq!(
        fail(&mut live, whisper, StartFailure::Launching).as_deref(),
        Some("Microphone preview stopped."),
    );
    assert_eq!(fail(&mut live, parakeet, StartFailure::Launching).as_deref(), Some("no device"));

    assert!(matches!(announce_started(true).as_slice(), [LiveStep::Status(_)]));
    assert!(matches!(announce_started(false).as_slice(), [LiveStep::Level(_)]));
    assert_eq!(telemetry_event(true).state, "finalizing");
    assert_eq!(telemetry_event(false).message, "Whisper live telemetry");
}
