//! The health of the runtime, its probes, and what a start needs.

use std::io::Cursor;

use sbobino_commands::domain::{
    ManagedRuntimeBinaryHealth, ManagedRuntimeHealth, PyannoteRuntimeHealth, RuntimeHealth,
    TranscriptionComputeDevice, TranscriptionEngine,
};
use sbobino_commands::paths::PathStyle;
use sbobino_commands::runtime::health::{
    compute_device_to_wire, engine_to_wire, first_managed_runtime_failure, is_legacy_whisperkit_path,
    normalize_runtime_settings_for_whisper_cpp, pyannote_probe_status,
    recover_interrupted_runtime_install_for_slot, runtime_health_response, runtime_toolchain_ready,
    schedule_optional_pyannote_probe, whisper_setup_result, SlotState, WhisperSettings,
};
use sbobino_commands::runtime::probe::{
    configure_probe_compute_environment, engine_probe_failure, ffmpeg_probe_failure,
    parakeet_batch_worker_path, parakeet_probe_args, probe_result_is_fresh, run_deep_runtime_probe,
    run_runtime_probe_command_capture, runtime_probe_cache_key, validate_parakeet_worker_output,
    whisper_probe_args, write_runtime_probe_manifest, write_runtime_probe_wav, DeepProbeStep,
    EnvironmentChange, FileStamp, ProbeRun, RuntimeProbeFailure,
};
use sbobino_commands::runtime::readiness::{
    ensure_after_setup, ensure_needs_setup, ensure_transcription_runtime,
    get_realtime_start_readiness, get_transcription_start_preflight, preflight_before_probe,
    preflight_model_path, preflight_tool_path, readiness_engine, whisper_start_readiness, InputDeviceError,
    LiveStartFacts, ParakeetLiveFacts, ReadinessPaths, StartPreflightPayload, WhisperLiveFacts,
};

fn available_binary(name: &str) -> ManagedRuntimeBinaryHealth {
    ManagedRuntimeBinaryHealth {
        resolved_path: format!("/tmp/{name}"),
        available: true,
        failure_reason: String::new(),
        failure_message: String::new(),
    }
}

fn missing_binary(name: &str) -> ManagedRuntimeBinaryHealth {
    ManagedRuntimeBinaryHealth {
        resolved_path: format!("/tmp/{name}"),
        available: false,
        failure_reason: "missing_file".to_string(),
        failure_message: "Managed runtime binary is missing.".to_string(),
    }
}

fn pyannote_health(enabled: bool, ready: bool) -> PyannoteRuntimeHealth {
    PyannoteRuntimeHealth {
        enabled,
        ready,
        runtime_installed: false,
        model_installed: false,
        runtime_dir: "/tmp/runtime/pyannote".to_string(),
        arch: "aarch64-apple-darwin".to_string(),
        device: "cpu".to_string(),
        source: "disabled".to_string(),
        reason_code: "disabled".to_string(),
        message: "disabled".to_string(),
    }
}

fn runtime_health_for_managed_runtime(
    configured_engine: TranscriptionEngine,
    parakeet_available: bool,
) -> RuntimeHealth {
    let parakeet_cli = if parakeet_available {
        available_binary("parakeet-cli")
    } else {
        missing_binary("parakeet-cli")
    };
    RuntimeHealth {
        host_os: "macos".to_string(),
        host_arch: "aarch64".to_string(),
        is_apple_silicon: true,
        preferred_engine: TranscriptionEngine::WhisperCpp,
        configured_engine,
        runtime_source: "managed_release_asset".to_string(),
        managed_runtime_required: true,
        managed_runtime: ManagedRuntimeHealth {
            source: "managed_release_asset".to_string(),
            ready: parakeet_available,
            ffmpeg: available_binary("ffmpeg"),
            whisper_cli: available_binary("whisper-cli"),
            whisper_stream: available_binary("whisper-stream"),
            parakeet_cli,
        },
        ffmpeg_path: "ffmpeg".to_string(),
        ffmpeg_resolved: "/tmp/ffmpeg".to_string(),
        ffmpeg_available: true,
        whisper_cli_path: "whisper-cli".to_string(),
        whisper_cli_resolved: "/tmp/whisper-cli".to_string(),
        whisper_cli_available: true,
        whisper_stream_path: "whisper-stream".to_string(),
        whisper_stream_resolved: "/tmp/whisper-stream".to_string(),
        whisper_stream_available: true,
        parakeet_cli_path: "parakeet-cli".to_string(),
        parakeet_cli_resolved: "/tmp/parakeet-cli".to_string(),
        parakeet_cli_available: parakeet_available,
        models_dir_configured: "/tmp/models".to_string(),
        models_dir_resolved: "/tmp/models".to_string(),
        parakeet_models_dir_configured: "/tmp/parakeet-models".to_string(),
        parakeet_models_dir_resolved: "/tmp/parakeet-models".to_string(),
        model_filename: "ggml-base.bin".to_string(),
        model_present: true,
        parakeet_model_filename: "tdt-0.6b-v3-q4_k.gguf".to_string(),
        parakeet_model_present: true,
        missing_parakeet_models: Vec::new(),
        coreml_encoder_present: true,
        missing_models: Vec::new(),
        missing_encoders: Vec::new(),
        pyannote: pyannote_health(false, true),
        setup_complete: parakeet_available,
    }
}

#[test]
fn managed_runtime_requires_parakeet_even_when_whisper_is_selected() {
    let health = runtime_health_for_managed_runtime(TranscriptionEngine::WhisperCpp, false);

    assert!(!runtime_toolchain_ready(&health));
}

#[test]
fn managed_runtime_is_ready_when_all_release_binaries_are_available() {
    let health = runtime_health_for_managed_runtime(TranscriptionEngine::WhisperCpp, true);

    assert!(runtime_toolchain_ready(&health));
}

#[test]
fn the_first_failure_of_the_managed_runtime_is_told() {
    let health = runtime_health_for_managed_runtime(TranscriptionEngine::ParakeetCpp, false);
    let failure =
        first_managed_runtime_failure(&health.managed_runtime, TranscriptionEngine::ParakeetCpp)
            .expect("a failure");
    assert_eq!(failure.2, "Managed runtime binary is missing.");
    assert!(ensure_transcription_runtime(&health).is_none());
    assert!(!ensure_needs_setup(&health));
    let ready = runtime_health_for_managed_runtime(TranscriptionEngine::WhisperCpp, true);
    assert!(first_managed_runtime_failure(&ready.managed_runtime, TranscriptionEngine::WhisperCpp)
        .is_none());
    let response = runtime_health_response(ready, "1.2.3");
    assert_eq!(response.app_version, "1.2.3");
    assert_eq!(response.configured_engine, engine_to_wire(TranscriptionEngine::WhisperCpp));
    assert_eq!(response.host_os, "macos");
    assert_eq!(response.model_filename, "ggml-base.bin");
    assert!(response.setup_complete);
}

#[test]
fn runtime_probe_fixture_is_one_second_pcm16_wav() {
    let fixture = write_runtime_probe_wav();
    let spec = hound::WavSpec {
        channels: fixture.channels,
        sample_rate: fixture.sample_rate,
        bits_per_sample: fixture.bits_per_sample,
        sample_format: hound::SampleFormat::Int,
    };
    let mut file = Cursor::new(Vec::new());
    let mut writer = hound::WavWriter::new(&mut file, spec).expect("probe fixture should be created");
    for sample in &fixture.samples {
        writer.write_sample(*sample).expect("probe fixture should be created");
    }
    writer.finalize().expect("probe fixture should be created");
    file.set_position(0);

    let reader = hound::WavReader::new(file).expect("probe fixture should be readable");
    assert_eq!(reader.spec().channels, 1);
    assert_eq!(reader.spec().sample_rate, 16_000);
    assert_eq!(reader.duration(), 16_000);
}

#[test]
fn parakeet_worker_output_requires_one_complete_json_row() {
    validate_parakeet_worker_output("{\"index\":0,\"result\":{\"text\":\"\"}}\n")
        .expect("worker row should validate");

    assert!(validate_parakeet_worker_output("{\"index\":1}\n").is_err());
    assert!(validate_parakeet_worker_output("").is_err());
    let row = "{\"index\":0,\"result\":{}}\n";
    assert!(validate_parakeet_worker_output(&format!("{row}{row}")).is_err());
    let invalid = validate_parakeet_worker_output("not json\n").expect_err("invalid JSON");
    assert_eq!(invalid.reason_code, "parakeetcpp_smoke_invalid_json");
    assert!(validate_parakeet_worker_output("{\"index\":\"0\",\"result\":{}}\n").is_err());
}

#[test]
fn a_worker_row_is_read_by_its_keys() {
    let refused = |line: &str| {
        validate_parakeet_worker_output(line).expect_err("a row that is not the first").reason_code
    };
    let incomplete = refused("{\"index\":1,\"result\":{}}\n");
    assert_eq!(refused("{\"index\":0,\"text\":{}}\n"), incomplete);
    assert_eq!(refused("{\"result\":0,\"place\":0}\n"), incomplete);
    assert_eq!(refused("[0]\n"), incomplete);
    assert!(validate_parakeet_worker_output("{\"result\":1,\"index\":0}\n").is_ok());
}

fn stamp(path: &str, size: u64) -> FileStamp {
    FileStamp { path: path.to_string(), size, modified: "17:0".to_string() }
}

fn cache_key(
    engine: TranscriptionEngine,
    model_size: u64,
    device: TranscriptionComputeDevice,
) -> String {
    runtime_probe_cache_key(
        engine,
        &stamp("/t/ffmpeg", 6),
        &stamp("/t/engine", 6),
        &stamp("/t/model.gguf", model_size),
        device,
    )
}

#[test]
fn runtime_probe_cache_key_changes_when_model_changes() {
    let whisper = TranscriptionEngine::WhisperCpp;
    let auto = TranscriptionComputeDevice::Auto;
    assert_ne!(cache_key(whisper, 7, auto), cache_key(whisper, 29, auto));
}

#[test]
fn a_probe_key_tells_a_changed_model_file_from_its_old_self() {
    let key = |size: u64, modified: &str| {
        let model =
            FileStamp { path: "/t/m".to_string(), size, modified: modified.to_string() };
        runtime_probe_cache_key(
            TranscriptionEngine::WhisperCpp,
            &stamp("/t/ffmpeg", 6),
            &stamp("/t/engine", 6),
            &model,
            TranscriptionComputeDevice::Auto,
        )
    };
    assert_eq!(key(7, "17:0"), "whisper_cpp|/t/ffmpeg:6:17:0|/t/engine:6:17:0|/t/m:7:17:0|auto");
    assert_ne!(key(7, "17:0"), key(7, "18:0"));
    assert_ne!(key(7, "1:1"), key(71, "1:1"));
}

#[test]
fn runtime_probe_cache_key_includes_compute_device() {
    assert_ne!(
        cache_key(TranscriptionEngine::ParakeetCpp, 5, TranscriptionComputeDevice::Auto),
        cache_key(TranscriptionEngine::ParakeetCpp, 5, TranscriptionComputeDevice::Cpu)
    );
    assert_eq!(compute_device_to_wire(TranscriptionComputeDevice::Gpu), "gpu");
    assert!(probe_result_is_fresh(299));
    assert!(!probe_result_is_fresh(300));
}

/// Applies changes to variables.
fn changed(
    start: &[(&str, &str)],
    changes: &[EnvironmentChange],
) -> Vec<(String, String)> {
    let mut vars: Vec<(String, String)> =
        start.iter().map(|(n, v)| (n.to_string(), v.to_string())).collect();
    for change in changes {
        vars.retain(|(name, _)| *name != change.name);
        if let Some(value) = &change.value {
            vars.push((change.name.clone(), value.clone()));
        }
    }
    vars
}

#[test]
fn runtime_probe_compute_device_controls_args_and_worker_environment() {
    let args = |device| whisper_probe_args("model.gguf", "probe.wav", device);
    let cpu_args = args(TranscriptionComputeDevice::Cpu);
    assert!(cpu_args.windows(2).any(|pair| pair == ["-ng", "-nfa"]));
    let auto_args = args(TranscriptionComputeDevice::Auto);
    assert!(!auto_args.iter().any(|arg| arg == "-ng" || arg == "-nfa"));
    let gpu_args = args(TranscriptionComputeDevice::Gpu);
    assert!(!gpu_args.iter().any(|arg| arg == "-ng" || arg == "-nfa"));

    let environment =
        |device| configure_probe_compute_environment(TranscriptionEngine::ParakeetCpp, device);
    let cpu = changed(&[], &environment(TranscriptionComputeDevice::Cpu));
    assert!(cpu.contains(&("PARAKEET_DEVICE".to_string(), "cpu".to_string())));

    let gpu = changed(
        &[("PARAKEET_DEVICE", "cpu"), ("SBOBINO_PARAKEET_FORCE_CPU", "1")],
        &environment(TranscriptionComputeDevice::Gpu),
    );
    assert!(gpu.is_empty());

    let auto = changed(
        &[("PARAKEET_DEVICE", "inherited")],
        &environment(TranscriptionComputeDevice::Auto),
    );
    assert_eq!(auto, vec![("PARAKEET_DEVICE".to_string(), "inherited".to_string())]);
    let whisper = configure_probe_compute_environment(
        TranscriptionEngine::WhisperCpp,
        TranscriptionComputeDevice::Cpu,
    );
    assert!(whisper.is_empty());
}

#[test]
fn the_batch_worker_gets_one_second_of_silence() {
    assert_eq!(
        parakeet_batch_worker_path("/t/bin/parakeet-cli", PathStyle::Unix),
        "/t/bin/parakeet-batch-json"
    );
    assert_eq!(parakeet_batch_worker_path("", PathStyle::Windows), "parakeet-batch-json.exe");
    assert_eq!(
        parakeet_batch_worker_path("parakeet-cli", PathStyle::Unix),
        "parakeet-batch-json"
    );
    assert_eq!(
        parakeet_batch_worker_path("C:\\bin\\parakeet-cli.exe", PathStyle::Windows),
        "C:\\bin\\parakeet-batch-json.exe"
    );
    assert_eq!(
        write_runtime_probe_manifest("/t/p.wav"),
        "0\t0.000\t1.000\t0.000\t1.000\t/t/p.wav\n"
    );
    assert!(parakeet_probe_args("/m", "/p.tsv").contains(&"/m".to_string()));
}

fn failure(code: &str, message: &str) -> RuntimeProbeFailure {
    RuntimeProbeFailure { reason_code: code.to_string(), message: message.to_string() }
}

#[test]
fn failures_of_a_probe_are_named_after_what_failed() {
    assert!(run_runtime_probe_command_capture("/t/x", &ProbeRun::Succeeded).is_ok());
    for run in [
        ProbeRun::Missing,
        ProbeRun::SpawnFailed("denied".to_string()),
        ProbeRun::TimedOut,
        ProbeRun::WaitFailed("pipe".to_string()),
        ProbeRun::Failed {
            status: "exit status: 1".to_string(),
            stdout: String::new(),
            stderr: "bad".to_string(),
        },
    ] {
        let error = run_runtime_probe_command_capture("/t/x", &run).expect_err("a failure");
        assert!(!error.reason_code.is_empty());
    }
    let error = failure("runtime_probe_timeout", "slow");
    assert!(ffmpeg_probe_failure(&error).message.contains("slow"));
    assert!(engine_probe_failure(TranscriptionEngine::WhisperCpp, &error).message.contains("slow"));

    let engine = TranscriptionEngine::ParakeetCpp;
    let good = Ok("{\"index\":0,\"result\":{}}\n".to_string());
    let after = |step, engine, outcome: &Result<String, RuntimeProbeFailure>| {
        run_deep_runtime_probe(step, engine, outcome).map_err(|f| (f.reason_code, f.message))
    };
    let broken = Err(failure("x", "y"));
    let said = |reason: &str, text: &str| Err((reason.to_string(), text.to_string()));
    assert_eq!(after(DeepProbeStep::Decode, engine, &good), Ok(DeepProbeStep::WriteManifest));
    assert_eq!(after(DeepProbeStep::WriteManifest, engine, &good), Ok(DeepProbeStep::Transcribe));
    assert_eq!(after(DeepProbeStep::Transcribe, engine, &good), Ok(DeepProbeStep::Over));
    assert_eq!(
        after(DeepProbeStep::Decode, engine, &broken),
        said("ffmpeg_decode_failed", "FFmpeg decode readiness failed: y")
    );
    assert_eq!(after(DeepProbeStep::WriteManifest, engine, &broken), said("x", "y"));
    assert_eq!(
        after(DeepProbeStep::Transcribe, engine, &broken),
        said("parakeetcpp_smoke_failed", "Parakeet.cpp short transcription readiness failed: y")
    );
    let text = Ok("broken".to_string());
    assert!(after(DeepProbeStep::Transcribe, engine, &text).is_err());

    let whisper = TranscriptionEngine::WhisperCpp;
    assert_eq!(after(DeepProbeStep::Decode, whisper, &text), Ok(DeepProbeStep::Transcribe));
    assert_eq!(after(DeepProbeStep::Transcribe, whisper, &text), Ok(DeepProbeStep::Over));
}

#[test]
fn runtime_recovery_defers_when_provisioning_slot_is_contended() {
    assert!(!recover_interrupted_runtime_install_for_slot(SlotState::Contended));
    assert!(!recover_interrupted_runtime_install_for_slot(SlotState::Active));
    assert!(recover_interrupted_runtime_install_for_slot(SlotState::Idle));
}

#[test]
fn an_optional_probe_runs_once_at_a_time() {
    let mut in_flight = false;
    let installed = PyannoteRuntimeHealth {
        runtime_installed: true,
        model_installed: true,
        ..pyannote_health(true, true)
    };
    assert!(schedule_optional_pyannote_probe(&installed, &mut in_flight));
    assert!(in_flight);
    assert!(!schedule_optional_pyannote_probe(&installed, &mut in_flight));
    assert!(!schedule_optional_pyannote_probe(&pyannote_health(true, true), &mut false));
    assert!(pyannote_probe_status(&Err("no module".to_string())).is_some());
}

#[test]
fn whisperkit_paths_are_replaced_once() {
    assert!(is_legacy_whisperkit_path("/opt/WhisperKit/whisperkit-cli"));
    assert!(!is_legacy_whisperkit_path("/opt/whisper-cli"));
    let mut settings = WhisperSettings {
        engine: TranscriptionEngine::WhisperCpp,
        legacy_engine: TranscriptionEngine::WhisperCpp,
        whisper_cli_path: "whisperkit-cli".to_string(),
        legacy_whisper_cli_path: "whisperkit-cli".to_string(),
        whisper_stream_path: String::new(),
        legacy_whisper_stream_path: String::new(),
    };
    assert!(normalize_runtime_settings_for_whisper_cpp(&mut settings));
    assert!(!normalize_runtime_settings_for_whisper_cpp(&mut settings));
    assert_eq!(whisper_setup_result(true, &Ok(()), &Ok(())), (true, None));
    assert_eq!(whisper_setup_result(false, &Ok(()), &Ok(())), (false, None));
    assert!(whisper_setup_result(true, &Err("x".to_string()), &Ok(())).1.is_some());
    assert!(whisper_setup_result(true, &Ok(()), &Err("x".to_string())).1.is_some());
}

#[test]
fn a_live_session_needs_its_tools_its_model_and_a_microphone() {
    let facts = |stream: bool, model: bool, device: Result<String, InputDeviceError>| WhisperLiveFacts {
        models_dir: "/models".to_string(),
        model_filename: "ggml-base.bin".to_string(),
        ffmpeg_available: true,
        whisper_stream_available: stream,
        model_present: model,
        input_device: device,
        paths: ReadinessPaths {
            style: PathStyle::Unix,
            ffmpeg_resolved: "/t/ffmpeg".to_string(),
            whisper_stream_resolved: "/t/whisper-stream".to_string(),
            parakeet_cli_resolved: "/t/parakeet-cli".to_string(),
        },
    };
    let microphone = || Ok("Built-in".to_string());
    let ready = whisper_start_readiness(&facts(true, true, microphone()));
    assert!(ready.allowed);
    assert_eq!(ready.input_device_name.as_deref(), Some("Built-in"));
    assert!(!whisper_start_readiness(&facts(false, true, microphone())).allowed);
    assert!(!whisper_start_readiness(&facts(true, false, microphone())).allowed);
    let silent = Err(InputDeviceError {
        reason_code: "no_input_device".to_string(),
        message: "no microphone".to_string(),
    });
    let refused = whisper_start_readiness(&facts(true, true, silent));
    assert!(!refused.allowed);
    assert_eq!(refused.reason_code, "no_input_device");
    assert_eq!(
        readiness_engine(None, TranscriptionEngine::ParakeetCpp),
        TranscriptionEngine::ParakeetCpp
    );
}

#[test]
fn a_transcription_starts_only_after_the_probe() {
    let health = runtime_health_for_managed_runtime(TranscriptionEngine::WhisperCpp, true);
    let request = Some(StartPreflightPayload {
        engine: None,
        model: "ggml-base.bin".to_string(),
        parakeet_model: None,
        language: None,
    });
    assert_eq!(preflight_model_path(&request, &health, PathStyle::Unix), "/tmp/models/ggml-base.bin");
    assert!(preflight_before_probe(&request, &health, true).is_none());
    assert!(preflight_before_probe(&request, &health, false).is_some());
    let passed = get_transcription_start_preflight(&request, health, PathStyle::Unix, true, &Ok(()));
    assert!(passed.allowed);
    assert_eq!(passed.message, "Whisper.cpp preflight passed.");
    assert_eq!(passed.pyannote.reason_code, "disabled");
    let health = runtime_health_for_managed_runtime(TranscriptionEngine::WhisperCpp, true);
    let failed = Err(failure("whispercpp_smoke_failed", "crashed"));
    let refused = get_transcription_start_preflight(&request, health, PathStyle::Unix, true, &failed);
    assert!(!refused.allowed);
    assert_eq!(refused.reason_code, "whispercpp_smoke_failed");

    let health = runtime_health_for_managed_runtime(TranscriptionEngine::WhisperCpp, true);
    let other = Some(StartPreflightPayload {
        engine: Some(TranscriptionEngine::ParakeetCpp),
        model: "ggml-base.bin".to_string(),
        parakeet_model: None,
        language: None,
    });
    assert_eq!(
        preflight_model_path(&other, &health, PathStyle::Unix),
        "/tmp/parakeet-models/tdt-0.6b-v3-q4_k.gguf",
    );
    assert_eq!(preflight_model_path(&None, &health, PathStyle::Unix), "/tmp/models/ggml-base.bin");
    assert_eq!(preflight_tool_path(&other, &health), health.parakeet_cli_resolved);
    assert_eq!(preflight_tool_path(&request, &health), health.whisper_cli_resolved);
    assert_ne!(health.parakeet_cli_resolved, health.whisper_cli_resolved);
}

#[test]
fn a_setup_is_answered_with_the_refreshed_health() {
    let ready = runtime_health_for_managed_runtime(TranscriptionEngine::WhisperCpp, true);
    let answer = ensure_after_setup(&ready, true, &None);
    assert!(answer.ready && answer.did_setup);
    assert_eq!(answer.message, "Whisper.cpp runtime is ready.");
    assert_eq!(ensure_after_setup(&ready, false, &None).message, "Whisper.cpp runtime available.");

    let broken = runtime_health_for_managed_runtime(TranscriptionEngine::ParakeetCpp, false);
    let answer = ensure_after_setup(&broken, false, &None);
    assert!(!answer.ready && !answer.did_setup);
    assert!(answer.message.contains("Managed runtime binary is missing."));
}

fn parakeet_facts() -> ParakeetLiveFacts {
    ParakeetLiveFacts {
        models_dir: "/models".to_string(),
        requested_model_filename: "asked.gguf".to_string(),
        selected_model: Ok("live.gguf".to_string()),
        cli_available: true,
        lib_path: "/t/libparakeet.so".to_string(),
        lib_exists: true,
        lib_error: None,
        model_exists: true,
        input_device: Ok("Built-in".to_string()),
        paths: ReadinessPaths {
            style: PathStyle::Unix,
            ffmpeg_resolved: "/t/ffmpeg".to_string(),
            whisper_stream_resolved: "/t/whisper-stream".to_string(),
            parakeet_cli_resolved: "/t/parakeet-cli".to_string(),
        },
    }
}

#[test]
fn a_parakeet_session_names_the_first_thing_it_lacks() {
    let ready = get_realtime_start_readiness(&LiveStartFacts::Parakeet(parakeet_facts()));
    assert!(ready.allowed);
    assert_eq!(ready.reason_code, "ok");
    assert_eq!(ready.message, "Parakeet.cpp live is ready with 'live.gguf' (lang auto).");
    assert_eq!(ready.model_path, "/models/live.gguf");
    assert_eq!(ready.input_device_name.as_deref(), Some("Built-in"));

    let refusal = |facts: ParakeetLiveFacts| {
        let answer = get_realtime_start_readiness(&LiveStartFacts::Parakeet(facts));
        assert!(!answer.allowed);
        assert!(answer.input_device_name.is_none());
        (answer.reason_code, answer.message)
    };
    let none_chosen =
        ParakeetLiveFacts { selected_model: Err("pick one".to_string()), ..parakeet_facts() };
    assert_eq!(
        refusal(none_chosen),
        ("parakeet_realtime_model_missing".to_string(), "pick one".to_string()),
    );
    assert_eq!(
        refusal(ParakeetLiveFacts { cli_available: false, ..parakeet_facts() }).0,
        "parakeet_cli_missing",
    );
    assert_eq!(
        refusal(ParakeetLiveFacts { lib_exists: false, ..parakeet_facts() }).1,
        "Parakeet.cpp live library is missing at /t/libparakeet.so. Reinstall the local runtime.",
    );
    let unloadable =
        ParakeetLiveFacts { lib_error: Some("bad image".to_string()), ..parakeet_facts() };
    assert_eq!(
        refusal(unloadable),
        (
            "parakeet_live_library_unloadable".to_string(),
            "Parakeet.cpp live library is not loadable at /t/libparakeet.so. bad image".to_string(),
        ),
    );
    assert_eq!(
        refusal(ParakeetLiveFacts { model_exists: false, ..parakeet_facts() }).0,
        "parakeet_realtime_model_missing",
    );
}
