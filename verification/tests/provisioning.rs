//! Plans, downloads and installs of what a transcription needs.

use sbobino_commands::domain::{
    ManagedRuntimeBinaryHealth, ManagedRuntimeHealth, PyannoteRuntimeHealth, RuntimeHealth,
    TranscriptionEngine,
};
use sbobino_commands::paths::PathStyle;
use sbobino_commands::provisioning::assets::format_bytes;
use sbobino_commands::provisioning::batch::{
    acquire_provisioning_slot, asset_at, encoder_outcome, progress_percentage,
    provisioning_download_model, provisioning_install_pyannote, provisioning_install_runtime,
    provisioning_start, read_setup_report, release_provisioning_slot, spawn_provisioning_download,
    transcription_runtime_install_complete, write_setup_report, AssetFailure, BatchStep,
    ExtractionEnd, InstallDecision, ModelDownload, ProvisioningDownloadModelPayload,
    ProvisioningInstallPyannotePayload, ProvisioningSlot, ProvisioningStartPayload,
    SetupReportStepPayload, WriteSetupReportPayload,
};
use sbobino_commands::provisioning::catalog::{
    configured_models_dir, parakeet_models, provisioning_models, provisioning_status,
    whisper_models,
};
use sbobino_commands::provisioning::digest::{
    normalize_sha256, sha256_bytes_hex, verify_file_sha256,
};
use sbobino_commands::provisioning::download::{
    attempt_error, check_received_body, download_temp_name, download_to_path, download_to_temp,
    local_failure_text, provisioning_swap_name, publish_download, response_looks_like_html,
    stage_release_asset, AttemptEvent, DownloadAttemptError, DownloadResponse, LocalFailure,
    LocalNext, LocalStage, LocalStagePaths, ReceivedBody, RetryDecision,
    MODEL_DOWNLOAD_MAX_ATTEMPTS,
};
use sbobino_commands::provisioning::install_actions::{
    persist_pyannote_install_failure, InstallAction, StepOutcome,
};
use sbobino_commands::provisioning::managed_python::{
    check_pyannote_probe, managed_pyannote_python_executable, managed_pyannote_python_path_env,
    probe_library_entries, probe_path_entries, probe_pyannote_import_and_load,
    pyannote_python_env_vars_to_clear, ProbeEnd, ProbeExit, PYANNOTE_PROBE_SCRIPT,
};
use sbobino_commands::provisioning::manifests::{PyannoteAssetSelection, PyannoteReleaseAsset};
use sbobino_commands::provisioning::pyannote_install::{
    ready_status, spawn_pyannote_provisioning_download, PyannoteAssetNames, PyannoteStep,
};
use sbobino_commands::provisioning::pyannote_plan::{
    plan_after_reconcile, plan_pyannote_background_action, plan_pyannote_background_action_inner,
    pyannote_reconcile_action, reconcile_post_update_runtime, release_install_record,
    should_attempt_post_update_pyannote_reconcile, ManagedPyannoteManifest,
    PyannoteBackgroundActionTrigger, PyannotePlanStep, ReconcileManagedPyannoteReleaseOutcome,
    PYANNOTE_COMPAT_LEVEL,
};
use sbobino_commands::provisioning::runtime_provision::{
    spawn_runtime_provisioning_download, RuntimeStep,
};

fn managed_binary_health(available: bool) -> ManagedRuntimeBinaryHealth {
    ManagedRuntimeBinaryHealth {
        resolved_path: "/tmp/runtime/bin/tool".to_string(),
        available,
        failure_reason: if available { String::new() } else { "missing".to_string() },
        failure_message: if available { String::new() } else { "tool is missing".to_string() },
    }
}

fn pyannote_health() -> PyannoteRuntimeHealth {
    PyannoteRuntimeHealth {
        enabled: false,
        ready: false,
        runtime_installed: false,
        model_installed: false,
        runtime_dir: String::new(),
        arch: String::new(),
        device: String::new(),
        source: String::new(),
        reason_code: String::new(),
        message: String::new(),
    }
}

fn runtime_health(parakeet: bool) -> RuntimeHealth {
    RuntimeHealth {
        host_os: "macos".to_string(),
        host_arch: "aarch64".to_string(),
        is_apple_silicon: true,
        preferred_engine: TranscriptionEngine::WhisperCpp,
        configured_engine: TranscriptionEngine::WhisperCpp,
        runtime_source: "managed_release_asset".to_string(),
        managed_runtime_required: true,
        managed_runtime: ManagedRuntimeHealth {
            source: "managed_release_asset".to_string(),
            ready: parakeet,
            ffmpeg: managed_binary_health(true),
            whisper_cli: managed_binary_health(true),
            whisper_stream: managed_binary_health(true),
            parakeet_cli: managed_binary_health(parakeet),
        },
        ffmpeg_path: "ffmpeg".to_string(),
        ffmpeg_resolved: "/tmp/runtime/bin/ffmpeg".to_string(),
        ffmpeg_available: true,
        whisper_cli_path: "whisper-cli".to_string(),
        whisper_cli_resolved: "/tmp/runtime/bin/whisper-cli".to_string(),
        whisper_cli_available: true,
        whisper_stream_path: "whisper-stream".to_string(),
        whisper_stream_resolved: "/tmp/runtime/bin/whisper-stream".to_string(),
        whisper_stream_available: true,
        parakeet_cli_path: "parakeet-cli".to_string(),
        parakeet_cli_resolved: "/tmp/runtime/bin/parakeet-cli".to_string(),
        parakeet_cli_available: parakeet,
        models_dir_configured: "models".to_string(),
        models_dir_resolved: "/tmp/models".to_string(),
        parakeet_models_dir_configured: "parakeet-models".to_string(),
        parakeet_models_dir_resolved: "/tmp/parakeet-models".to_string(),
        model_filename: "ggml-base.bin".to_string(),
        model_present: true,
        parakeet_model_filename: "tdt-0.6b-v3-q4_k.gguf".to_string(),
        parakeet_model_present: false,
        missing_parakeet_models: vec![],
        coreml_encoder_present: false,
        missing_models: vec![],
        missing_encoders: vec![],
        pyannote: pyannote_health(),
        setup_complete: false,
    }
}

#[test]
fn transcription_runtime_install_complete_requires_parakeet_cli() {
    assert!(
        !transcription_runtime_install_complete(&runtime_health(false)),
        "runtime repair must not skip install when Parakeet CLI is missing"
    );
    assert!(transcription_runtime_install_complete(&runtime_health(true)));
}

#[test]
fn an_installed_runtime_is_not_installed_again_unless_forced() {
    assert!(matches!(
        provisioning_install_runtime(&None, &runtime_health(true)),
        InstallDecision::AlreadyInstalled(_)
    ));
    assert!(matches!(
        provisioning_install_runtime(&None, &runtime_health(false)),
        InstallDecision::Install { .. }
    ));
}

fn manifest(compat_level: u32) -> ManagedPyannoteManifest {
    ManagedPyannoteManifest {
        source: "release_asset".to_string(),
        app_version: "0.9.0".to_string(),
        compat_level,
        runtime_asset: "pyannote-runtime-macos-aarch64.zip".to_string(),
        runtime_sha256: "runtime-sha".to_string(),
        model_asset: "pyannote-model-community-1.zip".to_string(),
        model_sha256: "model-sha".to_string(),
        runtime_arch: "aarch64-apple-darwin".to_string(),
        installed_at: "2026-04-21T00:00:00Z".to_string(),
    }
}

fn startup_action(before: &Option<ManagedPyannoteManifest>) {
    match plan_pyannote_background_action(PyannoteBackgroundActionTrigger::Startup, before, "1.0.0") {
        PyannotePlanStep::Answer(action) => {
            assert_eq!(action.status, "none");
            assert!(!action.should_start);
            assert!(!action.force_reinstall);
            assert_eq!(action.reason_code, "pyannote_auto_check_disabled");
        }
        _ => panic!("nothing is checked at startup"),
    }
}

#[test]
fn plan_pyannote_background_action_skips_startup_when_diarization_disabled() {
    startup_action(&None);
}

#[test]
fn plan_pyannote_background_action_skips_startup_when_diarization_enabled() {
    startup_action(&None);
}

#[test]
fn plan_pyannote_background_action_skips_startup_compat_mismatch() {
    startup_action(&Some(manifest(PYANNOTE_COMPAT_LEVEL + 1)));
}

#[test]
fn plan_pyannote_background_action_skips_startup_stale_incomplete_status() {
    startup_action(&Some(manifest(PYANNOTE_COMPAT_LEVEL)));
}

#[test]
fn pyannote_reconcile_action_requests_manifest_only_migration_on_patch_update() {
    let action =
        pyannote_reconcile_action(&ReconcileManagedPyannoteReleaseOutcome::ManifestUpdated)
            .expect("manifest update should produce an action");
    assert_eq!(action.status, "migrate_manifest");
    assert!(!action.should_start);
    assert!(!action.force_reinstall);
    assert_eq!(action.reason_code, "pyannote_manifest_migrated");
}

#[test]
fn pyannote_reconcile_action_requests_asset_migration_on_checksum_mismatch() {
    let action =
        pyannote_reconcile_action(&ReconcileManagedPyannoteReleaseOutcome::NeedsMigration {
            message: "Pyannote asset checksums do not match the current release and need migration."
                .to_string(),
        })
        .expect("checksum mismatch should produce an action");
    assert_eq!(action.status, "migrate_assets");
    assert!(action.should_start);
    assert!(action.force_reinstall);
    assert_eq!(action.reason_code, "pyannote_checksum_invalid");
    assert!(pyannote_reconcile_action(&ReconcileManagedPyannoteReleaseOutcome::NoAction).is_none());
}

#[test]
fn verify_file_sha256_rejects_wrong_checksum() {
    let name = Some("asset.bin".to_string());
    let actual = sha256_bytes_hex(b"pyannote");
    assert!(verify_file_sha256(&name, b"pyannote", &actual).is_ok());
    assert!(verify_file_sha256(&name, b"pyannote", "deadbeef").is_err());
    assert!(verify_file_sha256(&name, b"pyannote!", &actual).is_err());
    assert_eq!(actual.len(), 64);
    assert!(verify_file_sha256(&name, b"pyannote", &actual.to_uppercase()).is_ok());
    assert!(verify_file_sha256(&name, b"pyannote", &format!(" {actual}\n")).is_ok());
    assert!(verify_file_sha256(&name, b"pyannote", &actual[1..]).is_err());
    assert!(verify_file_sha256(&name, b"pyannote", " \t").is_err());
}

#[test]
fn digests_are_those_of_sha256() {
    assert_eq!(
        sha256_bytes_hex(b"abc"),
        "ba7816bf8f01cfea414140de5dae2223b00361a396177a9cb410ff61f20015ad"
    );
    assert_eq!(
        sha256_bytes_hex(b""),
        "e3b0c44298fc1c149afbf4c8996fb92427ae41e4649b934ca495991b7852b855"
    );
    assert_eq!(normalize_sha256(" SHA256:AbC "), normalize_sha256("sha256:abc"));
}

#[test]
fn provisioning_slot_rejects_concurrent_operation_until_guard_drops() {
    let mut slot = ProvisioningSlot { active: false };
    acquire_provisioning_slot(&mut slot).expect("first provisioning operation should acquire slot");
    let error = acquire_provisioning_slot(&mut slot)
        .expect_err("second provisioning operation should be rejected");
    assert_eq!(error.code, "provisioning_busy");
    release_provisioning_slot(&mut slot);
    acquire_provisioning_slot(&mut slot).expect("slot should be reusable after operation exits");
}

#[test]
fn progress_goes_up_to_a_hundred() {
    for total in 1..=10usize {
        let mut last = 0;
        for current in 0..=total {
            let percentage = progress_percentage(current, total);
            let expected = ((current as f32 / total as f32) * 100.0).round() as u8;
            assert_eq!(percentage, expected);
            assert!(percentage >= last);
            last = percentage;
        }
        assert_eq!(last, 100);
    }
}

#[test]
fn a_run_fetches_what_is_missing() {
    let all_models: Vec<String> = whisper_models().iter().map(|m| m.file.to_string()).collect();
    let all_dirs: Vec<String> = whisper_models().iter().map(|m| m.encoder_dir.to_string()).collect();
    let ready = provisioning_start(&None, &all_models, &all_dirs).err().expect("nothing missing");
    assert_eq!(ready.state, "completed");
    assert_eq!(ready.message, "All required models are already available.");

    let batch = provisioning_start(&None, &all_models, &Vec::new()).ok().expect("encoders missing");
    assert_eq!(batch.missing_encoders.len(), all_dirs.len());
    let without = Some(ProvisioningStartPayload { include_coreml: Some(false) });
    assert!(provisioning_start(&without, &all_models, &Vec::new()).is_err());

    let request = asset_at(&batch, 0).expect("a first asset");
    assert!(request.url.ends_with(&request.file));
    assert!(request.encoder_dir.is_some());
    assert!(asset_at(&batch, batch.missing_encoders.len()).is_none());

    let failed = spawn_provisioning_download(
        &batch,
        0,
        &Err(AssetFailure::DownloadFailed("no network".to_string())),
    );
    match failed {
        BatchStep::Finish(status) => assert!(status.message.contains("no network")),
        _ => panic!("a failure ends the run"),
    }
    assert!(matches!(spawn_provisioning_download(&batch, 0, &Ok(())), BatchStep::Continue(_)));
    let last = batch.missing_encoders.len() - 1;
    assert!(matches!(
        spawn_provisioning_download(&batch, last, &Ok(())),
        BatchStep::Complete(_, _)
    ));
}

#[test]
fn single_models_are_found_in_the_catalogs() {
    let request = |model: &str| ProvisioningDownloadModelPayload {
        model: model.to_string(),
        include_coreml: Some(false),
    };
    let none = Vec::new();
    let parakeet = parakeet_models()[0].key;
    assert!(matches!(
        provisioning_download_model(&request(parakeet), &none, &none, &none),
        Ok(ModelDownload::Parakeet(_))
    ));
    let whisper = whisper_models()[0].key;
    assert!(matches!(
        provisioning_download_model(&request(whisper), &none, &none, &none),
        Ok(ModelDownload::Whisper(_))
    ));
    let unknown = provisioning_download_model(&request("nope"), &none, &none, &none);
    assert_eq!(unknown.err().expect("unknown").message, "unknown model key: nope");

    let entries = provisioning_models(&none, &none, &none);
    assert_eq!(entries.len(), whisper_models().len() + parakeet_models().len());
    assert!(entries.iter().all(|entry| !entry.installed));
}

fn response(status: u16, content_type: Option<&str>) -> DownloadResponse {
    DownloadResponse {
        status,
        content_length: Some(11),
        content_type: content_type.map(str::to_string),
    }
}

#[test]
fn transactional_model_download_retries_and_commits_only_complete_file() {
    let broken = DownloadAttemptError::Retryable("connection closed".to_string());
    assert!(matches!(download_to_path(1, &broken, &Ok(())), RetryDecision::Retry));
    match download_to_path(MODEL_DOWNLOAD_MAX_ATTEMPTS, &broken, &Ok(())) {
        RetryDecision::GiveUp(text) => {
            assert_eq!(text, "download failed after 3 attempts: connection closed")
        }
        RetryDecision::Retry => panic!("the attempts are over"),
    }
    let name = download_temp_name(Some("parakeet.gguf"), 7, 3);
    assert_eq!(name, ".parakeet.gguf.part-7-3");
    assert_eq!(download_temp_name(None, 7, 3), ".download.part-7-3");
    assert_eq!(provisioning_swap_name("pyannote-backup", 7, 3), ".pyannote-backup-7-3");
    assert!(publish_download("/models/parakeet.gguf", false, false).is_ok());
    assert!(publish_download("/models/parakeet.gguf", false, true).is_err());
    assert_eq!(publish_download("/x", true, false).err().as_deref(), Some("cancelled"));
}

#[test]
fn transactional_model_download_rejects_html_without_final_file() {
    let answer = DownloadResponse {
        status: 200,
        content_length: Some(31),
        content_type: Some("text/html".to_string()),
    };
    let error = download_to_temp(&answer)
        .err()
        .expect("HTML response must not install as a model");
    let text = error.message();
    assert!(text.contains("HTML"), "error should explain invalid asset: {text}");

    let page = b"<html>not a model</html>";
    assert!(response_looks_like_html(page));
    let mut body = ReceivedBody::new();
    body.receive(page);
    let error = check_received_body(&body)
        .err()
        .expect("HTML response must not install as a model");
    let text = error.message();
    assert!(text.contains("HTML"), "error should explain invalid asset: {text}");
}

#[test]
fn pages_and_errors_are_no_assets() {
    assert!(response_looks_like_html(b"  <!DOCTYPE html><html><body>error</body></html>"));
    assert!(!response_looks_like_html(b"ggml"));
    assert!(download_to_temp(&response(200, Some("application/octet-stream"))).is_ok());
    assert!(download_to_temp(&response(200, Some("text/html; charset=utf-8"))).is_err());
    assert!(matches!(
        download_to_temp(&response(404, None)),
        Err(DownloadAttemptError::NonRetryable(_))
    ));
}

#[test]
fn failed_pyannote_repair_keeps_ready_status_and_records_diagnostic() {
    let mut actions = Vec::new();
    persist_pyannote_install_failure(
        &mut actions,
        true,
        "pyannote_import_load_failed",
        "synthetic repair failure",
    );
    assert!(actions.iter().any(|action| matches!(
        action,
        InstallAction::WriteDiagnostic { reason_code, message }
            if reason_code == "pyannote_import_load_failed"
                && message == "synthetic repair failure"
    )));
    assert!(!actions.iter().any(|action| matches!(action, InstallAction::WriteStatus { .. })));

    let mut fresh = Vec::new();
    persist_pyannote_install_failure(&mut fresh, false, "cancelled", "stopped");
    assert!(fresh.iter().any(|action| matches!(action, InstallAction::WriteStatus { .. })));
}

#[test]
fn an_archive_that_stays_is_reported_before_its_extraction() {
    let stays: Result<(), String> = Err("locked".to_string());
    let broken = ExtractionEnd::Failed("bad zip".to_string());
    let lost = ExtractionEnd::Interrupted("panicked".to_string());
    assert!(encoder_outcome(&ExtractionEnd::Extracted, &Ok(())).is_ok());
    for end in [&ExtractionEnd::Extracted, &broken, &lost] {
        match encoder_outcome(end, &stays) {
            Err(AssetFailure::CleanupFailed(error)) => assert_eq!(error, "locked"),
            _ => panic!("the archive could not be removed"),
        }
    }
    match encoder_outcome(&broken, &Ok(())) {
        Err(AssetFailure::ExtractFailed(error)) => assert_eq!(error, "bad zip"),
        _ => panic!("the archive is broken"),
    }
    match encoder_outcome(&lost, &Ok(())) {
        Err(AssetFailure::ExtractInterrupted(error)) => assert_eq!(error, "panicked"),
        _ => panic!("the extraction was interrupted"),
    }
}

/// Copies a local asset, with the errors of the steps that fail.
fn copy_locally(failing: Option<(LocalStage, &str)>) -> (Vec<LocalStage>, Option<LocalFailure>) {
    let paths = LocalStagePaths {
        asset_name: "r.zip".to_string(),
        root: "/release".to_string(),
        source: "/release/r.zip".to_string(),
        destination: "/data/r.zip".to_string(),
    };
    let mut steps = Vec::new();
    let mut step = LocalStage::Find;
    while step != LocalStage::Over {
        steps.push(step);
        let error = failing.filter(|(at, _)| *at == step).map(|(_, error)| error.to_string());
        match stage_release_asset(step, &error, &paths) {
            LocalNext::Go(next) => step = next,
            LocalNext::Fail(failure) => return (steps, Some(failure)),
        }
    }
    (steps, None)
}

#[test]
fn local_assets_are_copied_whole_before_the_old_one_goes() {
    let (steps, failure) = copy_locally(None);
    assert!(failure.is_none());
    assert_eq!(
        steps,
        vec![
            LocalStage::Find,
            LocalStage::BeforeCopy,
            LocalStage::ClearTemp,
            LocalStage::Copy,
            LocalStage::AfterCopy,
            LocalStage::RemoveOld,
            LocalStage::Publish,
        ]
    );
}

#[test]
fn a_local_copy_that_fails_says_where_and_leaves_no_temporary_file() {
    let ended = |step: LocalStage, error: &str, removal: Result<(), String>| {
        let (steps, failure) = copy_locally(Some((step, error)));
        assert_eq!(steps.last(), Some(&step));
        let failure = failure.expect("a failure");
        (failure.remove_temp, local_failure_text(&failure, &removal))
    };
    let kept: Result<(), String> = Err("temp is locked".to_string());
    assert_eq!(
        ended(LocalStage::Find, "", Ok(())),
        (false, "local release asset 'r.zip' is missing in '/release'.".to_string())
    );
    assert_eq!(ended(LocalStage::BeforeCopy, "", Ok(())), (false, "cancelled".to_string()));
    assert_eq!(ended(LocalStage::ClearTemp, "busy", Ok(())), (false, "busy".to_string()));
    assert_eq!(
        ended(LocalStage::Copy, "disk full", kept.clone()),
        (true, "failed to stage local release asset '/release/r.zip': disk full".to_string())
    );
    assert_eq!(ended(LocalStage::AfterCopy, "", kept.clone()), (true, "cancelled".to_string()));
    assert_eq!(
        ended(LocalStage::RemoveOld, "busy", kept.clone()),
        (true, "failed to replace staged release asset '/data/r.zip': busy".to_string())
    );
    assert_eq!(
        ended(LocalStage::Publish, "busy", Ok(())),
        (true, "failed to finalize local release asset '/data/r.zip': busy".to_string())
    );
    assert_eq!(
        ended(LocalStage::Publish, "busy", kept),
        (
            true,
            "failed to finalize local release asset '/data/r.zip': busy; temp is locked".to_string()
        )
    );
}

#[test]
fn installs_end_and_undo_what_failed() {
    let names = PyannoteAssetNames { runtime: "r.zip".to_string(), model: "m.zip".to_string() };
    let mut step = PyannoteStep::PrepareStage;
    let mut taken = 0;
    while step != PyannoteStep::Over {
        step = spawn_pyannote_provisioning_download(step, &StepOutcome::Done, true, &names).0;
        taken += 1;
        assert!(taken < 30);
    }
    let (after, actions) = spawn_pyannote_provisioning_download(
        PyannoteStep::Probe,
        &StepOutcome::Failed("import failed".to_string()),
        true,
        &names,
    );
    assert_eq!(after, PyannoteStep::Over);
    assert!(actions.iter().any(|action| matches!(action, InstallAction::Rollback)));

    let (over, failed) = spawn_runtime_provisioning_download(
        RuntimeStep::Fetch,
        &StepOutcome::Cancelled,
        "speech-runtime-macos-aarch64.zip",
    );
    assert_eq!(over, RuntimeStep::Over);
    assert!(failed.iter().any(|action| matches!(
        action,
        InstallAction::Emit(status) if status.state == "cancelled"
    )));
}

#[test]
fn pyannote_import_load_probe_is_bounded_and_reports_failure() {
    let exit = |success: bool, stderr: &str, stdout: &str| {
        ProbeEnd::Exited(ProbeExit {
            success,
            stderr: stderr.to_string(),
            stdout: stdout.to_string(),
            status: "exit status: 1".to_string(),
        })
    };
    let error = probe_pyannote_import_and_load(&exit(false, "synthetic pyannote import failure\n", ""))
        .expect_err("failed Python import should be surfaced");
    assert!(error.contains("synthetic pyannote import failure"));
    assert!(probe_pyannote_import_and_load(&exit(true, "warning", "")).is_ok());
    assert_eq!(
        probe_pyannote_import_and_load(&exit(false, " ", "")).err().as_deref(),
        Some("Pyannote import/load probe exited with status exit status: 1.")
    );
    assert_eq!(
        probe_pyannote_import_and_load(&ProbeEnd::TimedOut).err().as_deref(),
        Some("Pyannote import/load probe timed out after 90 seconds.")
    );
    assert_eq!(probe_pyannote_import_and_load(&ProbeEnd::Cancelled).err().as_deref(), Some("cancelled"));
    assert!(probe_pyannote_import_and_load(&ProbeEnd::NotStarted("denied".to_string())).is_err());
    assert!(probe_pyannote_import_and_load(&ProbeEnd::NotCollected("pipe".to_string())).is_err());
    let long = "é".repeat(700);
    let cut = probe_pyannote_import_and_load(&exit(false, &long, "")).expect_err("long output");
    assert_eq!(cut.chars().filter(|c| *c == 'é').count(), 600);
    assert!(cut.ends_with('…'));
    assert!(PYANNOTE_PROBE_SCRIPT.contains("Pipeline.from_pretrained(sys.argv[1])"));
}

#[test]
fn a_ready_runtime_is_recorded_as_ok() {
    let (reason_code, message) = ready_status();
    assert_eq!(reason_code, "ok");
    assert_eq!(message, "Pyannote diarization runtime is ready.");
}

#[test]
fn the_managed_python_is_found_and_set_up() {
    let files = vec!["/py/bin/python".to_string(), "/py/bin/python3".to_string()];
    let found = managed_pyannote_python_executable("/py", PathStyle::Unix, &files);
    assert_eq!(found.as_deref(), Some("/py/bin/python3"));
    let windows = vec!["C:\\py\\python3.exe".to_string()];
    let found = managed_pyannote_python_executable("C:\\py", PathStyle::Windows, &windows);
    assert_eq!(found.as_deref(), Some("C:\\py\\python3.exe"));
    let packages = vec!["C:\\py\\Lib\\site-packages".to_string()];
    assert_eq!(
        managed_pyannote_python_path_env("C:\\py", PathStyle::Windows, &None, &packages),
        Some(packages)
    );
    assert!(managed_pyannote_python_executable("/py", PathStyle::Unix, &Vec::new()).is_none());

    let names = Some(vec!["pkgconfig".to_string(), "python3.11".to_string()]);
    let dirs = vec!["/py/lib/python3.11".to_string(), "/py/lib/python3.11/site-packages".to_string()];
    assert_eq!(managed_pyannote_python_path_env("/py", PathStyle::Unix, &names, &dirs), Some(dirs));
    assert_eq!(managed_pyannote_python_path_env("/py", PathStyle::Unix, &names, &Vec::new()), None);
    assert_eq!(managed_pyannote_python_path_env("/py", PathStyle::Unix, &None, &Vec::new()), None);

    let path = vec!["/usr/bin".to_string()];
    assert_eq!(
        probe_path_entries(PathStyle::Unix, &None, "/py", "/data", &path),
        vec!["/py/bin", "/data/bin", "/usr/bin"]
    );
    assert_eq!(
        probe_library_entries("/py", "/data", true, &Vec::new()),
        vec!["/data/lib", "/py/lib/embedded-dylibs"]
    );
    assert!(pyannote_python_env_vars_to_clear().contains(&"PYTHONHOME".to_string()));

    let python = Some("/py/bin/python3".to_string());
    assert_eq!(check_pyannote_probe(false, &python, "/m", true).as_deref(), Ok("/py/bin/python3"));
    assert_eq!(check_pyannote_probe(true, &python, "/m", true).err().as_deref(), Some("cancelled"));
    assert!(check_pyannote_probe(false, &None, "/m", true).is_err());
    assert!(check_pyannote_probe(false, &python, "/m", false)
        .expect_err("no model")
        .contains("'/m'"));
}

#[test]
fn setup_reports_are_trusted_only_for_this_version() {
    let trusted = |version: &str, code: Option<&str>, error: Option<&str>| {
        let mut report = write_setup_report(
            WriteSetupReportPayload {
                privacy_accepted: true,
                setup_complete: true,
                final_reason_code: code.map(str::to_string),
                final_error: error.map(str::to_string),
                runtime_health: Some("{}".to_string()),
                steps: vec![SetupReportStepPayload {
                    id: "runtime".to_string(),
                    label: "Runtime".to_string(),
                    status: "done".to_string(),
                    detail: None,
                    started_at: None,
                    finished_at: None,
                }],
            },
            version,
            "2026-01-01T00:00:00Z".to_string(),
        );
        assert!(!report.trusted_for_fast_start);
        read_setup_report(&mut report, "1.2.3");
        assert_eq!(report.steps.len(), 1);
        assert_eq!(report.updated_at, "2026-01-01T00:00:00Z");
        report.trusted_for_fast_start
    };
    assert!(trusted(" 1.2.3 ", Some("setup_complete"), None));
    assert!(trusted("1.2.3", Some("setup_complete"), Some("  ")));
    assert!(!trusted("1.2.3", Some("setup_complete"), Some("boom")));
    assert!(!trusted("1.2.2", Some("setup_complete"), None));
    assert!(!trusted("1.2.3", None, None));
}

/// A size as floating-point arithmetic shows it.
fn shown_size(bytes: u64) -> String {
    let mut value = bytes as f64;
    let mut unit = "B";
    for next in ["KB", "MB", "GB", "TB"] {
        if value < 1024.0 {
            break;
        }
        value /= 1024.0;
        unit = next;
    }
    if unit == "B" {
        format!("{bytes} B")
    } else {
        format!("{value:.1} {unit}")
    }
}

#[test]
fn sizes_are_shown_in_units() {
    assert_eq!(format_bytes(512), "512 B");
    assert_eq!(format_bytes(1280), "1.2 KB");
    assert_eq!(format_bytes(1_500_000_000), "1.4 GB");
    let mut bytes: u64 = 1;
    while bytes < u64::MAX / 3 {
        for near in [bytes - 1, bytes, bytes + 1] {
            assert_eq!(format_bytes(near), shown_size(near));
        }
        bytes = bytes * 3 / 2 + 1;
    }
    for tie in [1u64, 3, 5, 40_001, 65_535, 65_537, 67_108_863] {
        let exact = tie << 38;
        for near in [exact - 1, exact, exact + 1] {
            assert_eq!(format_bytes(near), shown_size(near));
        }
    }
    assert_eq!(format_bytes(u64::MAX), shown_size(u64::MAX));
}

#[test]
fn a_ready_diarization_runtime_is_installed_again_only_on_demand() {
    let ready = PyannoteRuntimeHealth { ready: true, ..pyannote_health() };
    assert!(matches!(
        provisioning_install_pyannote(&None, &ready),
        InstallDecision::AlreadyInstalled(_)
    ));
    let forced = Some(ProvisioningInstallPyannotePayload { force: Some(true) });
    assert!(matches!(
        provisioning_install_pyannote(&forced, &ready),
        InstallDecision::Install { had_ready_install: true, replace: true }
    ));
    assert!(matches!(
        provisioning_install_pyannote(&None, &pyannote_health()),
        InstallDecision::Install { had_ready_install: false, replace: false }
    ));
    let damaged = PyannoteRuntimeHealth {
        reason_code: " pyannote_checksum_invalid ".to_string(),
        ..pyannote_health()
    };
    assert!(matches!(
        provisioning_install_pyannote(&None, &damaged),
        InstallDecision::Install { had_ready_install: false, replace: true }
    ));
}

#[test]
fn an_update_is_planned_from_the_release_and_then_from_the_health() {
    assert!(matches!(plan_after_reconcile(&None), PyannotePlanStep::InspectHealth));
    assert!(matches!(
        plan_after_reconcile(&Some(ReconcileManagedPyannoteReleaseOutcome::NoAction)),
        PyannotePlanStep::InspectHealth
    ));
    match plan_after_reconcile(&Some(ReconcileManagedPyannoteReleaseOutcome::ManifestUpdated)) {
        PyannotePlanStep::Answer(action) => {
            let report = reconcile_post_update_runtime(&action);
            assert_eq!(report.status, "ok_migrated_manifest");
            assert_eq!(report.message, Some(action.message));
            assert!(!report.migration_started);
        }
        _ => panic!("an updated manifest is an answer"),
    }

    let health = |reason: &str| PyannoteRuntimeHealth {
        enabled: true,
        reason_code: reason.to_string(),
        message: "m".to_string(),
        ..pyannote_health()
    };
    let status = |health: &PyannoteRuntimeHealth, known: bool| {
        plan_pyannote_background_action_inner(health, known, false).status
    };
    assert_eq!(status(&health("pyannote_runtime_missing"), false), "install_missing");
    assert_eq!(status(&health("pyannote_runtime_missing"), true), "repair_existing");
    assert_eq!(status(&health("pyannote_version_mismatch"), true), "migrate_assets");
    assert_eq!(status(&health("pyannote_version_mismatch"), false), "repair_existing");
    assert_eq!(status(&health("other"), true), "none");
    let off = plan_pyannote_background_action_inner(&pyannote_health(), false, false);
    assert_eq!(off.reason_code, "pyannote_disabled");

    let report = reconcile_post_update_runtime(&off);
    assert_eq!(report.status, "ok_no_action");
    assert!(report.message.is_none());
    let migration =
        plan_pyannote_background_action_inner(&health("pyannote_checksum_invalid"), true, false);
    let report = reconcile_post_update_runtime(&migration);
    assert_eq!(report.status, "needs_auto_migration");
    assert_eq!(report.message.as_deref(), Some("m"));
}

#[test]
fn a_status_lists_what_is_missing() {
    assert_eq!(configured_models_dir(" ", "/legacy"), "/legacy");
    assert_eq!(configured_models_dir("/section", "/legacy"), "/section");

    let mut files: Vec<String> =
        whisper_models().iter().map(|model| model.file.to_string()).collect();
    let dirs: Vec<String> =
        whisper_models().iter().map(|model| model.encoder_dir.to_string()).collect();
    let complete = provisioning_status("/models", &files, &dirs, pyannote_health());
    assert!(complete.ready);
    assert_eq!(complete.models_dir, "/models");

    let gone = files.remove(0);
    let partial = provisioning_status("/models", &files, &dirs, pyannote_health());
    assert!(!partial.ready);
    assert_eq!(partial.missing_models, vec![gone]);
    assert!(partial.missing_encoders.is_empty());
}

#[test]
fn an_install_from_a_release_is_recorded_and_compared_after_an_update() {
    let asset = |kind: &str, name: &str, sha256: &str| PyannoteReleaseAsset {
        kind: kind.to_string(),
        name: name.to_string(),
        sha256: sha256.to_string(),
        size_bytes: None,
        expanded_size_bytes: None,
    };
    let selection = PyannoteAssetSelection {
        runtime_asset: asset("runtime", "runtime.zip", "aa"),
        model_asset: asset("model", "model.zip", "bb"),
        compat_level: 1,
        release_version: "1.2.3".to_string(),
    };
    let record =
        release_install_record(&selection, "linux-x86_64", "2026-01-01T00:00:00Z".to_string());
    assert_eq!(record.source, "release_asset");
    assert_eq!(record.app_version, "1.2.3");
    assert_eq!((record.runtime_asset.as_str(), record.runtime_sha256.as_str()), ("runtime.zip", "aa"));
    assert_eq!((record.model_asset.as_str(), record.model_sha256.as_str()), ("model.zip", "bb"));
    assert_eq!(record.runtime_arch, "linux-x86_64");
    let record = Some(record);
    assert!(!should_attempt_post_update_pyannote_reconcile(&record, "1.2.3"));
    assert!(should_attempt_post_update_pyannote_reconcile(&record, "1.2.4"));
}

#[test]
fn what_fails_on_the_network_may_pass() {
    let text = || "x".to_string();
    assert!(matches!(attempt_error(&AttemptEvent::Cancelled), DownloadAttemptError::Cancelled));
    match attempt_error(&AttemptEvent::RequestTimedOut) {
        DownloadAttemptError::Retryable(message) => {
            assert_eq!(message, "request timed out after 60s");
        }
        other => panic!("unexpected: {other:?}"),
    }
    match attempt_error(&AttemptEvent::StreamTimedOut) {
        DownloadAttemptError::Retryable(message) => {
            assert_eq!(message, "download stream timed out after 60s");
        }
        other => panic!("unexpected: {other:?}"),
    }
    for (event, message) in [
        (AttemptEvent::RequestFailed(text()), "request failed: x"),
        (AttemptEvent::StreamFailed(text()), "download stream failure: x"),
    ] {
        assert!(matches!(attempt_error(&event), DownloadAttemptError::Retryable(m) if m == message));
    }
    for (event, message) in [
        (AttemptEvent::NotCreated(text()), "failed to create temporary download file: x"),
        (AttemptEvent::NotWritten(text()), "failed to write download: x"),
        (AttemptEvent::NotFlushed(text()), "failed to flush download: x"),
        (AttemptEvent::NotSynced(text()), "failed to sync download: x"),
    ] {
        assert!(
            matches!(attempt_error(&event), DownloadAttemptError::NonRetryable(m) if m == message)
        );
    }
}
