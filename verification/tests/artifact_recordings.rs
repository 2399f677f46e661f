//! Trimmed audio and speaker diarization.

use std::io::Cursor;

use sbobino_commands::artifacts::audio::{
    check_concat_list, check_single_region, check_trim_source, concat_args, finish_concat,
    take_region, trim_args, trim_list_name, trim_output_name, trim_part_name,
    trimmed_audio_output_metadata, validate_trimmed_audio_output, write_concat_list,
    write_trimmed_audio, SourceOutcome, ToolOutcome, TrimRegion, TrimSource,
    WriteTrimmedAudioPayload,
};
use sbobino_commands::artifacts::diarization::{
    begin_diarization_run, cancel_artifact_speaker_diarization, cancelled_diarization_record,
    check_diarization_runtime, check_edits_before_storing, diarization_temp_source_path,
    diarization_temp_wav_path, has_timeline_manual_edits, next_timeline_manual_edit_metadata, release_diarization_run,
    run_artifact_speaker_diarization, run_artifact_speaker_diarization_from_source,
    run_artifact_speaker_diarization_inner, run_artifact_speaker_diarization_task,
    sanitize_audio_extension, timeline_segments_for_diarization, update_artifact_timeline,
    DiarizationInput, DiarizationNext, DiarizationRefusal, DiarizationStep, DiarizationTasks,
    SpeakerSegment, TIMELINE_MANUAL_EDITS_METADATA_KEY,
};
use sbobino_commands::artifacts::payloads::{
    ArtifactSpeakerDiarizationPayload, UpdateArtifactTimelinePayload,
};
use sbobino_commands::error::{ApplicationError, CommandError};
use sbobino_commands::text_map::TextMap;

fn region(start: f64, end: f64) -> TrimRegion {
    TrimRegion {
        start_rank: (start * 1000.0) as i64,
        start: format!("{start:.3}"),
        end: format!("{end:.3}"),
    }
}

fn trim_payload(input_path: Option<&str>, regions: Vec<TrimRegion>) -> WriteTrimmedAudioPayload {
    WriteTrimmedAudioPayload {
        artifact_id: None,
        input_path: input_path.map(str::to_string),
        regions,
    }
}

#[test]
fn trimmed_audio_output_metadata_reports_duration_and_file_size() {
    let spec = hound::WavSpec {
        channels: 1,
        sample_rate: 16_000,
        bits_per_sample: 16,
        sample_format: hound::SampleFormat::Int,
    };
    let mut file = Cursor::new(Vec::new());
    let mut writer = hound::WavWriter::new(&mut file, spec).expect("create wav writer");
    for _ in 0..32_000 {
        writer.write_sample::<i16>(0).expect("write sample");
    }
    writer.finalize().expect("finalize wav");
    let file_size_bytes = file.get_ref().len() as u64;
    file.set_position(0);

    let reader = hound::WavReader::new(file).expect("metadata should parse");
    let (frames, sample_rate) = (reader.duration(), reader.spec().sample_rate);
    trimmed_audio_output_metadata(sample_rate).expect("metadata should parse");
    let duration_seconds = f64::from(frames) / f64::from(sample_rate);

    assert!((duration_seconds - 2.0).abs() < 0.02);
    assert!(file_size_bytes > 0);
    assert!(validate_trimmed_audio_output(frames, sample_rate, file_size_bytes, "2.00").is_ok());
    assert!(trimmed_audio_output_metadata(0).is_err());
}

#[test]
fn validate_trimmed_audio_output_rejects_empty_and_too_short_files() {
    let empty_error = validate_trimmed_audio_output(16_000, 16_000, 0, "1.00")
        .expect_err("empty trimmed file should be rejected");
    assert!(empty_error.message.contains("trimmed audio file is empty"));

    let short_error = validate_trimmed_audio_output(6_400, 16_000, 128, "0.40")
        .expect_err("too-short trimmed file should be rejected");
    assert!(short_error.message.contains("trimmed audio is too short"));
}

#[test]
fn regions_are_cut_in_the_order_of_their_starts() {
    let payload =
        trim_payload(Some("/tmp/in.wav"), vec![region(9.0, 10.0), region(1.0, 2.0), region(9.0, 9.5)]);
    let plan = write_trimmed_audio(&payload, &Ok(())).expect("a plan");
    assert_eq!(plan.order, vec![1, 0, 2]);
    assert!(matches!(plan.source, TrimSource::File(ref path) if path == "/tmp/in.wav"));
    assert!(write_trimmed_audio(&trim_payload(Some("/tmp/in.wav"), Vec::new()), &Ok(())).is_err());
    assert!(write_trimmed_audio(&trim_payload(None, vec![region(0.0, 1.0)]), &Ok(())).is_err());
    let broken = write_trimmed_audio(&payload, &Err("no settings".to_string()));
    assert!(broken.is_err());
}

#[test]
fn sources_and_tools_that_fail_are_told_of() {
    let file = TrimSource::File("/tmp/in.wav".to_string());
    assert!(check_trim_source(&file, &SourceOutcome::Ready).is_ok());
    assert!(check_trim_source(&file, &SourceOutcome::Missing).is_err());
    let not_written = SourceOutcome::NotWritten("disk full".to_string());
    assert!(check_trim_source(&file, &not_written).is_err());
    assert!(check_single_region(&ToolOutcome::Succeeded).is_ok());
    let failed = check_single_region(&ToolOutcome::Failed("bad input".to_string()));
    assert!(failed.expect_err("a failure").message.contains("bad input"));
    assert!(check_concat_list(&Ok(())).is_ok());
    assert!(check_concat_list(&Err("disk full".to_string())).is_err());
}

#[test]
fn parts_are_removed_after_a_failure_and_after_they_were_joined() {
    let mut parts = Vec::new();
    assert!(take_region(&mut parts, "/tmp/a.wav", &ToolOutcome::Succeeded).is_ok());
    let failure = take_region(&mut parts, "/tmp/b.wav", &ToolOutcome::Failed("bad".to_string()))
        .expect_err("a failure");
    assert!(failure.remove.contains(&"/tmp/a.wav".to_string()));

    let end = finish_concat(&parts, "/tmp/list.txt", &ToolOutcome::Succeeded);
    assert!(end.result.is_ok());
    assert!(end.remove.contains(&"/tmp/a.wav".to_string()));
    assert!(end.remove.contains(&"/tmp/list.txt".to_string()));
}

#[test]
fn the_tool_is_told_where_to_cut_and_what_to_join() {
    let args = trim_args("/tmp/in.wav", &region(1.5, 4.25), "/tmp/out.wav");
    let at = |flag: &str| args.iter().position(|a| a == flag).map(|i| args[i + 1].as_str());
    assert_eq!(at("-i"), Some("/tmp/in.wav"));
    assert_eq!(at("-ss"), Some("1.500"));
    assert_eq!(args.last().map(String::as_str), Some("/tmp/out.wav"));
    assert!(concat_args("/tmp/list.txt", "/tmp/out.wav").contains(&"concat".to_string()));
    let list = write_concat_list(&vec!["/tmp/it's.wav".to_string(), "/tmp/b.wav".to_string()]);
    assert!(list.contains("it") && list.contains("file '/tmp/b.wav'"));
    assert_ne!(trim_output_name("in", "7"), trim_part_name("in", 0, "7"));
    assert!(trim_list_name("7").ends_with(".txt"));
}

fn speaker_segment(place: usize, text: &str, label: &str) -> SpeakerSegment {
    SpeakerSegment {
        place,
        text: text.to_string(),
        speaker_id: Some(format!("speaker_{place}")),
        speaker_label: Some(label.to_string()),
        language_code: None,
    }
}

fn two_segments() -> Vec<SpeakerSegment> {
    vec![
        speaker_segment(0, "Alice opens the meeting.", "Alice"),
        speaker_segment(1, "Bob confirms the next step.", "Bob"),
    ]
}

#[test]
fn diarization_timeline_segments_clear_existing_speakers_before_rerun() {
    let segments = timeline_segments_for_diarization(&Some(two_segments()))
        .expect("timeline should parse for diarization rerun");

    assert_eq!(segments.len(), 2);
    assert!(segments.iter().all(|segment| segment.speaker_id.is_none()));
    assert!(segments.iter().all(|segment| segment.speaker_label.is_none()));
}

#[test]
fn manual_timeline_edit_metadata_is_versioned_and_counted() {
    let first = next_timeline_manual_edit_metadata(&None, "2024-05-01T10:00:00Z");
    assert_eq!(first.version, "timeline_manual_edits_v1");
    assert_eq!(first.manual_edit_count, 1);

    let second = next_timeline_manual_edit_metadata(&Some(first), "2024-05-01T10:05:00Z");
    assert_eq!(second.manual_edit_count, 2);
    assert!(!second.last_edited_at.is_empty());
}

#[test]
fn manual_timeline_edit_provenance_is_the_diarization_guard() {
    let mut metadata = TextMap::new();
    assert!(!has_timeline_manual_edits(&metadata));

    let record = next_timeline_manual_edit_metadata(&None, "2024-05-01T10:00:00Z");
    metadata.insert("timeline_manual_edits_v1", &format!("{record:?}"));
    assert!(has_timeline_manual_edits(&metadata));
    assert_eq!(TIMELINE_MANUAL_EDITS_METADATA_KEY, "timeline_manual_edits_v1");
}

#[test]
fn only_edits_by_hand_are_recorded() {
    let update = |manual_edit: bool| UpdateArtifactTimelinePayload {
        id: "id-1".to_string(),
        timeline_v2: "{}".to_string(),
        manual_edit,
    };
    assert!(update_artifact_timeline(&update(false), &None, "now").is_none());
    let record = update_artifact_timeline(&update(true), &None, "now").expect("a record");
    assert_eq!(record.manual_edit_count, 1);
}

fn diarization_payload(allow: bool) -> ArtifactSpeakerDiarizationPayload {
    ArtifactSpeakerDiarizationPayload {
        artifact_id: " id-1 ".to_string(),
        allow_overwrite_manual_edits: allow,
    }
}

#[test]
fn one_run_works_on_an_artifact_at_a_time() {
    let mut tasks = DiarizationTasks { runs: TextMap::new() };
    let first = run_artifact_speaker_diarization(&mut tasks, &diarization_payload(false), false, "r1")
        .expect("a run");
    assert!(first.is_new);
    assert_eq!(first.response.artifact_id, "id-1");
    assert_eq!(first.response.state, "running");
    let second =
        run_artifact_speaker_diarization(&mut tasks, &diarization_payload(false), false, "r2")
            .expect("an answer");
    assert!(!second.is_new);

    let cancel = cancel_artifact_speaker_diarization(&mut tasks, &diarization_payload(false))
        .expect("a cancellation");
    assert_eq!(cancel.run_id.as_deref(), Some("r1"));
}

#[test]
fn a_cancellation_is_recorded_whether_a_run_was_in_progress_or_not() {
    let mut tasks = DiarizationTasks { runs: TextMap::new() };
    let cancel = cancel_artifact_speaker_diarization(&mut tasks, &diarization_payload(false))
        .expect("a cancellation");
    assert!(cancel.run_id.is_none());
    assert_eq!(cancel.response.state, "cancelled");
    for record in [&cancel.record, &cancelled_diarization_record("id-1")] {
        let changes: Vec<(&str, Option<&str>)> =
            record.changes.iter().map(|c| (c.key.as_str(), c.value.as_deref())).collect();
        assert_eq!(
            changes,
            vec![
                ("speaker_diarization_status", Some("cancelled")),
                ("speaker_diarization_error", None),
                ("speaker_diarization_progress", Some("100")),
            ]
        );
        assert_eq!(record.event.artifact_id, "id-1");
        assert_eq!(record.event.state, "cancelled");
        assert_eq!(record.event.message, "Speaker diarization cancelled");
        assert_eq!(record.event.percentage, 100);
    }
}

#[test]
fn a_late_end_does_not_remove_the_next_run() {
    let mut tasks = DiarizationTasks { runs: TextMap::new() };
    tasks.runs.insert("id-1", "r2");
    release_diarization_run(&mut tasks, "id-1", "r1");
    assert_eq!(tasks.runs.get("id-1"), Some("r2"));
    release_diarization_run(&mut tasks, "id-1", "r2");
    assert!(!tasks.runs.contains("id-1"));
}

#[test]
fn edits_by_hand_block_a_run_unless_they_may_be_overwritten() {
    let mut tasks = DiarizationTasks { runs: TextMap::new() };
    let blocked =
        run_artifact_speaker_diarization(&mut tasks, &diarization_payload(false), true, "r1")
            .err()
            .expect("blocked");
    assert_eq!(blocked.code, "speaker_diarization");
    assert!(!tasks.runs.contains("id-1"));
    assert!(run_artifact_speaker_diarization(&mut tasks, &diarization_payload(true), true, "r1").is_ok());
    assert!(check_edits_before_storing(true).is_err());
    assert!(check_edits_before_storing(false).is_ok());
}

#[test]
fn runs_are_reported_from_start_to_end() {
    let start = begin_diarization_run("id-1");
    assert_eq!((start.event.state.as_str(), start.event.percentage), ("running", 0));
    assert_eq!(start.changes[0].value.as_deref(), Some("running"));
    assert_eq!(start.changes[1].value, None);
    assert_eq!(start.changes[2].value.as_deref(), Some("0"));

    let done = run_artifact_speaker_diarization_task("id-1", &Ok(()), false);
    assert_eq!((done.event.state.as_str(), done.event.percentage), ("completed", 100));
    let error = || Err(CommandError::new("speaker_diarization", "no model"));
    let failed = run_artifact_speaker_diarization_task("id-1", &error(), false);
    assert_eq!((failed.event.state.as_str(), failed.event.message.as_str()), ("failed", "no model"));
    assert_eq!(failed.changes[1].value.as_deref(), Some("no model"));
    let cancelled = run_artifact_speaker_diarization_task("id-1", &error(), true);
    assert_eq!(cancelled.event.state, "cancelled");
}

#[test]
fn a_run_goes_through_its_steps_with_growing_progress() {
    let mut step = DiarizationStep::BuildRuntime;
    let mut last = 0;
    let mut taken = 0;
    while step != DiarizationStep::Over {
        match run_artifact_speaker_diarization_from_source("id-1", step, true, Ok(()), false) {
            DiarizationNext::Continue { step: next, event } => {
                if let Some(event) = event {
                    assert!(event.percentage >= last);
                    last = event.percentage;
                }
                step = next;
            }
            DiarizationNext::Stop(error) => panic!("unexpected stop: {error:?}"),
        }
        taken += 1;
        assert!(taken < 20);
    }
    let stopped = run_artifact_speaker_diarization_from_source(
        "id-1",
        DiarizationStep::Transcode,
        true,
        Err(ApplicationError::Cancelled),
        true,
    );
    assert!(matches!(stopped, DiarizationNext::Stop(ApplicationError::Cancelled)));
}

#[test]
fn a_run_needs_an_artifact_with_a_timeline_and_audio() {
    let input = |found: bool, timeline: Option<Vec<SpeakerSegment>>, has_audio: bool, cancelled: bool| {
        run_artifact_speaker_diarization_inner(&DiarizationInput {
            found,
            timeline,
            has_audio,
            cancelled,
        })
    };
    assert_eq!(input(true, Some(two_segments()), true, false).ok().expect("segments").len(), 2);
    assert!(input(false, Some(two_segments()), true, false).is_err());
    assert!(input(true, None, true, false).is_err());
    assert!(input(true, Some(two_segments()), false, false).is_err());
    let cancelled = input(true, Some(two_segments()), true, true).err().expect("cancelled");
    assert!(matches!(cancelled, DiarizationRefusal::Cancelled));
    assert!(check_diarization_runtime(&Ok(Some(()))).is_ok());
    assert!(check_diarization_runtime(&Ok(None)).is_err());
    assert!(check_diarization_runtime(&Err("broken".to_string())).is_err());
}

#[test]
fn temporary_files_have_plain_extensions() {
    assert_eq!(sanitize_audio_extension("M4A"), "m4a");
    assert!(!sanitize_audio_extension("../x").contains('/'));
    assert!(diarization_temp_source_path("id-1", "r1", Some("m4a")).ends_with(".m4a"));
    assert!(diarization_temp_wav_path("id-1", "u1").ends_with(".wav"));
}
