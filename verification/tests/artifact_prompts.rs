//! Prompts for summaries and packs.

use sbobino_commands::artifacts::payloads::{
    default_chat_origin, default_emotion_speaker_dynamics, default_summary_action_items,
    default_summary_key_points_only, default_summary_language, default_summary_sections,
    ArtifactAiContextOptions, GenerateArtifactPackPayload, GeneratedArtifactPackKind,
    SummarizeArtifactPayload,
};
use sbobino_commands::artifacts::prompts::{
    build_chunk_note_prompt, build_direct_summary_prompt, build_generated_pack_instructions,
    build_summary_instructions, build_summary_synthesis_prompt, generated_pack_metadata_key,
};
use sbobino_commands::artifacts::requests::{
    finish_artifact_pack, generate_artifact_pack, summarize_artifact,
};
use sbobino_commands::error::CommandError;

#[test]
fn summary_instructions_keep_required_controls_even_with_custom_prompt() {
    let instructions = build_summary_instructions(
        &SummarizeArtifactPayload {
            id: "artifact-1".to_string(),
            language: "it".to_string(),
            context: ArtifactAiContextOptions {
                include_timestamps: false,
                include_speakers: true,
            },
            sections: true,
            bullet_points: false,
            action_items: true,
            key_points_only: true,
            custom_prompt: Some("Focus on hiring decisions.".to_string()),
        },
        "it",
    );

    assert!(instructions.contains("The entire output must be in Italian."));
    assert!(instructions.contains("Do not include timestamps in the final summary."));
    assert!(instructions.contains("Attribute statements to named speakers"));
    assert!(instructions.contains("Focus on hiring decisions."));
}

#[test]
fn what_the_user_adds_comes_behind_the_required_rules() {
    let payload = |asked: bool, custom_prompt: Option<&str>| SummarizeArtifactPayload {
        id: "artifact-3".to_string(),
        language: "de".to_string(),
        context: ArtifactAiContextOptions {
            include_timestamps: asked,
            include_speakers: asked,
        },
        sections: false,
        bullet_points: true,
        action_items: false,
        key_points_only: false,
        custom_prompt: custom_prompt.map(str::to_string),
    };
    for asked in [true, false] {
        let bare = build_summary_instructions(&payload(asked, None), "de");
        assert!(bare.contains("The entire output must be in German."));
        assert_eq!(bare.contains("Do not include timestamps in the final summary."), !asked);
        assert_eq!(bare.contains("Attribute statements to named speakers"), asked);
        assert_eq!(build_summary_instructions(&payload(asked, Some(" \n")), "de"), bare);
        let added = build_summary_instructions(&payload(asked, Some("  Be brief. ")), "de");
        let rest = added.strip_prefix(&bare).expect("the rules come first");
        assert!(rest.starts_with("\n\nAdditional user instructions"));
        assert!(rest.ends_with(":\nBe brief."));
    }
}

#[test]
fn summary_instructions_default_to_detailed_prose() {
    let instructions = build_summary_instructions(
        &SummarizeArtifactPayload {
            id: "artifact-2".to_string(),
            language: "en".to_string(),
            context: ArtifactAiContextOptions {
                include_timestamps: false,
                include_speakers: false,
            },
            sections: true,
            bullet_points: false,
            action_items: true,
            key_points_only: false,
            custom_prompt: None,
        },
        "en",
    );

    assert!(instructions.contains("Write a detailed, self-contained brief in English."));
    assert!(instructions.contains("cover all major topics with supporting details, technical explanations, examples, numbers"));
    assert!(instructions.contains("Do not settle for a terse recap"));
    assert!(instructions.contains("Do not include timestamps in the final summary."));
}

#[test]
fn summary_prompts_require_dense_coverage_for_direct_and_chunked_paths() {
    let direct_prompt =
        build_direct_summary_prompt("Technical transcript", "Write in English with sections.");
    assert!(direct_prompt.contains("dense, polished document"));
    assert!(direct_prompt.contains("technical terms, examples, constraints, and decisions"));

    let chunk_prompt =
        build_chunk_note_prompt(1, 3, "Write in English with sections.", "Chunk transcript");
    assert!(chunk_prompt.contains("technical terminology"));
    assert!(chunk_prompt.contains("Examples, evidence, or concrete scenarios"));

    let synthesis_prompt = build_summary_synthesis_prompt(
        "Chunk 1 notes:\nDetails",
        "Write in English with sections.",
    );
    assert!(synthesis_prompt.contains("dense, polished document"));
    assert!(synthesis_prompt.contains("technical terms, examples, constraints, and decisions"));
}

#[test]
fn chunk_prompts_number_their_chunk() {
    let prompt = build_chunk_note_prompt(2, 13, "Rules.", "Text.");
    assert!(prompt.contains("Rules.\n\nThis is chunk 2/13 of the full transcript.\n\n"));
    assert!(prompt.ends_with("Transcript chunk:\nText."));
    assert!(build_direct_summary_prompt("T", "I").ends_with("Full transcript:\nT"));
    assert!(build_summary_synthesis_prompt("N", "I").ends_with("Chunk notes:\nN"));
}

#[test]
fn pack_instructions_name_the_language_and_end_with_the_two_rules() {
    let study = build_generated_pack_instructions(
        GeneratedArtifactPackKind::StudyPack,
        "de",
        true,
        false,
    );
    assert!(study.starts_with("Write the entire output in German. Produce only markdown.\n\n"));
    assert!(study.contains("\n5. Flashcards\n"));
    assert!(study.ends_with(
        "- Where timestamps are available in the prepared transcript, keep them next to the relevant item.\n- Do not invent or infer speaker attributions."
    ));
    let meeting = build_generated_pack_instructions(
        GeneratedArtifactPackKind::MeetingIntelligence,
        "xx",
        false,
        true,
    );
    assert!(meeting.contains("in the requested language."));
    assert!(meeting.contains("\n5. Risks and Blockers\n"));
}

#[test]
fn packs_are_stored_under_their_own_keys() {
    assert_eq!(
        generated_pack_metadata_key(GeneratedArtifactPackKind::StudyPack),
        "study_pack_v1"
    );
    assert_eq!(
        generated_pack_metadata_key(GeneratedArtifactPackKind::MeetingIntelligence),
        "meeting_intelligence_v1"
    );
}

#[test]
fn payload_defaults() {
    assert_eq!(default_summary_language(), "en");
    assert_eq!(default_chat_origin(), "typed");
    assert!(default_summary_sections());
    assert!(default_summary_action_items());
    assert!(!default_summary_key_points_only());
    assert!(default_emotion_speaker_dynamics());
}

fn summary_payload() -> SummarizeArtifactPayload {
    SummarizeArtifactPayload {
        id: "artifact-3".to_string(),
        language: "en".to_string(),
        context: ArtifactAiContextOptions { include_timestamps: false, include_speakers: false },
        sections: true,
        bullet_points: true,
        action_items: false,
        key_points_only: false,
        custom_prompt: None,
    }
}

fn unavailable() -> CommandError {
    CommandError { code: "missing_ai_provider".to_string(), message: "none".to_string() }
}

#[test]
fn a_summary_needs_an_artifact_a_provider_and_a_transcript() {
    let payload = summary_payload();
    let instructions =
        summarize_artifact(&payload, true, "en", &Ok(1), unavailable(), "hello").unwrap();
    assert_eq!(instructions, build_summary_instructions(&payload, "en"));

    let code = |found: bool, providers: Result<usize, String>, transcript: &str| {
        summarize_artifact(&payload, found, "en", &providers, unavailable(), transcript)
            .unwrap_err()
            .code
    };
    assert_eq!(code(false, Ok(1), "hello"), "not_found");
    assert_eq!(code(true, Err("broken".to_string()), "hello"), "runtime_factory");
    assert_eq!(code(true, Ok(0), "hello"), "missing_ai_provider");
    assert_eq!(code(true, Ok(1), "  "), "empty_content");
}

#[test]
fn a_pack_is_asked_for_and_dated() {
    let payload = GenerateArtifactPackPayload {
        id: "artifact-4".to_string(),
        kind: GeneratedArtifactPackKind::StudyPack,
        language: "en".to_string(),
        context: ArtifactAiContextOptions { include_timestamps: true, include_speakers: false },
    };
    let instructions =
        generate_artifact_pack(&payload, true, "en", &Ok(2), unavailable(), "words").unwrap();
    assert!(!instructions.is_empty());
    let empty = generate_artifact_pack(&payload, true, "en", &Ok(2), unavailable(), "\n");
    assert_eq!(empty.unwrap_err().message, "no transcription available to summarize");

    let pack =
        finish_artifact_pack(&payload, "# Notes".to_string(), "2026-01-01T00:00:00Z".to_string());
    assert_eq!(pack.kind, GeneratedArtifactPackKind::StudyPack);
    assert_eq!(pack.body_markdown, "# Notes");
    assert_eq!(pack.generated_at, "2026-01-01T00:00:00Z");
}
