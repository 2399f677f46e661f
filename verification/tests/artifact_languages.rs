//! The languages of transcripts and of what is written about them.

use sbobino_commands::artifacts::language::{
    app_language_code, contiguous_source_language_groups, language_display_name,
    manual_optimization_groups, normalize_source_language, resolve_ai_output_language,
    AppLanguage, DetectedLanguage, LanguageSegment, SourceLanguageOptimizationGroup,
};
use sbobino_commands::artifacts::markers::strip_language_service_markers;
use sbobino_commands::artifacts::optimize::{
    optimize_source_language_groups, settle_optimized_group,
};
use sbobino_commands::text_map::TextMap;

fn known_languages() -> TextMap {
    let mut known = TextMap::new();
    for (text, code) in [
        ("it", "it"),
        ("it-IT", "it"),
        ("en", "en"),
        ("en-US", "en"),
        ("de", "de"),
    ] {
        known.insert(text, code);
    }
    known
}

fn rank(value: f32) -> i64 {
    if value > 0.0 {
        i64::from(value.to_bits())
    } else {
        0
    }
}

fn detected(code: &str, duration_seconds: f32, character_count: usize) -> DetectedLanguage {
    DetectedLanguage {
        code: code.to_string(),
        duration_rank: rank(duration_seconds),
        character_count,
    }
}

fn segment(text: &str, language_code: &str) -> LanguageSegment {
    LanguageSegment { language_code: Some(language_code.to_string()), text: text.to_string() }
}

fn pairs(groups: &Vec<SourceLanguageOptimizationGroup>) -> Vec<(&str, &str)> {
    groups.iter().map(|g| (g.language_code.as_str(), g.text.as_str())).collect()
}

/// Optimizes each group by a stand-in that changes nothing, and tells the languages it was given.
fn optimize_unchanged(groups: &Vec<SourceLanguageOptimizationGroup>) -> (Vec<String>, String) {
    let mut languages = Vec::new();
    let mut settled = Vec::new();
    for group in groups {
        languages.push(group.language_code.clone());
        settled.push(settle_optimized_group(group, &group.text));
    }
    (languages, optimize_source_language_groups(&settled))
}

#[test]
fn auto_ai_language_uses_detected_duration_then_interface_fallback() {
    let known = known_languages();
    let heard = Some(vec![detected("it", 8.0, 10), detected("en", 2.0, 40)]);
    assert_eq!(resolve_ai_output_language("auto", &heard, &None, "de", &known), "it");

    assert_eq!(resolve_ai_output_language("auto", &None, &None, "de", &known), "de");
    assert_eq!(resolve_ai_output_language("it-IT", &None, &None, "de", &known), "it");
}

#[test]
fn without_durations_the_characters_decide_and_the_last_of_equals_wins() {
    let known = known_languages();
    let heard = Some(vec![detected("it", 0.0, 10), detected("en", 0.0, 40)]);
    assert_eq!(resolve_ai_output_language("", &heard, &None, "de", &known), "en");
    let equal = Some(vec![detected("it", 3.0, 10), detected("en", 3.0, 1)]);
    assert_eq!(resolve_ai_output_language(" AUTO ", &equal, &None, "de", &known), "en");
    let close = Some(vec![detected("it", 0.0, 16_777_217), detected("en", 0.0, 16_777_216)]);
    assert_eq!(resolve_ai_output_language("", &close, &None, "de", &known), "en");
    let apart = Some(vec![detected("it", 0.0, 16_777_218), detected("en", 0.0, 16_777_216)]);
    assert_eq!(resolve_ai_output_language("", &apart, &None, "de", &known), "it");
}

#[test]
fn the_processing_language_goes_before_the_interface() {
    let known = known_languages();
    let fr = Some("FR".to_string());
    assert_eq!(resolve_ai_output_language("auto", &None, &fr, "de", &known), "fr");
    let mixed = Some("Mixed".to_string());
    assert_eq!(resolve_ai_output_language("auto", &None, &mixed, "de", &known), "de");
    assert_eq!(resolve_ai_output_language("auto", &None, &mixed, "xx", &known), "en");
    assert_eq!(resolve_ai_output_language("KL", &None, &mixed, "xx", &known), "kl");
}

#[test]
fn manual_optimization_preserves_contiguous_timeline_language_groups() {
    let submitted = "ciao mondo\ncome stai\nhello world";
    let segments = vec![
        segment("ciao mondo", "it-IT"),
        segment("come stai", "it"),
        segment("hello world", "en-US"),
    ];

    let groups = manual_optimization_groups(&segments, submitted, &known_languages());
    assert_eq!(pairs(&groups), vec![("it", "ciao mondo\ncome stai"), ("en", "hello world")]);

    let (languages, optimized) = optimize_unchanged(&groups);
    assert_eq!(languages, vec!["it".to_string(), "en".to_string()]);
    assert_eq!(optimized, submitted);
    assert!(!optimized.contains("[source_language="));
}

#[test]
fn manual_optimization_uses_auto_for_unmatched_edited_text() {
    let segments = vec![segment("ciao mondo", "it"), segment("hello world", "en")];
    let submitted = "user edited transcript with different wording";
    let groups = manual_optimization_groups(&segments, submitted, &known_languages());
    assert_eq!(pairs(&groups), vec![("auto", submitted)]);

    let (languages, _) = optimize_unchanged(&groups);
    assert_eq!(languages, vec!["auto".to_string()]);
}

#[test]
fn manual_optimization_uses_auto_for_case_only_timeline_edit() {
    let segments = vec![segment("Ciao mondo", "it"), segment("Hello world", "en")];
    let submitted = "ciao mondo\nhello world";
    let groups = manual_optimization_groups(&segments, submitted, &known_languages());
    assert_eq!(pairs(&groups), vec![("auto", submitted)]);

    let (languages, optimized) = optimize_unchanged(&groups);
    assert_eq!(optimized, submitted);
    assert_eq!(languages, vec!["auto".to_string()]);
}

#[test]
fn groups_end_where_the_language_changes() {
    let segments = vec![
        segment("uno", "it"),
        segment("two", "en"),
        segment("tre", "it"),
        segment("  ", "it"),
        LanguageSegment { language_code: None, text: "who knows".to_string() },
    ];
    let groups = contiguous_source_language_groups(&segments, &known_languages());
    assert_eq!(
        pairs(&groups),
        vec![("it", "uno"), ("en", "two"), ("it", "tre"), ("auto", "who knows")]
    );
    assert_eq!(normalize_source_language(&Some("it-IT".to_string()), &known_languages()), "it");
}

#[test]
fn grouping_and_joining_keep_every_text() {
    let segments = vec![
        segment(" uno ", "it"),
        segment("due", "it"),
        segment(" \t", "en"),
        segment("three", "en"),
    ];
    let groups = contiguous_source_language_groups(&segments, &known_languages());
    assert_eq!(pairs(&groups), vec![("it", "uno\ndue"), ("en", "three")]);
    let (_, joined) = optimize_unchanged(&groups);
    assert_eq!(joined, "uno\ndue\nthree");
    let padded = vec!["  uno ".to_string(), String::new(), "due\n".to_string()];
    assert_eq!(optimize_source_language_groups(&padded), "uno \n\ndue");
}

#[test]
fn service_markers_are_taken_out() {
    assert_eq!(strip_language_service_markers("[source_language=it] Ciao"), "Ciao");
    assert_eq!(strip_language_service_markers("left [source_language="), "left [source_language=");
}

#[test]
fn stripped_texts_hold_no_closed_marker_and_no_trailing_space() {
    let text = "  [source_[source_language=x]language=it] uno \t\r\n\r\ndue] \n[source_language=\n ";
    let once = strip_language_service_markers(text);
    assert_eq!(once, "uno\n\ndue]\n[source_language=");
    assert_eq!(strip_language_service_markers(&once), once);
    assert_eq!(strip_language_service_markers("[source_language=it"), "[source_language=it");
    assert_eq!(strip_language_service_markers(" \n [source_language=en] \n"), "");
}

#[test]
fn interface_languages_have_codes_and_names() {
    assert_eq!(app_language_code(AppLanguage::En), "en");
    assert_eq!(app_language_code(AppLanguage::It), "it");
    assert_eq!(app_language_code(AppLanguage::Es), "es");
    assert_eq!(app_language_code(AppLanguage::De), "de");
    assert_eq!(language_display_name("it"), "Italian");
}
