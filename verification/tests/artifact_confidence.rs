//! Spans that the speech engine was not sure of.

use sbobino_commands::artifacts::confidence::{
    build_confidence_aware_optimize_prompt, extract_low_confidence_spans, is_whisper_control_token,
    normalize_timeline_word_text, prioritize_low_confidence_spans, LowConfidenceSpan, SpanHint,
    TimelineWord,
};

fn word(text: &str, confidence: f32, start: &str) -> TimelineWord {
    TimelineWord {
        text: text.to_string(),
        starts_span: confidence <= 0.58,
        continues_span: confidence <= 0.72,
        time_label: Some(start.to_string()),
    }
}

const CONFIDENCES: [f32; 8] = [0.94, 0.92, 0.87, 0.31, 0.42, 0.96, 0.27, 0.49];

fn confidence_timeline() -> Vec<Vec<TimelineWord>> {
    let texts = ["Questo", "quesito", "riguarda", "Cheras", "Tuner", "e", "GSM", "Scheme"];
    let labels = ["00:12", "00:12", "00:12", "00:13", "00:13", "00:13", "00:13", "00:14"];
    vec![(0..8).map(|i| word(texts[i], CONFIDENCES[i], labels[i])).collect()]
}

fn mean(span: &LowConfidenceSpan) -> f32 {
    let total: f32 = span.tokens.iter().map(|token| CONFIDENCES[*token]).sum();
    total / span.tokens.len() as f32
}

/// The spans that a prompt names, from the least certain.
fn named_spans() -> Vec<LowConfidenceSpan> {
    let spans = extract_low_confidence_spans(&confidence_timeline());
    let ranks: Vec<i64> = spans.iter().map(|span| i64::from(mean(span).to_bits())).collect();
    let order = prioritize_low_confidence_spans(&spans, &ranks);
    let mut slots: Vec<Option<LowConfidenceSpan>> = spans.into_iter().map(Some).collect();
    order.into_iter().map(|i| slots[i].take().expect("each span once")).collect()
}

fn hints() -> Vec<SpanHint> {
    named_spans()
        .into_iter()
        .map(|span| SpanHint {
            percent: (mean(&span) * 100.0).round() as u8,
            suspect_text: span.suspect_text,
            excerpt: span.excerpt,
            time_label: span.time_label,
        })
        .collect()
}

fn prompt(base: &str) -> String {
    build_confidence_aware_optimize_prompt(&hints(), &Some(base.to_string()))
        .expect("prompt should be generated")
}

#[test]
fn extract_low_confidence_spans_prioritizes_suspect_regions() {
    let spans = named_spans();

    assert!(!spans.is_empty());
    assert_eq!(spans[0].suspect_text, "Cheras Tuner");
    assert!(spans.iter().any(|span| span.suspect_text == "Cheras Tuner"));
    assert!(spans.iter().any(|span| span.suspect_text == "GSM Scheme"));
    assert!(spans.iter().all(|span| span.excerpt.contains(&span.suspect_text)));
}

#[test]
fn confidence_aware_optimize_prompt_includes_low_confidence_hints() {
    let prompt = prompt("Preserve technical terminology.");

    assert!(prompt.contains("Preserve technical terminology."));
    assert!(prompt.contains("Confidence-aware guidance"));
    assert!(prompt.contains("Cheras Tuner"));
    assert!(prompt.contains("GSM Scheme"));
}

#[test]
fn a_hint_names_its_confidence_and_its_time() {
    let hint = |time_label: Option<&str>| SpanHint {
        percent: 37,
        suspect_text: "Cheras".to_string(),
        excerpt: "riguarda Cheras Tuner".to_string(),
        time_label: time_label.map(str::to_string),
    };
    let hints = vec![hint(Some("00:13")), hint(None)];
    let prompt = build_confidence_aware_optimize_prompt(&hints, &None).expect("a prompt");
    assert!(prompt.starts_with("Confidence-aware guidance"));
    assert!(prompt.ends_with(
        "- 37% confidence near 00:13: suspect phrase \"Cheras\" in context \"riguarda Cheras Tuner\"\n- 37% confidence: suspect phrase \"Cheras\" in context \"riguarda Cheras Tuner\""
    ));
}

#[test]
fn confidence_aware_optimize_prompt_preserves_substantial_rewrite_guidance() {
    let prompt = prompt("User prompt");

    assert!(prompt.contains("substantive"));
    assert!(prompt.contains("syntactic, logical, and contextual cleanup"));
    assert!(prompt.contains("apply the same level of substantive"));
    assert!(prompt.contains("fully cleaned transcript, not a mostly-original transcript"));
    assert!(prompt.contains("prioritize aggressive local repair"));
    assert!(prompt.contains("Cheras Tuner"));
    assert!(prompt.contains("Do not be timid"));
    assert!(prompt.contains("90% of the original words"));
    assert!(prompt.contains("the speaker's TONE"));
    assert!(prompt.contains("careful editor"));
    assert!(prompt.contains("Example of the expected level of rewriting"));
    assert!(prompt.contains("Another example of the expected level of rewriting"));
    assert!(prompt.contains("perché il team ha lavorato bene"));
    assert!(prompt.contains("Another example of topic-aware rewriting"));
    assert!(prompt.contains("i requisiti del progetto software"));
}

#[test]
fn confidence_aware_optimize_prompt_anchors_topic_and_contextual_logic() {
    let prompt = prompt("User prompt");

    assert!(prompt.contains("Understand the topic being discussed"));
    assert!(prompt.contains("surrounding context makes the intended meaning clear"));
    assert!(prompt.contains("make that connection explicit"));
    assert!(prompt.contains("vague references like 'la cosa di cui parlavamo'"));
}

#[test]
fn confidence_aware_optimize_prompt_demonstrates_short_connective_case() {
    let prompt = prompt("User prompt");

    assert!(prompt.contains("Another example of the expected level of rewriting"));
    assert!(prompt.contains("perché il team ha lavorato bene"));
    assert!(prompt.contains("Another example of topic-aware rewriting"));
    assert!(prompt.contains("i requisiti del progetto software"));
}

#[test]
fn confidence_aware_optimize_prompt_demonstrates_topic_aware_rewrite() {
    let prompt = prompt("User prompt");

    assert!(prompt.contains("Another example of topic-aware rewriting"));
    assert!(prompt.contains("i requisiti del progetto software"));
}

#[test]
fn confidence_aware_optimize_prompt_without_spans_falls_back_to_user_prompt() {
    let prompt =
        build_confidence_aware_optimize_prompt(&Vec::new(), &Some("User prompt only.".to_string()))
            .expect("prompt should be generated");

    assert_eq!(prompt, "User prompt only.");
    assert!(!prompt.contains("Confidence-aware guidance"));
    assert!(build_confidence_aware_optimize_prompt(&Vec::new(), &Some("  ".to_string())).is_none());
}

#[test]
fn equal_spans_are_named_once() {
    let row = || vec![word("So", 0.9, "00:01"), word("Cheras", 0.3, "00:01")];
    let spans = extract_low_confidence_spans(&vec![row(), row()]);
    assert_eq!(spans.len(), 2);
    let order = prioritize_low_confidence_spans(&spans, &vec![5, 5]);
    assert_eq!(order, vec![0]);
}

#[test]
fn control_tokens_are_no_words() {
    assert!(is_whisper_control_token("[_BEG_]"));
    assert!(!is_whisper_control_token("word"));
    assert_eq!(normalize_timeline_word_text("  word "), Some("word".to_string()));
    assert_eq!(normalize_timeline_word_text("  "), None);
}
