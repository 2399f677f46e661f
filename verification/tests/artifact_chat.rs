//! Questions about a transcript.

use sbobino_commands::artifacts::chat::{
    add_conversation_context, build_chat_context_candidates, build_rolling_chat_summary,
    chat_artifact, chat_requests, check_chat_providers, completed_chat_turns, score_chunk,
    settle_chat, ArtifactChatMessage, ChatSource,
};
use sbobino_commands::artifacts::payloads::{ArtifactAiContextOptions, ChatArtifactPayload};
use sbobino_commands::error::CommandError;

fn message(role: &str, text: &str, status: &str) -> ArtifactChatMessage {
    ArtifactChatMessage {
        artifact_id: "id-1".to_string(),
        role: role.to_string(),
        text: text.to_string(),
        origin: "typed".to_string(),
        status: status.to_string(),
        provider: None,
    }
}

fn source(text: &str) -> ChatSource {
    ChatSource {
        title: "Sample".to_string(),
        summary: String::new(),
        faqs: String::new(),
        transcript: text.to_string(),
    }
}

const PLAIN: ArtifactAiContextOptions =
    ArtifactAiContextOptions { include_timestamps: false, include_speakers: false };

#[test]
fn chat_context_candidates_are_created() {
    let text = "alpha beta gamma delta epsilon zeta eta theta iota kappa lambda mu nu xi omicron pi rho sigma tau";
    let prompt = "what about gamma and sigma?";
    let candidates =
        build_chat_context_candidates(&source(text), prompt, PLAIN);
    assert!(!candidates.is_empty());
    assert!(candidates.iter().all(|value| value.contains("User question:")));
    assert!(candidates
        .iter()
        .all(|value| value.contains("Reply in the same language as the user's question")));
}

#[test]
fn completed_chat_turns_are_included_in_the_next_question_context() {
    let candidates = vec!["Transcript snippets:\nmeeting\nUser question:\nWhat next?".to_string()];
    let messages = vec![
        message("user", "What was approved?", "complete"),
        message("assistant", "The launch was approved.", "complete"),
        message("assistant", "temporary failure", "error"),
        message("user", "incomplete question", "complete"),
    ];

    let enriched = add_conversation_context(candidates, &messages, None);

    assert!(enriched[0].contains("What was approved?"));
    assert!(enriched[0].contains("The launch was approved."));
    assert!(!enriched[0].contains("temporary failure"));
    assert!(!enriched[0].contains("incomplete question"));
    assert!(enriched[0].ends_with("User question:\nWhat next?"));
}

#[test]
fn concurrent_completed_chat_turns_keep_correct_question_answer_pairs() {
    let candidates = vec!["Transcript snippets:\nmeeting\nUser question:\nWhat next?".to_string()];
    let messages = vec![
        message("user", "Question one", "complete"),
        message("user", "Question two", "complete"),
        message("assistant", "Answer one", "complete"),
        message("assistant", "Answer two", "complete"),
    ];

    let enriched = add_conversation_context(candidates, &messages, None);

    assert!(enriched[0].contains("user: Question one"));
    assert!(enriched[0].contains("assistant: Answer one"));
    assert!(enriched[0].contains("user: Question two"));
    assert!(enriched[0].contains("assistant: Answer two"));
}

#[test]
fn turns_alternate_questions_and_answers() {
    let messages = vec![
        message("user", "Question one", "complete"),
        message("user", "Question two", "complete"),
        message("assistant", "Answer one", "complete"),
        message("assistant", "Answer two", "complete"),
        message("assistant", "nobody asked", "complete"),
    ];
    let turns: Vec<&str> = completed_chat_turns(&messages).iter().map(|m| m.text.as_str()).collect();
    assert_eq!(turns, vec!["Question one", "Answer one", "Question two", "Answer two"]);
}

#[test]
fn a_failed_answer_settles_its_question() {
    let messages = vec![
        message("user", "Question one", "complete"),
        message("assistant", "broken", "error"),
        message("user", "Question two", "complete"),
        message("assistant", "Answer two", "complete"),
    ];
    let turns: Vec<&str> = completed_chat_turns(&messages).iter().map(|m| m.text.as_str()).collect();
    assert_eq!(turns, vec!["Question two", "Answer two"]);
}

#[test]
fn short_conversations_have_no_rolling_summary() {
    assert!(build_rolling_chat_summary(&Vec::new()).is_none());
    let mut messages = Vec::new();
    for i in 0..20 {
        messages.push(message("user", &format!("question {i}"), "complete"));
        messages.push(message("assistant", &format!("answer {i}"), "complete"));
    }
    let summary = build_rolling_chat_summary(&messages).expect("a long conversation is summed up");
    assert!(summary.contains("question 0"));
    assert!(!summary.contains("question 19"));
}

/// A score in single precision.
fn single_score(holds_query: bool, hits: &[usize]) -> f32 {
    let mut score = 0.0_f32;
    if holds_query {
        score += 4.0;
    }
    for count in hits {
        if *count > 0 {
            score += 1.0;
            score += (*count as f32) * 0.15;
        }
    }
    score
}

fn points(score: u64) -> f64 {
    score as f64 / 67_108_864.0
}

#[test]
fn chunks_are_scored_by_the_tokens_they_hold() {
    let tokens = vec!["gamma".to_string(), "omega".to_string()];
    let score = score_chunk("gamma, delta and gamma again", "delta and", &tokens);
    assert_eq!(points(score), f64::from(single_score(true, &[2, 0])));
    assert_eq!(score_chunk("delta", "", &tokens), 0);
    let often = score_chunk(&"x ".repeat(9), "", &vec!["x".to_string()]);
    assert_eq!(points(often), f64::from(single_score(false, &[6])));
    assert_eq!(points(score_chunk("abc", "b", &Vec::new())), 4.0);
}

#[test]
fn scores_are_those_of_single_precision() {
    let words = ["ant", "bee", "cat", "dog", "elk", "fox", "gnu", "hen"];
    let tokens: Vec<String> =
        words.iter().chain(words.iter()).map(|word| word.to_string()).collect();
    let mut seed: usize = 7;
    for _ in 0..200 {
        let mut chunk = String::new();
        let mut counts = Vec::new();
        for word in words {
            seed = (seed * 1_103_515_245 + 12_345) % 2_147_483_648;
            let count = (seed / 65_536) % 9;
            for _ in 0..count {
                chunk.push_str(word);
                chunk.push(' ');
            }
            counts.push(count.min(6));
        }
        let twice: Vec<usize> = counts.iter().chain(counts.iter()).copied().collect();
        let score = score_chunk(&chunk, "ant ant", &tokens);
        let expected = single_score(chunk.contains("ant ant"), &twice);
        assert_eq!(points(score), f64::from(expected));
    }
    let many: Vec<String> = vec!["ant".to_string(); 5000];
    let score = score_chunk("ant ant ant", "", &many);
    assert_eq!(points(score), f64::from(single_score(false, &vec![3; 5000])));
}

#[test]
fn the_chunks_that_score_are_shown() {
    let filler = |topic: &str| format!("{topic} ").repeat(160);
    let text =
        format!("{}{}{}", filler("budget"), filler("travel"), filler("hiring"));
    let prompts = build_chat_context_candidates(&source(&text), "any hiring news?", PLAIN);
    assert_eq!(prompts.len(), 4);
    assert!(prompts[0].contains("hiring hiring"));
    assert!(!prompts[0].contains("[1] "));
    let unrelated = build_chat_context_candidates(&source(&text), "??", PLAIN);
    assert!(unrelated[0].contains("[1] budget"));
}

#[test]
fn questions_are_checked_before_they_are_asked() {
    let payload = |id: &str, prompt: &str| ChatArtifactPayload {
        id: id.to_string(),
        prompt: prompt.to_string(),
        origin: "typed".to_string(),
        context: PLAIN,
    };
    let missing = chat_artifact(&payload("id-1", "What next?"), false);
    assert_eq!(missing.expect_err("no artifact").code, "not_found");
    assert!(chat_artifact(&payload("id-1", "   "), true).is_err());
    let question = chat_artifact(&payload("id-1", " What next? "), true).expect("a question");
    assert_eq!(question.role, "user");
    assert_eq!(question.text, "What next?");
    assert_eq!(question.artifact_id, "id-1");
}

#[test]
fn every_stored_question_is_answered_or_marked_as_failed() {
    let question = message("user", "What next?", "complete");
    let reply = settle_chat(&question, Ok("Ship it."), &Some("gemini".to_string()));
    assert_eq!((reply.role.as_str(), reply.status.as_str()), ("assistant", "complete"));
    assert_eq!(reply.text, "Ship it.");
    let failure = settle_chat(&question, Err("quota"), &None);
    assert_eq!((failure.role.as_str(), failure.status.as_str()), ("assistant", "error"));

    let unavailable = CommandError::new("missing_ai_provider", "nothing is set up");
    let unasked = check_chat_providers(&question, &Ok(0), unavailable).expect_err("no provider");
    assert_eq!(unasked.error.code, "missing_ai_provider");
    assert_eq!(unasked.reply.status, "error");
    assert_eq!(unasked.reply.role, "assistant");
}

#[test]
fn requests_hold_the_question_and_the_conversation() {
    let text = "The launch was approved on Monday.";
    let question = message("user", "When?", "complete");
    let history = vec![
        message("user", "What was approved?", "complete"),
        message("assistant", "The launch.", "complete"),
    ];
    let requests =
        chat_requests(&source(text), &question, PLAIN, &history, &None);
    assert!(!requests.is_empty());
    assert!(requests.iter().all(|r| r.contains("When?") && r.contains("The launch.")));
    assert!(requests[0].contains("approved on Monday"));
}
