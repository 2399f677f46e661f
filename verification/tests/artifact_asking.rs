//! Asking an AI: prompts in turn, summaries and optimized transcripts.

use sbobino_commands::artifacts::ask::{
    ask_with_overflow_fallback, begin_asking, check_providers, chunk_concurrency,
    is_context_window_error, summarize_with_rag, summary_after_direct, summary_after_notes,
    text_mentions_context_window, AskStep, SummaryStep,
};
use sbobino_commands::artifacts::optimize::{
    optimize_after_chunks, optimize_after_direct, optimize_after_merge, optimize_artifact,
    optimize_with_rag, OptimizeLimits, OptimizeStep,
};
use sbobino_commands::artifacts::requests::{
    analyze_artifact_emotions, empty_deleted_artifacts, list_artifacts, list_deleted_artifacts,
    list_realtime_sessions, list_recent_artifacts, read_artifact_audio,
};
use sbobino_commands::domain::ArtifactKind;
use sbobino_commands::error::{ApplicationError, CommandError};

fn overflow() -> ApplicationError {
    ApplicationError::PostProcessing(
        "Foundation bridge error: Exceeded model context window size".to_string(),
    )
}

/// A stand-in for an AI that keeps what it was asked.
struct Tracking {
    prefer_single_pass: bool,
    chunk_concurrency_limit: usize,
    optimize_context_limit: Option<usize>,
    direct_prompt_char_budget: usize,
    fail_direct_attempts: usize,
    rewrite: fn(&str) -> String,
    optimize_calls: usize,
    prompts: Vec<String>,
    max_active_calls: usize,
}

impl Tracking {
    fn new(prefer_single_pass: bool, limit: usize, fail_direct_attempts: usize) -> Self {
        Tracking {
            prefer_single_pass,
            chunk_concurrency_limit: limit,
            optimize_context_limit: None,
            direct_prompt_char_budget: 3_200,
            fail_direct_attempts,
            rewrite: str::to_string,
            optimize_calls: 0,
            prompts: Vec::new(),
            max_active_calls: 0,
        }
    }

    fn with_optimize_context_limit(
        prefer_single_pass: bool,
        limit: usize,
        budget: usize,
        context_limit: usize,
    ) -> Self {
        Tracking {
            optimize_context_limit: Some(context_limit),
            direct_prompt_char_budget: budget,
            ..Tracking::new(prefer_single_pass, limit, 0)
        }
    }

    fn limits(&self) -> OptimizeLimits {
        OptimizeLimits {
            direct_prompt_char_budget: self.direct_prompt_char_budget,
            prefers_single_pass: self.prefer_single_pass,
            chunk_concurrency_limit: self.chunk_concurrency_limit,
        }
    }

    fn optimize_text(&mut self, text: &str) -> Result<String, ApplicationError> {
        self.optimize_calls += 1;
        if self.optimize_context_limit.is_some_and(|limit| text.chars().count() > limit) {
            return Err(overflow());
        }
        Ok((self.rewrite)(text))
    }

    fn ask(&mut self, prompt: &str) -> Result<String, ApplicationError> {
        self.prompts.push(prompt.to_string());
        self.max_active_calls = self.max_active_calls.max(1);
        if prompt.contains("Full transcript:") && self.fail_direct_attempts > 0 {
            self.fail_direct_attempts -= 1;
            return Err(overflow());
        }
        if prompt.contains("Chunk notes:") || prompt.contains("Full transcript:") {
            Ok("final summary".to_string())
        } else {
            Ok("chunk note".to_string())
        }
    }

    fn ask_in_turn(&mut self, prompts: &Vec<String>) -> Result<String, ApplicationError> {
        let (mut state, mut step) = begin_asking(prompts.len(), "too long");
        loop {
            match step {
                AskStep::Try => {
                    let reply = self.ask(&prompts[state.tried]);
                    step = ask_with_overflow_fallback(&mut state, prompts.len(), reply);
                }
                AskStep::Answer(answer) => return Ok(answer),
                AskStep::Fail(error) => return Err(error),
            }
        }
    }

    fn summarize(&mut self, transcript: &str, instructions: &str) -> Result<String, ApplicationError> {
        let limit = self.chunk_concurrency_limit;
        let mut step = summarize_with_rag(transcript, instructions, self.prefer_single_pass, limit);
        loop {
            match step {
                SummaryStep::Direct(prompt) => {
                    let reply = self.ask(&prompt);
                    step = summary_after_direct(transcript, instructions, limit, reply);
                }
                SummaryStep::Ask(prompts) => return self.ask_in_turn(&prompts),
                SummaryStep::Notes { questions, concurrency } => {
                    self.max_active_calls = self.max_active_calls.max(concurrency);
                    let notes = questions.iter().map(|prompts| self.ask_in_turn(prompts)).collect();
                    step = summary_after_notes(notes, instructions);
                }
                SummaryStep::Done(summary) => return Ok(summary),
                SummaryStep::Fail(error) => return Err(error),
            }
        }
    }

    /// Optimizes a transcript; chunks are put one after the other.
    fn optimize(&mut self, transcript: &str) -> Result<String, ApplicationError> {
        let limits = self.limits();
        let mut step = optimize_with_rag(transcript, &limits);
        loop {
            match step {
                OptimizeStep::Direct => {
                    let reply = self.optimize_text(transcript);
                    step = optimize_after_direct(transcript, &limits, reply);
                }
                OptimizeStep::Chunks { round, chunks, concurrency } => {
                    assert!(concurrency >= 1 && concurrency <= 3);
                    let replies = chunks.iter().map(|chunk| self.optimize_text(chunk)).collect();
                    step = optimize_after_chunks(transcript, &limits, round, replies);
                }
                OptimizeStep::Merge(parts) => {
                    let stitched = parts.join("\n");
                    return Ok(optimize_after_merge(transcript, &stitched, &stitched));
                }
                OptimizeStep::Done(text) => return Ok(text),
                OptimizeStep::Fail(error) => return Err(error),
            }
        }
    }
}

fn alphabet(times: usize) -> String {
    "alpha beta gamma delta epsilon zeta eta theta iota kappa lambda mu ".repeat(times)
}

#[test]
fn detects_context_window_errors() {
    let error = ApplicationError::PostProcessing(
        "Foundation bridge error: Exceeded model context window size".to_string(),
    );
    assert!(is_context_window_error(&error));
    assert!(!is_context_window_error(&ApplicationError::Cancelled));
    assert!(!is_context_window_error(&ApplicationError::PostProcessing("no network".to_string())));
    assert!(text_mentions_context_window("the prompt is too long for the CONTEXT window"));
}

#[test]
fn optimize_with_rag_uses_single_pass_for_short_transcripts() {
    let mut enhancer = Tracking::new(false, 3, 0);
    let transcript = "Alice reviews the roadmap and confirms the launch checklist is complete.";

    let optimized = enhancer.optimize(transcript).expect("optimization should succeed");

    assert_eq!(optimized, transcript);
    assert_eq!(enhancer.optimize_calls, 1);
    assert_eq!(enhancer.prompts.len(), 0);
}

#[test]
fn optimize_with_rag_chunks_large_transcripts_and_merges_them() {
    let mut enhancer = Tracking::new(true, 1, 0);
    let transcript = alphabet(450);

    let optimized = enhancer.optimize(&transcript).expect("optimization should succeed");

    assert!(!optimized.trim().is_empty());
    assert!(enhancer.optimize_calls > 1);
    assert_eq!(enhancer.prompts.len(), 0);
    assert!(!optimized.contains("[Section"));
}

#[test]
fn optimize_with_rag_retries_smaller_chunks_after_context_window() {
    let mut enhancer = Tracking::with_optimize_context_limit(true, 1, 5_500, 1_300);
    let transcript = alphabet(230);

    let optimized = enhancer
        .optimize(&transcript)
        .expect("optimization should retry with smaller chunks and succeed");

    assert!(!optimized.trim().is_empty());
    assert!(enhancer.optimize_calls > 2);
    assert!(!optimized.contains("[Section"));
}

#[test]
fn optimize_with_rag_returns_specific_overflow_after_all_chunk_budgets_fail() {
    let mut enhancer = Tracking::with_optimize_context_limit(true, 1, 5_500, 20);
    let transcript = alphabet(20);

    let error = enhancer
        .optimize(&transcript)
        .expect_err("optimization should fail after exhausting smaller chunks");

    match error {
        ApplicationError::PostProcessing(message) => {
            assert!(message.contains("optimizing the transcript"))
        }
        other => panic!("unexpected error: {other:?}"),
    }
}

fn with_commentary(text: &str) -> String {
    format!("{text} added commentary")
}

#[test]
fn optimize_with_rag_accepts_short_addition_from_enhancer() {
    let mut enhancer = Tracking { rewrite: with_commentary, ..Tracking::new(false, 1, 0) };
    let transcript = "Alice reviews the roadmap and confirms the launch checklist is complete.";

    let optimized = enhancer.optimize(transcript).expect("optimization should succeed");

    assert_ne!(optimized, transcript);
    assert!(optimized.contains("added commentary"));
}

#[test]
fn optimize_with_rag_preserves_distributed_short_connectives_through_chunking() {
    let mut enhancer = Tracking { rewrite: with_commentary, ..Tracking::new(false, 1, 0) };
    let transcript = alphabet(450);
    let source_word_count = transcript.split_whitespace().count();

    let optimized = enhancer.optimize(&transcript).expect("optimization should succeed");

    assert!(enhancer.optimize_calls > 1);
    assert!(optimized.matches("added commentary").count() >= 2);
    let optimized_lower = optimized.to_lowercase();
    for word in transcript.split_whitespace() {
        assert!(optimized_lower.contains(word));
    }
    assert!(optimized.split_whitespace().count() > source_word_count);
}

#[test]
fn nothing_is_left_of_a_blank_merge() {
    assert_eq!(optimize_after_merge("kept", "  ", "x"), "kept");
    assert_eq!(optimize_after_merge("kept", "x", " \n"), "kept");
    assert_eq!(optimize_after_merge("kept", "x", "y"), "y");
}

#[test]
fn blank_transcripts_are_not_optimized_or_summarized() {
    let mut enhancer = Tracking::new(true, 1, 0);
    assert!(matches!(enhancer.optimize("  \n"), Err(ApplicationError::Validation(_))));
    assert!(matches!(enhancer.summarize("  \n", "x"), Err(ApplicationError::Validation(_))));
}

#[test]
fn other_errors_end_the_optimization() {
    let limits = Tracking::new(true, 1, 0).limits();
    let step = optimize_after_direct("text", &limits, Err(ApplicationError::Cancelled));
    assert!(matches!(step, OptimizeStep::Fail(ApplicationError::Cancelled)));
    let replies = vec![
        Ok("one".to_string()),
        Err(ApplicationError::Persistence("first".to_string())),
        Err(ApplicationError::Persistence("second".to_string())),
    ];
    match optimize_after_chunks("text", &limits, 0, replies) {
        OptimizeStep::Fail(ApplicationError::Persistence(m)) => assert_eq!(m, "first"),
        _ => panic!("the first error counts"),
    }
}

#[test]
fn summarize_with_rag_uses_single_pass_for_short_transcripts() {
    let mut enhancer = Tracking::new(false, 3, 0);

    let summary = enhancer
        .summarize(
            "Alice reviews the roadmap and confirms the launch checklist is complete.",
            "Write a concise English summary.",
        )
        .expect("summary should succeed");

    assert_eq!(summary, "final summary");
    assert_eq!(enhancer.prompts.len(), 1);
    assert!(enhancer.prompts[0].contains("Full transcript:"));
}

#[test]
fn summarize_with_rag_processes_chunk_notes_with_bounded_concurrency() {
    let mut enhancer = Tracking::new(false, 3, 0);

    let summary = enhancer
        .summarize(&alphabet(450), "Write a detailed English summary with sections.")
        .expect("summary should succeed");

    assert_eq!(summary, "final summary");
    assert!(enhancer.prompts.len() >= 3);
    assert!(enhancer.max_active_calls > 1);
}

#[test]
fn summarize_with_rag_prefers_single_pass_for_foundation_style_enhancer() {
    let mut enhancer = Tracking::new(true, 1, 0);

    let summary = enhancer
        .summarize(&alphabet(450), "Write a detailed English summary with sections.")
        .expect("summary should succeed");

    assert_eq!(summary, "final summary");
    assert_eq!(enhancer.prompts.len(), 1);
    assert!(enhancer.prompts[0].contains("Full transcript:"));
}

#[test]
fn summarize_with_rag_falls_back_to_chunking_after_direct_context_error() {
    let mut enhancer = Tracking::new(true, 1, 1);

    let summary = enhancer
        .summarize(&alphabet(450), "Write a detailed English summary with sections.")
        .expect("summary should succeed");

    assert_eq!(summary, "final summary");
    assert!(enhancer.prompts.len() >= 4);
    assert_eq!(enhancer.max_active_calls, 1);
    assert!(enhancer.prompts.first().is_some_and(|prompt| prompt.contains("Full transcript:")));
    assert!(enhancer.prompts.iter().any(|prompt| prompt.contains("Transcript chunk:")));
}

#[test]
fn the_first_answer_ends_the_asking() {
    let (mut state, step) = begin_asking(3, "too long");
    assert!(matches!(step, AskStep::Try));
    assert!(matches!(ask_with_overflow_fallback(&mut state, 3, Err(overflow())), AskStep::Try));
    match ask_with_overflow_fallback(&mut state, 3, Ok(" yes ".to_string())) {
        AskStep::Answer(answer) => assert_eq!(answer, "yes"),
        _ => panic!("an answer"),
    }
    assert_eq!(state.tried, 2);
}

#[test]
fn prompts_that_never_fit_are_told_of() {
    let (mut state, _) = begin_asking(1, "too long");
    match ask_with_overflow_fallback(&mut state, 1, Err(overflow())) {
        AskStep::Fail(ApplicationError::PostProcessing(message)) => {
            assert!(message.contains("summar"))
        }
        _ => panic!("an overflow"),
    }
}

#[test]
fn chunks_are_worked_on_a_few_at_a_time() {
    assert_eq!(chunk_concurrency(10, 8, 3), 3);
    assert_eq!(chunk_concurrency(2, 8, 3), 2);
    assert_eq!(chunk_concurrency(10, 0, 3), 1);
    assert_eq!(chunk_concurrency(0, 2, 3), 1);
}

#[test]
fn nothing_is_asked_without_an_ai() {
    let none = || CommandError::new("missing_ai_provider", "nothing is set up");
    assert!(check_providers(&Ok(2), none()).is_ok());
    let missing = check_providers(&Ok(0), none()).expect_err("no provider");
    assert_eq!(missing.code, "missing_ai_provider");
    let broken = check_providers(&Err("broken".to_string()), none()).expect_err("no factory");
    assert_eq!((broken.code.as_str(), broken.message.as_str()), ("runtime_factory", "broken"));

    assert!(optimize_artifact(true, "text", &Ok(1), none()).is_ok());
    assert!(optimize_artifact(false, "text", &Ok(1), none()).is_err());
    let blank = analyze_artifact_emotions(true, &Ok(1), none(), "  ").expect_err("no text");
    assert_eq!(blank.code, "empty_content");
}

#[test]
fn lists_ask_for_the_first_page_by_default() {
    let query = list_artifacts(None);
    assert_eq!((query.limit, query.offset), (Some(100), Some(0)));
    assert!(query.kind.is_none() && query.query.is_none());
    assert_eq!(list_deleted_artifacts(None).limit, Some(100));
    assert_eq!(list_recent_artifacts(Some(5)).limit, Some(5));
    assert_eq!(list_realtime_sessions().kind, Some(ArtifactKind::Realtime));
}

#[test]
fn the_trash_is_read_page_by_page() {
    let mut ids = vec!["a".to_string()];
    let page: Vec<String> = (0..500).map(|i| format!("p{i}")).collect();
    assert!(empty_deleted_artifacts(&mut ids, &page));
    assert!(!empty_deleted_artifacts(&mut ids, &vec!["last".to_string()]));
    assert_eq!(ids.len(), 502);
    assert_eq!(ids[501], "last");
}

#[test]
fn audio_that_is_not_kept_cannot_be_read() {
    assert_eq!(read_artifact_audio(Some(vec![1, 2])).expect("audio"), vec![1, 2]);
    let error = read_artifact_audio(None).expect_err("no audio");
    assert_eq!((error.code.as_str(), error.message.as_str()), ("audio", "artifact audio is not available"));
}
