//! Asking the AI, with ever smaller prompts while they do not fit.

use vstd::prelude::*;
use vstd::string::*;

use crate::artifacts::prompts::{
    build_chunk_note_prompt, build_direct_summary_prompt, build_summary_synthesis_prompt,
    direct_prompt, note_prompt, synthesis_prompt, NOTE_HEAD, NOTE_RULES, SUMMARY_HEAD,
    SUMMARY_REQUIREMENTS,
};
use crate::artifacts::words::{
    chunk_text_by_words, chunks, chunks_fit, every_word_is_in_a_chunk, truncate_chars,
};
use crate::error::{command_error, ApplicationError, ApplicationErrorView, CommandError, CommandErrorView};
use crate::text::{
    a_join_holds_its_parts_in_order, contains, decimal, in_order, inked, join, join_texts,
    lemma_contains_around, lemma_contains_middle, lemma_contains_through, lemma_found, lemma_in_order_holds,
    lowercase, lowercase_text, prefix, push_decimal, starts_with, text_contains, trim, trim_text,
    trimming_takes_white_only, views, words,
};

verus! {

// ---------------------------------------------------------------------------
// Prompts that do not fit
// ---------------------------------------------------------------------------

/// Whether a message, in lower case, says that a prompt does not fit.
pub open spec fn mentions_context_window(text: Seq<char>) -> bool {
    contains(text, "context window"@) || contains(text, "model context window"@) || contains(
        text,
        "context length"@,
    ) || contains(text, "prompt is too long"@)
}

/// Looks in a message in lower case for words on prompts that do not fit.
pub fn text_mentions_context_window(text: &str) -> (r: bool)
    ensures
        r == mentions_context_window(text@),
{
    text_contains(text, "context window") || text_contains(text, "model context window")
        || text_contains(text, "context length") || text_contains(text, "prompt is too long")
}

/// Whether an error says that a prompt does not fit.
pub open spec fn is_overflow(error: ApplicationErrorView) -> bool {
    error matches ApplicationErrorView::PostProcessing(m) && mentions_context_window(lowercase(m))
}

/// Whether an error says that a prompt does not fit.
pub fn is_context_window_error(error: &ApplicationError) -> (r: bool)
    ensures
        r == is_overflow(error@),
{
    match error {
        ApplicationError::PostProcessing(message) => text_mentions_context_window(
            lowercase_text(message.as_str()).as_str(),
        ),
        _ => false,
    }
}

/// What is reported when no prompt of a question fits.
pub const SUMMARY_CONTEXT_OVERFLOW_MESSAGE: &'static str = "Exceeded model context window size. The app now uses chunked retrieval, but this request is still too large. Try a shorter custom prompt or fewer summary constraints.";

/// What is reported when no chunk of a transcript fits.
pub const OPTIMIZE_CONTEXT_OVERFLOW_MESSAGE: &'static str = "Exceeded model context window size while optimizing the transcript. The app retried with smaller chunks, but this transcript is still too large for the selected AI provider. Try a provider with a larger context window or optimize a shorter section.";

/// What is reported when the AI says nothing.
pub const EMPTY_RESPONSE_MESSAGE: &'static str = "empty response from AI provider";

// ---------------------------------------------------------------------------
// Trying prompts in turn
// ---------------------------------------------------------------------------

/// A reply of the AI.
pub type ReplyView = Result<Seq<char>, ApplicationErrorView>;

/// The content of a reply.
pub open spec fn reply_view(reply: Result<String, ApplicationError>) -> ReplyView {
    match reply {
        Ok(a) => Ok(a@),
        Err(e) => Err(e@),
    }
}

/// What comes of trying prompts in turn, when `overflowed` says whether one did not fit already:
/// the first answer that says anything, or the first error that is not about the size.
pub open spec fn ask_outcome(
    replies: Seq<ReplyView>,
    overflowed: bool,
    overflow_message: Seq<char>,
) -> ReplyView
    decreases replies.len(),
{
    if replies.len() == 0 {
        Err(
            ApplicationErrorView::PostProcessing(
                if overflowed {
                    overflow_message
                } else {
                    EMPTY_RESPONSE_MESSAGE@
                },
            ),
        )
    } else {
        match replies[0] {
            Ok(a) => if trim(a).len() > 0 {
                Ok(trim(a))
            } else {
                ask_outcome(replies.skip(1), overflowed, overflow_message)
            },
            Err(e) => if is_overflow(e) {
                ask_outcome(replies.skip(1), true, overflow_message)
            } else {
                Err(e)
            },
        }
    }
}

/// The first answer that says anything is given, whatever was empty or did not fit before it.
pub proof fn the_first_answer_wins(
    replies: Seq<ReplyView>,
    i: int,
    overflowed: bool,
    overflow_message: Seq<char>,
)
    requires
        0 <= i < replies.len(),
        replies[i] is Ok,
        trim(replies[i]->Ok_0).len() > 0,
        forall|k: int|
            0 <= k < i ==> match #[trigger] replies[k] {
                Ok(a) => trim(a).len() == 0,
                Err(e) => is_overflow(e),
            },
    ensures
        ask_outcome(replies, overflowed, overflow_message) == Ok::<
            Seq<char>,
            ApplicationErrorView,
        >(trim(replies[i]->Ok_0)),
    decreases i,
{
    if i > 0 {
        let rest = replies.skip(1);
        assert(rest[i - 1] == replies[i]);
        assert forall|k: int| 0 <= k < i - 1 implies match #[trigger] rest[k] {
            Ok(a) => trim(a).len() == 0,
            Err(e) => is_overflow(e),
        } by {
            assert(rest[k] == replies[k + 1]);
        }
        let now = overflowed || replies[0] is Err;
        assert(match replies[0] {
            Ok(a) => trim(a).len() == 0,
            Err(e) => is_overflow(e),
        });
        the_first_answer_wins(rest, i - 1, now, overflow_message);
    }
}

/// When nothing usable came, the report says whether any prompt did not fit.
pub proof fn an_overflow_is_told(
    replies: Seq<ReplyView>,
    overflowed: bool,
    overflow_message: Seq<char>,
)
    requires
        forall|k: int|
            0 <= k < replies.len() ==> match #[trigger] replies[k] {
                Ok(a) => trim(a).len() == 0,
                Err(e) => is_overflow(e),
            },
    ensures
        ask_outcome(replies, overflowed, overflow_message) == Err::<
            Seq<char>,
            ApplicationErrorView,
        >(
            ApplicationErrorView::PostProcessing(
                if overflowed || exists|k: int|
                    0 <= k < replies.len() && (#[trigger] replies[k]) is Err {
                    overflow_message
                } else {
                    EMPTY_RESPONSE_MESSAGE@
                },
            ),
        ),
    decreases replies.len(),
{
    if replies.len() > 0 {
        let rest = replies.skip(1);
        assert forall|k: int| 0 <= k < rest.len() implies match #[trigger] rest[k] {
            Ok(a) => trim(a).len() == 0,
            Err(e) => is_overflow(e),
        } by {
            assert(rest[k] == replies[k + 1]);
        }
        assert(match replies[0] {
            Ok(a) => trim(a).len() == 0,
            Err(e) => is_overflow(e),
        });
        let now = overflowed || replies[0] is Err;
        an_overflow_is_told(rest, now, overflow_message);
        if exists|k: int| 0 <= k < rest.len() && (#[trigger] rest[k]) is Err {
            let k = choose|k: int| 0 <= k < rest.len() && (#[trigger] rest[k]) is Err;
            assert(replies[k + 1] is Err);
        }
        if exists|k: int| 0 <= k < replies.len() && (#[trigger] replies[k]) is Err {
            let k = choose|k: int| 0 <= k < replies.len() && (#[trigger] replies[k]) is Err;
            if k > 0 {
                assert(rest[k - 1] is Err);
            }
        }
    }
}

/// How far trying prompts in turn has come.
pub struct AskState {
    /// The prompts that were tried.
    pub tried: usize,
    /// Whether one of them did not fit.
    pub overflowed: bool,
}

/// What follows a reply.
pub enum AskStep {
    /// Try the next prompt.
    Try,
    /// This is the answer.
    Answer(String),
    /// This is why there is none.
    Fail(ApplicationError),
}

/// Whether a step agrees with an outcome that is settled.
pub open spec fn settles(step: AskStep, outcome: ReplyView) -> bool {
    match step {
        AskStep::Try => false,
        AskStep::Answer(a) => outcome == Ok::<Seq<char>, ApplicationErrorView>(a@),
        AskStep::Fail(e) => outcome == Err::<Seq<char>, ApplicationErrorView>(e@),
    }
}

fn exhausted(overflowed: bool, overflow_message: &str) -> (r: AskStep)
    ensures
        settles(r, ask_outcome(Seq::empty(), overflowed, overflow_message@)),
{
    let message: &str = if overflowed {
        overflow_message
    } else {
        EMPTY_RESPONSE_MESSAGE
    };
    AskStep::Fail(ApplicationError::PostProcessing(message.to_owned()))
}

/// Begins to try prompts in turn.
pub fn begin_asking(candidates: usize, overflow_message: &str) -> (r: (AskState, AskStep))
    ensures
        r.0.tried == 0,
        !r.0.overflowed,
        candidates > 0 ==> r.1 is Try,
        candidates == 0 ==> settles(r.1, ask_outcome(Seq::empty(), false, overflow_message@)),
{
    let state = AskState { tried: 0, overflowed: false };
    if candidates == 0 {
        (state, exhausted(false, overflow_message))
    } else {
        (state, AskStep::Try)
    }
}

/// Takes the reply to a prompt. Whatever replies follow, either the outcome is settled now, or it
/// is that of the replies that follow.
pub fn ask_with_overflow_fallback_for_operation(
    state: &mut AskState,
    candidates: usize,
    reply: Result<String, ApplicationError>,
    overflow_message: &str,
) -> (r: AskStep)
    requires
        old(state).tried < candidates,
    ensures
        final(state).tried == old(state).tried + 1,
        reply matches Ok(a) ==> (trim(a@).len() > 0 ==> r is Answer && r->Answer_0@
            == trim(a@)),
        reply matches Err(e) ==> (!is_overflow(e@) ==> r is Fail && r->Fail_0@ == e@),
        r is Answer ==> reply is Ok,
        forall|later: Seq<ReplyView>|
            later.len() == candidates - final(state).tried ==> {
                let outcome = #[trigger] ask_outcome(
                    seq![reply_view(reply)] + later,
                    old(state).overflowed,
                    overflow_message@,
                );
                match r {
                    AskStep::Try => later.len() > 0 && outcome == ask_outcome(
                        later,
                        final(state).overflowed,
                        overflow_message@,
                    ),
                    _ => settles(r, outcome),
                }
            },
{
    let ghost before = state.overflowed;
    let ghost said = reply_view(reply);
    state.tried = state.tried + 1;
    let left: bool = state.tried < candidates;
    proof {
        assert forall|later: Seq<ReplyView>| #[trigger]
            ask_outcome(seq![said] + later, before, overflow_message@) == (match said {
                Ok(a) => if trim(a).len() > 0 {
                    Ok(trim(a))
                } else {
                    ask_outcome(later, before, overflow_message@)
                },
                Err(e) => if is_overflow(e) {
                    ask_outcome(later, true, overflow_message@)
                } else {
                    Err(e)
                },
            }) by {
            assert((seq![said] + later).skip(1) =~= later);
        }
        assert forall|later: Seq<ReplyView>| later.len() == 0 implies later
            =~= Seq::<ReplyView>::empty() by {}
    }
    match reply {
        Ok(answer) => {
            let trimmed: String = trim_text(answer.as_str());
            if !trimmed.as_str().is_empty() {
                return AskStep::Answer(trimmed);
            }
        },
        Err(error) => {
            if !is_context_window_error(&error) {
                return AskStep::Fail(error);
            }
            state.overflowed = true;
        },
    }
    if left {
        AskStep::Try
    } else {
        exhausted(state.overflowed, overflow_message)
    }
}

/// Takes the reply to a prompt of a question or of a summary.
pub fn ask_with_overflow_fallback(
    state: &mut AskState,
    candidates: usize,
    reply: Result<String, ApplicationError>,
) -> (r: AskStep)
    requires
        old(state).tried < candidates,
    ensures
        final(state).tried == old(state).tried + 1,
        forall|later: Seq<ReplyView>|
            later.len() == candidates - final(state).tried ==> {
                let outcome = #[trigger] ask_outcome(
                    seq![reply_view(reply)] + later,
                    old(state).overflowed,
                    SUMMARY_CONTEXT_OVERFLOW_MESSAGE@,
                );
                match r {
                    AskStep::Try => later.len() > 0 && outcome == ask_outcome(
                        later,
                        final(state).overflowed,
                        SUMMARY_CONTEXT_OVERFLOW_MESSAGE@,
                    ),
                    _ => settles(r, outcome),
                }
            },
{
    ask_with_overflow_fallback_for_operation(
        state,
        candidates,
        reply,
        SUMMARY_CONTEXT_OVERFLOW_MESSAGE,
    )
}

// ---------------------------------------------------------------------------
// Several chunks at a time
// ---------------------------------------------------------------------------

/// The length of a chunk that notes are taken on.
pub const SUMMARY_CHUNK_TARGET_CHARS: usize = 4000;

/// The words that such chunks share.
pub const SUMMARY_CHUNK_OVERLAP_WORDS: usize = 30;

/// The most chunks that are worked on at a time.
pub const SUMMARY_CHUNK_CONCURRENCY_LIMIT: usize = 3;

/// The number of chunks that are worked on at a time.
pub open spec fn concurrency(total: nat, wanted: nat, limit: nat) -> nat {
    let most = if wanted < 1 {
        1
    } else if wanted > limit {
        limit
    } else {
        wanted
    };
    if total < 1 {
        1
    } else if total > most {
        most
    } else {
        total
    }
}

/// Decides how many chunks are worked on at a time.
pub fn chunk_concurrency(total: usize, wanted: usize, limit: usize) -> (r: usize)
    requires
        limit >= 1,
    ensures
        r == concurrency(total as nat, wanted as nat, limit as nat),
        1 <= r <= limit,
{
    let most: usize = if wanted < 1 {
        1
    } else if wanted > limit {
        limit
    } else {
        wanted
    };
    if total < 1 {
        1
    } else if total > most {
        most
    } else {
        total
    }
}

/// The contents of replies.
pub open spec fn reply_views(replies: Seq<Result<String, ApplicationError>>) -> Seq<ReplyView> {
    replies.map_values(|r: Result<String, ApplicationError>| reply_view(r))
}

/// The texts of the replies, or the first error among them.
pub open spec fn all_or_first_error(replies: Seq<ReplyView>) -> Result<
    Seq<Seq<char>>,
    ApplicationErrorView,
>
    decreases replies.len(),
{
    if replies.len() == 0 {
        Ok(Seq::empty())
    } else {
        match all_or_first_error(replies.drop_last()) {
            Err(e) => Err(e),
            Ok(list) => match replies.last() {
                Ok(s) => Ok(list.push(s)),
                Err(e) => Err(e),
            },
        }
    }
}

proof fn lemma_first_error(replies: Seq<ReplyView>, i: int)
    requires
        0 <= i < replies.len(),
        replies[i] is Err,
        forall|k: int| 0 <= k < i ==> (#[trigger] replies[k]) is Ok,
    ensures
        all_or_first_error(replies) == Err::<Seq<Seq<char>>, ApplicationErrorView>(
            replies[i]->Err_0,
        ),
    decreases replies.len(),
{
    let front = replies.drop_last();
    if i < front.len() {
        assert forall|k: int| 0 <= k < i implies (#[trigger] front[k]) is Ok by {
            assert(front[k] == replies[k]);
        }
        lemma_first_error(front, i);
    } else {
        lemma_all_ok(front);
    }
}

proof fn lemma_all_ok(replies: Seq<ReplyView>)
    requires
        forall|k: int| 0 <= k < replies.len() ==> (#[trigger] replies[k]) is Ok,
    ensures
        all_or_first_error(replies) is Ok,
    decreases replies.len(),
{
    if replies.len() > 0 {
        let front = replies.drop_last();
        assert forall|k: int| 0 <= k < front.len() implies (#[trigger] front[k]) is Ok by {
            assert(front[k] == replies[k]);
        }
        lemma_all_ok(front);
        assert(replies[replies.len() - 1] is Ok);
    }
}

fn take_error(replies: Vec<Result<String, ApplicationError>>, at: usize) -> (r: ApplicationError)
    requires
        at < replies@.len(),
        replies@[at as int] is Err,
    ensures
        r == replies@[at as int]->Err_0,
{
    let mut list: Vec<Result<String, ApplicationError>> = replies;
    match list.swap_remove(at) {
        Ok(_) => ApplicationError::Cancelled,
        Err(error) => error,
    }
}

/// Gives the texts of replies, or the first error among them.
pub fn all_replies(replies: Vec<Result<String, ApplicationError>>) -> (r: Result<
    Vec<String>,
    ApplicationError,
>)
    ensures
        match r {
            Ok(list) => all_or_first_error(reply_views(replies@)) == Ok::<
                Seq<Seq<char>>,
                ApplicationErrorView,
            >(views(list@)),
            Err(error) => all_or_first_error(reply_views(replies@)) == Err::<
                Seq<Seq<char>>,
                ApplicationErrorView,
            >(error@),
        },
{
    let ghost all = reply_views(replies@);
    let mut out: Vec<String> = Vec::new();
    let mut j: usize = 0;
    assert(views(out@) =~= Seq::<Seq<char>>::empty());
    while j < replies.len()
        invariant
            j <= replies@.len(),
            all == reply_views(replies@),
            all_or_first_error(all.take(j as int)) == Ok::<Seq<Seq<char>>, ApplicationErrorView>(
                views(out@),
            ),
            forall|k: int| 0 <= k < j ==> (#[trigger] all[k]) is Ok,
        decreases replies@.len() - j,
    {
        let ghost now = all.take(j + 1);
        let ghost prior = views(out@);
        proof {
            assert(now.drop_last() =~= all.take(j as int));
            assert(now.last() == reply_view(replies@[j as int]));
            assert(all[j as int] == reply_view(replies@[j as int]));
        }
        match &replies[j] {
            Ok(text) => {
                let copy: String = text.clone();
                out.push(copy);
                assert(views(out@) =~= prior.push(text@));
            },
            Err(_) => {
                proof {
                    lemma_first_error(all, j as int);
                }
                return Err(take_error(replies, j));
            },
        }
        j = j + 1;
    }
    assert(all.take(j as int) =~= all);
    Ok(out)
}

// ---------------------------------------------------------------------------
// Summaries of long transcripts
// ---------------------------------------------------------------------------

/// A step of a summary.
pub enum SummaryStep {
    /// Ask for a summary of the whole transcript.
    Direct(String),
    /// Try these prompts in turn.
    Ask(Vec<String>),
    /// Take notes on each chunk: try its prompts in turn, several chunks at a time.
    Notes { questions: Vec<Vec<String>>, concurrency: usize },
    /// This is the summary.
    Done(String),
    /// This is why there is none.
    Fail(ApplicationError),
}

/// The content of a [`SummaryStep`].
pub enum SummaryStepView {
    Direct(Seq<char>),
    Ask(Seq<Seq<char>>),
    Notes { questions: Seq<Seq<Seq<char>>>, concurrency: nat },
    Done(Seq<char>),
    Fail(ApplicationErrorView),
}

/// The texts of lists of strings.
pub open spec fn nested_views(v: Seq<Vec<String>>) -> Seq<Seq<Seq<char>>> {
    v.map_values(|l: Vec<String>| views(l@))
}

impl View for SummaryStep {
    type V = SummaryStepView;

    open spec fn view(&self) -> SummaryStepView {
        match self {
            SummaryStep::Direct(p) => SummaryStepView::Direct(p@),
            SummaryStep::Ask(list) => SummaryStepView::Ask(views(list@)),
            SummaryStep::Notes { questions, concurrency } => SummaryStepView::Notes {
                questions: nested_views(questions@),
                concurrency: *concurrency as nat,
            },
            SummaryStep::Done(s) => SummaryStepView::Done(s@),
            SummaryStep::Fail(e) => SummaryStepView::Fail(e@),
        }
    }
}

/// The chunks that notes are taken on.
pub open spec fn summary_chunks(transcript: Seq<char>) -> Seq<Seq<char>> {
    chunks(transcript, SUMMARY_CHUNK_TARGET_CHARS as nat, SUMMARY_CHUNK_OVERLAP_WORDS as nat)
}

/// The prompts for the notes on a chunk, from the whole to the shortest.
pub open spec fn note_questions(
    parts: Seq<Seq<char>>,
    i: int,
    instructions: Seq<char>,
) -> Seq<Seq<char>> {
    let p = note_prompt((i + 1) as nat, parts.len(), instructions, parts[i]);
    seq![p, prefix(p, 2600), prefix(p, 1900)]
}

/// How a summary goes on when it is not asked for at once, or that did not work: at once after
/// all when the transcript is one chunk, else through notes.
pub open spec fn piecewise(transcript: Seq<char>, instructions: Seq<char>, wanted: nat) -> SummaryStepView {
    let parts = summary_chunks(transcript);
    if parts.len() == 1 {
        SummaryStepView::Ask(seq![direct_prompt(transcript, instructions)])
    } else {
        SummaryStepView::Notes {
            questions: Seq::new(parts.len(), |i: int| note_questions(parts, i, instructions)),
            concurrency: concurrency(
                parts.len(),
                wanted,
                SUMMARY_CHUNK_CONCURRENCY_LIMIT as nat,
            ),
        }
    }
}

fn plan_piecewise(transcript: &str, instructions: &str, wanted: usize, parts: &Vec<String>) -> (r:
    SummaryStep)
    requires
        views(parts@) == summary_chunks(transcript@),
    ensures
        r@ == piecewise(transcript@, instructions@, wanted as nat),
{
    assert(views(parts@).len() == parts@.len());
    if parts.len() == 1 {
        let mut list: Vec<String> = Vec::new();
        list.push(build_direct_summary_prompt(transcript, instructions));
        assert(views(list@) =~= seq![direct_prompt(transcript@, instructions@)]);
        return SummaryStep::Ask(list);
    }
    let ghost texts = views(parts@);
    let total: usize = parts.len();
    let mut questions: Vec<Vec<String>> = Vec::new();
    let mut i: usize = 0;
    while i < total
        invariant
            i <= total,
            total == parts@.len(),
            texts == views(parts@),
            nested_views(questions@) =~= Seq::new(
                i as nat,
                |k: int| note_questions(texts, k, instructions@),
            ),
        decreases total - i,
    {
        let ghost prior = nested_views(questions@);
        let whole: String = build_chunk_note_prompt(i + 1, total, instructions, parts[i].as_str());
        let mut list: Vec<String> = Vec::new();
        let mid: String = truncate_chars(whole.as_str(), 2600);
        let short: String = truncate_chars(whole.as_str(), 1900);
        list.push(whole);
        list.push(mid);
        list.push(short);
        questions.push(list);
        proof {
            assert(texts[i as int] == parts@[i as int]@);
            assert(views(list@) =~= note_questions(texts, i as int, instructions@));
            assert(nested_views(questions@) =~= prior.push(views(list@)));
        }
        i = i + 1;
    }
    let concurrency: usize = chunk_concurrency(total, wanted, SUMMARY_CHUNK_CONCURRENCY_LIMIT);
    SummaryStep::Notes { questions, concurrency }
}

/// How a summary begins.
pub open spec fn summary_start(
    transcript: Seq<char>,
    instructions: Seq<char>,
    single_pass: bool,
    wanted: nat,
) -> SummaryStepView {
    if summary_chunks(transcript).len() == 0 {
        SummaryStepView::Fail(
            ApplicationErrorView::Validation("cannot summarize an empty transcript"@),
        )
    } else if single_pass {
        SummaryStepView::Direct(direct_prompt(transcript, instructions))
    } else {
        piecewise(transcript, instructions, wanted)
    }
}

/// Begins a summary. An AI that takes long prompts is asked for the whole at once.
pub fn summarize_with_rag(
    transcript: &str,
    user_instructions: &str,
    prefers_single_pass: bool,
    chunk_concurrency_limit: usize,
) -> (r: SummaryStep)
    ensures
        r@ == summary_start(
            transcript@,
            user_instructions@,
            prefers_single_pass,
            chunk_concurrency_limit as nat,
        ),
{
    let parts: Vec<String> = chunk_text_by_words(
        transcript,
        SUMMARY_CHUNK_TARGET_CHARS,
        SUMMARY_CHUNK_OVERLAP_WORDS,
    );
    assert(views(parts@).len() == parts@.len());
    if parts.len() == 0 {
        return SummaryStep::Fail(
            ApplicationError::Validation("cannot summarize an empty transcript".to_owned()),
        );
    }
    if prefers_single_pass {
        return SummaryStep::Direct(build_direct_summary_prompt(transcript, user_instructions));
    }
    plan_piecewise(transcript, user_instructions, chunk_concurrency_limit, &parts)
}

/// How a summary goes on after it was asked for at once.
pub open spec fn after_direct(
    transcript: Seq<char>,
    instructions: Seq<char>,
    wanted: nat,
    reply: ReplyView,
) -> SummaryStepView {
    match reply {
        Ok(a) => if trim(a).len() > 0 {
            SummaryStepView::Done(trim(a))
        } else {
            piecewise(transcript, instructions, wanted)
        },
        Err(e) => if is_overflow(e) {
            piecewise(transcript, instructions, wanted)
        } else {
            SummaryStepView::Fail(e)
        },
    }
}

/// Takes the reply to the prompt for the whole transcript.
pub fn summary_after_direct(
    transcript: &str,
    user_instructions: &str,
    chunk_concurrency_limit: usize,
    reply: Result<String, ApplicationError>,
) -> (r: SummaryStep)
    ensures
        r@ == after_direct(
            transcript@,
            user_instructions@,
            chunk_concurrency_limit as nat,
            reply_view(reply),
        ),
{
    match reply {
        Ok(answer) => {
            let trimmed: String = trim_text(answer.as_str());
            if !trimmed.as_str().is_empty() {
                return SummaryStep::Done(trimmed);
            }
        },
        Err(error) => {
            if !is_context_window_error(&error) {
                return SummaryStep::Fail(error);
            }
        },
    }
    let parts: Vec<String> = chunk_text_by_words(
        transcript,
        SUMMARY_CHUNK_TARGET_CHARS,
        SUMMARY_CHUNK_OVERLAP_WORDS,
    );
    plan_piecewise(transcript, user_instructions, chunk_concurrency_limit, &parts)
}

/// The notes on a chunk, under their heading.
pub open spec fn headed_note(i: int, note: Seq<char>) -> Seq<char> {
    "Chunk "@ + decimal((i + 1) as nat) + " notes:\n"@ + trim(note)
}

/// The notes on all chunks.
pub open spec fn merged_notes(notes: Seq<Seq<char>>) -> Seq<char> {
    join(Seq::new(notes.len(), |i: int| headed_note(i, notes[i])), "\n\n"@)
}

/// The prompts that make a summary of notes, from all of them to the shortest.
pub open spec fn synthesis_questions(notes: Seq<Seq<char>>, instructions: Seq<char>) -> Seq<
    Seq<char>,
> {
    let all = merged_notes(notes);
    seq![
        synthesis_prompt(prefix(all, 12_000), instructions),
        synthesis_prompt(prefix(all, 8_000), instructions),
        synthesis_prompt(prefix(all, 5_000), instructions),
        synthesis_prompt(prefix(all, 3_000), instructions),
    ]
}

/// Writes the prompts that make a summary of the notes on the chunks.
fn summary_synthesis(notes: &Vec<String>, user_instructions: &str) -> (r: Vec<String>)
    ensures
        views(r@) == synthesis_questions(views(notes@), user_instructions@),
{
    let ghost texts = views(notes@);
    let mut parts: Vec<String> = Vec::new();
    let mut i: usize = 0;
    while i < notes.len()
        invariant
            i <= notes@.len(),
            texts == views(notes@),
            views(parts@) =~= Seq::new(i as nat, |k: int| headed_note(k, texts[k])),
        decreases notes@.len() - i,
    {
        let ghost prior = views(parts@);
        let mut part: String = "Chunk ".to_owned();
        let number: usize = i + 1;
        push_decimal(&mut part, number as u64);
        part.append(" notes:\n");
        part.append(trim_text(notes[i].as_str()).as_str());
        parts.push(part);
        proof {
            assert(texts[i as int] == notes@[i as int]@);
            assert(part@ == headed_note(i as int, texts[i as int]));
            assert(views(parts@) =~= prior.push(part@));
        }
        i = i + 1;
    }
    let all: String = join_texts(&parts, "\n\n");
    assert(all@ == merged_notes(texts)) by {
        assert(texts.len() == notes@.len());
        assert(views(parts@) =~= Seq::new(texts.len(), |k: int| headed_note(k, texts[k])));
    }
    let mut out: Vec<String> = Vec::new();
    out.push(
        build_summary_synthesis_prompt(truncate_chars(all.as_str(), 12_000).as_str(), user_instructions),
    );
    out.push(
        build_summary_synthesis_prompt(truncate_chars(all.as_str(), 8_000).as_str(), user_instructions),
    );
    out.push(
        build_summary_synthesis_prompt(truncate_chars(all.as_str(), 5_000).as_str(), user_instructions),
    );
    out.push(
        build_summary_synthesis_prompt(truncate_chars(all.as_str(), 3_000).as_str(), user_instructions),
    );
    assert(views(out@) =~= synthesis_questions(texts, user_instructions@));
    out
}

/// How a summary goes on after the notes on the chunks were asked for: with a summary of the notes,
/// or not at all when any is missing.
pub open spec fn after_notes(replies: Seq<ReplyView>, instructions: Seq<char>) -> SummaryStepView {
    match all_or_first_error(replies) {
        Ok(notes) => SummaryStepView::Ask(synthesis_questions(notes, instructions)),
        Err(e) => SummaryStepView::Fail(e),
    }
}

/// The room that notes take: each its trimmed text under a heading with its number, and a blank line
/// between two of them.
pub open spec fn notes_room(notes: Seq<Seq<char>>) -> nat
    decreases notes.len(),
{
    if notes.len() == 0 {
        0
    } else {
        notes_room(notes.drop_last()) + trim(notes.last()).len() + decimal(notes.len()).len() + 14
            + if notes.len() > 1 {
            2nat
        } else {
            0
        }
    }
}

proof fn lemma_merged_notes(notes: Seq<Seq<char>>)
    ensures
        merged_notes(notes).len() == notes_room(notes),
        in_order(
            merged_notes(notes),
            Seq::new(
                notes.len(),
                |k: int| "Chunk "@ + decimal((k + 1) as nat) + " notes:\n"@ + trim(notes[k]),
            ),
        ),
    decreases notes.len(),
{
    let parts = Seq::new(notes.len(), |i: int| headed_note(i, notes[i]));
    a_join_holds_its_parts_in_order(parts, "\n\n"@);
    assert(parts =~= Seq::new(
        notes.len(),
        |k: int| "Chunk "@ + decimal((k + 1) as nat) + " notes:\n"@ + trim(notes[k]),
    ));
    if notes.len() > 0 {
        let front = notes.drop_last();
        lemma_merged_notes(front);
        let fewer = Seq::new(front.len(), |i: int| headed_note(i, front[i]));
        assert(parts.drop_last() =~= fewer);
        reveal_strlit("Chunk ");
        reveal_strlit(" notes:\n");
        reveal_strlit("\n\n");
        assert(parts.last() == headed_note(notes.len() - 1, notes.last()));
    }
}

proof fn lemma_synthesis_prompt(notes: Seq<char>, shorter: Seq<char>, instructions: Seq<char>)
    requires
        starts_with(notes, shorter),
    ensures
        contains(synthesis_prompt(notes, instructions), instructions),
        starts_with(synthesis_prompt(notes, instructions), synthesis_prompt(shorter, instructions)),
        synthesis_prompt(notes, instructions).len() - notes.len() == synthesis_prompt(
            shorter,
            instructions,
        ).len() - shorter.len(),
        synthesis_prompt(notes, instructions).skip(
            synthesis_prompt(notes, instructions).len() - notes.len(),
        ) == notes,
{
    let a = "You are writing the final summary of a transcript from the extracted chunk notes below."@
        + SUMMARY_HEAD@;
    let b = SUMMARY_REQUIREMENTS@ + "Chunk notes:\n"@;
    let p = synthesis_prompt(notes, instructions);
    let q = synthesis_prompt(shorter, instructions);
    assert(p =~= a + instructions + (b + notes));
    assert(q =~= a + instructions + (b + shorter));
    lemma_contains_middle(a, instructions, b + notes);
    assert(p.take(q.len() as int) =~= q) by {
        let n = (a + instructions + b).len() as int;
        assert forall|i: int| 0 <= i < q.len() implies p[i] == q[i] by {
            if i >= n {
                assert(notes.take(shorter.len() as int)[i - n] == notes[i - n]);
            }
        }
    }
    assert(p.skip(p.len() - notes.len()) =~= notes);
}

/// The notes reach the AI. Where they fit, the first prompt for the summary ends with all of them,
/// in the order of the chunks, each trimmed and under its number, and with nothing else; and it
/// holds the instructions.
pub proof fn all_notes_reach_the_summary(notes: Seq<Seq<char>>, instructions: Seq<char>)
    requires
        notes_room(notes) <= 12_000,
    ensures
        ({
            let q = synthesis_questions(notes, instructions);
            let told = q[0].skip(q[0].len() - notes_room(notes));
            &&& q.len() > 0
            &&& notes_room(notes) <= q[0].len()
            &&& in_order(
                told,
                Seq::new(
                    notes.len(),
                    |k: int| "Chunk "@ + decimal((k + 1) as nat) + " notes:\n"@ + trim(notes[k]),
                ),
            )
            &&& contains(q[0], instructions)
            &&& forall|k: int| 0 <= k < notes.len() ==> contains(q[0], trim(#[trigger] notes[k]))
        }),
{
    let q = synthesis_questions(notes, instructions);
    let all = merged_notes(notes);
    lemma_merged_notes(notes);
    assert(all.take(all.len() as int) =~= all);
    lemma_synthesis_prompt(all, all, instructions);
    let told = q[0].skip(q[0].len() - notes_room(notes));
    let parts = Seq::new(
        notes.len(),
        |k: int| "Chunk "@ + decimal((k + 1) as nat) + " notes:\n"@ + trim(notes[k]),
    );
    assert forall|k: int| 0 <= k < notes.len() implies contains(q[0], trim(#[trigger] notes[k])) by {
        lemma_in_order_holds(told, parts, k);
        let head = "Chunk "@ + decimal((k + 1) as nat) + " notes:\n"@;
        lemma_contains_middle(head, trim(notes[k]), Seq::empty());
        assert(head + trim(notes[k]) + Seq::empty() =~= parts[k]);
        lemma_contains_through(told, parts[k], trim(notes[k]));
        let front = q[0].take(q[0].len() - notes_room(notes));
        lemma_contains_around(front, told, Seq::empty(), trim(notes[k]));
        assert(front + told + Seq::empty() =~= q[0]);
    }
}

/// When the prompt for the summary does not fit, it is tried with ever less of the notes: each
/// prompt is a beginning of the one before it, holds the instructions, and leaves out what is beyond
/// its own room only.
pub proof fn later_summary_prompts_are_shorter(notes: Seq<Seq<char>>, instructions: Seq<char>, j: int)
    requires
        0 <= j < 4,
    ensures
        ({
            let q = synthesis_questions(notes, instructions);
            let rooms = seq![12_000nat, 8_000, 5_000, 3_000];
            let kept = |k: int| if notes_room(notes) <= rooms[k] {
                notes_room(notes)
            } else {
                rooms[k]
            };
            &&& q.len() == 4
            &&& starts_with(q[0], q[j])
            &&& contains(q[j], instructions)
            &&& q[0].len() - q[j].len() == kept(0) - kept(j)
        }),
{
    let all = merged_notes(notes);
    lemma_merged_notes(notes);
    let rooms = seq![12_000nat, 8_000, 5_000, 3_000];
    let wide = prefix(all, 12_000);
    let less = prefix(all, rooms[j]);
    assert(wide.take(less.len() as int) =~= less);
    lemma_synthesis_prompt(wide, less, instructions);
    assert(less.take(less.len() as int) =~= less);
    lemma_synthesis_prompt(less, less, instructions);
}

/// Whether a word is in the first form of one of the questions.
pub open spec fn is_asked_about(questions: Seq<Seq<Seq<char>>>, word: Seq<char>) -> bool {
    exists|i: int| 0 <= i < questions.len() && contains((#[trigger] questions[i])[0], word)
}

proof fn lemma_notes_reach_every_word(
    transcript: Seq<char>,
    instructions: Seq<char>,
    questions: Seq<Seq<Seq<char>>>,
)
    requires
        questions.len() == summary_chunks(transcript).len(),
        forall|i: int|
            0 <= i < questions.len() ==> #[trigger] questions[i] == note_questions(
                summary_chunks(transcript),
                i,
                instructions,
            ),
    ensures
        forall|w: int|
            0 <= w < words(transcript).len() ==> is_asked_about(
                questions,
                #[trigger] words(transcript)[w],
            ),
        forall|i: int|
            0 <= i < questions.len() ==> asks_in_ever_shorter_ways(
                #[trigger] questions[i],
                instructions,
                i,
                questions.len(),
            ),
{
    let parts = summary_chunks(transcript);
    let target = SUMMARY_CHUNK_TARGET_CHARS as nat;
    let overlap = SUMMARY_CHUNK_OVERLAP_WORDS as nat;
    assert forall|w: int| 0 <= w < words(transcript).len() implies is_asked_about(
        questions,
        #[trigger] words(transcript)[w],
    ) by {
        let i = every_word_is_in_a_chunk(transcript, target, overlap, w);
        lemma_note_questions(parts, i, instructions);
        lemma_contains_through(questions[i][0], parts[i], words(transcript)[w]);
    }
    assert forall|i: int| 0 <= i < questions.len() implies asks_in_ever_shorter_ways(
        #[trigger] questions[i],
        instructions,
        i,
        questions.len(),
    ) by {
        lemma_note_questions(parts, i, instructions);
    }
}

/// A summary begins with a question that holds the whole transcript, or with questions on chunks that
/// together hold every word of it; each holds the instructions. Only a transcript without a word is
/// refused, and an AI that takes the whole at once is asked for that.
#[verifier::rlimit(40)]
pub proof fn a_summary_is_asked_of_the_whole_transcript(
    transcript: Seq<char>,
    instructions: Seq<char>,
    single_pass: bool,
    wanted: nat,
)
    ensures
        match summary_start(transcript, instructions, single_pass, wanted) {
            SummaryStepView::Fail(e) => words(transcript).len() == 0 && e is Validation,
            SummaryStepView::Direct(p) => {
                &&& single_pass
                &&& contains(p, transcript)
                &&& contains(p, instructions)
            },
            SummaryStepView::Ask(ps) => {
                &&& !single_pass
                &&& ps.len() == 1
                &&& contains(ps[0], transcript)
                &&& contains(ps[0], instructions)
            },
            SummaryStepView::Notes { questions, concurrency } => {
                &&& !single_pass
                &&& questions.len() > 1
                &&& forall|w: int|
                    0 <= w < words(transcript).len() ==> is_asked_about(
                        questions,
                        #[trigger] words(transcript)[w],
                    )
                &&& forall|i: int|
                    0 <= i < questions.len() ==> asks_in_ever_shorter_ways(
                        #[trigger] questions[i],
                        instructions,
                        i,
                        questions.len(),
                    )
                &&& 1 <= concurrency <= 3
                &&& concurrency <= questions.len()
                &&& wanted >= 1 ==> concurrency <= wanted
                &&& wanted >= 3 && questions.len() >= 3 ==> concurrency == 3
            },
            SummaryStepView::Done(_) => false,
        },
        words(transcript).len() == 0 ==> summary_start(
            transcript,
            instructions,
            single_pass,
            wanted,
        ) is Fail,
{
    let parts = summary_chunks(transcript);
    let target = SUMMARY_CHUNK_TARGET_CHARS as nat;
    let overlap = SUMMARY_CHUNK_OVERLAP_WORDS as nat;
    if words(transcript).len() > 0 {
        let i = every_word_is_in_a_chunk(transcript, target, overlap, 0);
    } else {
        assert(parts.len() == 0);
    }
    lemma_direct_prompt(transcript, instructions);
    if let SummaryStepView::Notes { questions, concurrency } = summary_start(
        transcript,
        instructions,
        single_pass,
        wanted,
    ) {
        lemma_notes_reach_every_word(transcript, instructions, questions);
    }
}

/// Whether prompts for notes on a chunk, the one at `i` of `total`, say which it is and hold the
/// instructions, and each is a beginning of the one before it.
pub open spec fn asks_in_ever_shorter_ways(
    prompts: Seq<Seq<char>>,
    instructions: Seq<char>,
    i: int,
    total: nat,
) -> bool {
    &&& prompts.len() == 3
    &&& contains(prompts[0], instructions)
    &&& contains(prompts[0], "chunk "@ + decimal((i + 1) as nat) + "/"@ + decimal(total))
    &&& starts_with(prompts[0], prompts[1])
    &&& starts_with(prompts[1], prompts[2])
    &&& prompts[1].len() <= 2600
    &&& prompts[2].len() <= 1900
    &&& prompts[0].len() <= 2600 ==> prompts[1] == prompts[0]
    &&& prompts[0].len() > 2600 ==> prompts[1].len() == 2600
    &&& prompts[0].len() > 1900 ==> prompts[2].len() == 1900
}

proof fn lemma_direct_prompt(transcript: Seq<char>, instructions: Seq<char>)
    ensures
        contains(direct_prompt(transcript, instructions), transcript),
        contains(direct_prompt(transcript, instructions), instructions),
{
    let p = direct_prompt(transcript, instructions);
    let a = "You are writing the final summary of a transcript."@ + SUMMARY_HEAD@;
    let b = SUMMARY_REQUIREMENTS@ + "Full transcript:\n"@;
    lemma_contains_middle(a, instructions, b + transcript);
    assert(a + instructions + (b + transcript) =~= p);
    lemma_contains_middle(a + instructions + b, transcript, Seq::empty());
    assert(a + instructions + b + transcript + Seq::empty() =~= p);
}

proof fn lemma_note_questions(parts: Seq<Seq<char>>, i: int, instructions: Seq<char>)
    requires
        0 <= i < parts.len(),
    ensures
        contains(note_questions(parts, i, instructions)[0], parts[i]),
        asks_in_ever_shorter_ways(
            note_questions(parts, i, instructions),
            instructions,
            i,
            parts.len(),
        ),
{
    let p = note_prompt((i + 1) as nat, parts.len(), instructions, parts[i]);
    let place = "chunk "@ + decimal((i + 1) as nat) + "/"@ + decimal(parts.len());
    reveal_strlit("\n\nThis is chunk ");
    reveal_strlit("\n\nThis is ");
    reveal_strlit("chunk ");
    assert("\n\nThis is chunk "@ =~= "\n\nThis is "@ + "chunk "@);
    let a = NOTE_HEAD@ + instructions + "\n\nThis is "@;
    lemma_contains_middle(
        NOTE_HEAD@,
        instructions,
        "\n\nThis is "@ + place + NOTE_RULES@ + parts[i],
    );
    assert(NOTE_HEAD@ + instructions + ("\n\nThis is "@ + place + NOTE_RULES@ + parts[i]) =~= p);
    lemma_contains_middle(a, place, NOTE_RULES@ + parts[i]);
    assert(a + place + (NOTE_RULES@ + parts[i]) =~= p);
    lemma_contains_middle(a + place + NOTE_RULES@, parts[i], Seq::empty());
    assert(a + place + NOTE_RULES@ + parts[i] + Seq::empty() =~= p);
    let q = note_questions(parts, i, instructions);
    assert(q[0].take(q[1].len() as int) =~= q[1]);
    assert(q[1].take(q[2].len() as int) =~= q[2]);
}

/// When the whole was asked for at once: an answer that says anything is the summary, without white
/// edges and as it was said; an error that is not about the size is reported as it is; and anything
/// else leads to what an AI is asked that does not take the whole at once.
pub proof fn one_answer_is_the_summary(
    transcript: Seq<char>,
    instructions: Seq<char>,
    wanted: nat,
    reply: ReplyView,
)
    ensures
        match after_direct(transcript, instructions, wanted, reply) {
            SummaryStepView::Done(summary) => {
                &&& reply is Ok
                &&& summary.len() > 0
                &&& contains(reply->Ok_0, summary)
                &&& inked(summary) == inked(reply->Ok_0)
            },
            SummaryStepView::Fail(e) => reply == Err::<Seq<char>, ApplicationErrorView>(e)
                && !is_overflow(e),
            other => {
                &&& reply matches Ok(a) ==> inked(a).len() == 0
                &&& reply matches Err(e) ==> is_overflow(e)
                &&& words(transcript).len() > 0 ==> other == summary_start(
                    transcript,
                    instructions,
                    false,
                    wanted,
                )
            },
        },
{
    if let Ok(a) = reply {
        trimming_takes_white_only(a);
        if trim(a).len() == 0 {
            assert(inked(trim(a)).len() == 0);
        }
    }
    if words(transcript).len() > 0 {
        let i = every_word_is_in_a_chunk(
            transcript,
            SUMMARY_CHUNK_TARGET_CHARS as nat,
            SUMMARY_CHUNK_OVERLAP_WORDS as nat,
            0,
        );
    }
}

/// Replies are taken all together: when each is an answer, the answers are kept in order; else the
/// first error is the outcome.
pub proof fn replies_are_kept_in_order(replies: Seq<ReplyView>)
    ensures
        match all_or_first_error(replies) {
            Ok(list) => {
                &&& list.len() == replies.len()
                &&& forall|k: int|
                    0 <= k < replies.len() ==> #[trigger] replies[k] == Ok::<
                        Seq<char>,
                        ApplicationErrorView,
                    >(list[k])
            },
            Err(e) => exists|k: int|
                0 <= k < replies.len() && #[trigger] replies[k] == Err::<
                    Seq<char>,
                    ApplicationErrorView,
                >(e) && forall|l: int| 0 <= l < k ==> (#[trigger] replies[l]) is Ok,
        },
    decreases replies.len(),
{
    if replies.len() > 0 {
        let front = replies.drop_last();
        replies_are_kept_in_order(front);
        match all_or_first_error(front) {
            Ok(list) => {
                if let Ok(s) = replies.last() {
                    assert forall|k: int| 0 <= k < replies.len() implies #[trigger] replies[k]
                        == Ok::<Seq<char>, ApplicationErrorView>(list.push(s)[k]) by {
                        if k < front.len() {
                            assert(front[k] == replies[k]);
                        }
                    }
                } else {
                    let k = replies.len() - 1;
                    assert forall|l: int| 0 <= l < k implies (#[trigger] replies[l]) is Ok by {
                        assert(front[l] == replies[l]);
                    }
                    assert(replies[k] == replies.last());
                }
            },
            Err(e) => {
                let k = choose|k: int|
                    0 <= k < front.len() && #[trigger] front[k] == Err::<
                        Seq<char>,
                        ApplicationErrorView,
                    >(e) && forall|l: int| 0 <= l < k ==> (#[trigger] front[l]) is Ok;
                assert(replies[k] == front[k]);
                assert forall|l: int| 0 <= l < k implies (#[trigger] replies[l]) is Ok by {
                    assert(front[l] == replies[l]);
                }
            },
        }
    }
}

/// An error that is not about the size ends the asking: it is reported as it is, and nothing that
/// comes later counts.
pub proof fn another_error_ends_the_asking(
    replies: Seq<ReplyView>,
    i: int,
    overflowed: bool,
    overflow_message: Seq<char>,
)
    requires
        0 <= i < replies.len(),
        replies[i] is Err,
        !is_overflow(replies[i]->Err_0),
        forall|k: int|
            0 <= k < i ==> match #[trigger] replies[k] {
                Ok(a) => trim(a).len() == 0,
                Err(e) => is_overflow(e),
            },
    ensures
        ask_outcome(replies, overflowed, overflow_message) == replies[i],
    decreases i,
{
    if i > 0 {
        let rest = replies.skip(1);
        assert(rest[i - 1] == replies[i]);
        assert forall|k: int| 0 <= k < i - 1 implies match #[trigger] rest[k] {
            Ok(a) => trim(a).len() == 0,
            Err(e) => is_overflow(e),
        } by {
            assert(rest[k] == replies[k + 1]);
        }
        assert(match replies[0] {
            Ok(a) => trim(a).len() == 0,
            Err(e) => is_overflow(e),
        });
        another_error_ends_the_asking(
            rest,
            i - 1,
            overflowed || replies[0] is Err,
            overflow_message,
        );
    }
}

/// Takes the notes on the chunks, in order.
pub fn summary_after_notes(
    replies: Vec<Result<String, ApplicationError>>,
    user_instructions: &str,
) -> (r: SummaryStep)
    ensures
        r@ == after_notes(reply_views(replies@), user_instructions@),
{
    match all_replies(replies) {
        Ok(notes) => SummaryStep::Ask(summary_synthesis(&notes, user_instructions)),
        Err(error) => SummaryStep::Fail(error),
    }
}

// ---------------------------------------------------------------------------
// Whether there is an AI to ask
// ---------------------------------------------------------------------------

/// Why there is no AI to ask, if there is none.
pub open spec fn provider_problem(
    providers: Result<usize, String>,
    unavailable: CommandErrorView,
) -> Option<CommandErrorView> {
    match providers {
        Ok(n) => if n > 0 {
            None
        } else {
            Some(unavailable)
        },
        Err(message) => Some(command_error("runtime_factory"@, message@)),
    }
}

/// Checks that there is an AI to ask. `unavailable` is what is reported when none is set up.
pub fn check_providers(providers: &Result<usize, String>, unavailable: CommandError) -> (r: Result<
    (),
    CommandError,
>)
    ensures
        match provider_problem(*providers, unavailable@) {
            None => r is Ok,
            Some(e) => r is Err && r->Err_0@ == e,
        },
{
    match providers {
        Ok(n) => {
            if *n > 0 {
                Ok(())
            } else {
                Err(unavailable)
            }
        },
        Err(message) => Err(CommandError::new("runtime_factory", message.as_str())),
    }
}

/// Only a failure of the enhancer that speaks of the context window or its length, or of a prompt that is
/// too long, is an overflow, whatever the case of its letters.
pub proof fn only_a_full_context_is_an_overflow(error: ApplicationErrorView)
    ensures
        is_overflow(error) <==> (error matches ApplicationErrorView::PostProcessing(m) && (contains(
            lowercase(m),
            "context window"@,
        ) || contains(lowercase(m), "context length"@) || contains(
            lowercase(m),
            "prompt is too long"@,
        ))),
{
    if let ApplicationErrorView::PostProcessing(m) = error {
        let text = lowercase(m);
        if contains(text, "model context window"@) {
            reveal_strlit("model context window");
            reveal_strlit("context window");
            lemma_found("model context window"@, "context window"@, 6);
            lemma_contains_through(text, "model context window"@, "context window"@);
        }
    }
}

/// Notes that were all taken are put together in one question, in their order.
pub proof fn notes_lead_to_one_question(notes: Seq<Seq<char>>, instructions: Seq<char>)
    ensures
        after_notes(
            notes.map_values(|n: Seq<char>| Ok::<Seq<char>, ApplicationErrorView>(n)),
            instructions,
        ) == SummaryStepView::Ask(synthesis_questions(notes, instructions)),
{
    let replies = notes.map_values(|n: Seq<char>| Ok::<Seq<char>, ApplicationErrorView>(n));
    lemma_all_replies(replies);
    if let Ok(list) = all_or_first_error(replies) {
        assert(list =~= notes);
    }
}

/// Where taking a note failed, the first failure ends the summary.
pub proof fn the_first_failed_note_ends_the_summary(
    replies: Seq<ReplyView>,
    instructions: Seq<char>,
    i: int,
)
    requires
        0 <= i < replies.len(),
        replies[i] is Err,
        forall|k: int| 0 <= k < i ==> (#[trigger] replies[k]) is Ok,
    ensures
        after_notes(replies, instructions) == SummaryStepView::Fail(replies[i]->Err_0),
{
    lemma_all_replies(replies);
    match all_or_first_error(replies) {
        Ok(list) => {
            assert(list[i] == replies[i]->Ok_0);
        },
        Err(e) => {
            let j = choose|j: int|
                {
                    &&& 0 <= j < replies.len()
                    &&& #[trigger] replies[j] == Err::<Seq<char>, ApplicationErrorView>(e)
                    &&& forall|k: int| 0 <= k < j ==> (#[trigger] replies[k]) is Ok
                };
            assert(j == i);
        },
    }
}

proof fn lemma_all_replies(replies: Seq<ReplyView>)
    ensures
        match all_or_first_error(replies) {
            Ok(notes) => {
                &&& notes.len() == replies.len()
                &&& forall|i: int|
                    0 <= i < replies.len() ==> replies[i] is Ok && #[trigger] notes[i]
                        == replies[i]->Ok_0
            },
            Err(e) => exists|i: int|
                {
                    &&& 0 <= i < replies.len()
                    &&& #[trigger] replies[i] == Err::<Seq<char>, ApplicationErrorView>(e)
                    &&& forall|k: int| 0 <= k < i ==> (#[trigger] replies[k]) is Ok
                },
        },
    decreases replies.len(),
{
    if replies.len() > 0 {
        let front = replies.drop_last();
        lemma_all_replies(front);
        match all_or_first_error(front) {
            Err(e) => {
                let i = choose|i: int|
                    {
                        &&& 0 <= i < front.len()
                        &&& #[trigger] front[i] == Err::<Seq<char>, ApplicationErrorView>(e)
                        &&& forall|k: int| 0 <= k < i ==> (#[trigger] front[k]) is Ok
                    };
                assert(replies[i] == front[i]);
                assert forall|k: int| 0 <= k < i implies (#[trigger] replies[k]) is Ok by {
                    assert(front[k] == replies[k]);
                }
            },
            Ok(list) => {
                assert forall|k: int| 0 <= k < front.len() implies (#[trigger] replies[k]) is Ok by {
                    assert(front[k] == replies[k]);
                    assert(list[k] == front[k]->Ok_0);
                }
                if let Err(e) = replies.last() {
                    assert(replies[replies.len() - 1] == replies.last());
                }
            },
        }
    }
}

/// Each chunk of a transcript that is summed up has at most four thousand characters, unless it is a
/// single word that has more.
pub proof fn summary_chunks_are_short(transcript: Seq<char>, i: int)
    requires
        0 <= i < summary_chunks(transcript).len(),
    ensures
        summary_chunks(transcript)[i].len() <= 4_000 || words(transcript).contains(
            summary_chunks(transcript)[i],
        ),
        summary_chunks(transcript) == chunks(transcript, 4_000, 30),
{
    chunks_fit(transcript, 4_000, 30, i);
}

} // verus!
