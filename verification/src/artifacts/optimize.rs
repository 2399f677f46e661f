//! Optimizing a transcript with the AI, in one piece or in ever smaller chunks.

use vstd::prelude::*;
use vstd::string::*;

use crate::artifacts::ask::{
    all_or_first_error, all_replies, check_providers, chunk_concurrency, concurrency,
    is_context_window_error, is_overflow, provider_problem, replies_are_kept_in_order, reply_view,
    reply_views, ReplyView, OPTIMIZE_CONTEXT_OVERFLOW_MESSAGE,
};
use crate::artifacts::language::{GroupView, SourceLanguageOptimizationGroup};
use crate::artifacts::words::{
    chunk_text_by_words, chunks, chunks_cover_all_words, every_word_is_in_a_chunk,
};
use crate::error::{
    command_error, ApplicationError, ApplicationErrorView, CommandError, CommandErrorView,
};
use crate::text::{
    contains, inked, is_white, join, join_holds_its_parts, join_texts, lead_white, lemma_blank,
    lemma_contains_middle, lemma_inked_edge, lemma_lead_white, lemma_trim_end, trim, trim_start,
    trim_text, trim_trims, trimming_keeps_trimmed_parts, trimming_takes_white_only, views, words,
};

verus! {

/// The words that neighbouring chunks share.
pub const OPTIMIZE_CHUNK_OVERLAP_WORDS: usize = 28;

/// The most chunks that are worked on at a time.
pub const OPTIMIZE_CHUNK_CONCURRENCY_LIMIT: usize = 3;

/// The words by which optimized chunks are fitted together at least: half of those they share.
pub const MERGE_OVERLAP_WORDS: usize = 14;

/// The lengths of chunks that are tried, from the longest.
pub open spec fn chunk_budgets() -> Seq<nat> {
    seq![2600, 1800, 1200, 800, 550]
}

/// What an AI can take.
pub struct OptimizeLimits {
    /// The most characters of a prompt.
    pub direct_prompt_char_budget: usize,
    pub prefers_single_pass: bool,
    pub chunk_concurrency_limit: usize,
}

/// A step of optimizing a transcript.
pub enum OptimizeStep {
    /// Optimize the whole transcript.
    Direct,
    /// Optimize each of these chunks, several at a time.
    Chunks { round: usize, chunks: Vec<String>, concurrency: usize },
    /// Fit these optimized chunks together.
    Merge(Vec<String>),
    /// This is the optimized transcript.
    Done(String),
    /// This is why there is none.
    Fail(ApplicationError),
}

/// The content of an [`OptimizeStep`].
pub enum OptimizeStepView {
    Direct,
    Chunks { round: int, chunks: Seq<Seq<char>>, concurrency: nat },
    Merge(Seq<Seq<char>>),
    Done(Seq<char>),
    Fail(ApplicationErrorView),
}

impl View for OptimizeStep {
    type V = OptimizeStepView;

    open spec fn view(&self) -> OptimizeStepView {
        match self {
            OptimizeStep::Direct => OptimizeStepView::Direct,
            OptimizeStep::Chunks { round, chunks, concurrency } => OptimizeStepView::Chunks {
                round: *round as int,
                chunks: views(chunks@),
                concurrency: *concurrency as nat,
            },
            OptimizeStep::Merge(list) => OptimizeStepView::Merge(views(list@)),
            OptimizeStep::Done(s) => OptimizeStepView::Done(s@),
            OptimizeStep::Fail(e) => OptimizeStepView::Fail(e@),
        }
    }
}

/// Why an empty transcript is not optimized.
pub open spec fn empty_transcript() -> ApplicationErrorView {
    ApplicationErrorView::Validation("cannot optimize an empty transcript"@)
}

/// The round of chunks of a length, or the end when all lengths were tried.
pub open spec fn chunk_round(text: Seq<char>, wanted: nat, round: int) -> OptimizeStepView {
    if !(0 <= round < chunk_budgets().len()) {
        OptimizeStepView::Fail(
            ApplicationErrorView::PostProcessing(OPTIMIZE_CONTEXT_OVERFLOW_MESSAGE@),
        )
    } else {
        let parts = chunks(text, chunk_budgets()[round], OPTIMIZE_CHUNK_OVERLAP_WORDS as nat);
        if parts.len() == 0 {
            OptimizeStepView::Fail(empty_transcript())
        } else {
            OptimizeStepView::Chunks {
                round,
                chunks: parts,
                concurrency: concurrency(
                    parts.len(),
                    wanted,
                    OPTIMIZE_CHUNK_CONCURRENCY_LIMIT as nat,
                ),
            }
        }
    }
}

fn plan_chunk_round(text: &str, wanted: usize, round: usize) -> (r: OptimizeStep)
    ensures
        r@ == chunk_round(text@, wanted as nat, round as int),
{
    let budgets: [usize; 5] = [2600, 1800, 1200, 800, 550];
    if round >= 5 {
        return OptimizeStep::Fail(
            ApplicationError::PostProcessing(OPTIMIZE_CONTEXT_OVERFLOW_MESSAGE.to_owned()),
        );
    }
    assert(budgets@[round as int] == chunk_budgets()[round as int]);
    let parts: Vec<String> = chunk_text_by_words(
        text,
        budgets[round],
        OPTIMIZE_CHUNK_OVERLAP_WORDS,
    );
    assert(views(parts@).len() == parts@.len());
    if parts.len() == 0 {
        return OptimizeStep::Fail(
            ApplicationError::Validation("cannot optimize an empty transcript".to_owned()),
        );
    }
    let concurrency: usize = chunk_concurrency(
        parts.len(),
        wanted,
        OPTIMIZE_CHUNK_CONCURRENCY_LIMIT,
    );
    OptimizeStep::Chunks { round, chunks: parts, concurrency }
}

/// Whether a transcript is first tried as a whole: it fits the prompt, and the AI prefers that or
/// takes prompts as long as the longest chunk.
pub open spec fn tries_direct(text: Seq<char>, limits: OptimizeLimits) -> bool {
    text.len() <= limits.direct_prompt_char_budget && (limits.prefers_single_pass
        || limits.direct_prompt_char_budget >= chunk_budgets()[0])
}

/// How optimizing a transcript begins.
pub open spec fn optimize_start(text: Seq<char>, limits: OptimizeLimits) -> OptimizeStepView {
    if trim(text).len() == 0 {
        OptimizeStepView::Fail(empty_transcript())
    } else if tries_direct(text, limits) {
        OptimizeStepView::Direct
    } else {
        chunk_round(text, limits.chunk_concurrency_limit as nat, 0)
    }
}

/// Begins to optimize a transcript, which is free of repetitions already.
pub fn optimize_with_rag(cleaned: &str, limits: &OptimizeLimits) -> (r: OptimizeStep)
    ensures
        r@ == optimize_start(cleaned@, *limits),
{
    if trim_text(cleaned).as_str().is_empty() {
        return OptimizeStep::Fail(
            ApplicationError::Validation("cannot optimize an empty transcript".to_owned()),
        );
    }
    let count: usize = cleaned.unicode_len();
    if count <= limits.direct_prompt_char_budget && (limits.prefers_single_pass
        || limits.direct_prompt_char_budget >= 2600) {
        return OptimizeStep::Direct;
    }
    plan_chunk_round(cleaned, limits.chunk_concurrency_limit, 0)
}

/// How optimizing goes on after the whole transcript was tried.
pub open spec fn after_whole(text: Seq<char>, limits: OptimizeLimits, reply: ReplyView) -> OptimizeStepView {
    match reply {
        Ok(s) => OptimizeStepView::Done(s),
        Err(e) => if is_overflow(e) {
            chunk_round(text, limits.chunk_concurrency_limit as nat, 0)
        } else {
            OptimizeStepView::Fail(e)
        },
    }
}

/// Takes the reply for the whole transcript, already held against the transcript.
pub fn optimize_after_direct(
    cleaned: &str,
    limits: &OptimizeLimits,
    reply: Result<String, ApplicationError>,
) -> (r: OptimizeStep)
    ensures
        r@ == after_whole(cleaned@, *limits, reply_view(reply)),
{
    match reply {
        Ok(optimized) => OptimizeStep::Done(optimized),
        Err(error) => {
            if is_context_window_error(&error) {
                plan_chunk_round(cleaned, limits.chunk_concurrency_limit, 0)
            } else {
                OptimizeStep::Fail(error)
            }
        },
    }
}

/// Whether any chunk did not fit.
pub open spec fn any_overflow(replies: Seq<ReplyView>) -> bool {
    exists|i: int|
        0 <= i < replies.len() && (#[trigger] replies[i]) is Err && is_overflow(replies[i]->Err_0)
}

/// How optimizing goes on after a round of chunks: with shorter ones when any did not fit.
pub open spec fn after_round(
    text: Seq<char>,
    limits: OptimizeLimits,
    round: int,
    replies: Seq<ReplyView>,
) -> OptimizeStepView {
    if any_overflow(replies) {
        chunk_round(text, limits.chunk_concurrency_limit as nat, round + 1)
    } else {
        match all_or_first_error(replies) {
            Ok(list) => OptimizeStepView::Merge(list),
            Err(e) => OptimizeStepView::Fail(e),
        }
    }
}

/// Takes the replies for the chunks of a round, in order, each already held against its chunk.
pub fn optimize_after_chunks(
    cleaned: &str,
    limits: &OptimizeLimits,
    round: usize,
    replies: Vec<Result<String, ApplicationError>>,
) -> (r: OptimizeStep)
    requires
        round < usize::MAX,
    ensures
        r@ == after_round(cleaned@, *limits, round as int, reply_views(replies@)),
{
    let ghost all = reply_views(replies@);
    let mut overflow: bool = false;
    let mut i: usize = 0;
    while i < replies.len()
        invariant
            i <= replies@.len(),
            all == reply_views(replies@),
            overflow == exists|k: int|
                0 <= k < i && (#[trigger] all[k]) is Err && is_overflow(all[k]->Err_0),
        decreases replies@.len() - i,
    {
        assert(all[i as int] == reply_view(replies@[i as int]));
        if let Err(error) = &replies[i] {
            if is_context_window_error(error) {
                overflow = true;
            }
        }
        i = i + 1;
    }
    assert(all.len() == replies@.len());
    assert(overflow == any_overflow(all));
    if overflow {
        return plan_chunk_round(cleaned, limits.chunk_concurrency_limit, round + 1);
    }
    match all_replies(replies) {
        Ok(list) => OptimizeStep::Merge(list),
        Err(error) => OptimizeStep::Fail(error),
    }
}

/// The optimized transcript: what the chunks make, held against the transcript; the transcript
/// itself where that leaves nothing.
pub open spec fn merged_transcript(text: Seq<char>, stitched: Seq<char>, reduced: Seq<char>) -> Seq<
    char,
> {
    if trim(stitched).len() == 0 || trim(reduced).len() == 0 {
        text
    } else {
        reduced
    }
}

/// Settles the optimized transcript. `stitched` is what the chunks make, and `reduced` is that,
/// held against the transcript.
pub fn optimize_after_merge(cleaned: &str, stitched: &str, reduced: &str) -> (r: String)
    ensures
        r@ == merged_transcript(cleaned@, stitched@, reduced@),
{
    if trim_text(stitched).as_str().is_empty() || trim_text(reduced).as_str().is_empty() {
        cleaned.to_owned()
    } else {
        reduced.to_owned()
    }
}

proof fn lemma_words_not_blank(s: Seq<char>)
    requires
        trim(s).len() > 0,
    ensures
        words(s).len() > 0,
{
    lemma_blank(s);
    lemma_lead_white(s);
    if trim_start(s).len() == 0 {
        assert forall|i: int| 0 <= i < s.len() implies is_white(#[trigger] s[i]) by {}
    }
}

/// A transcript that says anything is optimized in chunks that are never empty, and the rounds
/// end: after the last length nothing is tried again.
pub proof fn chunk_rounds_end(text: Seq<char>, wanted: nat, round: int)
    requires
        trim(text).len() > 0,
        0 <= round,
    ensures
        round < chunk_budgets().len() ==> chunk_round(text, wanted, round) is Chunks,
        round >= chunk_budgets().len() ==> chunk_round(text, wanted, round)
            == OptimizeStepView::Fail(
            ApplicationErrorView::PostProcessing(OPTIMIZE_CONTEXT_OVERFLOW_MESSAGE@),
        ),
{
    if round < chunk_budgets().len() {
        lemma_words_not_blank(text);
        chunks_cover_all_words(
            words(text),
            0,
            chunk_budgets()[round],
            OPTIMIZE_CHUNK_OVERLAP_WORDS as nat,
        );
    }
}

/// A round of chunks holds every word of the transcript, in chunks that share twenty-eight words with
/// their neighbours, and works on one to three of them at a time; a later round has shorter chunks.
pub proof fn a_round_covers_the_transcript(text: Seq<char>, wanted: nat, round: int, w: int) -> (i: int)
    requires
        trim(text).len() > 0,
        0 <= round < 5,
        0 <= w < words(text).len(),
    ensures
        match chunk_round(text, wanted, round) {
            OptimizeStepView::Chunks { round: r, chunks: parts, concurrency: c } => {
                &&& r == round
                &&& parts == chunks(text, chunk_budgets()[round], 28)
                &&& 0 <= i < parts.len()
                &&& contains(parts[i], words(text)[w])
                &&& 1 <= c <= 3
                &&& c <= parts.len()
                &&& wanted >= 1 ==> c <= wanted
            },
            _ => false,
        },
        chunk_budgets().len() == 5,
        round > 0 ==> chunk_budgets()[round] < chunk_budgets()[round - 1],
        chunk_budgets()[0] == 2600 && chunk_budgets()[4] == 550,
{
    chunk_rounds_end(text, wanted, round);
    every_word_is_in_a_chunk(text, chunk_budgets()[round], 28, w)
}

/// A transcript is tried as a whole exactly when it fits the prompt and the AI prefers that, or takes
/// prompts as long as the longest chunk; one that says nothing is refused, and any other is cut up.
pub proof fn a_transcript_that_fits_is_tried_as_a_whole(text: Seq<char>, limits: OptimizeLimits)
    ensures
        inked(text).len() == 0 ==> optimize_start(text, limits) == OptimizeStepView::Fail(
            empty_transcript(),
        ),
        inked(text).len() > 0 ==> (optimize_start(text, limits) is Direct <==> text.len()
            <= limits.direct_prompt_char_budget && (limits.prefers_single_pass
            || limits.direct_prompt_char_budget >= 2600)),
        inked(text).len() > 0 && !(optimize_start(text, limits) is Direct) ==> optimize_start(
            text,
            limits,
        ) is Chunks && optimize_start(text, limits)->round == 0,
{
    trimming_takes_white_only(text);
    lemma_inked_edge(trim(text));
    if inked(text).len() > 0 {
        chunk_rounds_end(text, limits.chunk_concurrency_limit as nat, 0);
    }
}

/// A reply for the whole transcript is the result; one that did not fit is tried in chunks, from the
/// longest on, and any other failure is final.
pub proof fn a_whole_reply_is_the_result(text: Seq<char>, limits: OptimizeLimits, reply: ReplyView)
    ensures
        reply matches Ok(s) ==> after_whole(text, limits, reply) == OptimizeStepView::Done(s),
        reply matches Err(e) ==> (!is_overflow(e) ==> after_whole(text, limits, reply)
            == OptimizeStepView::Fail(e)),
        reply matches Err(e) ==> (is_overflow(e) && inked(text).len() > 0 ==> after_whole(
            text,
            limits,
            reply,
        ) is Chunks && after_whole(text, limits, reply)->round == 0),
{
    trimming_takes_white_only(text);
    lemma_inked_edge(trim(text));
    if inked(text).len() > 0 {
        chunk_rounds_end(text, limits.chunk_concurrency_limit as nat, 0);
    }
}

/// The replies of a round are put together when all of them are there: every one, in the order of the
/// chunks. When any chunk did not fit, the next round follows; any other failure is final.
pub proof fn replies_of_a_round_are_all_merged(
    text: Seq<char>,
    limits: OptimizeLimits,
    round: int,
    replies: Seq<ReplyView>,
)
    requires
        0 <= round,
    ensures
        (forall|i: int| 0 <= i < replies.len() ==> (#[trigger] replies[i]) is Ok) ==> {
            &&& after_round(text, limits, round, replies) is Merge
            &&& after_round(text, limits, round, replies)->Merge_0.len() == replies.len()
            &&& forall|i: int|
                0 <= i < replies.len() ==> #[trigger] replies[i] == Ok::<
                    Seq<char>,
                    ApplicationErrorView,
                >(after_round(text, limits, round, replies)->Merge_0[i])
        },
        (exists|i: int|
            0 <= i < replies.len() && (#[trigger] replies[i]) is Err && is_overflow(
                replies[i]->Err_0,
            )) ==> after_round(text, limits, round, replies) == chunk_round(
            text,
            limits.chunk_concurrency_limit as nat,
            round + 1,
        ),
        (exists|i: int| 0 <= i < replies.len() && (#[trigger] replies[i]) is Err) ==> !(after_round(
            text,
            limits,
            round,
            replies,
        ) is Merge),
{
    replies_are_kept_in_order(replies);
}

/// What the chunks make replaces the transcript only where something is left of it.
pub proof fn an_empty_merge_keeps_the_transcript(
    text: Seq<char>,
    stitched: Seq<char>,
    reduced: Seq<char>,
)
    ensures
        inked(stitched).len() > 0 && inked(reduced).len() > 0 ==> merged_transcript(
            text,
            stitched,
            reduced,
        ) == reduced,
        inked(stitched).len() == 0 || inked(reduced).len() == 0 ==> merged_transcript(
            text,
            stitched,
            reduced,
        ) == text,
{
    trimming_takes_white_only(stitched);
    lemma_inked_edge(trim(stitched));
    trimming_takes_white_only(reduced);
    lemma_inked_edge(trim(reduced));
}

// ---------------------------------------------------------------------------
// Groups of languages
// ---------------------------------------------------------------------------

/// The optimized text of a group; the text itself where that is blank.
pub open spec fn optimized_group(group: GroupView, constrained: Seq<char>) -> Seq<char> {
    if trim(constrained).len() == 0 {
        group.text
    } else {
        constrained
    }
}

/// Settles the optimized text of a group. `constrained` is what the AI made of it, without
/// language markers, held against the group's text.
pub fn settle_optimized_group(group: &SourceLanguageOptimizationGroup, constrained: &str) -> (r:
    String)
    ensures
        r@ == optimized_group(group@, constrained@),
{
    if trim_text(constrained).as_str().is_empty() {
        group.text.clone()
    } else {
        constrained.to_owned()
    }
}

/// Puts the optimized groups together.
pub fn optimize_source_language_groups(groups: &Vec<String>) -> (r: String)
    ensures
        r@ == trim(join(views(groups@), "\n"@)),
{
    trim_text(join_texts(groups, "\n").as_str())
}

/// Put together, the optimized groups hold the trimmed text of each of them.
pub proof fn joined_groups_keep_every_text(groups: Seq<Seq<char>>, k: int)
    requires
        0 <= k < groups.len(),
    ensures
        contains(trim(join(groups, "\n"@)), trim(groups[k])),
{
    let g = groups[k];
    let u = trim_start(g);
    lemma_lead_white(g);
    lemma_trim_end(u);
    trim_trims(g);
    let a = lead_white(g) as int;
    assert(g =~= g.take(a) + trim(g) + u.skip(trim(g).len() as int));
    lemma_contains_middle(g.take(a), trim(g), u.skip(trim(g).len() as int));
    join_holds_its_parts(groups, "\n"@, k, trim(g));
    trimming_keeps_trimmed_parts(join(groups, "\n"@), trim(g));
}

// ---------------------------------------------------------------------------
// The command
// ---------------------------------------------------------------------------

/// Why a text is not optimized, if it is not.
pub open spec fn optimize_problem(
    found: bool,
    text: Seq<char>,
    providers: Result<usize, String>,
    unavailable: CommandErrorView,
) -> Option<CommandErrorView> {
    if !found {
        Some(command_error("not_found"@, "artifact not found"@))
    } else if text.len() == 0 {
        Some(command_error("validation"@, "cannot optimize empty text"@))
    } else {
        provider_problem(providers, unavailable)
    }
}

/// Checks a request to optimize a text, which is trimmed and free of repetitions already.
pub fn optimize_artifact(
    found: bool,
    text: &str,
    providers: &Result<usize, String>,
    unavailable: CommandError,
) -> (r: Result<(), CommandError>)
    ensures
        match optimize_problem(found, text@, *providers, unavailable@) {
            None => r is Ok,
            Some(e) => r is Err && r->Err_0@ == e,
        },
{
    if !found {
        return Err(CommandError::new("not_found", "artifact not found"));
    }
    if text.is_empty() {
        return Err(CommandError::new("validation", "cannot optimize empty text"));
    }
    check_providers(providers, unavailable)
}

/// A group keeps its text where the AI made nothing of it, and else has what the AI made.
pub proof fn a_group_is_never_lost(group: GroupView, constrained: Seq<char>)
    ensures
        inked(constrained).len() > 0 ==> optimized_group(group, constrained) == constrained,
        inked(constrained).len() == 0 ==> optimized_group(group, constrained) == group.text,
{
    trimming_takes_white_only(constrained);
    lemma_inked_edge(trim(constrained));
}

/// A text is optimized only where its artifact was found, it is not empty, and there is an AI to ask; what
/// is missing is told in that order.
pub proof fn an_optimization_needs_a_text_and_an_ai(
    found: bool,
    text: Seq<char>,
    providers: Result<usize, String>,
    unavailable: CommandErrorView,
)
    ensures
        optimize_problem(found, text, providers, unavailable) is None <==> found && text.len() > 0
            && provider_problem(providers, unavailable) is None,
        !found ==> optimize_problem(found, text, providers, unavailable)->0.code == "not_found"@,
        found && text.len() == 0 ==> optimize_problem(found, text, providers, unavailable)->0.code
            == "validation"@,
{
}

} // verus!
