//! Conversations about a transcript: what is asked, what is remembered and what is stored.

use vstd::prelude::*;
use vstd::string::*;

use crate::artifacts::ask::{check_providers, provider_problem};
use crate::artifacts::payloads::{ArtifactAiContextOptions, ChatArtifactPayload};
use crate::artifacts::words::{
    a_short_text_is_one_chunk, chunk_text_by_words, chunks, normalize_whitespace, search_tokens,
    tokenize_for_search, truncate_chars, words_are_all_that_is_not_white,
};
use crate::error::{command_error, CommandError, CommandErrorView};
use crate::rounding::{
    add_single, as_single, lemma_single_positive, settled_single, single_precision_is_near,
};
use crate::text::{
    a_join_holds_its_parts_in_order, a_replacement_is_put_in, cat3, chars_of, contains, decimal,
    ends_with, in_order, inked, is_white, join, join_texts, lemma_blank, lemma_contains_around,
    lemma_contains_middle, lemma_found, lemma_in_order_holds,
    lemma_in_order_push, lemma_inked_edge, lemma_join_chars, lemma_run_holds, lowercase, lowercase_text, matches_at, opt_view, prefix,
    push_decimal, replace, replace_text, replacing_keeps_the_tail, run, same_text, starts_with,
    text_contains, total_len, trim, trim_text, trimming_takes_white_only, views, words,
};

verus! {

/// A message of a conversation.
#[derive(Debug)]
pub struct ArtifactChatMessage {
    pub artifact_id: String,
    pub role: String,
    pub text: String,
    pub origin: String,
    pub status: String,
    pub provider: Option<String>,
}

/// The content of an [`ArtifactChatMessage`].
pub struct MessageView {
    pub artifact_id: Seq<char>,
    pub role: Seq<char>,
    pub text: Seq<char>,
    pub origin: Seq<char>,
    pub status: Seq<char>,
    pub provider: Option<Seq<char>>,
}

impl View for ArtifactChatMessage {
    type V = MessageView;

    open spec fn view(&self) -> MessageView {
        MessageView {
            artifact_id: self.artifact_id@,
            role: self.role@,
            text: self.text@,
            origin: self.origin@,
            status: self.status@,
            provider: opt_view(self.provider),
        }
    }
}

/// The contents of a conversation.
pub open spec fn message_views(v: Seq<ArtifactChatMessage>) -> Seq<MessageView> {
    v.map_values(|m: ArtifactChatMessage| m@)
}

// ---------------------------------------------------------------------------
// Completed turns
// ---------------------------------------------------------------------------

/// The state of a conversation: the messages of its completed turns, question and answer by turns,
/// and the questions that wait for an answer, the oldest first. Messages are told by their place.
pub struct Turns {
    pub completed: Seq<int>,
    pub pending: Seq<int>,
}

/// A question that was sent.
pub open spec fn is_question(m: MessageView) -> bool {
    m.role == "user"@ && m.status == "complete"@
}

/// The turns of a conversation. An answer, and a failure, go to the oldest question that waits.
pub open spec fn turns(messages: Seq<MessageView>) -> Turns
    decreases messages.len(),
{
    if messages.len() == 0 {
        Turns { completed: Seq::empty(), pending: Seq::empty() }
    } else {
        let t = turns(messages.drop_last());
        let m = messages.last();
        let at = messages.len() - 1;
        if m.role == "user"@ {
            if m.status == "complete"@ {
                Turns { pending: t.pending.push(at), ..t }
            } else {
                t
            }
        } else if m.role == "assistant"@ && t.pending.len() > 0 {
            if m.status == "complete"@ {
                Turns {
                    completed: t.completed.push(t.pending[0]).push(at),
                    pending: t.pending.skip(1),
                }
            } else {
                Turns { pending: t.pending.skip(1), ..t }
            }
        } else {
            t
        }
    }
}

/// A sequence of places that goes forward.
pub open spec fn forward(places: Seq<int>) -> bool {
    forall|i: int, j: int| 0 <= i < j < places.len() ==> #[trigger] places[i] < #[trigger] places[j]
}

/// The place of the question of a turn.
pub open spec fn question_at(completed: Seq<int>, turn: int) -> int {
    completed[2 * turn]
}

/// The place of the answer of a turn.
pub open spec fn answer_at(completed: Seq<int>, turn: int) -> int {
    completed[2 * turn + 1]
}

/// Whether a turn holds a question that was sent and a later answer.
pub open spec fn is_turn(completed: Seq<int>, messages: Seq<MessageView>, turn: int) -> bool {
    let q = question_at(completed, turn);
    let a = answer_at(completed, turn);
    &&& 0 <= q < a < messages.len()
    &&& is_question(messages[q])
    &&& messages[a].role == "assistant"@
    &&& messages[a].status == "complete"@
}

/// Completed turns pair a question that was sent with a later answer; questions are answered in
/// the order in which they were asked, before any that still waits.
pub open spec fn well_paired(t: Turns, messages: Seq<MessageView>) -> bool {
    let count = t.completed.len() / 2;
    &&& t.completed.len() % 2 == 0
    &&& forall|k: int| 0 <= k < count ==> #[trigger] is_turn(t.completed, messages, k)
    &&& forall|k: int, l: int|
        0 <= k < l < count ==> #[trigger] question_at(t.completed, k) < #[trigger] question_at(
            t.completed,
            l,
        ) && answer_at(t.completed, k) < answer_at(t.completed, l)
    &&& forall|k: int, j: int|
        0 <= k < count && 0 <= j < t.pending.len() ==> #[trigger] question_at(t.completed, k)
            < #[trigger] t.pending[j]
    &&& forall|i: int|
        0 <= i < t.pending.len() ==> 0 <= #[trigger] t.pending[i] < messages.len() && is_question(
            messages[t.pending[i]],
        )
    &&& forward(t.pending)
}

proof fn lemma_pairs_stay(t: Turns, messages: Seq<MessageView>, m: MessageView)
    requires
        well_paired(t, messages),
    ensures
        well_paired(t, messages.push(m)),
{
    let more = messages.push(m);
    assert forall|k: int| 0 <= k < t.completed.len() / 2 implies #[trigger] is_turn(
        t.completed,
        more,
        k,
    ) by {
        assert(is_turn(t.completed, messages, k));
    }
}

proof fn lemma_question_waits(t: Turns, messages: Seq<MessageView>)
    requires
        messages.len() > 0,
        well_paired(t, messages.drop_last()),
        well_paired(t, messages),
        is_question(messages.last()),
    ensures
        well_paired(Turns { pending: t.pending.push(messages.len() - 1), ..t }, messages),
{
    let at = messages.len() - 1;
    let u = Turns { pending: t.pending.push(at), ..t };
    assert forall|k: int, j: int|
        0 <= k < u.completed.len() / 2 && 0 <= j < u.pending.len() implies #[trigger] question_at(
        u.completed,
        k,
    ) < #[trigger] u.pending[j] by {
        assert(is_turn(t.completed, messages.drop_last(), k));
        if j < t.pending.len() {
            assert(u.pending[j] == t.pending[j]);
        }
    }
}

proof fn lemma_question_leaves(t: Turns, messages: Seq<MessageView>)
    requires
        well_paired(t, messages),
        t.pending.len() > 0,
    ensures
        well_paired(Turns { pending: t.pending.skip(1), ..t }, messages),
{
}

proof fn lemma_question_is_answered(t: Turns, u: Turns, messages: Seq<MessageView>)
    requires
        messages.len() > 0,
        well_paired(t, messages.drop_last()),
        t.pending.len() > 0,
        messages.last().role == "assistant"@,
        messages.last().status == "complete"@,
        u.completed == t.completed.push(t.pending[0]).push(messages.len() - 1),
        u.pending == t.pending.skip(1),
    ensures
        well_paired(u, messages),
{
    let at = messages.len() - 1;
    let front = messages.drop_last();
    let n = t.completed.len() / 2;
    assert(question_at(u.completed, n as int) == t.pending[0]);
    assert(answer_at(u.completed, n as int) == at);
    assert forall|k: int| 0 <= k < n implies question_at(u.completed, k) == #[trigger] question_at(
        t.completed,
        k,
    ) && answer_at(u.completed, k) == answer_at(t.completed, k) by {}
    assert forall|k: int| 0 <= k < u.completed.len() / 2 implies #[trigger] is_turn(
        u.completed,
        messages,
        k,
    ) by {
        if k < n {
            assert(is_turn(t.completed, front, k));
            assert(question_at(u.completed, k) == question_at(t.completed, k));
        } else {
            assert(front[t.pending[0]] == messages[t.pending[0]]);
        }
    }
    assert forall|k: int, l: int| 0 <= k < l < u.completed.len() / 2 implies #[trigger] question_at(
        u.completed,
        k,
    ) < #[trigger] question_at(u.completed, l) && answer_at(u.completed, k) < answer_at(
        u.completed,
        l,
    ) by {
        assert(is_turn(t.completed, front, k));
        assert(question_at(u.completed, k) == question_at(t.completed, k));
        if l < n {
            assert(question_at(u.completed, l) == question_at(t.completed, l));
        }
    }
    assert forall|k: int, j: int|
        0 <= k < u.completed.len() / 2 && 0 <= j < u.pending.len() implies #[trigger] question_at(
        u.completed,
        k,
    ) < #[trigger] u.pending[j] by {
        assert(u.pending[j] == t.pending[j + 1]);
        if k < n {
            assert(question_at(u.completed, k) == question_at(t.completed, k));
        } else {
            assert(t.pending[0] < t.pending[j + 1]);
        }
    }
    assert forall|i: int| 0 <= i < u.pending.len() implies 0 <= #[trigger] u.pending[i]
        < messages.len() && is_question(messages[u.pending[i]]) by {
        assert(u.pending[i] == t.pending[i + 1]);
        assert(front[t.pending[i + 1]] == messages[u.pending[i]]);
    }
    assert forall|i: int, j: int| 0 <= i < j < u.pending.len() implies #[trigger] u.pending[i]
        < #[trigger] u.pending[j] by {
        assert(u.pending[i] == t.pending[i + 1]);
        assert(u.pending[j] == t.pending[j + 1]);
    }
}

/// Every conversation pairs its questions with their answers.
pub proof fn turns_pair_questions_with_answers(messages: Seq<MessageView>)
    ensures
        well_paired(turns(messages), messages),
    decreases messages.len(),
{
    if messages.len() > 0 {
        let front = messages.drop_last();
        let t = turns(front);
        let m = messages.last();
        turns_pair_questions_with_answers(front);
        lemma_pairs_stay(t, front, m);
        assert(front.push(m) =~= messages);
        if m.role == "user"@ {
            if m.status == "complete"@ {
                lemma_question_waits(t, messages);
            }
        } else if m.role == "assistant"@ && t.pending.len() > 0 {
            lemma_question_leaves(t, messages);
            if m.status == "complete"@ {
                lemma_question_is_answered(t, turns(messages), messages);
            }
        }
    }
}

/// A question that is answered at once becomes a turn, and one that fails leaves the turns as they
/// were; either way no question waits.
pub proof fn a_settled_question_leaves_none_waiting(
    messages: Seq<MessageView>,
    question: MessageView,
    reply: MessageView,
)
    requires
        turns(messages).pending.len() == 0,
        is_question(question),
        reply.role == "assistant"@,
    ensures
        turns(messages.push(question).push(reply)).pending.len() == 0,
        turns(messages.push(question).push(reply)).completed == if reply.status == "complete"@ {
            turns(messages).completed + seq![messages.len() as int, messages.len() as int + 1]
        } else {
            turns(messages).completed
        },
{
    reveal_strlit("user");
    reveal_strlit("assistant");
    assert("user"@.len() != "assistant"@.len());
    let asked = messages.push(question);
    let log = asked.push(reply);
    assert(asked.drop_last() =~= messages);
    assert(log.drop_last() =~= asked);
    assert(turns(asked).pending =~= seq![messages.len() as int]);
    assert(turns(log).pending =~= Seq::<int>::empty());
    if reply.status == "complete"@ {
        assert(turns(log).completed =~= turns(messages).completed + seq![
            messages.len() as int,
            messages.len() as int + 1,
        ]);
    }
}

fn completed_places(messages: &Vec<ArtifactChatMessage>) -> (r: Vec<usize>)
    ensures
        r@.map_values(|i: usize| i as int) == turns(message_views(messages@)).completed,
        forall|i: int| 0 <= i < r@.len() ==> #[trigger] r@[i] < messages@.len(),
{
    let ghost all = message_views(messages@);
    let ghost num = |i: usize| i as int;
    let mut completed: Vec<usize> = Vec::new();
    let mut pending: Vec<usize> = Vec::new();
    let mut i: usize = 0;
    while i < messages.len()
        invariant
            i <= messages@.len(),
            all == message_views(messages@),
            num == |i: usize| i as int,
            completed@.map_values(num) =~= turns(all.take(i as int)).completed,
            pending@.map_values(num) =~= turns(all.take(i as int)).pending,
            forall|k: int| 0 <= k < completed@.len() ==> #[trigger] completed@[k] < i,
            forall|k: int| 0 <= k < pending@.len() ==> #[trigger] pending@[k] < i,
        decreases messages@.len() - i,
    {
        let ghost now = all.take(i + 1);
        let ghost before = turns(all.take(i as int));
        let ghost pend = pending@;
        let ghost comp = completed@;
        proof {
            assert(now.drop_last() =~= all.take(i as int));
            assert(now.last() == messages@[i as int]@);
            assert(pend.map_values(num).len() == before.pending.len());
        }
        let complete: bool = same_text(messages[i].status.as_str(), "complete");
        if same_text(messages[i].role.as_str(), "user") {
            if complete {
                pending.push(i);
                assert(pending@.map_values(num) =~= pend.map_values(num).push(i as int));
            }
        } else if same_text(messages[i].role.as_str(), "assistant") {
            if pending.len() > 0 {
                let question: usize = pending.remove(0);
                proof {
                    assert(pend.map_values(num)[0] == question as int);
                    assert(pending@.map_values(num) =~= pend.map_values(num).skip(1));
                    assert forall|k: int| 0 <= k < pending@.len() implies #[trigger] pending@[k]
                        < i by {
                        assert(pending@[k] == pend[k + 1]);
                    }
                }
                if complete {
                    completed.push(question);
                    completed.push(i);
                    assert(completed@.map_values(num) =~= comp.map_values(num).push(
                        question as int,
                    ).push(i as int));
                }
            }
        }
        i = i + 1;
    }
    assert(all.take(i as int) =~= all);
    completed
}

/// Finds the messages of the completed turns.
pub fn completed_chat_turns<'a>(messages: &'a Vec<ArtifactChatMessage>) -> (r: Vec<
    &'a ArtifactChatMessage,
>)
    ensures
        r@.len() == turns(message_views(messages@)).completed.len(),
        forall|i: int|
            0 <= i < r@.len() ==> *(#[trigger] r@[i]) == messages@[turns(
                message_views(messages@),
            ).completed[i]],
{
    let places: Vec<usize> = completed_places(messages);
    let ghost list = turns(message_views(messages@)).completed;
    let mut out: Vec<&'a ArtifactChatMessage> = Vec::new();
    let mut i: usize = 0;
    while i < places.len()
        invariant
            i <= places@.len(),
            list == places@.map_values(|k: usize| k as int),
            forall|k: int| 0 <= k < places@.len() ==> #[trigger] places@[k] < messages@.len(),
            out@.len() == i,
            forall|k: int| 0 <= k < i ==> *(#[trigger] out@[k]) == messages@[list[k]],
        decreases places@.len() - i,
    {
        assert(list[i as int] == places@[i as int]);
        out.push(&messages[places[i]]);
        i = i + 1;
    }
    out
}

// ---------------------------------------------------------------------------
// What is remembered of a conversation
// ---------------------------------------------------------------------------

/// The number of messages that count as recent.
pub const RECENT_MESSAGES: usize = 12;

/// The most characters that are kept of older messages.
pub const OLDER_CHARS: usize = 2400;

/// The most characters that are kept of recent messages.
pub const RECENT_CHARS: usize = 7200;

/// A message as a line.
pub open spec fn message_line(m: MessageView) -> Seq<char> {
    m.role + ": "@ + m.text
}

/// Messages as text.
pub open spec fn digest(messages: Seq<MessageView>, places: Seq<int>, max: nat) -> Seq<char> {
    prefix(join(places.map_values(|i: int| message_line(messages[i])), "\n"@), max)
}

/// Where the recent messages start among those of the completed turns.
pub open spec fn recent_start(count: nat) -> int {
    if count <= RECENT_MESSAGES {
        0
    } else {
        count - RECENT_MESSAGES
    }
}

fn write_digest(
    messages: &Vec<ArtifactChatMessage>,
    places: &Vec<usize>,
    from: usize,
    to: usize,
    max: usize,
) -> (r: String)
    requires
        from <= to <= places@.len(),
        forall|i: int| 0 <= i < places@.len() ==> #[trigger] places@[i] < messages@.len(),
    ensures
        r@ == digest(
            message_views(messages@),
            places@.map_values(|i: usize| i as int).subrange(from as int, to as int),
            max as nat,
        ),
{
    let ghost all = message_views(messages@);
    let ghost list = places@.map_values(|i: usize| i as int).subrange(from as int, to as int);
    let ghost line = |i: int| message_line(all[i]);
    let mut parts: Vec<String> = Vec::new();
    let mut i: usize = from;
    while i < to
        invariant
            from <= i <= to <= places@.len(),
            all == message_views(messages@),
            line == |i: int| message_line(all[i]),
            list == places@.map_values(|i: usize| i as int).subrange(from as int, to as int),
            forall|i: int| 0 <= i < places@.len() ==> #[trigger] places@[i] < messages@.len(),
            views(parts@) =~= list.take(i - from).map_values(line),
        decreases to - i,
    {
        let ghost prior = views(parts@);
        assert(places@[i as int] < messages@.len());
        let m: &ArtifactChatMessage = &messages[places[i]];
        let part: String = cat3(m.role.as_str(), ": ", m.text.as_str());
        parts.push(part);
        proof {
            assert(views(parts@) =~= prior.push(part@));
            assert(list[i - from] == places@[i as int]);
            assert(line(list[i - from]) == part@);
            assert(list.take(i - from + 1) =~= list.take(i - from).push(list[i - from]));
        }
        i = i + 1;
    }
    assert(list.take(to - from) =~= list);
    truncate_chars(join_texts(&parts, "\n").as_str(), max)
}

/// The summary of the older messages of a conversation, once it has any.
pub open spec fn rolling_summary(messages: Seq<MessageView>) -> Option<Seq<char>> {
    let list = turns(messages).completed;
    if list.len() <= RECENT_MESSAGES {
        None
    } else {
        Some(digest(messages, list.take(list.len() - RECENT_MESSAGES), OLDER_CHARS as nat))
    }
}

/// Summarizes the older messages of a conversation.
pub fn build_rolling_chat_summary(messages: &Vec<ArtifactChatMessage>) -> (r: Option<String>)
    ensures
        opt_view(r) == rolling_summary(message_views(messages@)),
{
    let places: Vec<usize> = completed_places(messages);
    let ghost list = turns(message_views(messages@)).completed;
    assert(places@.len() == list.len());
    if places.len() <= RECENT_MESSAGES {
        return None;
    }
    let end: usize = places.len() - RECENT_MESSAGES;
    assert(list.subrange(0, end as int) =~= list.take(end as int));
    Some(write_digest(messages, &places, 0, end, OLDER_CHARS))
}

/// What a question is told of the conversation before it.
pub open spec fn history(messages: Seq<MessageView>, summary: Option<Seq<char>>) -> Seq<char> {
    let list = turns(messages).completed;
    let start = recent_start(list.len());
    let older = match summary {
        Some(s) if trim(s).len() > 0 => s,
        _ => if start == 0 {
            Seq::empty()
        } else {
            digest(messages, list.subrange(0, start), OLDER_CHARS as nat)
        },
    };
    let recent = digest(
        messages,
        list.subrange(start, list.len() as int),
        RECENT_CHARS as nat,
    );
    "Previous conversation summary:\n"@ + older + "\n\nRecent conversation turns:\n"@ + recent
        + "\n\n"@
}

/// How the question of a prompt is announced.
pub const QUESTION_MARK: &'static str = "User question:\n";

/// The prompts with the conversation before the question.
pub open spec fn with_history(
    candidates: Seq<Seq<char>>,
    messages: Seq<MessageView>,
    summary: Option<Seq<char>>,
) -> Seq<Seq<char>> {
    if turns(messages).completed.len() == 0 {
        candidates
    } else {
        let mark = QUESTION_MARK@;
        let told = history(messages, summary) + mark;
        candidates.map_values(|c: Seq<char>| replace(c, mark, told))
    }
}

/// Puts the conversation so far into prompts.
pub fn add_conversation_context(
    candidates: Vec<String>,
    messages: &Vec<ArtifactChatMessage>,
    persisted_summary: Option<&str>,
) -> (r: Vec<String>)
    ensures
        views(r@) == with_history(
            views(candidates@),
            message_views(messages@),
            (match persisted_summary {
                Some(s) => Some(s@),
                None => None,
            }),
        ),
{
    let places: Vec<usize> = completed_places(messages);
    let ghost all = message_views(messages@);
    let ghost list = turns(all).completed;
    assert(places@.len() == list.len());
    if places.len() == 0 {
        return candidates;
    }
    let start: usize = if places.len() <= RECENT_MESSAGES {
        0
    } else {
        places.len() - RECENT_MESSAGES
    };
    let filled: bool = match persisted_summary {
        Some(s) => !trim_text(s).as_str().is_empty(),
        None => false,
    };
    let older: String = if filled {
        match persisted_summary {
            Some(s) => s.to_owned(),
            None => String::new(),
        }
    } else if start == 0 {
        String::new()
    } else {
        write_digest(messages, &places, 0, start, OLDER_CHARS)
    };
    let recent: String = write_digest(messages, &places, start, places.len(), RECENT_CHARS);
    let mut told: String = "Previous conversation summary:\n".to_owned();
    told.append(older.as_str());
    told.append("\n\nRecent conversation turns:\n");
    told.append(recent.as_str());
    told.append("\n\n");
    told.append(QUESTION_MARK);
    proof {
        reveal_strlit("User question:\n");
        assert(QUESTION_MARK@.len() > 0);
    }
    let ghost mark = QUESTION_MARK@;
    let ghost put = |c: Seq<char>| replace(c, mark, told@);
    let mut out: Vec<String> = Vec::new();
    let mut i: usize = 0;
    while i < candidates.len()
        invariant
            i <= candidates@.len(),
            mark == QUESTION_MARK@,
            mark.len() > 0,
            put == |c: Seq<char>| replace(c, mark, told@),
            views(out@) =~= views(candidates@).take(i as int).map_values(put),
        decreases candidates@.len() - i,
    {
        let ghost prior = views(out@);
        let line: String = replace_text(candidates[i].as_str(), QUESTION_MARK, told.as_str());
        out.push(line);
        proof {
            assert(views(out@) =~= prior.push(line@));
            assert(views(candidates@)[i as int] == candidates@[i as int]@);
            assert(put(views(candidates@)[i as int]) == line@);
        }
        i = i + 1;
    }
    assert(views(candidates@).take(i as int) =~= views(candidates@));
    out
}

/// The messages of the completed turns from one place to another, each as who said it and what.
pub open spec fn said(messages: Seq<MessageView>, from: int, to: int) -> Seq<Seq<char>> {
    let list = turns(messages).completed;
    Seq::new(
        (to - from) as nat,
        |k: int| messages[list[from + k]].role + ": "@ + messages[list[from + k]].text,
    )
}

/// Whether a text tells messages: all of them, in order, one a line and nothing else; or, where they
/// take more than `max` characters, so many from the beginning.
pub open spec fn tells(text: Seq<char>, lines: Seq<Seq<char>>, max: nat) -> bool {
    exists|whole: Seq<char>| #[trigger]
        in_order(whole, lines) && whole.len() == total_len(lines) + lines.len() - 1 && text == if whole.len()
            <= max {
            whole
        } else {
            whole.take(max as int)
        }
}

proof fn lemma_digest_tells(messages: Seq<MessageView>, from: int, to: int, max: nat)
    requires
        0 <= from < to <= turns(messages).completed.len(),
    ensures
        tells(
            digest(messages, turns(messages).completed.subrange(from, to), max),
            said(messages, from, to),
            max,
        ),
{
    let places = turns(messages).completed.subrange(from, to);
    let lines = said(messages, from, to);
    let parts = places.map_values(|i: int| message_line(messages[i]));
    assert(parts =~= lines);
    a_join_holds_its_parts_in_order(parts, "\n"@);
    reveal_strlit("\n");
    let whole = join(parts, "\n"@);
    assert(in_order(whole, lines));
    assert((parts.len() - 1) * "\n"@.len() == parts.len() - 1);
}

/// Whether a prompt tells of a conversation before its question: what is older in its first part, and
/// what is recent in its second.
pub open spec fn tells_before_the_question(
    prompt: Seq<char>,
    older: Seq<char>,
    recent: Seq<char>,
) -> bool {
    contains(
        prompt,
        "Previous conversation summary:\n"@ + older + "\n\nRecent conversation turns:\n"@ + recent
            + "\n\nUser question:\n"@,
    )
}

/// A question is told of the conversation before it. The last twelve messages of the completed turns
/// stand, in order and with nothing older, under the recent ones; what is older stands before them: as
/// the summary says it where there is one, else as it was said.
pub proof fn a_question_is_told_what_it_follows(
    candidates: Seq<Seq<char>>,
    messages: Seq<MessageView>,
    summary: Option<Seq<char>>,
    i: int,
)
    requires
        0 <= i < candidates.len(),
        contains(candidates[i], "User question:\n"@),
        turns(messages).completed.len() > 0,
    ensures
        ({
            let n = turns(messages).completed.len() as int;
            let first = if n <= 12 {
                0
            } else {
                n - 12
            };
            &&& with_history(candidates, messages, summary).len() == candidates.len()
            &&& exists|older: Seq<char>, recent: Seq<char>|
                {
                    &&& #[trigger] tells_before_the_question(
                        with_history(candidates, messages, summary)[i],
                        older,
                        recent,
                    )
                    &&& tells(recent, said(messages, first, n), 7200)
                    &&& match summary {
                        Some(s) if inked(s).len() > 0 => older == s,
                        _ => if first == 0 {
                            older.len() == 0
                        } else {
                            tells(older, said(messages, 0, first), 2400)
                        },
                    }
                }
        }),
{
    let list = turns(messages).completed;
    let n = list.len() as int;
    let start = recent_start(list.len());
    let recent = digest(messages, list.subrange(start, n), RECENT_CHARS as nat);
    let older = match summary {
        Some(s) if trim(s).len() > 0 => s,
        _ => if start == 0 {
            Seq::empty()
        } else {
            digest(messages, list.subrange(0, start), OLDER_CHARS as nat)
        },
    };
    if let Some(s) = summary {
        trimming_takes_white_only(s);
        lemma_blank(s);
        if trim(s).len() == 0 {
            assert(inked(trim(s)).len() == 0);
        } else {
            assert(!is_white(trim(s)[0]));
            assert(inked(trim(s)).len() > 0);
        }
    }
    lemma_digest_tells(messages, start, n, RECENT_CHARS as nat);
    if start > 0 {
        lemma_digest_tells(messages, 0, start, OLDER_CHARS as nat);
    }
    let mark = QUESTION_MARK@;
    reveal_strlit("User question:\n");
    reveal_strlit("\n\n");
    reveal_strlit("\n\nUser question:\n");
    assert("\n\nUser question:\n"@ =~= "\n\n"@ + mark);
    let told = history(messages, summary) + mark;
    a_replacement_is_put_in(candidates[i], mark, told);
    assert(told =~= "Previous conversation summary:\n"@ + older
        + "\n\nRecent conversation turns:\n"@ + recent + "\n\nUser question:\n"@);
    assert(tells_before_the_question(
        with_history(candidates, messages, summary)[i],
        older,
        recent,
    ));
}

/// A question without completed turns before it is asked as it is.
pub proof fn a_first_question_is_asked_as_it_is(
    candidates: Seq<Seq<char>>,
    messages: Seq<MessageView>,
    summary: Option<Seq<char>>,
)
    requires
        turns(messages).completed.len() == 0,
    ensures
        with_history(candidates, messages, summary) == candidates,
{
}

/// A conversation is summed up once more than twelve messages of it are completed: by those that are
/// older than the last twelve.
pub proof fn older_turns_are_summed_up(messages: Seq<MessageView>)
    ensures
        ({
            let n = turns(messages).completed.len() as int;
            match rolling_summary(messages) {
                None => n <= 12,
                Some(s) => n > 12 && tells(s, said(messages, 0, n - 12), 2400),
            }
        }),
{
    let list = turns(messages).completed;
    let n = list.len() as int;
    if n > 12 {
        lemma_digest_tells(messages, 0, n - 12, OLDER_CHARS as nat);
        assert(list.take(n - 12) =~= list.subrange(0, n - 12));
    }
}

// ---------------------------------------------------------------------------
// Which parts of a transcript a question is shown
// ---------------------------------------------------------------------------

/// The length of a chunk.
pub const CHAT_CHUNK_TARGET_CHARS: usize = 900;

/// The words that neighbouring chunks share.
pub const CHAT_CHUNK_OVERLAP_WORDS: usize = 24;

/// The most hits of a token that are counted.
pub const MAX_TOKEN_HITS: usize = 6;

/// The number of places where `p` stands in `s`, without overlaps, found from the left.
pub open spec fn occurrences(s: Seq<char>, p: Seq<char>) -> nat
    decreases s.len(),
{
    if p.len() == 0 {
        s.len() + 1
    } else if s.len() == 0 {
        0
    } else if starts_with(s, p) {
        1 + occurrences(s.skip(p.len() as int), p)
    } else {
        occurrences(s.skip(1), p)
    }
}

/// The hits that count.
pub open spec fn counted(hits: nat) -> nat {
    if hits < MAX_TOKEN_HITS {
        hits
    } else {
        MAX_TOKEN_HITS as nat
    }
}

fn count_hits(s: &str, p: &str) -> (r: usize)
    ensures
        r == counted(occurrences(s@, p@)),
{
    let v: Vec<char> = chars_of(s);
    let q: Vec<char> = chars_of(p);
    let total: usize = v.len();
    if q.len() == 0 {
        return if total < MAX_TOKEN_HITS - 1 {
            total + 1
        } else {
            MAX_TOKEN_HITS
        };
    }
    let mut hits: usize = 0;
    let mut i: usize = 0;
    assert(v@.skip(0) =~= v@);
    while i < total && hits < MAX_TOKEN_HITS
        invariant
            total == v@.len(),
            q@.len() > 0,
            i <= total,
            hits <= MAX_TOKEN_HITS,
            occurrences(v@, q@) == hits + occurrences(v@.skip(i as int), q@),
        decreases total - i,
    {
        if matches_at(&v, i, &q) {
            assert(v@.skip(i as int).skip(q@.len() as int) =~= v@.skip(i + q@.len()));
            hits = hits + 1;
            i = i + q.len();
        } else {
            assert(v@.skip(i as int).skip(1) =~= v@.skip(i + 1));
            i = i + 1;
        }
    }
    hits
}

/// A token is hit exactly where it occurs.
pub proof fn a_token_is_hit_where_it_occurs(s: Seq<char>, p: Seq<char>)
    ensures
        occurrences(s, p) > 0 <==> contains(s, p),
    decreases s.len(),
{
    if p.len() == 0 {
        assert(starts_with(s.skip(0), p)) by {
            assert(s.skip(0).take(0) =~= p);
        }
    } else if s.len() == 0 {
        assert forall|i: int| 0 <= i <= s.len() implies !starts_with(#[trigger] s.skip(i), p) by {}
    } else if starts_with(s, p) {
        assert(s.skip(0) =~= s);
        assert(starts_with(s.skip(0), p));
    } else {
        let t = s.skip(1);
        a_token_is_hit_where_it_occurs(t, p);
        if contains(t, p) {
            let i = choose|i: int| 0 <= i <= t.len() && starts_with(#[trigger] t.skip(i), p);
            assert(t.skip(i) =~= s.skip(i + 1));
        }
        if contains(s, p) {
            let i = choose|i: int| 0 <= i <= s.len() && starts_with(#[trigger] s.skip(i), p);
            if i == 0 {
                assert(s.skip(0) =~= s);
            } else {
                assert(s.skip(i) =~= t.skip(i - 1));
            }
        }
    }
}

/// A point of a score, in the parts that scores are counted in: all of them are numbers of single
/// precision.
pub const SCORE_POINT: u64 = 0x400_0000;

/// What each hit of a token adds: fifteen hundredths of a point, as near as single precision gets.
pub const TOKEN_HIT_SCORE: u64 = 10_066_330;

/// A score after a token that was hit so often: a point more, and what its hits add.
pub open spec fn with_token(score: nat, hits: nat) -> nat {
    if hits == 0 {
        score
    } else {
        as_single(as_single(score + SCORE_POINT as nat) + as_single(hits * TOKEN_HIT_SCORE as nat))
    }
}

/// A score after the tokens of a question.
pub open spec fn tokens_score(score: nat, chunk: Seq<char>, tokens: Seq<Seq<char>>) -> nat
    decreases tokens.len(),
{
    if tokens.len() == 0 {
        score
    } else {
        with_token(
            tokens_score(score, chunk, tokens.drop_last()),
            counted(occurrences(chunk, tokens.last())),
        )
    }
}

/// The score of a chunk for a question: four points when the whole question stands in it, and
/// what its tokens add.
pub open spec fn chunk_score(chunk: Seq<char>, query: Seq<char>, tokens: Seq<Seq<char>>) -> nat {
    tokens_score(
        if query.len() > 0 && contains(chunk, query) {
            4 * SCORE_POINT as nat
        } else {
            0
        },
        chunk,
        tokens,
    )
}

proof fn lemma_tokens_score(score: nat, chunk: Seq<char>, tokens: Seq<Seq<char>>)
    ensures
        tokens_score(score, chunk, tokens) > 0 <==> score > 0 || exists|i: int|
            0 <= i < tokens.len() && contains(chunk, #[trigger] tokens[i]),
    decreases tokens.len(),
{
    if tokens.len() > 0 {
        let before = tokens.drop_last();
        lemma_tokens_score(score, chunk, before);
        a_token_is_hit_where_it_occurs(chunk, tokens.last());
        let s = tokens_score(score, chunk, before);
        lemma_single_positive(s + SCORE_POINT as nat);
        let hits = counted(occurrences(chunk, tokens.last()));
        lemma_single_positive(
            as_single(s + SCORE_POINT as nat) + as_single(hits * TOKEN_HIT_SCORE as nat),
        );
        if contains(chunk, tokens.last()) {
            assert(contains(chunk, tokens[tokens.len() - 1]));
        }
        assert forall|i: int| 0 <= i < before.len() implies #[trigger] before[i] == tokens[i] by {}
        if exists|i: int| 0 <= i < before.len() && contains(chunk, #[trigger] before[i]) {
            let i = choose|i: int| 0 <= i < before.len() && contains(chunk, #[trigger] before[i]);
            assert(contains(chunk, tokens[i]));
        }
        if exists|i: int| 0 <= i < tokens.len() && contains(chunk, #[trigger] tokens[i]) {
            let i = choose|i: int| 0 <= i < tokens.len() && contains(chunk, #[trigger] tokens[i]);
            if i < before.len() {
                assert(contains(chunk, before[i]));
            }
        }
    }
}

/// A chunk has a score exactly when the question or one of its tokens stands in it.
pub proof fn a_chunk_scores_where_it_matches(
    chunk: Seq<char>,
    query: Seq<char>,
    tokens: Seq<Seq<char>>,
)
    ensures
        chunk_score(chunk, query, tokens) > 0 <==> (query.len() > 0 && contains(chunk, query)) || (
        exists|i: int| 0 <= i < tokens.len() && contains(chunk, #[trigger] tokens[i])),
{
    lemma_tokens_score(
        if query.len() > 0 && contains(chunk, query) {
            4 * SCORE_POINT as nat
        } else {
            0
        },
        chunk,
        tokens,
    );
}

/// Scores a chunk for a question; all three are in lower case.
pub fn score_chunk(chunk_lower: &str, query_lower: &str, query_tokens: &Vec<String>) -> (r: u64)
    ensures
        r == chunk_score(chunk_lower@, query_lower@, views(query_tokens@)),
{
    let mut score: u64 = if !query_lower.is_empty() && text_contains(chunk_lower, query_lower) {
        4 * SCORE_POINT
    } else {
        0
    };
    let ghost start = score as nat;
    let ghost tokens = views(query_tokens@);
    let mut i: usize = 0;
    assert(tokens.take(0) =~= Seq::<Seq<char>>::empty());
    while i < query_tokens.len()
        invariant
            i <= query_tokens@.len(),
            tokens == views(query_tokens@),
            score == tokens_score(start, chunk_lower@, tokens.take(i as int)),
            settled_single(score as nat),
        decreases query_tokens@.len() - i,
    {
        let hits: usize = count_hits(chunk_lower, query_tokens[i].as_str());
        proof {
            assert(tokens.take(i + 1).drop_last() =~= tokens.take(i as int));
            assert(tokens.take(i + 1).last() == query_tokens@[i as int]@);
        }
        if hits > 0 {
            let added: u64 = add_single(0, hits as u64 * TOKEN_HIT_SCORE);
            score = add_single(add_single(score, SCORE_POINT), added);
        }
        i = i + 1;
    }
    assert(tokens.take(i as int) =~= tokens);
    score
}

/// The scores of the chunks of a transcript for a question.
pub open spec fn chunk_scores(parts: Seq<Seq<char>>, asked: Seq<char>) -> Seq<nat> {
    parts.map_values(
        |part: Seq<char>| chunk_score(lowercase(part), lowercase(asked), search_tokens(asked)),
    )
}

/// Scores as whole numbers.
pub open spec fn nats(scores: Seq<u64>) -> Seq<nat> {
    scores.map_values(|score: u64| score as nat)
}

fn score_chunks(parts: &Vec<String>, asked: &str) -> (r: Vec<u64>)
    ensures
        nats(r@) == chunk_scores(views(parts@), asked@),
{
    let query: String = lowercase_text(asked);
    let tokens: Vec<String> = tokenize_for_search(asked);
    let ghost want = chunk_scores(views(parts@), asked@);
    let mut out: Vec<u64> = Vec::new();
    let mut i: usize = 0;
    while i < parts.len()
        invariant
            i <= parts@.len(),
            want == chunk_scores(views(parts@), asked@),
            query@ == lowercase(asked@),
            views(tokens@) == search_tokens(asked@),
            nats(out@) =~= want.take(i as int),
        decreases parts@.len() - i,
    {
        let ghost prior = nats(out@);
        let chunk_lower: String = lowercase_text(parts[i].as_str());
        let score: u64 = score_chunk(chunk_lower.as_str(), query.as_str(), &tokens);
        out.push(score);
        proof {
            assert(views(parts@)[i as int] == parts@[i as int]@);
            assert(nats(out@) =~= prior.push(score as nat));
        }
        i = i + 1;
    }
    assert(want.take(i as int) =~= want);
    out
}

/// Whether a chunk goes before another: it scores more, or as much and stands earlier.
pub open spec fn outranks(scores: Seq<nat>, j: int, i: int) -> bool {
    scores[j] > scores[i] || (scores[j] == scores[i] && j < i)
}

/// The number of chunks among the first `upto` that go before chunk `i`.
pub open spec fn rank(scores: Seq<nat>, upto: int, i: int) -> nat
    decreases upto,
{
    if upto <= 0 {
        0
    } else {
        rank(scores, upto - 1, i) + (if outranks(scores, upto - 1, i) {
            1nat
        } else {
            0
        })
    }
}

/// The most chunks that are picked by their scores.
pub const MAX_PICKED_CHUNKS: usize = 10;

/// The chunks that are taken when none has a score.
pub const DEFAULT_CHUNKS: usize = 4;

/// Whether a chunk is picked: it has a score, and fewer than [`MAX_PICKED_CHUNKS`] go before it.
pub open spec fn is_picked(scores: Seq<nat>, i: int) -> bool {
    scores[i] > 0 && rank(scores, scores.len() as int, i) < MAX_PICKED_CHUNKS
}

/// The chunks among the first `upto` that are picked, in the order of the transcript.
pub open spec fn picked(scores: Seq<nat>, upto: int) -> Seq<int>
    decreases upto,
{
    if upto <= 0 {
        Seq::empty()
    } else {
        let before = picked(scores, upto - 1);
        if is_picked(scores, upto - 1) {
            before.push(upto - 1)
        } else {
            before
        }
    }
}

/// The chunks that a question is shown: those picked by their scores, else the first ones.
pub open spec fn selected(scores: Seq<nat>) -> Seq<int> {
    let list = picked(scores, scores.len() as int);
    if list.len() > 0 {
        list
    } else {
        Seq::new(
            (if scores.len() < DEFAULT_CHUNKS {
                scores.len()
            } else {
                DEFAULT_CHUNKS as nat
            }),
            |i: int| i,
        )
    }
}

fn select_chunks(scores: &Vec<u64>) -> (r: Vec<usize>)
    ensures
        r@.map_values(|i: usize| i as int) == selected(nats(scores@)),
        forall|i: int| 0 <= i < r@.len() ==> #[trigger] r@[i] < scores@.len(),
{
    let ghost num = |i: usize| i as int;
    let ghost all = nats(scores@);
    let count: usize = scores.len();
    let mut out: Vec<usize> = Vec::new();
    let mut i: usize = 0;
    while i < count
        invariant
            i <= count == scores@.len(),
            all == nats(scores@),
            num == |i: usize| i as int,
            out@.map_values(num) =~= picked(all, i as int),
            forall|k: int| 0 <= k < out@.len() ==> #[trigger] out@[k] < i,
        decreases count - i,
    {
        let own: u64 = scores[i];
        let mut ahead: usize = 0;
        let mut j: usize = 0;
        while j < count
            invariant
                j <= count == scores@.len(),
                i < count,
                all == nats(scores@),
                own == scores@[i as int],
                ahead == rank(all, j as int, i as int),
                ahead <= j,
            decreases count - j,
        {
            assert(all[j as int] == scores@[j as int] && all[i as int] == own);
            let other: u64 = scores[j];
            if other > own || (other == own && j < i) {
                ahead = ahead + 1;
            }
            j = j + 1;
        }
        assert(all[i as int] == own);
        let ghost prior = out@;
        if own > 0 && ahead < MAX_PICKED_CHUNKS {
            out.push(i);
            assert(out@.map_values(num) =~= prior.map_values(num).push(i as int));
        }
        i = i + 1;
    }
    assert(out@.map_values(num).len() == out@.len());
    if out.len() == 0 {
        let first: usize = if count < DEFAULT_CHUNKS {
            count
        } else {
            DEFAULT_CHUNKS
        };
        let mut k: usize = 0;
        while k < first
            invariant
                k <= first,
                first <= count,
                out@.len() == k,
                num == |i: usize| i as int,
                forall|m: int| 0 <= m < k ==> #[trigger] out@[m] == m,
            decreases first - k,
        {
            out.push(k);
            k = k + 1;
        }
        assert(out@.map_values(num) =~= selected(all));
    }
    out
}

proof fn lemma_picked(scores: Seq<nat>, upto: int)
    requires
        0 <= upto <= scores.len(),
    ensures
        forall|i: int|
            0 <= i < picked(scores, upto).len() ==> 0 <= #[trigger] picked(scores, upto)[i] < upto
                && is_picked(scores, picked(scores, upto)[i]),
        forward(picked(scores, upto)),
        forall|i: int|
            0 <= i < upto && is_picked(scores, i) ==> #[trigger] picked(scores, upto).contains(i),
    decreases upto,
{
    if upto > 0 {
        lemma_picked(scores, upto - 1);
        let before = picked(scores, upto - 1);
        let list = picked(scores, upto);
        assert forall|i: int|
            0 <= i < upto && is_picked(scores, i) implies #[trigger] list.contains(i) by {
            if i < upto - 1 {
                assert(before.contains(i));
                let k = choose|k: int| 0 <= k < before.len() && before[k] == i;
                assert(list[k] == i);
            } else {
                assert(list[list.len() - 1] == i);
            }
        }
    }
}

/// The chunks that are shown stand in the order of the transcript. Where any has a score, exactly
/// those with a score that few enough go before are shown.
pub proof fn selection_follows_the_scores(scores: Seq<nat>)
    ensures
        forward(selected(scores)),
        forall|i: int|
            0 <= i < selected(scores).len() ==> 0 <= #[trigger] selected(scores)[i] < scores.len(),
        forall|i: int|
            0 <= i < scores.len() && is_picked(scores, i) ==> #[trigger] selected(scores).contains(
                i,
            ),
        (exists|i: int| 0 <= i < scores.len() && #[trigger] is_picked(scores, i)) ==> forall|k: int|
            0 <= k < selected(scores).len() ==> is_picked(scores, #[trigger] selected(scores)[k]),
{
    let list = picked(scores, scores.len() as int);
    lemma_picked(scores, scores.len() as int);
    if exists|i: int| 0 <= i < scores.len() && #[trigger] is_picked(scores, i) {
        let i = choose|i: int| 0 <= i < scores.len() && #[trigger] is_picked(scores, i);
        assert(list.contains(i));
    }
    if list.len() == 0 {
        assert forall|i: int|
            0 <= i < scores.len() && is_picked(scores, i) implies #[trigger] selected(
            scores,
        ).contains(i) by {
            assert(list.contains(i));
        }
    }
}

/// A chunk as a numbered line.
pub open spec fn chunk_line(parts: Seq<Seq<char>>, i: int) -> Seq<char> {
    "["@ + decimal((i + 1) as nat) + "] "@ + parts[i] + "\n"@
}

/// Numbered lines, as many as fit, after what was packed already.
pub open spec fn pack(
    parts: Seq<Seq<char>>,
    places: Seq<int>,
    packed: Seq<char>,
    max: nat,
) -> Seq<char>
    decreases places.len(),
{
    if places.len() == 0 || packed.len() + chunk_line(parts, places[0]).len() > max {
        packed
    } else {
        pack(parts, places.skip(1), packed + chunk_line(parts, places[0]), max)
    }
}

/// The first `n` places, or all when there are fewer.
pub open spec fn first_places(places: Seq<int>, n: nat) -> Seq<int> {
    if places.len() <= n {
        places
    } else {
        places.take(n as int)
    }
}

/// The snippets that a question is shown within a budget: whole chunks, or the beginning of the
/// first when not even that fits.
pub open spec fn snippets(
    parts: Seq<Seq<char>>,
    places: Seq<int>,
    max_chunks: nat,
    max_chars: nat,
) -> Seq<char> {
    let packed = pack(parts, first_places(places, max_chunks), Seq::empty(), max_chars);
    if trim(packed).len() > 0 {
        packed
    } else if places.len() > 0 {
        prefix(parts[places[0]], max_chars)
    } else {
        Seq::empty()
    }
}

proof fn lemma_pack_fits(parts: Seq<Seq<char>>, places: Seq<int>, packed: Seq<char>, max: nat)
    requires
        packed.len() <= max,
    ensures
        pack(parts, places, packed, max).len() <= max,
    decreases places.len(),
{
    if places.len() > 0 && packed.len() + chunk_line(parts, places[0]).len() <= max {
        lemma_pack_fits(parts, places.skip(1), packed + chunk_line(parts, places[0]), max);
    }
}

/// Snippets keep to their budget.
pub proof fn snippets_fit(
    parts: Seq<Seq<char>>,
    places: Seq<int>,
    max_chunks: nat,
    max_chars: nat,
)
    ensures
        snippets(parts, places, max_chunks, max_chars).len() <= max_chars,
{
    lemma_pack_fits(parts, first_places(places, max_chunks), Seq::empty(), max_chars);
}

fn write_snippets(
    parts: &Vec<String>,
    places: &Vec<usize>,
    max_chunks: usize,
    max_chars: usize,
) -> (r: String)
    requires
        forall|i: int| 0 <= i < places@.len() ==> #[trigger] places@[i] < parts@.len(),
    ensures
        r@ == snippets(
            views(parts@),
            places@.map_values(|i: usize| i as int),
            max_chunks as nat,
            max_chars as nat,
        ),
{
    let ghost all = places@.map_values(|i: usize| i as int);
    let ghost texts = views(parts@);
    let limit: usize = if places.len() <= max_chunks {
        places.len()
    } else {
        max_chunks
    };
    let ghost list = first_places(all, max_chunks as nat);
    assert(list =~= all.take(limit as int));
    let mut packed: String = String::new();
    let mut packed_len: usize = 0;
    let mut i: usize = 0;
    let mut full: bool = false;
    assert(list.skip(0) =~= list);
    assert(packed@ =~= Seq::<char>::empty());
    while i < limit && !full
        invariant
            i <= limit <= places@.len(),
            all == places@.map_values(|i: usize| i as int),
            texts == views(parts@),
            list == all.take(limit as int),
            forall|i: int| 0 <= i < places@.len() ==> #[trigger] places@[i] < parts@.len(),
            packed_len == packed@.len(),
            packed_len <= max_chars,
            !full ==> pack(texts, list, Seq::empty(), max_chars as nat) == pack(
                texts,
                list.skip(i as int),
                packed@,
                max_chars as nat,
            ),
            full ==> pack(texts, list, Seq::empty(), max_chars as nat) == packed@,
        decreases limit - i, (if full { 0int } else { 1int }),
    {
        let ghost tail = list.skip(i as int);
        assert(places@[i as int] < parts@.len());
        let at: usize = places[i];
        let mut line: String = "[".to_owned();
        let count: usize = parts.len();
        assert(at < count);
        let number: usize = at + 1;
        push_decimal(&mut line, number as u64);
        line.append("] ");
        line.append(parts[at].as_str());
        line.append("\n");
        proof {
            assert(tail[0] == at);
            assert(texts[at as int] == parts@[at as int]@);
            assert(line@ =~= chunk_line(texts, at as int));
            assert(tail.skip(1) =~= list.skip(i + 1));
        }
        let line_len: usize = line.as_str().unicode_len();
        if line_len > max_chars - packed_len {
            full = true;
        } else {
            packed.append(line.as_str());
            packed_len = packed_len + line_len;
            i = i + 1;
        }
    }
    if trim_text(packed.as_str()).as_str().is_empty() {
        if places.len() > 0 {
            assert(places@[0] < parts@.len());
            assert(all[0] == places@[0]);
            return truncate_chars(parts[places[0]].as_str(), max_chars);
        }
        return String::new();
    }
    packed
}

// ---------------------------------------------------------------------------
// Prompts
// ---------------------------------------------------------------------------

/// What a question is asked about.
#[derive(Debug)]
pub struct ChatSource {
    pub title: String,
    pub summary: String,
    pub faqs: String,
    /// The transcript as the AI is shown it.
    pub transcript: String,
}

pub const CHAT_INTRO: &'static str = "You are an assistant for transcript analysis.\nAnswer using the provided transcript snippets. If you cannot infer the answer, state what is missing.\nReply in the same language as the user's question unless the user explicitly asks for a different language.\n";

pub const CHAT_WITH_TIMESTAMPS: &'static str = "When a relevant snippet includes a timestamp, cite it in the answer.";

pub const CHAT_WITHOUT_TIMESTAMPS: &'static str = "Do not mention timestamps unless the user explicitly asks for unavailable timing.";

pub const CHAT_WITH_SPEAKERS: &'static str = "When speaker labels are present, attribute statements to the relevant speaker.";

pub const CHAT_WITHOUT_SPEAKERS: &'static str = "Do not infer or invent speaker attributions.";

/// The most characters of a summary, and of questions and answers, that a prompt holds.
pub const CHAT_NOTE_CHARS: usize = 1400;

/// A prompt for a question, with the snippets that it is shown.
pub open spec fn chat_prompt(
    source: ChatSource,
    asked: Seq<char>,
    context: ArtifactAiContextOptions,
    shown: Seq<char>,
) -> Seq<char> {
    CHAT_INTRO@ + (if context.include_timestamps {
        CHAT_WITH_TIMESTAMPS@
    } else {
        CHAT_WITHOUT_TIMESTAMPS@
    }) + "\n"@ + (if context.include_speakers {
        CHAT_WITH_SPEAKERS@
    } else {
        CHAT_WITHOUT_SPEAKERS@
    }) + "\n\nArtifact title: "@ + trim(source.title@) + "\n\nExisting summary:\n"@ + prefix(
        trim(source.summary@),
        CHAT_NOTE_CHARS as nat,
    ) + "\n\nExisting FAQs:\n"@ + prefix(trim(source.faqs@), CHAT_NOTE_CHARS as nat)
        + "\n\nTranscript snippets:\n"@ + shown + "\n"@ + QUESTION_MARK@ + asked
}

/// The budgets of the prompts, from the widest to the narrowest: chunks and characters.
pub open spec fn chat_budgets() -> Seq<(nat, nat)> {
    seq![(8, 7600), (6, 5200), (4, 3400), (2, 2000)]
}

/// The prompts for a question, from the widest to the narrowest.
pub open spec fn chat_candidates(
    source: ChatSource,
    prompt: Seq<char>,
    context: ArtifactAiContextOptions,
) -> Seq<Seq<char>> {
    let parts = chunks(
        source.transcript@,
        CHAT_CHUNK_TARGET_CHARS as nat,
        CHAT_CHUNK_OVERLAP_WORDS as nat,
    );
    let asked = join(words(prompt), " "@);
    let places = selected(chunk_scores(parts, asked));
    chat_budgets().map_values(
        |b: (nat, nat)| chat_prompt(source, asked, context, snippets(parts, places, b.0, b.1)),
    )
}

fn write_chat_prompt(
    source: &ChatSource,
    asked: &str,
    context: ArtifactAiContextOptions,
    shown: &str,
) -> (r: String)
    ensures
        r@ == chat_prompt(*source, asked@, context, shown@),
{
    let mut out: String = CHAT_INTRO.to_owned();
    out.append(
        if context.include_timestamps {
            CHAT_WITH_TIMESTAMPS
        } else {
            CHAT_WITHOUT_TIMESTAMPS
        },
    );
    out.append("\n");
    out.append(
        if context.include_speakers {
            CHAT_WITH_SPEAKERS
        } else {
            CHAT_WITHOUT_SPEAKERS
        },
    );
    out.append("\n\nArtifact title: ");
    out.append(trim_text(source.title.as_str()).as_str());
    out.append("\n\nExisting summary:\n");
    out.append(
        truncate_chars(trim_text(source.summary.as_str()).as_str(), CHAT_NOTE_CHARS).as_str(),
    );
    out.append("\n\nExisting FAQs:\n");
    out.append(truncate_chars(trim_text(source.faqs.as_str()).as_str(), CHAT_NOTE_CHARS).as_str());
    out.append("\n\nTranscript snippets:\n");
    out.append(shown);
    out.append("\n");
    out.append(QUESTION_MARK);
    out.append(asked);
    out
}

/// Makes the prompts for a question.
pub fn build_chat_context_candidates(
    source: &ChatSource,
    prompt: &str,
    context: ArtifactAiContextOptions,
) -> (r: Vec<String>)
    ensures
        views(r@) == chat_candidates(*source, prompt@, context),
{
    let parts: Vec<String> = chunk_text_by_words(
        source.transcript.as_str(),
        CHAT_CHUNK_TARGET_CHARS,
        CHAT_CHUNK_OVERLAP_WORDS,
    );
    let asked: String = normalize_whitespace(prompt);
    let scores: Vec<u64> = score_chunks(&parts, asked.as_str());
    assert(nats(scores@).len() == scores@.len());
    assert(views(parts@).len() == parts@.len());
    let places: Vec<usize> = select_chunks(&scores);
    let budgets: [(usize, usize); 4] = [(8, 7600), (6, 5200), (4, 3400), (2, 2000)];
    let mut out: Vec<String> = Vec::new();
    let mut i: usize = 0;
    let ghost want = chat_candidates(*source, prompt@, context);
    while i < 4
        invariant
            i <= 4,
            want == chat_candidates(*source, prompt@, context),
            views(parts@) == chunks(
                source.transcript@,
                CHAT_CHUNK_TARGET_CHARS as nat,
                CHAT_CHUNK_OVERLAP_WORDS as nat,
            ),
            places@.map_values(|i: usize| i as int) == selected(
                chunk_scores(views(parts@), asked@),
            ),
            asked@ == join(words(prompt@), " "@),
            forall|k: int| 0 <= k < places@.len() ==> #[trigger] places@[k] < parts@.len(),
            budgets@ =~= seq![(8usize, 7600usize), (6, 5200), (4, 3400), (2, 2000)],
            views(out@) =~= want.take(i as int),
        decreases 4 - i,
    {
        let ghost prior = views(out@);
        let (max_chunks, max_chars): (usize, usize) = budgets[i];
        let shown: String = write_snippets(&parts, &places, max_chunks, max_chars);
        let text: String = write_chat_prompt(source, asked.as_str(), context, shown.as_str());
        out.push(text);
        proof {
            assert(chat_budgets()[i as int] == (max_chunks as nat, max_chars as nat));
            assert(want[i as int] == text@);
            assert(views(out@) =~= prior.push(text@));
        }
        i = i + 1;
    }
    assert(want.take(4) =~= want);
    out
}

proof fn lemma_rank_follows(scores: Seq<nat>, upto: int, i: int, j: int)
    requires
        0 <= upto <= scores.len(),
        0 <= i < scores.len(),
        0 <= j < scores.len(),
        scores[j] > scores[i],
    ensures
        rank(scores, upto, j) <= rank(scores, upto, i),
    decreases upto,
{
    if upto > 0 {
        lemma_rank_follows(scores, upto - 1, i, j);
    }
}

/// No chunk is shown before one that matches better: where a chunk is shown for its score, so is
/// every chunk with more. Where none matches, the first four are shown, or all when there are fewer.
pub proof fn better_matches_are_shown_first(scores: Seq<nat>, i: int, j: int)
    requires
        0 <= i < scores.len(),
        0 <= j < scores.len(),
    ensures
        selected(scores).contains(i) && scores[i] > 0 && scores[j] > scores[i] ==> selected(
            scores,
        ).contains(j),
        (forall|k: int| 0 <= k < scores.len() ==> #[trigger] scores[k] == 0) ==> selected(scores)
            =~= Seq::new(
            (if scores.len() < 4 {
                scores.len()
            } else {
                4
            }),
            |k: int| k,
        ),
        selected(scores).contains(i) && scores[i] == 0 ==> forall|k: int|
            0 <= k < scores.len() ==> !is_picked(scores, k),
{
    selection_follows_the_scores(scores);
    let n = scores.len() as int;
    lemma_picked(scores, n);
    let list = picked(scores, n);
    if forall|k: int| 0 <= k < scores.len() ==> #[trigger] scores[k] == 0 {
        if list.len() > 0 {
            assert(is_picked(scores, list[0]));
            assert(scores[list[0]] == 0);
        }
    }
    if selected(scores).contains(i) {
        let x = choose|x: int| 0 <= x < selected(scores).len() && selected(scores)[x] == i;
        if scores[i] > 0 && scores[j] > scores[i] {
            lemma_rank_follows(scores, n, i, j);
            if list.len() > 0 {
                assert(list[x] == i);
                assert(is_picked(scores, list[x]));
                assert(is_picked(scores, j));
                assert(selected(scores).contains(j));
            } else {
                lemma_best(scores, n);
                let b = lemma_best(scores, n);
                assert(is_picked(scores, b));
                assert(list.contains(b));
            }
        }
        if scores[i] == 0 && list.len() > 0 {
            assert(is_picked(scores, list[x]));
        }
        if list.len() == 0 {
            assert forall|k: int| 0 <= k < scores.len() implies !is_picked(scores, k) by {
                if is_picked(scores, k) {
                    assert(list.contains(k));
                }
            }
        }
    }
}

proof fn lemma_best(scores: Seq<nat>, upto: int) -> (b: int)
    requires
        0 < upto <= scores.len(),
    ensures
        0 <= b < upto,
        rank(scores, upto, b) == 0,
        forall|k: int| 0 <= k < upto ==> #[trigger] scores[k] <= scores[b],
    decreases upto,
{
    if upto == 1 {
        reveal_with_fuel(rank, 2);
        0
    } else {
        let b = lemma_best(scores, upto - 1);
        if scores[upto - 1] > scores[b] {
            lemma_rank_zero(scores, upto, upto - 1);
            upto - 1
        } else {
            b
        }
    }
}

proof fn lemma_rank_zero(scores: Seq<nat>, upto: int, b: int)
    requires
        0 <= upto <= scores.len(),
        forall|k: int| 0 <= k < upto ==> !outranks(scores, k, b),
    ensures
        rank(scores, upto, b) == 0,
    decreases upto,
{
    if upto > 0 {
        assert(!outranks(scores, upto - 1, b));
        lemma_rank_zero(scores, upto - 1, b);
    }
}

/// The chunks at the first places, each as a line with its number in the transcript.
pub open spec fn numbered(parts: Seq<Seq<char>>, places: Seq<int>, count: nat) -> Seq<Seq<char>> {
    Seq::new(
        count,
        |k: int| "["@ + decimal((places[k] + 1) as nat) + "] "@ + parts[places[k]] + "\n"@,
    )
}

proof fn lemma_pack(
    parts: Seq<Seq<char>>,
    places: Seq<int>,
    done: nat,
    limit: nat,
    packed: Seq<char>,
    max: nat,
) -> (count: nat)
    requires
        done <= limit <= places.len(),
        in_order(packed, numbered(parts, places, done)),
        packed.len() == total_len(numbered(parts, places, done)),
        packed.len() <= max,
    ensures
        ({
            let all = pack(parts, places.subrange(done as int, limit as int), packed, max);
            &&& done <= count <= limit
            &&& in_order(all, numbered(parts, places, count))
            &&& all.len() == total_len(numbered(parts, places, count))
            &&& all.len() <= max
            &&& count < limit ==> total_len(numbered(parts, places, count + 1)) > max
            &&& starts_with(all, packed)
        }),
    decreases limit - done,
{
    let rest = places.subrange(done as int, limit as int);
    let lines = numbered(parts, places, done);
    let more = numbered(parts, places, done + 1);
    if done < limit {
        let line = chunk_line(parts, rest[0]);
        assert(more.drop_last() =~= lines);
        assert(more.last() == line);
        if packed.len() + line.len() > max {
            assert(packed.take(packed.len() as int) =~= packed);
            done
        } else {
            lemma_in_order_push(packed, lines, Seq::empty(), line, Seq::empty());
            assert(packed + Seq::empty() + line + Seq::empty() =~= packed + line);
            assert(lines.push(line) =~= more);
            assert(rest.skip(1) =~= places.subrange(done as int + 1, limit as int));
            let count = lemma_pack(parts, places, done + 1, limit, packed + line, max);
            let all = pack(parts, rest.skip(1), packed + line, max);
            assert(all.take(packed.len() as int) =~= all.take((packed + line).len() as int).take(
                packed.len() as int,
            ));
            assert((packed + line).take(packed.len() as int) =~= packed);
            count
        }
    } else {
        assert(packed.take(packed.len() as int) =~= packed);
        done
    }
}

/// A question is shown as many of the selected chunks as its budget allows: the first `count` ones,
/// whole, in order, each with its number, and nothing else. Where not even the first fits, it is shown
/// the beginning of that one.
pub proof fn snippets_are_the_selected_chunks(
    parts: Seq<Seq<char>>,
    places: Seq<int>,
    max_chunks: nat,
    max_chars: nat,
) -> (count: nat)
    requires
        max_chunks > 0,
        places.len() > 0,
    ensures
        count <= max_chunks,
        count <= places.len(),
        count < max_chunks && count < places.len() ==> total_len(
            numbered(parts, places, count + 1),
        ) > max_chars,
        count > 0 ==> in_order(
            snippets(parts, places, max_chunks, max_chars),
            numbered(parts, places, count),
        ),
        count > 0 ==> snippets(parts, places, max_chunks, max_chars).len() == total_len(
            numbered(parts, places, count),
        ),
        count == 0 ==> starts_with(
            parts[places[0]],
            snippets(parts, places, max_chunks, max_chars),
        ),
        count == 0 && snippets(parts, places, max_chunks, max_chars).len() < max_chars ==> snippets(
            parts,
            places,
            max_chunks,
            max_chars,
        ) == parts[places[0]],
{
    let limit = if places.len() <= max_chunks {
        places.len()
    } else {
        max_chunks
    };
    assert(first_places(places, max_chunks) =~= places.subrange(0, limit as int));
    assert(numbered(parts, places, 0) =~= Seq::<Seq<char>>::empty());
    let none = Seq::<char>::empty();
    let count = lemma_pack(parts, places, 0, limit, none, max_chars);
    let packed = pack(parts, first_places(places, max_chunks), none, max_chars);
    lemma_blank(packed);
    if count == 0 {
        assert(packed.len() == 0);
        assert(trim(packed).len() == 0);
        let first = parts[places[0]];
        let shown = prefix(first, max_chars);
        assert(first.take(shown.len() as int) =~= shown);
    } else {
        let lines = numbered(parts, places, count);
        lemma_in_order_holds(packed, lines, 0);
        reveal_strlit("[");
        let i = choose|i: int| 0 <= i <= packed.len() && starts_with(#[trigger] packed.skip(i), lines[0]);
        assert(lines[0][0] == '[');
        assert(packed.skip(i).take(lines[0].len() as int)[0] == packed[i]);
        assert(!is_white(packed[i]));
        assert(trim(packed).len() > 0);
    }
    count
}

/// Every prompt of a question ends with the question, in one line, and holds the title of the
/// transcript and what is known of it already; each is told whether to name times and speakers.
pub proof fn prompts_hold_the_question(
    source: ChatSource,
    prompt: Seq<char>,
    context: ArtifactAiContextOptions,
    i: int,
)
    requires
        0 <= i < 4,
    ensures
        ({
            let all = chat_candidates(source, prompt, context);
            let p = all[i];
            let asked = join(words(prompt), " "@);
            &&& all.len() == 4
            &&& contains(p, "User question:\n"@)
            &&& ends_with(p, "User question:\n"@ + asked)
            &&& contains(p, "Artifact title: "@ + trim(source.title@))
            &&& contains(p, "Existing summary:\n"@ + prefix(trim(source.summary@), 1400))
            &&& contains(p, "Existing FAQs:\n"@ + prefix(trim(source.faqs@), 1400))
            &&& context.include_timestamps ==> contains(p, "includes a timestamp, cite it"@)
            &&& !context.include_timestamps ==> contains(p, "Do not mention timestamps"@)
            &&& context.include_speakers ==> contains(p, "attribute statements to the relevant speaker"@)
            &&& !context.include_speakers ==> contains(p, "Do not infer or invent speaker attributions"@)
        }),
{
    let parts = chunks(
        source.transcript@,
        CHAT_CHUNK_TARGET_CHARS as nat,
        CHAT_CHUNK_OVERLAP_WORDS as nat,
    );
    let asked = join(words(prompt), " "@);
    let places = selected(chunk_scores(parts, asked));
    let b = chat_budgets()[i];
    let shown = snippets(parts, places, b.0, b.1);
    let p = chat_prompt(source, asked, context, shown);
    assert(chat_candidates(source, prompt, context)[i] == p);
    lemma_prompt_rules(source, asked, context, shown);
    lemma_prompt_material(source, asked, context, shown);
}

proof fn lemma_prompt_rules(
    source: ChatSource,
    asked: Seq<char>,
    context: ArtifactAiContextOptions,
    shown: Seq<char>,
)
    ensures
        ({
            let p = chat_prompt(source, asked, context, shown);
            &&& context.include_timestamps ==> contains(p, "includes a timestamp, cite it"@)
            &&& !context.include_timestamps ==> contains(p, "Do not mention timestamps"@)
            &&& context.include_speakers ==> contains(p, "attribute statements to the relevant speaker"@)
            &&& !context.include_speakers ==> contains(p, "Do not infer or invent speaker attributions"@)
        }),
{
    let times = if context.include_timestamps {
        CHAT_WITH_TIMESTAMPS@
    } else {
        CHAT_WITHOUT_TIMESTAMPS@
    };
    let names = if context.include_speakers {
        CHAT_WITH_SPEAKERS@
    } else {
        CHAT_WITHOUT_SPEAKERS@
    };
    let when = if context.include_timestamps {
        "includes a timestamp, cite it"@
    } else {
        "Do not mention timestamps"@
    };
    let who = if context.include_speakers {
        "attribute statements to the relevant speaker"@
    } else {
        "Do not infer or invent speaker attributions"@
    };
    assert(contains(times, when) && contains(names, who)) by {
        lemma_chat_rules();
    }
    let pieces = chat_pieces(source, asked, times, names, shown);
    lemma_chat_pieces(source, asked, context, shown);
    lemma_run_holds(pieces, 1, when);
    lemma_run_holds(pieces, 3, who);
}

proof fn lemma_behind(gap: Seq<char>, s: Seq<char>)
    ensures
        contains(gap + s, s),
{
    lemma_contains_middle(gap, s, Seq::empty());
    assert(gap + s + Seq::empty() =~= gap + s);
}

proof fn lemma_prompt_material(
    source: ChatSource,
    asked: Seq<char>,
    context: ArtifactAiContextOptions,
    shown: Seq<char>,
)
    ensures
        ({
            let p = chat_prompt(source, asked, context, shown);
            &&& contains(p, "User question:\n"@)
            &&& ends_with(p, "User question:\n"@ + asked)
            &&& contains(p, "Artifact title: "@ + trim(source.title@))
            &&& contains(p, "Existing summary:\n"@ + prefix(trim(source.summary@), 1400))
            &&& contains(p, "Existing FAQs:\n"@ + prefix(trim(source.faqs@), 1400))
        }),
{
    let times = if context.include_timestamps {
        CHAT_WITH_TIMESTAMPS@
    } else {
        CHAT_WITHOUT_TIMESTAMPS@
    };
    let names = if context.include_speakers {
        CHAT_WITH_SPEAKERS@
    } else {
        CHAT_WITHOUT_SPEAKERS@
    };
    let gap = "\n\n"@;
    let title = "Artifact title: "@ + trim(source.title@);
    let summary = "Existing summary:\n"@ + prefix(trim(source.summary@), 1400);
    let faqs = "Existing FAQs:\n"@ + prefix(trim(source.faqs@), 1400);
    let ask = "User question:\n"@ + asked;
    let pieces = chat_pieces(source, asked, times, names, shown);
    lemma_chat_pieces(source, asked, context, shown);
    assert(pieces[4] == gap + title && pieces[5] == gap + summary && pieces[6] == gap + faqs) by {
        lemma_chat_marks();
        assert(pieces[4] =~= gap + title);
        assert(pieces[5] =~= gap + summary);
        assert(pieces[6] =~= gap + faqs);
    }
    lemma_behind(gap, title);
    lemma_behind(gap, summary);
    lemma_behind(gap, faqs);
    lemma_run_holds(pieces, 4, title);
    lemma_run_holds(pieces, 5, summary);
    lemma_run_holds(pieces, 6, faqs);
    assert(pieces[8] == ask);
    assert(contains(ask, "User question:\n"@)) by {
        lemma_contains_middle(Seq::empty(), "User question:\n"@, asked);
        assert(Seq::empty() + "User question:\n"@ + asked =~= ask);
    }
    lemma_run_holds(pieces, 8, "User question:\n"@);
    let p = run(pieces);
    let front = run(pieces.drop_last());
    assert(p == front + ask);
    assert(p.skip(p.len() - ask.len()) =~= ask);
}

spec fn chat_pieces(
    source: ChatSource,
    asked: Seq<char>,
    times: Seq<char>,
    names: Seq<char>,
    shown: Seq<char>,
) -> Seq<Seq<char>> {
    seq![
        CHAT_INTRO@,
        times,
        "\n"@,
        names,
        "\n\nArtifact title: "@ + trim(source.title@),
        "\n\nExisting summary:\n"@ + prefix(trim(source.summary@), 1400),
        "\n\nExisting FAQs:\n"@ + prefix(trim(source.faqs@), 1400),
        "\n\nTranscript snippets:\n"@ + shown + "\n"@,
        QUESTION_MARK@ + asked,
    ]
}

proof fn lemma_chat_pieces(
    source: ChatSource,
    asked: Seq<char>,
    context: ArtifactAiContextOptions,
    shown: Seq<char>,
)
    ensures
        chat_prompt(source, asked, context, shown) == run(
            chat_pieces(
                source,
                asked,
                if context.include_timestamps {
                    CHAT_WITH_TIMESTAMPS@
                } else {
                    CHAT_WITHOUT_TIMESTAMPS@
                },
                if context.include_speakers {
                    CHAT_WITH_SPEAKERS@
                } else {
                    CHAT_WITHOUT_SPEAKERS@
                },
                shown,
            ),
        ),
{
    let times = if context.include_timestamps {
        CHAT_WITH_TIMESTAMPS@
    } else {
        CHAT_WITHOUT_TIMESTAMPS@
    };
    let names = if context.include_speakers {
        CHAT_WITH_SPEAKERS@
    } else {
        CHAT_WITHOUT_SPEAKERS@
    };
    let q = chat_pieces(source, asked, times, names, shown);
    reveal_with_fuel(run, 10);
    assert(q.drop_last() =~= q.take(8));
    assert(q.take(8).drop_last() =~= q.take(7));
    assert(q.take(7).drop_last() =~= q.take(6));
    assert(q.take(6).drop_last() =~= q.take(5));
    assert(q.take(5).drop_last() =~= q.take(4));
    assert(q.take(4).drop_last() =~= q.take(3));
    assert(q.take(3).drop_last() =~= q.take(2));
    assert(q.take(2).drop_last() =~= q.take(1));
    assert(run(q.take(1)) == q[0]);
    assert(run(q.take(2)) == q[0] + q[1]);
    assert(run(q.take(3)) == q[0] + q[1] + q[2]);
    assert(run(q.take(4)) == q[0] + q[1] + q[2] + q[3]);
    assert(run(q.take(5)) == q[0] + q[1] + q[2] + q[3] + q[4]);
    assert(run(q.take(6)) == q[0] + q[1] + q[2] + q[3] + q[4] + q[5]);
    assert(run(q.take(7)) == q[0] + q[1] + q[2] + q[3] + q[4] + q[5] + q[6]);
    assert(run(q.take(8)) == q[0] + q[1] + q[2] + q[3] + q[4] + q[5] + q[6] + q[7]);
    assert(run(q) == q[0] + q[1] + q[2] + q[3] + q[4] + q[5] + q[6] + q[7] + q[8]);
    assert(chat_prompt(source, asked, context, shown) =~= q[0] + q[1] + q[2] + q[3] + q[4] + q[5]
        + q[6] + q[7] + q[8]);
}

proof fn lemma_chat_marks()
    ensures
        "\n\nArtifact title: "@ == "\n\n"@ + "Artifact title: "@,
        "\n\nExisting summary:\n"@ == "\n\n"@ + "Existing summary:\n"@,
        "\n\nExisting FAQs:\n"@ == "\n\n"@ + "Existing FAQs:\n"@,
{
    reveal_strlit("\n\n");
    reveal_strlit("\n\nArtifact title: ");
    reveal_strlit("Artifact title: ");
    reveal_strlit("\n\nExisting summary:\n");
    reveal_strlit("Existing summary:\n");
    reveal_strlit("\n\nExisting FAQs:\n");
    reveal_strlit("Existing FAQs:\n");
    assert("\n\nArtifact title: "@ =~= "\n\n"@ + "Artifact title: "@);
    assert("\n\nExisting summary:\n"@ =~= "\n\n"@ + "Existing summary:\n"@);
    assert("\n\nExisting FAQs:\n"@ =~= "\n\n"@ + "Existing FAQs:\n"@);
}

proof fn lemma_chat_rules()
    ensures
        contains(CHAT_WITH_TIMESTAMPS@, "includes a timestamp, cite it"@),
        contains(CHAT_WITHOUT_TIMESTAMPS@, "Do not mention timestamps"@),
        contains(CHAT_WITH_SPEAKERS@, "attribute statements to the relevant speaker"@),
        contains(CHAT_WITHOUT_SPEAKERS@, "Do not infer or invent speaker attributions"@),
{
    reveal_strlit("When a relevant snippet includes a timestamp, cite it in the answer.");
    reveal_strlit("includes a timestamp, cite it");
    lemma_found(CHAT_WITH_TIMESTAMPS@, "includes a timestamp, cite it"@, 24);
    reveal_strlit(
        "Do not mention timestamps unless the user explicitly asks for unavailable timing.",
    );
    reveal_strlit("Do not mention timestamps");
    lemma_found(CHAT_WITHOUT_TIMESTAMPS@, "Do not mention timestamps"@, 0);
    reveal_strlit("When speaker labels are present, attribute statements to the relevant speaker.");
    reveal_strlit("attribute statements to the relevant speaker");
    lemma_found(CHAT_WITH_SPEAKERS@, "attribute statements to the relevant speaker"@, 33);
    reveal_strlit("Do not infer or invent speaker attributions.");
    reveal_strlit("Do not infer or invent speaker attributions");
    lemma_found(CHAT_WITHOUT_SPEAKERS@, "Do not infer or invent speaker attributions"@, 0);
}

/// With the conversation before it, every prompt still ends with the question.
pub proof fn the_question_stays_last(
    source: ChatSource,
    prompt: Seq<char>,
    context: ArtifactAiContextOptions,
    messages: Seq<MessageView>,
    summary: Option<Seq<char>>,
    i: int,
)
    requires
        0 <= i < 4,
    ensures
        ({
            let all = with_history(chat_candidates(source, prompt, context), messages, summary);
            &&& all.len() == 4
            &&& ends_with(all[i], join(words(prompt), " "@))
        }),
{
    let asked = join(words(prompt), " "@);
    let before = chat_candidates(source, prompt, context);
    prompts_hold_the_question(source, prompt, context, i);
    let p = before[i];
    let ask = "User question:\n"@ + asked;
    assert(p.skip(p.len() - ask.len()) == ask);
    let head = p.take(p.len() - asked.len());
    assert(p =~= head + asked) by {
        assert forall|k: int| 0 <= k < asked.len() implies p[p.len() - asked.len() + k] == asked[k] by {
            assert(ask[ask.len() - asked.len() + k] == asked[k]);
            assert(p.skip(p.len() - ask.len())[ask.len() - asked.len() + k] == p[p.len()
                - asked.len() + k]);
        }
    }
    assert(p.skip(p.len() - asked.len()) =~= asked);
    if turns(messages).completed.len() > 0 {
        let mark = QUESTION_MARK@;
        reveal_strlit("User question:\n");
        let told = history(messages, summary) + mark;
        words_are_all_that_is_not_white(prompt);
        reveal_strlit(" ");
        assert forall|k: int| 0 <= k < words(prompt).len() implies !(#[trigger] words(
            prompt,
        )[k]).contains('\n') by {
            if words(prompt)[k].contains('\n') {
                let x = choose|x: int| 0 <= x < words(prompt)[k].len() && words(prompt)[k][x] == '\n';
                assert(!is_white(words(prompt)[k][x]));
            }
        }
        assert(!" "@.contains('\n'));
        lemma_join_chars(words(prompt), " "@, '\n');
        assert(mark.last() == '\n');
        assert forall|k: int| 0 <= k < asked.len() implies #[trigger] asked[k] != mark.last() by {
            if asked[k] == '\n' {
                assert(asked.contains('\n'));
            }
        }
        replacing_keeps_the_tail(head, asked, mark, told);
        let r = replace(p, mark, told);
        assert(r == replace(head, mark, told) + asked);
        assert(r.skip(r.len() - asked.len()) =~= asked);
    }
}

/// Every prompt of a question about a short transcript shows all of it, whatever is asked.
#[verifier::rlimit(40)]
pub proof fn a_short_transcript_is_shown_whole(
    source: ChatSource,
    prompt: Seq<char>,
    context: ArtifactAiContextOptions,
    i: int,
)
    requires
        0 <= i < 4,
        words(source.transcript@).len() > 0,
        join(words(source.transcript@), " "@).len() <= 900,
    ensures
        contains(
            chat_candidates(source, prompt, context)[i],
            "Transcript snippets:\n[1] "@ + join(words(source.transcript@), " "@),
        ),
{
    let text = join(words(source.transcript@), " "@);
    let target = CHAT_CHUNK_TARGET_CHARS as nat;
    let overlap = CHAT_CHUNK_OVERLAP_WORDS as nat;
    a_short_text_is_one_chunk(source.transcript@, target, overlap);
    let parts = chunks(source.transcript@, target, overlap);
    let asked = join(words(prompt), " "@);
    let scores = chunk_scores(parts, asked);
    let places = selected(scores);
    assert(scores.len() == 1);
    reveal_with_fuel(picked, 2);
    assert(places =~= seq![0int]);
    let b = chat_budgets()[i];
    let shown = snippets(parts, places, b.0, b.1);
    reveal_with_fuel(pack, 3);
    let line = chunk_line(parts, 0);
    reveal_strlit("[");
    reveal_strlit("] ");
    reveal_strlit("\n");
    reveal_with_fuel(decimal, 2);
    assert(decimal(1) =~= seq!['1']);
    assert(line.len() == text.len() + 5);
    assert(first_places(places, b.0) =~= seq![0int]);
    let packed = pack(parts, first_places(places, b.0), Seq::empty(), b.1);
    assert(Seq::<char>::empty() + line =~= line);
    assert(seq![0int].skip(1) =~= Seq::<int>::empty());
    assert(packed =~= line);
    lemma_blank(packed);
    assert(packed[0] == '[' && !is_white(packed[0]));
    assert(shown == line);
    let p = chat_candidates(source, prompt, context)[i];
    assert(p == chat_prompt(source, asked, context, shown));
    reveal_strlit("\n\nTranscript snippets:\n");
    reveal_strlit("Transcript snippets:\n[1] ");
    let want = "Transcript snippets:\n[1] "@ + text;
    let tail = "\n"@ + "\n"@ + QUESTION_MARK@ + asked;
    let full = "\n\nTranscript snippets:\n"@ + shown + "\n"@ + QUESTION_MARK@ + asked;
    assert(full =~= seq!['\n', '\n'] + want + tail);
    lemma_contains_middle(seq!['\n', '\n'], want, tail);
    let head = p.take(p.len() - full.len());
    assert(p =~= head + full + Seq::empty());
    lemma_contains_around(head, full, Seq::empty(), want);
}

/// A chunk that holds the whole question counts four points for that; one that holds neither the
/// question nor any of its tokens counts nothing.
pub proof fn the_whole_question_counts_four_points(
    chunk: Seq<char>,
    query: Seq<char>,
    tokens: Seq<Seq<char>>,
)
    requires
        forall|i: int| 0 <= i < tokens.len() ==> !contains(chunk, #[trigger] tokens[i]),
    ensures
        chunk_score(chunk, query, tokens) == if query.len() > 0 && contains(chunk, query) {
            4 * 0x400_0000
        } else {
            0nat
        },
    decreases tokens.len(),
{
    if tokens.len() > 0 {
        let front = tokens.drop_last();
        assert forall|i: int| 0 <= i < front.len() implies !contains(chunk, #[trigger] front[i]) by {
            assert(front[i] == tokens[i]);
        }
        the_whole_question_counts_four_points(chunk, query, front);
        a_token_is_hit_where_it_occurs(chunk, tokens.last());
        assert(!contains(chunk, tokens[tokens.len() - 1]));
    }
}

// ---------------------------------------------------------------------------
// The course of a question
// ---------------------------------------------------------------------------

/// Why a question is refused before it is stored, if it is.
pub open spec fn question_problem(found: bool, prompt: Seq<char>) -> Option<CommandErrorView> {
    if !found {
        Some(command_error("not_found"@, "artifact not found"@))
    } else if trim(prompt).len() == 0 {
        Some(command_error("validation"@, "chat prompt cannot be empty"@))
    } else {
        None
    }
}

/// The question that is stored.
pub open spec fn question_of(payload: ChatArtifactPayload) -> MessageView {
    MessageView {
        artifact_id: payload.id@,
        role: "user"@,
        text: trim(payload.prompt@),
        origin: payload.origin@,
        status: "complete"@,
        provider: None,
    }
}

/// Begins a question: checks it, and gives the message to store.
pub fn chat_artifact(payload: &ChatArtifactPayload, found: bool) -> (r: Result<
    ArtifactChatMessage,
    CommandError,
>)
    ensures
        match question_problem(found, payload.prompt@) {
            Some(e) => r is Err && r->Err_0@ == e,
            None => r is Ok && r->Ok_0@ == question_of(*payload),
        },
        r is Ok <==> found && inked(payload.prompt@).len() > 0,
        r matches Ok(m) ==> {
            &&& m.artifact_id@ == payload.id@
            &&& m.origin@ == payload.origin@
            &&& contains(payload.prompt@, m.text@)
            &&& inked(m.text@) == inked(payload.prompt@)
            &&& is_question(m@)
        },
{
    proof {
        trimming_takes_white_only(payload.prompt@);
        lemma_inked_edge(trim(payload.prompt@));
    }
    if !found {
        return Err(CommandError::new("not_found", "artifact not found"));
    }
    let prompt: String = trim_text(payload.prompt.as_str());
    if prompt.as_str().is_empty() {
        return Err(CommandError::new("validation", "chat prompt cannot be empty"));
    }
    Ok(
        ArtifactChatMessage {
            artifact_id: payload.id.clone(),
            role: "user".to_owned(),
            text: prompt,
            origin: payload.origin.clone(),
            status: "complete".to_owned(),
            provider: None,
        },
    )
}

/// The reply that records a failure.
pub open spec fn failure_reply(question: MessageView, message: Seq<char>) -> MessageView {
    MessageView {
        artifact_id: question.artifact_id,
        role: "assistant"@,
        text: message,
        origin: question.origin,
        status: "error"@,
        provider: None,
    }
}

/// The reply that records an answer.
pub open spec fn answer_reply(
    question: MessageView,
    answer: Seq<char>,
    provider: Option<Seq<char>>,
) -> MessageView {
    MessageView {
        artifact_id: question.artifact_id,
        role: "assistant"@,
        text: answer,
        origin: question.origin,
        status: "complete"@,
        provider,
    }
}

fn make_failure_reply(question: &ArtifactChatMessage, message: &str) -> (r: ArtifactChatMessage)
    ensures
        r@ == failure_reply(question@, message@),
{
    ArtifactChatMessage {
        artifact_id: question.artifact_id.clone(),
        role: "assistant".to_owned(),
        text: message.to_owned(),
        origin: question.origin.clone(),
        status: "error".to_owned(),
        provider: None,
    }
}

/// A question that cannot be put to any AI: what is stored, and what is reported.
pub struct UnaskedQuestion {
    pub reply: ArtifactChatMessage,
    pub error: CommandError,
}

/// Checks that there is an AI to ask. `unavailable` is what is reported when none is set up.
pub fn check_chat_providers(
    question: &ArtifactChatMessage,
    providers: &Result<usize, String>,
    unavailable: CommandError,
) -> (r: Result<(), UnaskedQuestion>)
    ensures
        match provider_problem(*providers, unavailable@) {
            None => r is Ok,
            Some(e) => r is Err && r->Err_0.error@ == e && r->Err_0.reply@ == failure_reply(
                question@,
                e.message,
            ),
        },
{
    match check_providers(providers, unavailable) {
        Ok(()) => Ok(()),
        Err(error) => {
            let reply: ArtifactChatMessage = make_failure_reply(question, error.message.as_str());
            Err(UnaskedQuestion { reply, error })
        },
    }
}

/// The summary that a question is told: the one made of the conversation now, else the stored one.
pub open spec fn told_summary(
    messages: Seq<MessageView>,
    stored: Option<Seq<char>>,
) -> Option<Seq<char>> {
    match rolling_summary(messages) {
        Some(s) => Some(s),
        None => stored,
    }
}

/// Makes the prompts of a question, with the conversation before it.
pub fn chat_requests(
    source: &ChatSource,
    question: &ArtifactChatMessage,
    context: ArtifactAiContextOptions,
    messages: &Vec<ArtifactChatMessage>,
    stored_summary: &Option<String>,
) -> (r: Vec<String>)
    ensures
        views(r@) == with_history(
            chat_candidates(*source, question.text@, context),
            message_views(messages@),
            told_summary(message_views(messages@), opt_view(*stored_summary)),
        ),
{
    let candidates: Vec<String> = build_chat_context_candidates(
        source,
        question.text.as_str(),
        context,
    );
    match build_rolling_chat_summary(messages) {
        Some(summary) => add_conversation_context(candidates, messages, Some(summary.as_str())),
        None => match stored_summary {
            Some(summary) => add_conversation_context(candidates, messages, Some(summary.as_str())),
            None => add_conversation_context(candidates, messages, None),
        },
    }
}

/// The reply that is stored for an outcome.
pub open spec fn reply_for(
    question: MessageView,
    outcome: Result<Seq<char>, Seq<char>>,
    provider: Option<Seq<char>>,
) -> MessageView {
    match outcome {
        Ok(answer) => answer_reply(question, answer, provider),
        Err(message) => failure_reply(question, message),
    }
}

/// Makes the reply to a question: the answer of the AI, or what its error says.
pub fn settle_chat(
    question: &ArtifactChatMessage,
    outcome: Result<&str, &str>,
    first_provider: &Option<String>,
) -> (r: ArtifactChatMessage)
    ensures
        r@ == reply_for(
            question@,
            (match outcome {
                Ok(a) => Ok(a@),
                Err(e) => Err(e@),
            }),
            opt_view(*first_provider),
        ),
        r.artifact_id@ == question.artifact_id@,
        r.origin@ == question.origin@,
        r.role@ == "assistant"@,
        outcome matches Ok(a) ==> r.text@ == a@ && r.status@ == "complete"@ && opt_view(r.provider)
            == opt_view(*first_provider),
        outcome matches Err(e) ==> r.text@ == e@ && r.status@ == "error"@ && r.provider is None,
{
    match outcome {
        Ok(answer) => ArtifactChatMessage {
            artifact_id: question.artifact_id.clone(),
            role: "assistant".to_owned(),
            text: answer.to_owned(),
            origin: question.origin.clone(),
            status: "complete".to_owned(),
            provider: first_provider.clone(),
        },
        Err(message) => make_failure_reply(question, message),
    }
}

/// The conversation after a question that was stored gets exactly one reply, and no question waits
/// when none did before: the question becomes a turn when it was answered, and leaves the turns as
/// they were when it failed.
pub proof fn every_stored_question_gets_one_reply(
    messages: Seq<MessageView>,
    payload: ChatArtifactPayload,
    outcome: Result<Seq<char>, Seq<char>>,
    provider: Option<Seq<char>>,
)
    requires
        turns(messages).pending.len() == 0,
        question_problem(true, payload.prompt@) is None,
    ensures
        ({
            let question = question_of(payload);
            let after = turns(messages.push(question).push(reply_for(question, outcome, provider)));
            &&& after.pending.len() == 0
            &&& after.completed == if outcome is Ok {
                turns(messages).completed + seq![messages.len() as int, messages.len() as int + 1]
            } else {
                turns(messages).completed
            }
        }),
{
    reveal_strlit("error");
    reveal_strlit("complete");
    assert("error"@.len() != "complete"@.len());
    let question = question_of(payload);
    a_settled_question_leaves_none_waiting(
        messages,
        question,
        reply_for(question, outcome, provider),
    );
}

/// What older messages of this chat came to goes before the summary that is stored.
pub proof fn this_chat_goes_before_the_stored_summary(
    messages: Seq<MessageView>,
    stored: Option<Seq<char>>,
)
    ensures
        rolling_summary(messages) is Some ==> told_summary(messages, stored) == rolling_summary(
            messages,
        ),
        rolling_summary(messages) is None ==> told_summary(messages, stored) == stored,
        turns(messages).completed.len() > 12 ==> rolling_summary(messages) is Some,
        turns(messages).completed.len() <= 12 ==> told_summary(messages, stored) == stored,
{
}

/// A question that cannot be asked is answered in its own conversation, as an error that says why.
pub proof fn an_unasked_question_is_answered(question: MessageView, message: Seq<char>)
    ensures
        ({
            let reply = failure_reply(question, message);
            &&& reply.artifact_id == question.artifact_id
            &&& reply.origin == question.origin
            &&& reply.role == "assistant"@
            &&& reply.status == "error"@
            &&& reply.text == message
            &&& reply.provider is None
        }),
{
}

/// Every chunk is scored for itself, without regard to the case of its letters.
pub proof fn every_chunk_is_scored(parts: Seq<Seq<char>>, asked: Seq<char>, i: int)
    requires
        0 <= i < parts.len(),
    ensures
        chunk_scores(parts, asked).len() == parts.len(),
        chunk_scores(parts, asked)[i] == chunk_score(
            lowercase(parts[i]),
            lowercase(asked),
            search_tokens(asked),
        ),
{
}

proof fn lemma_falling_rank(scores: Seq<nat>, upto: int, i: int)
    requires
        0 <= upto <= scores.len(),
        0 <= i < scores.len(),
        forall|a: int, b: int|
            0 <= a < b < scores.len() ==> #[trigger] scores[a] > #[trigger] scores[b],
    ensures
        rank(scores, upto, i) == if upto < i { upto } else { i },
    decreases upto,
{
    if upto > 0 {
        lemma_falling_rank(scores, upto - 1, i);
    }
}

/// Of chunks that match ever less, exactly the first ten are shown.
pub proof fn the_ten_best_matches_are_shown(scores: Seq<nat>, i: int)
    requires
        0 <= i < scores.len(),
        forall|a: int, b: int|
            0 <= a < b < scores.len() ==> #[trigger] scores[a] > #[trigger] scores[b],
        scores.last() > 0,
    ensures
        selected(scores).contains(i) <==> i < 10,
{
    let n = scores.len() as int;
    lemma_falling_rank(scores, n, i);
    lemma_falling_rank(scores, n, 0);
    assert(scores[i] > 0) by {
        if i < n - 1 {
            assert(scores[i] > scores[n - 1]);
        }
    }
    assert(scores[0] > 0) by {
        if n > 1 {
            assert(scores[0] > scores[n - 1]);
        }
    }
    selection_follows_the_scores(scores);
    assert(is_picked(scores, 0));
    if selected(scores).contains(i) {
        let k = choose|k: int| 0 <= k < selected(scores).len() && selected(scores)[k] == i;
        assert(is_picked(scores, selected(scores)[k]));
    }
    if i < 10 {
        assert(is_picked(scores, i));
        assert(selected(scores).contains(i));
    }
}

proof fn lemma_equal_rank(scores: Seq<nat>, upto: int, i: int, j: int)
    requires
        0 <= upto <= scores.len(),
        0 <= j < i < scores.len(),
        scores[j] == scores[i],
    ensures
        rank(scores, upto, j) <= rank(scores, upto, i),
    decreases upto,
{
    if upto > 0 {
        lemma_equal_rank(scores, upto - 1, i, j);
    }
}

/// Of chunks that match alike the earlier ones are shown.
pub proof fn earlier_matches_go_first(scores: Seq<nat>, i: int, j: int)
    requires
        0 <= j < i < scores.len(),
        scores[j] == scores[i],
        scores[i] > 0,
        selected(scores).contains(i),
    ensures
        selected(scores).contains(j),
{
    let n = scores.len() as int;
    lemma_equal_rank(scores, n, i, j);
    selection_follows_the_scores(scores);
    let b = lemma_best(scores, n);
    assert(scores[i] <= scores[b]);
    assert(is_picked(scores, b));
    let k = choose|k: int| 0 <= k < selected(scores).len() && selected(scores)[k] == i;
    assert(is_picked(scores, selected(scores)[k]));
    assert(is_picked(scores, j));
    assert(selected(scores).contains(j));
}

/// A token that a chunk holds counts a point, and fifteen hundredths of one for each of its first six
/// occurrences, to the precision that scores are held with.
pub proof fn a_token_counts_a_point_and_more_for_each_hit(
    chunk: Seq<char>,
    query: Seq<char>,
    token: Seq<char>,
)
    requires
        occurrences(chunk, token) > 0,
        query.len() == 0 || !contains(chunk, query),
    ensures
        ({
            let hits = if occurrences(chunk, token) < 6 {
                occurrences(chunk, token)
            } else {
                6
            };
            let exact = 0x400_0000 + hits * 10_066_330;
            let score = chunk_score(chunk, query, seq![token]);
            score - exact <= 16 && exact - score <= 16
        }),
{
    let hits = counted(occurrences(chunk, token));
    let tokens = seq![token];
    assert(tokens.drop_last() =~= Seq::<Seq<char>>::empty());
    reveal_with_fuel(tokens_score, 2);
    let a = as_single(SCORE_POINT as nat);
    let b = as_single(hits * TOKEN_HIT_SCORE as nat);
    single_precision_is_near(SCORE_POINT as nat);
    single_precision_is_near(hits * TOKEN_HIT_SCORE as nat);
    single_precision_is_near(a + b);
    assert(chunk_score(chunk, query, tokens) == as_single(a + b));
}

/// A token is counted once for each time that it is met, and what it was met in is not counted again.
pub proof fn a_token_is_counted_each_time(p: Seq<char>, rest: Seq<char>, c: char)
    requires
        p.len() > 0,
    ensures
        occurrences(p + rest, p) == 1 + occurrences(rest, p),
        !starts_with(seq![c] + rest, p) ==> occurrences(seq![c] + rest, p) == occurrences(rest, p),
{
    let s = p + rest;
    assert(s.take(p.len() as int) =~= p);
    assert(s.skip(p.len() as int) =~= rest);
    assert((seq![c] + rest).skip(1) =~= rest);
}

} // verus!
