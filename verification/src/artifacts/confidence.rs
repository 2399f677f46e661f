//! Places of a transcript that the speech engine was least sure of.

use vstd::prelude::*;
use vstd::string::*;

use crate::artifacts::export::segments::goes_forward;
use crate::order::{
    an_order_is_sorted_and_stable, goes_before, lemma_order_places, ordered, places, stable_order,
};
use crate::text::{
    a_join_holds_its_parts_in_order, contains, decimal, ends_with, in_order, inked, join, join_texts,
    lemma_contains_around, lemma_contains_middle, lemma_contains_through, lemma_in_order_after,
    lemma_inked_edge, lowercase,
    lowercase_text, opt_view, push_decimal, same_text, starts_with, text_starts_with, trim, trim_text,
    trimming_takes_white_only, views,
};

verus! {

/// The words of context on either side of a span.
pub const LOW_CONFIDENCE_CONTEXT_RADIUS_WORDS: usize = 3;

/// The most spans that a prompt names.
pub const MAX_LOW_CONFIDENCE_PROMPT_SPANS: usize = 10;

/// Whether a token is a marker of the speech engine, not a word.
pub open spec fn is_control_token(token: Seq<char>) -> bool {
    starts_with(token, "[_"@) && token.last() == ']'
}

/// Tells a marker of the speech engine from a word.
pub fn is_whisper_control_token(token_text: &str) -> (r: bool)
    ensures
        r == is_control_token(token_text@),
{
    if !text_starts_with(token_text, "[_") {
        return false;
    }
    proof {
        reveal_strlit("[_");
        assert("[_"@.len() == 2);
    }
    let len: usize = token_text.unicode_len();
    token_text.get_char(len - 1) == ']'
}

/// The text of a word of a timeline, if it is one.
pub open spec fn word_text(value: Seq<char>) -> Option<Seq<char>> {
    let t = trim(value);
    if t.len() == 0 || is_control_token(t) {
        None
    } else {
        Some(t)
    }
}

/// Reads a word of a timeline.
pub fn normalize_timeline_word_text(value: &str) -> (r: Option<String>)
    ensures
        opt_view(r) == word_text(value@),
{
    let trimmed: String = trim_text(value);
    if trimmed.as_str().is_empty() || is_whisper_control_token(trimmed.as_str()) {
        None
    } else {
        Some(trimmed)
    }
}

/// A word of a timeline, with what its confidence says. A word without a confidence neither starts
/// nor continues a span.
#[derive(Debug)]
pub struct TimelineWord {
    pub text: String,
    /// Its confidence is low enough to start a span.
    pub starts_span: bool,
    /// Its confidence is low enough to continue a span.
    pub continues_span: bool,
    /// When it was said, or when its segment starts.
    pub time_label: Option<String>,
}

/// The content of a word.
pub struct WordView {
    pub place: int,
    pub text: Seq<char>,
    pub starts_span: bool,
    pub continues_span: bool,
    pub time_label: Option<Seq<char>>,
}

/// The words among the first `n` tokens of a segment.
pub open spec fn kept_words(tokens: Seq<TimelineWord>, n: int) -> Seq<WordView>
    decreases n,
{
    if n <= 0 {
        Seq::empty()
    } else {
        let before = kept_words(tokens, n - 1);
        let token = tokens[n - 1];
        match word_text(token.text@) {
            Some(text) => before.push(
                WordView {
                    place: n - 1,
                    text,
                    starts_span: token.starts_span,
                    continues_span: token.continues_span,
                    time_label: opt_view(token.time_label),
                },
            ),
            None => before,
        }
    }
}

/// Every token that is a word is kept, in order, with its place, its trimmed text and what its confidence
/// says; blank tokens and markers of the speech engine are left out.
pub proof fn words_of_a_segment_are_kept(tokens: Seq<TimelineWord>, n: int) -> (at: Seq<int>)
    requires
        0 <= n <= tokens.len(),
    ensures
        at.len() == kept_words(tokens, n).len(),
        goes_forward(at, n),
        forall|k: int|
            0 <= k < at.len() ==> {
                let w = kept_words(tokens, n)[k];
                let t = tokens[#[trigger] at[k]];
                &&& w.place == at[k]
                &&& w.text == trim(t.text@)
                &&& w.starts_span == t.starts_span
                &&& w.continues_span == t.continues_span
                &&& w.time_label == opt_view(t.time_label)
            },
        forall|j: int|
            0 <= j < n && !at.contains(j) ==> inked((#[trigger] tokens[j]).text@).len() == 0
                || is_control_token(trim(tokens[j].text@)),
    decreases n,
{
    if n == 0 {
        Seq::empty()
    } else {
        let before = words_of_a_segment_are_kept(tokens, n - 1);
        let token = tokens[n - 1];
        trimming_takes_white_only(token.text@);
        lemma_inked_edge(trim(token.text@));
        let at = if word_text(token.text@) is Some {
            before.push(n - 1)
        } else {
            before
        };
        assert forall|k: int| 0 <= k < at.len() implies ({
            let w = kept_words(tokens, n)[k];
            let t = tokens[#[trigger] at[k]];
            &&& w.place == at[k]
            &&& w.text == trim(t.text@)
            &&& w.starts_span == t.starts_span
            &&& w.continues_span == t.continues_span
            &&& w.time_label == opt_view(t.time_label)
        }) by {
            if k < before.len() {
                assert(at[k] == before[k]);
            }
        }
        assert forall|j: int| 0 <= j < n && !at.contains(j) implies inked(
            (#[trigger] tokens[j]).text@,
        ).len() == 0 || is_control_token(trim(tokens[j].text@)) by {
            if j < n - 1 {
                if before.contains(j) {
                    let k = choose|k: int| 0 <= k < before.len() && before[k] == j;
                    assert(at[k] == j);
                }
            } else if word_text(token.text@) is Some {
                assert(at[before.len() as int] == j);
            }
        }
        assert forall|k: int, l: int| 0 <= k < l < at.len() implies #[trigger] at[k]
            < #[trigger] at[l] by {
            if l < before.len() {
                assert(before[k] < before[l]);
            } else {
                assert(0 <= before[k] < n - 1);
            }
        }
        assert forall|k: int| 0 <= k < at.len() implies 0 <= #[trigger] at[k] < n by {
            if k < before.len() {
                assert(0 <= before[k] < n - 1);
            }
        }
        at
    }
}

/// A span of words that the speech engine was not sure of.
#[derive(Debug)]
pub struct LowConfidenceSpan {
    /// The segment that it stands in.
    pub segment: usize,
    /// The tokens of the segment that it is made of.
    pub tokens: Vec<usize>,
    pub suspect_text: String,
    pub excerpt: String,
    pub time_label: Option<String>,
}

/// The content of a [`LowConfidenceSpan`].
pub struct SpanView {
    pub segment: int,
    pub tokens: Seq<int>,
    pub suspect_text: Seq<char>,
    pub excerpt: Seq<char>,
    pub time_label: Option<Seq<char>>,
}

impl View for LowConfidenceSpan {
    type V = SpanView;

    open spec fn view(&self) -> SpanView {
        SpanView {
            segment: self.segment as int,
            tokens: places(self.tokens@),
            suspect_text: self.suspect_text@,
            excerpt: self.excerpt@,
            time_label: opt_view(self.time_label),
        }
    }
}

/// The contents of a list of spans.
pub open spec fn span_views(v: Seq<LowConfidenceSpan>) -> Seq<SpanView> {
    v.map_values(|s: LowConfidenceSpan| s@)
}

/// Where the span that holds the words up to `end` ends.
pub open spec fn span_end(ws: Seq<WordView>, end: int) -> int
    decreases ws.len() - end,
{
    if 0 <= end < ws.len() && ws[end].continues_span {
        span_end(ws, end + 1)
    } else {
        end
    }
}

proof fn lemma_span_end(ws: Seq<WordView>, end: int)
    requires
        0 <= end <= ws.len(),
    ensures
        end <= span_end(ws, end) <= ws.len(),
        forall|k: int| end <= k < span_end(ws, end) ==> (#[trigger] ws[k]).continues_span,
        span_end(ws, end) < ws.len() ==> !ws[span_end(ws, end)].continues_span,
    decreases ws.len() - end,
{
    if end < ws.len() && ws[end].continues_span {
        lemma_span_end(ws, end + 1);
    }
}

/// The texts of words `a` to `b`.
pub open spec fn words_between(ws: Seq<WordView>, a: int, b: int) -> Seq<char> {
    join(ws.subrange(a, b).map_values(|w: WordView| w.text), " "@)
}

/// The span from word `start` to word `end`, with its context.
pub open spec fn span_of(ws: Seq<WordView>, segment: int, start: int, end: int) -> SpanView {
    let radius = LOW_CONFIDENCE_CONTEXT_RADIUS_WORDS as int;
    let from = if start < radius {
        0
    } else {
        start - radius
    };
    let to = if end + radius > ws.len() {
        ws.len() as int
    } else {
        end + radius
    };
    SpanView {
        segment,
        tokens: ws.subrange(start, end).map_values(|w: WordView| w.place),
        suspect_text: words_between(ws, start, end),
        excerpt: words_between(ws, from, to),
        time_label: match ws[start].time_label {
            Some(t) if t.len() > 0 => Some(t),
            _ => None,
        },
    }
}

/// The spans of a segment from word `from` on: each starts at a word of low confidence, and goes on
/// as long as the confidence does not recover.
pub open spec fn spans_from(ws: Seq<WordView>, segment: int, from: int) -> Seq<SpanView>
    decreases ws.len() - from,
    via spans_from_decreases
{
    if !(0 <= from < ws.len()) {
        Seq::empty()
    } else if !ws[from].starts_span {
        spans_from(ws, segment, from + 1)
    } else {
        let end = span_end(ws, from + 1);
        seq![span_of(ws, segment, from, end)] + spans_from(ws, segment, end)
    }
}

#[via_fn]
proof fn spans_from_decreases(ws: Seq<WordView>, segment: int, from: int) {
    if 0 <= from < ws.len() {
        lemma_span_end(ws, from + 1);
    }
}

/// The spans of the first `n` segments.
pub open spec fn all_spans(segments: Seq<Vec<TimelineWord>>, n: int) -> Seq<SpanView>
    decreases n,
{
    if n <= 0 {
        Seq::empty()
    } else {
        all_spans(segments, n - 1) + spans_from(
            kept_words(segments[n - 1]@, segments[n - 1]@.len() as int),
            n - 1,
            0,
        )
    }
}

/// A word that was kept.
struct KeptWord {
    place: usize,
    text: String,
}

spec fn agrees(kept: Seq<KeptWord>, ws: Seq<WordView>) -> bool {
    &&& kept.len() == ws.len()
    &&& forall|i: int|
        0 <= i < ws.len() ==> (#[trigger] kept[i]).text@ == ws[i].text && kept[i].place
            == ws[i].place
}

fn keep_words(tokens: &Vec<TimelineWord>) -> (r: Vec<KeptWord>)
    ensures
        agrees(r@, kept_words(tokens@, tokens@.len() as int)),
        forall|i: int| 0 <= i < r@.len() ==> (#[trigger] r@[i]).place < tokens@.len(),
        forall|i: int|
            0 <= i < r@.len() ==> {
                let w = kept_words(tokens@, tokens@.len() as int)[i];
                let t = tokens@[(#[trigger] r@[i]).place as int];
                &&& w.starts_span == t.starts_span
                &&& w.continues_span == t.continues_span
                &&& w.time_label == opt_view(t.time_label)
            },
{
    let mut out: Vec<KeptWord> = Vec::new();
    let mut i: usize = 0;
    while i < tokens.len()
        invariant
            i <= tokens@.len(),
            agrees(out@, kept_words(tokens@, i as int)),
            forall|k: int| 0 <= k < out@.len() ==> (#[trigger] out@[k]).place < i,
            forall|k: int|
                0 <= k < out@.len() ==> {
                    let w = kept_words(tokens@, i as int)[k];
                    let t = tokens@[(#[trigger] out@[k]).place as int];
                    &&& w.starts_span == t.starts_span
                    &&& w.continues_span == t.continues_span
                    &&& w.time_label == opt_view(t.time_label)
                },
        decreases tokens@.len() - i,
    {
        if let Some(text) = normalize_timeline_word_text(tokens[i].text.as_str()) {
            out.push(KeptWord { place: i, text });
        }
        i = i + 1;
    }
    out
}

fn join_kept(kept: &Vec<KeptWord>, a: usize, b: usize, Ghost(ws): Ghost<Seq<WordView>>) -> (r: String)
    requires
        agrees(kept@, ws),
        a <= b <= kept@.len(),
    ensures
        r@ == words_between(ws, a as int, b as int),
{
    let ghost texts = ws.subrange(a as int, b as int).map_values(|w: WordView| w.text);
    let mut parts: Vec<String> = Vec::new();
    let mut i: usize = a;
    while i < b
        invariant
            a <= i <= b <= kept@.len(),
            agrees(kept@, ws),
            texts == ws.subrange(a as int, b as int).map_values(|w: WordView| w.text),
            views(parts@) =~= texts.take(i - a),
        decreases b - i,
    {
        let ghost prior = views(parts@);
        let part: String = kept[i].text.clone();
        parts.push(part);
        proof {
            assert(texts[i - a] == ws[i as int].text);
            assert(views(parts@) =~= prior.push(part@));
        }
        i = i + 1;
    }
    assert(texts.take(b - a) =~= texts);
    join_texts(&parts, " ")
}

fn add_segment_spans(spans: &mut Vec<LowConfidenceSpan>, tokens: &Vec<TimelineWord>, segment: usize)
    ensures
        span_views(final(spans)@) == span_views(old(spans)@) + spans_from(
            kept_words(tokens@, tokens@.len() as int),
            segment as int,
            0,
        ),
{
    let ghost ws = kept_words(tokens@, tokens@.len() as int);
    let kept: Vec<KeptWord> = keep_words(tokens);
    let total: usize = kept.len();
    let ghost start = span_views(spans@);
    let ghost all = spans_from(ws, segment as int, 0);
    let mut i: usize = 0;
    while i < total
        invariant
            i <= total,
            total == kept@.len(),
            ws == kept_words(tokens@, tokens@.len() as int),
            agrees(kept@, ws),
            forall|k: int| 0 <= k < kept@.len() ==> (#[trigger] kept@[k]).place < tokens@.len(),
            forall|k: int|
                0 <= k < kept@.len() ==> {
                    let w = ws[k];
                    let t = tokens@[(#[trigger] kept@[k]).place as int];
                    &&& w.starts_span == t.starts_span
                    &&& w.continues_span == t.continues_span
                    &&& w.time_label == opt_view(t.time_label)
                },
            all == spans_from(ws, segment as int, 0),
            span_views(spans@) + spans_from(ws, segment as int, i as int) == start + all,
        decreases total - i,
    {
        assert(kept@[i as int].place < tokens@.len());
        if !tokens[kept[i].place].starts_span {
            i = i + 1;
        } else {
            let mut e: usize = i + 1;
            while e < total && tokens[kept[e].place].continues_span
                invariant
                    i < e <= total,
                    total == kept@.len(),
                    agrees(kept@, ws),
                    forall|k: int| 0 <= k < kept@.len() ==> (#[trigger] kept@[k]).place < tokens@.len(),
                    forall|k: int|
                        0 <= k < kept@.len() ==> {
                            let w = ws[k];
                            let t = tokens@[(#[trigger] kept@[k]).place as int];
                            &&& w.starts_span == t.starts_span
                            &&& w.continues_span == t.continues_span
                            &&& w.time_label == opt_view(t.time_label)
                        },
                    span_end(ws, i + 1) == span_end(ws, e as int),
                decreases total - e,
            {
                e = e + 1;
            }
            let from: usize = if i < LOW_CONFIDENCE_CONTEXT_RADIUS_WORDS {
                0
            } else {
                i - LOW_CONFIDENCE_CONTEXT_RADIUS_WORDS
            };
            let to: usize = if total - e < LOW_CONFIDENCE_CONTEXT_RADIUS_WORDS {
                total
            } else {
                e + LOW_CONFIDENCE_CONTEXT_RADIUS_WORDS
            };
            let suspect_text: String = join_kept(&kept, i, e, Ghost(ws));
            let excerpt: String = join_kept(&kept, from, to, Ghost(ws));
            let mut list: Vec<usize> = Vec::new();
            let mut k: usize = i;
            while k < e
                invariant
                    i <= k <= e <= total,
                    total == kept@.len(),
                    agrees(kept@, ws),
                    places(list@) =~= ws.subrange(i as int, k as int).map_values(
                        |w: WordView| w.place,
                    ),
                decreases e - k,
            {
                let ghost prior = places(list@);
                list.push(kept[k].place);
                proof {
                    assert(places(list@) =~= prior.push(ws[k as int].place));
                }
                k = k + 1;
            }
            let time_label: Option<String> = match &tokens[kept[i].place].time_label {
                Some(label) => if label.as_str().is_empty() {
                    None
                } else {
                    Some(label.clone())
                },
                None => None,
            };
            let ghost prior = span_views(spans@);
            let span = LowConfidenceSpan { segment, tokens: list, suspect_text, excerpt, time_label };
            spans.push(span);
            proof {
                assert(span@ == span_of(ws, segment as int, i as int, e as int));
                assert(span_views(spans@) =~= prior.push(span@));
                assert(span_views(spans@) + spans_from(ws, segment as int, e as int) =~= prior
                    + spans_from(ws, segment as int, i as int));
            }
            i = e;
        }
    }
    assert(spans_from(ws, segment as int, i as int) =~= Seq::<SpanView>::empty());
    assert(span_views(spans@) =~= start + all);
}

/// Finds the spans of a timeline that the speech engine was not sure of, in order.
pub fn extract_low_confidence_spans(segments: &Vec<Vec<TimelineWord>>) -> (r: Vec<LowConfidenceSpan>)
    ensures
        span_views(r@) == all_spans(segments@, segments@.len() as int),
{
    let mut out: Vec<LowConfidenceSpan> = Vec::new();
    let mut i: usize = 0;
    assert(span_views(out@) =~= all_spans(segments@, 0));
    while i < segments.len()
        invariant
            i <= segments@.len(),
            span_views(out@) == all_spans(segments@, i as int),
        decreases segments@.len() - i,
    {
        add_segment_spans(&mut out, &segments[i], i);
        i = i + 1;
    }
    out
}

proof fn lemma_spans_from(ws: Seq<WordView>, segment: int, from: int, i: int)
    requires
        0 <= from <= ws.len(),
        0 <= i < spans_from(ws, segment, from).len(),
    ensures
        exists|a: int, b: int|
            from <= a < b <= ws.len() && ws[a].starts_span && spans_from(ws, segment, from)[i]
                == #[trigger] span_of(ws, segment, a, b) && (forall|k: int|
                a < k < b ==> (#[trigger] ws[k]).continues_span) && (b < ws.len()
                ==> !ws[b].continues_span),
    decreases ws.len() - from,
{
    if from < ws.len() {
        if !ws[from].starts_span {
            lemma_spans_from(ws, segment, from + 1, i);
        } else {
            lemma_span_end(ws, from + 1);
            let end = span_end(ws, from + 1);
            let rest = spans_from(ws, segment, end);
            assert(spans_from(ws, segment, from) =~= seq![span_of(ws, segment, from, end)] + rest);
            if i > 0 {
                assert(spans_from(ws, segment, from)[i] == rest[i - 1]);
                lemma_spans_from(ws, segment, end, i - 1);
            }
        }
    }
}

/// A span starts at a word of low confidence, every further word of it has a confidence that did
/// not recover, and the word after it does not belong to it.
pub proof fn spans_hold_unsure_words(ws: Seq<WordView>, segment: int, i: int)
    requires
        0 <= i < spans_from(ws, segment, 0).len(),
    ensures
        exists|a: int, b: int|
            0 <= a < b <= ws.len() && ws[a].starts_span && spans_from(ws, segment, 0)[i]
                == #[trigger] span_of(ws, segment, a, b) && (forall|k: int|
                a < k < b ==> (#[trigger] ws[k]).continues_span) && (b < ws.len()
                ==> !ws[b].continues_span),
{
    lemma_spans_from(ws, segment, 0, i);
}

proof fn lemma_unsure_word(ws: Seq<WordView>, segment: int, from: int, k: int) -> (i: int)
    requires
        0 <= from <= k < ws.len(),
        ws[k].starts_span,
    ensures
        0 <= i < spans_from(ws, segment, from).len(),
        spans_from(ws, segment, from)[i].tokens.contains(ws[k].place),
    decreases ws.len() - from,
{
    if !ws[from].starts_span {
        lemma_unsure_word(ws, segment, from + 1, k)
    } else {
        lemma_span_end(ws, from + 1);
        let end = span_end(ws, from + 1);
        let rest = spans_from(ws, segment, end);
        assert(spans_from(ws, segment, from) =~= seq![span_of(ws, segment, from, end)] + rest);
        if k < end {
            let tokens = span_of(ws, segment, from, end).tokens;
            assert(tokens[k - from] == ws[k].place);
            0
        } else {
            let i = lemma_unsure_word(ws, segment, end, k);
            assert(spans_from(ws, segment, from)[i + 1] == rest[i]);
            i + 1
        }
    }
}

/// No word that the speech engine was unsure of is passed over: every one is in a span.
pub proof fn every_unsure_word_is_in_a_span(ws: Seq<WordView>, segment: int, k: int) -> (i: int)
    requires
        0 <= k < ws.len(),
        ws[k].starts_span,
    ensures
        0 <= i < spans_from(ws, segment, 0).len(),
        spans_from(ws, segment, 0)[i].tokens.contains(ws[k].place),
{
    lemma_unsure_word(ws, segment, 0, k)
}

proof fn lemma_end_is_held(s: Seq<char>, p: Seq<char>)
    requires
        ends_with(s, p),
    ensures
        contains(s, p),
{
    let at = s.len() - p.len();
    assert(s.skip(at).take(p.len() as int) =~= p);
    assert(starts_with(s.skip(at), p));
}

proof fn lemma_join_range(parts: Seq<Seq<char>>, a: int, b: int, sep: Seq<char>)
    requires
        0 <= a < b <= parts.len(),
    ensures
        contains(join(parts, sep), join(parts.subrange(a, b), sep)),
    decreases parts.len(),
{
    let mine = join(parts.subrange(a, b), sep);
    if b == parts.len() {
        lemma_join_tail(parts, a, sep);
        assert(parts.subrange(a, b) =~= parts.skip(a));
        lemma_end_is_held(join(parts, sep), mine);
    } else {
        let front = parts.drop_last();
        lemma_join_range(front, a, b, sep);
        assert(front.subrange(a, b) =~= parts.subrange(a, b));
        let f = join(front, sep);
        lemma_contains_around(Seq::empty(), f, sep + parts.last(), mine);
        assert(join(parts, sep) == f + sep + parts.last());
        assert(Seq::<char>::empty() + f + (sep + parts.last()) =~= f + sep + parts.last());
    }
}

proof fn lemma_join_tail(parts: Seq<Seq<char>>, a: int, sep: Seq<char>)
    requires
        0 <= a < parts.len(),
    ensures
        ends_with(join(parts, sep), join(parts.skip(a), sep)),
    decreases parts.len(),
{
    let all = join(parts, sep);
    let tail = join(parts.skip(a), sep);
    if a == 0 {
        assert(parts.skip(0) =~= parts);
        assert(all.skip(0) =~= all);
    } else if a == parts.len() - 1 {
        assert(parts.skip(a) =~= seq![parts.last()]);
        assert(tail =~= parts.last());
        assert(all.skip(all.len() - tail.len()) =~= tail);
    } else {
        let front = parts.drop_last();
        lemma_join_tail(front, a, sep);
        let inner = join(front.skip(a), sep);
        assert(parts.skip(a).drop_last() =~= front.skip(a));
        assert(tail == inner + sep + parts.last());
        let f = join(front, sep);
        assert(all == f + sep + parts.last());
        assert(f =~= f.take(f.len() - inner.len()) + inner);
        assert(all.skip(all.len() - tail.len()) =~= tail);
    }
}

/// A span is shown with its context: the excerpt holds the suspect words, with up to three more on
/// either side.
pub proof fn an_excerpt_holds_the_suspect_words(
    ws: Seq<WordView>,
    segment: int,
    start: int,
    end: int,
)
    requires
        0 <= start < end <= ws.len(),
    ensures
        ({
            let span = span_of(ws, segment, start, end);
            let from = if start < 3 { 0 } else { start - 3 };
            let to = if end + 3 > ws.len() { ws.len() as int } else { end + 3 };
            &&& contains(span.excerpt, span.suspect_text)
            &&& span.segment == segment
            &&& span.tokens.len() == end - start
            &&& span.excerpt == join(ws.map_values(|w: WordView| w.text).subrange(from, to), " "@)
            &&& ws[start].time_label is Some && ws[start].time_label->0.len() > 0 ==> span.time_label
                == ws[start].time_label
        }),
{
    let from = if start < 3 { 0 } else { start - 3 };
    let to = if end + 3 > ws.len() { ws.len() as int } else { end + 3 };
    let f = |w: WordView| w.text;
    let shown = ws.subrange(from, to).map_values(f);
    assert(shown =~= ws.map_values(f).subrange(from, to));
    lemma_join_range(shown, start - from, end - from, " "@);
    assert(shown.subrange(start - from, end - from) =~= ws.subrange(start, end).map_values(f));
}

// ---------------------------------------------------------------------------
// The spans that a prompt names
// ---------------------------------------------------------------------------

/// What tells a span from another: its words and its context, the case aside.
pub open spec fn span_key(span: SpanView) -> Seq<char> {
    lowercase(span.suspect_text) + "::"@ + lowercase(span.excerpt)
}

/// Whether one of some places has a key.
pub open spec fn holds_key(keys: Seq<Seq<char>>, taken: Seq<int>, key: Seq<char>) -> bool {
    exists|i: int| 0 <= i < taken.len() && keys[#[trigger] taken[i]] == key
}

/// The places of an order that are taken: the first with each key, up to a number, after what was
/// taken already.
pub open spec fn first_of_each(
    keys: Seq<Seq<char>>,
    order: Seq<int>,
    taken: Seq<int>,
    max: nat,
) -> Seq<int>
    decreases order.len(),
{
    if order.len() == 0 || taken.len() >= max {
        taken
    } else if holds_key(keys, taken, keys[order[0]]) {
        first_of_each(keys, order.skip(1), taken, max)
    } else {
        first_of_each(keys, order.skip(1), taken.push(order[0]), max)
    }
}

/// The keys of spans.
pub open spec fn span_keys(spans: Seq<SpanView>) -> Seq<Seq<char>> {
    spans.map_values(|s: SpanView| span_key(s))
}

/// The spans that a prompt names: those of the least confidence first, each once.
pub open spec fn prioritized(spans: Seq<SpanView>, ranks: Seq<i64>) -> Seq<int> {
    first_of_each(
        span_keys(spans),
        ordered(ranks),
        Seq::empty(),
        MAX_LOW_CONFIDENCE_PROMPT_SPANS as nat,
    )
}

/// Chooses the spans that a prompt names. `ranks` orders the spans by their mean confidence.
pub fn prioritize_low_confidence_spans(spans: &Vec<LowConfidenceSpan>, ranks: &Vec<i64>) -> (r: Vec<
    usize,
>)
    requires
        ranks@.len() == spans@.len(),
    ensures
        places(r@) == prioritized(span_views(spans@), ranks@),
        forall|i: int| 0 <= i < r@.len() ==> #[trigger] r@[i] < spans@.len(),
{
    let ghost keys = span_keys(span_views(spans@));
    let mut texts: Vec<String> = Vec::new();
    let mut i: usize = 0;
    while i < spans.len()
        invariant
            i <= spans@.len(),
            keys == span_keys(span_views(spans@)),
            views(texts@) =~= keys.take(i as int),
        decreases spans@.len() - i,
    {
        let ghost prior = views(texts@);
        let mut key: String = lowercase_text(spans[i].suspect_text.as_str());
        key.append("::");
        key.append(lowercase_text(spans[i].excerpt.as_str()).as_str());
        texts.push(key);
        proof {
            assert(span_views(spans@)[i as int] == spans@[i as int]@);
            assert(keys[i as int] == key@);
            assert(views(texts@) =~= prior.push(key@));
        }
        i = i + 1;
    }
    assert(keys.take(i as int) =~= keys);
    let order: Vec<usize> = stable_order(ranks);
    let ghost all = ordered(ranks@);
    let mut out: Vec<usize> = Vec::new();
    let mut j: usize = 0;
    assert(places(order@).skip(0) =~= all);
    assert(places(out@) =~= Seq::<int>::empty());
    assert(places(order@).len() == order@.len());
    while j < order.len() && out.len() < MAX_LOW_CONFIDENCE_PROMPT_SPANS
        invariant
            j <= order@.len(),
            views(texts@) == keys,
            texts@.len() == spans@.len(),
            all == places(order@),
            forall|k: int| 0 <= k < order@.len() ==> #[trigger] order@[k] < spans@.len(),
            forall|k: int| 0 <= k < out@.len() ==> #[trigger] out@[k] < spans@.len(),
            first_of_each(
                keys,
                all.skip(j as int),
                places(out@),
                MAX_LOW_CONFIDENCE_PROMPT_SPANS as nat,
            ) == first_of_each(
                keys,
                all,
                Seq::empty(),
                MAX_LOW_CONFIDENCE_PROMPT_SPANS as nat,
            ),
        decreases order@.len() - j,
    {
        let at: usize = order[j];
        assert(at < spans@.len());
        let mut known: bool = false;
        let mut k: usize = 0;
        while k < out.len()
            invariant
                k <= out@.len(),
                at < texts@.len(),
                views(texts@) == keys,
                texts@.len() == spans@.len(),
                forall|k: int| 0 <= k < out@.len() ==> #[trigger] out@[k] < spans@.len(),
                known == exists|m: int|
                    0 <= m < k && keys[#[trigger] places(out@)[m]] == keys[at as int],
            decreases out@.len() - k,
        {
            assert(out@[k as int] < spans@.len());
            assert(places(out@)[k as int] == out@[k as int]);
            assert(keys[out@[k as int] as int] == texts@[out@[k as int] as int]@);
            assert(keys[at as int] == texts@[at as int]@);
            if same_text(texts[out[k]].as_str(), texts[at].as_str()) {
                known = true;
            }
            k = k + 1;
        }
        proof {
            let tail = all.skip(j as int);
            assert(tail[0] == at);
            assert(tail.skip(1) =~= all.skip(j + 1));
            assert(places(out@).len() == out@.len());
            assert(known == holds_key(keys, places(out@), keys[at as int]));
        }
        let ghost prior = places(out@);
        if !known {
            out.push(at);
            assert(places(out@) =~= prior.push(at as int));
        }
        j = j + 1;
    }
    assert(places(out@).len() == out@.len());
    assert(j == order@.len() ==> all.skip(j as int) =~= Seq::<int>::empty());
    out
}

proof fn lemma_first_of_each(
    keys: Seq<Seq<char>>,
    order: Seq<int>,
    taken: Seq<int>,
    max: nat,
)
    requires
        taken.len() <= max,
        forall|i: int, j: int|
            0 <= i < j < taken.len() ==> keys[#[trigger] taken[i]] != keys[#[trigger] taken[j]],
    ensures
        ({
            let out = first_of_each(keys, order, taken, max);
            &&& out.len() <= max
            &&& forall|i: int, j: int|
                0 <= i < j < out.len() ==> keys[#[trigger] out[i]] != keys[#[trigger] out[j]]
        }),
    decreases order.len(),
{
    if order.len() > 0 && taken.len() < max {
        if holds_key(keys, taken, keys[order[0]]) {
            lemma_first_of_each(keys, order.skip(1), taken, max);
        } else {
            let more = taken.push(order[0]);
            assert forall|i: int, j: int| 0 <= i < j < more.len() implies keys[#[trigger] more[i]]
                != keys[#[trigger] more[j]] by {
                assert(more[i] == taken[i]);
                if j < taken.len() {
                    assert(more[j] == taken[j]);
                }
            }
            lemma_first_of_each(keys, order.skip(1), more, max);
        }
    }
}

/// A prompt names a limited number of spans, and none twice.
pub proof fn named_spans_are_few_and_distinct(spans: Seq<SpanView>, ranks: Seq<i64>)
    ensures
        prioritized(spans, ranks).len() <= MAX_LOW_CONFIDENCE_PROMPT_SPANS,
        forall|i: int, j: int|
            0 <= i < j < prioritized(spans, ranks).len() ==> span_keys(spans)[
            #[trigger] prioritized(spans, ranks)[i]] != span_keys(spans)[#[trigger] prioritized(
                spans,
                ranks,
            )[j]],
{
    lemma_first_of_each(
        span_keys(spans),
        ordered(ranks),
        Seq::empty(),
        MAX_LOW_CONFIDENCE_PROMPT_SPANS as nat,
    );
}

proof fn lemma_taken_in_order(keys: Seq<Seq<char>>, order: Seq<int>, taken: Seq<int>, max: nat)
    requires
        taken.len() <= max,
    ensures
        ({
            let out = first_of_each(keys, order, taken, max);
            &&& taken.len() <= out.len()
            &&& out.take(taken.len() as int) == taken
            &&& forall|a: int|
                taken.len() <= a < out.len() ==> order.contains(#[trigger] out[a])
            &&& forall|j: int|
                0 <= j < order.len() ==> out.len() == max || holds_key(
                    keys,
                    out,
                    keys[#[trigger] order[j]],
                )
        }),
    decreases order.len(),
{
    let out = first_of_each(keys, order, taken, max);
    if order.len() == 0 || taken.len() >= max {
        assert(out.take(taken.len() as int) =~= taken);
    } else {
        let rest = order.skip(1);
        let more = if holds_key(keys, taken, keys[order[0]]) {
            taken
        } else {
            taken.push(order[0])
        };
        lemma_taken_in_order(keys, rest, more, max);
        assert(out.take(taken.len() as int) =~= taken) by {
            assert(out.take(taken.len() as int) =~= out.take(more.len() as int).take(
                taken.len() as int,
            ));
        }
        assert forall|a: int| taken.len() <= a < out.len() implies order.contains(
            #[trigger] out[a],
        ) by {
            if a < more.len() {
                assert(out[a] == out.take(more.len() as int)[a]);
                assert(order[0] == out[a]);
            } else {
                assert(rest.contains(out[a]));
                let k = choose|k: int| 0 <= k < rest.len() && rest[k] == out[a];
                assert(order[k + 1] == out[a]);
            }
        }
        assert forall|j: int| 0 <= j < order.len() implies out.len() == max || holds_key(
            keys,
            out,
            keys[#[trigger] order[j]],
        ) by {
            if j > 0 {
                assert(rest[j - 1] == order[j]);
            } else {
                let m = if holds_key(keys, taken, keys[order[0]]) {
                    choose|i: int| 0 <= i < taken.len() && keys[#[trigger] taken[i]] == keys[order[0]]
                } else {
                    taken.len() as int
                };
                assert(more[m] == out.take(more.len() as int)[m]);
                assert(keys[out[m]] == keys[order[0]]);
            }
        }
    }
}

/// A prompt names every span, or as many as it may: a span that is not named says the same as one that
/// is, unless ten are named already.
pub proof fn spans_are_named_up_to_the_limit(spans: Seq<SpanView>, ranks: Seq<i64>, j: int)
    requires
        spans.len() == ranks.len(),
        0 <= j < spans.len(),
    ensures
        prioritized(spans, ranks).len() == 10 || exists|i: int|
            0 <= i < prioritized(spans, ranks).len() && span_key(
                spans[#[trigger] prioritized(spans, ranks)[i]],
            ) == span_key(spans[j]),
{
    let keys = span_keys(spans);
    let order = ordered(ranks);
    an_order_is_sorted_and_stable(ranks);
    lemma_taken_in_order(keys, order, Seq::empty(), 10);
    assert(order.contains(j));
    let k = choose|k: int| 0 <= k < order.len() && order[k] == j;
    let out = prioritized(spans, ranks);
    if out.len() != 10 {
        assert(holds_key(keys, out, keys[order[k]]));
        let i = choose|i: int| 0 <= i < out.len() && keys[#[trigger] out[i]] == keys[j];
        assert(order.contains(out[i]));
        let m = choose|m: int| 0 <= m < order.len() && order[m] == out[i];
        lemma_order_places(ranks, m);
        assert(span_key(spans[out[i]]) == span_key(spans[j]));
    }
}

proof fn lemma_taken_sorted(
    keys: Seq<Seq<char>>,
    order: Seq<int>,
    taken: Seq<int>,
    max: nat,
    ranks: Seq<i64>,
)
    requires
        forall|i: int, j: int|
            0 <= i < j < order.len() ==> goes_before(ranks, #[trigger] order[i], #[trigger] order[j]),
        forall|i: int, j: int|
            0 <= i < j < taken.len() ==> goes_before(ranks, #[trigger] taken[i], #[trigger] taken[j]),
        forall|i: int, j: int|
            0 <= i < taken.len() && 0 <= j < order.len() ==> goes_before(
                ranks,
                #[trigger] taken[i],
                #[trigger] order[j],
            ),
    ensures
        ({
            let out = first_of_each(keys, order, taken, max);
            forall|i: int, j: int|
                0 <= i < j < out.len() ==> goes_before(ranks, #[trigger] out[i], #[trigger] out[j])
        }),
    decreases order.len(),
{
    if order.len() > 0 && taken.len() < max {
        let rest = order.skip(1);
        let more = if holds_key(keys, taken, keys[order[0]]) {
            taken
        } else {
            taken.push(order[0])
        };
        assert forall|i: int, j: int| 0 <= i < j < rest.len() implies goes_before(
            ranks,
            #[trigger] rest[i],
            #[trigger] rest[j],
        ) by {
            assert(rest[i] == order[i + 1] && rest[j] == order[j + 1]);
        }
        assert forall|i: int, j: int| 0 <= i < more.len() && 0 <= j < rest.len() implies goes_before(
            ranks,
            #[trigger] more[i],
            #[trigger] rest[j],
        ) by {
            assert(rest[j] == order[j + 1]);
            if i < taken.len() {
                assert(more[i] == taken[i]);
            }
        }
        assert forall|i: int, j: int| 0 <= i < j < more.len() implies goes_before(
            ranks,
            #[trigger] more[i],
            #[trigger] more[j],
        ) by {
            assert(more[i] == taken[i]);
            if j < taken.len() {
                assert(more[j] == taken[j]);
            }
        }
        lemma_taken_sorted(keys, rest, more, max, ranks);
        assert(first_of_each(keys, order, taken, max) == first_of_each(keys, rest, more, max));
    } else {
        assert(first_of_each(keys, order, taken, max) == taken);
    }
}

/// The spans of the least confidence are named first, and those of equal confidence in their order.
pub proof fn the_least_sure_spans_come_first(
    spans: Seq<SpanView>,
    ranks: Seq<i64>,
    i: int,
    j: int,
)
    requires
        0 <= i < j < prioritized(spans, ranks).len(),
    ensures
        ({
            let a = prioritized(spans, ranks)[i];
            let b = prioritized(spans, ranks)[j];
            ranks[a] < ranks[b] || (ranks[a] == ranks[b] && a < b)
        }),
{
    an_order_is_sorted_and_stable(ranks);
    let order = ordered(ranks);
    lemma_taken_sorted(
        span_keys(spans),
        order,
        Seq::empty(),
        MAX_LOW_CONFIDENCE_PROMPT_SPANS as nat,
        ranks,
    );
    let out = prioritized(spans, ranks);
    assert(goes_before(ranks, out[i], out[j]));
}

/// A span as a prompt names it.
#[derive(Debug)]
pub struct SpanHint {
    /// The mean confidence, in percent.
    pub percent: u8,
    pub suspect_text: String,
    pub excerpt: String,
    pub time_label: Option<String>,
}

/// The line that names a span.
pub open spec fn hint_line(hint: SpanHint) -> Seq<char> {
    match hint.time_label {
        Some(label) => "- "@ + decimal(hint.percent as nat) + "% confidence near "@ + label@
            + ": suspect phrase \""@ + hint.suspect_text@ + "\" in context \""@ + hint.excerpt@
            + "\""@,
        None => "- "@ + decimal(hint.percent as nat) + "% confidence: suspect phrase \""@
            + hint.suspect_text@ + "\" in context \""@ + hint.excerpt@ + "\""@,
    }
}

fn write_hint(hint: &SpanHint) -> (r: String)
    ensures
        r@ == hint_line(*hint),
{
    let mut out: String = "- ".to_owned();
    push_decimal(&mut out, hint.percent as u64);
    match &hint.time_label {
        Some(label) => {
            out.append("% confidence near ");
            out.append(label.as_str());
            out.append(": suspect phrase \"");
        },
        None => {
            out.append("% confidence: suspect phrase \"");
        },
    }
    out.append(hint.suspect_text.as_str());
    out.append("\" in context \"");
    out.append(hint.excerpt.as_str());
    out.append("\"");
    out
}

pub const CONFIDENCE_GUIDANCE: &'static str = "Confidence-aware guidance: Whisper provided word-level confidence scores. The suspect spans below are SOFT HINTS about where the speech engine was least sure of itself, so they are the most likely places to need aggressive local repair (ASR mishearings, garbled words, dropped syllables). Treat the highlighted regions as priorities for fixing garbled or misheard words, NOT as a fence around which the rest of the transcript must be left alone. Do not be timid: a transcript optimized by leaving 90% of the original words in place has not been optimized at all. Preserve the original language and the speaker's TONE, register, and level of formality — not the exact phrasing. The speaker's tone stays, but the words themselves should be the ones a careful editor would have chosen, not the ones that happened to come out of the speaker's mouth. You should still apply the same level of substantive syntactic, logical, and contextual cleanup to the rest of the transcript as inside the highlighted regions. Outside these spans, fix grammar, punctuation, sentence structure, false starts, filler, and any clearly garbled words with the same confidence you would inside them. The goal is a fully cleaned transcript, not a mostly-original transcript with edits only in highlighted places. Understand the topic being discussed; when the speaker's wording is ambiguous and the surrounding context makes the intended meaning clear, prefer the clearer wording, and when the speaker's flow of ideas is logically sound but the connection between sentences is implicit, make that connection explicit with a short connective if it improves readability, and when the speaker uses vague references like 'la cosa di cui parlavamo' or colloquial fillers like 'fare casino' and the topic is clear from the surrounding context, replace them with the topic-specific term or a more precise editorial form. If a suspect span is still ambiguous after considering the surrounding context, keep the original wording; do not invent missing facts. Example of the expected level of rewriting (Italian): Input: 'uh allora io dico che è importante capire il problema prima di iniziare a programmare e quindi dobbiamo prima fare una analisi attenta di quello che vogliamo realizzare' Output: 'È importante capire il problema prima di iniziare a programmare. Dobbiamo quindi condurre un'analisi attenta di ciò che vogliamo realizzare.'\nAnother example of the expected level of rewriting (Italian):\nInput: 'il progetto ha avuto successo. il team ha lavorato bene.'\nOutput: 'Il progetto ha avuto successo perché il team ha lavorato bene.'\nAnother example of topic-aware rewriting (Italian):\nInput: 'allora dobbiamo capire bene la cosa di cui parlavamo prima di iniziare a programmare perche senno facciamo casino'\nOutput: 'Dobbiamo comprendere a fondo i requisiti del progetto software prima di iniziare a programmare, altrimenti creeremo confusione.'\n\n";

pub const SPAN_LIST_HEAD: &'static str = "Low-confidence suspect spans from the original Whisper transcript (prioritize aggressive local repair in these regions, but still apply the same level of substantive cleanup everywhere else):\n";

/// The prompt that the user set, if it says anything.
pub open spec fn base_prompt_of(prompt: Option<Seq<char>>) -> Option<Seq<char>> {
    match prompt {
        Some(p) if trim(p).len() > 0 => Some(trim(p)),
        _ => None,
    }
}

/// The lines that name spans.
pub open spec fn hint_lines(hints: Seq<SpanHint>) -> Seq<Seq<char>> {
    hints.map_values(|h: SpanHint| hint_line(h))
}

/// The prompt for optimizing a transcript: what the user set, and the spans to look at, if any.
pub open spec fn confidence_prompt(hints: Seq<SpanHint>, base: Option<Seq<char>>) -> Option<Seq<char>> {
    if hints.len() == 0 {
        base_prompt_of(base)
    } else {
        let listed = SPAN_LIST_HEAD@ + join(hint_lines(hints), "\n"@);
        Some(
            match base_prompt_of(base) {
                Some(p) => p + "\n\n"@ + CONFIDENCE_GUIDANCE@ + "\n\n"@ + listed,
                None => CONFIDENCE_GUIDANCE@ + "\n\n"@ + listed,
            },
        )
    }
}

/// Writes the prompt for optimizing a transcript.
pub fn build_confidence_aware_optimize_prompt(hints: &Vec<SpanHint>, base_prompt: &Option<String>) -> (r:
    Option<String>)
    ensures
        opt_view(r) == confidence_prompt(hints@, opt_view(*base_prompt)),
{
    let base: Option<String> = match base_prompt {
        Some(p) => {
            let trimmed: String = trim_text(p.as_str());
            if trimmed.as_str().is_empty() {
                None
            } else {
                Some(trimmed)
            }
        },
        None => None,
    };
    if hints.len() == 0 {
        return base;
    }
    let mut lines: Vec<String> = Vec::new();
    let mut i: usize = 0;
    while i < hints.len()
        invariant
            i <= hints@.len(),
            views(lines@) =~= hint_lines(hints@).take(i as int),
        decreases hints@.len() - i,
    {
        let ghost prior = views(lines@);
        let line: String = write_hint(&hints[i]);
        lines.push(line);
        proof {
            assert(hint_lines(hints@)[i as int] == line@);
            assert(views(lines@) =~= prior.push(line@));
        }
        i = i + 1;
    }
    assert(hint_lines(hints@).take(i as int) =~= hint_lines(hints@));
    let mut listed: String = SPAN_LIST_HEAD.to_owned();
    listed.append(join_texts(&lines, "\n").as_str());
    let mut out: String = String::new();
    match base {
        Some(p) => {
            out = p;
            out.append("\n\n");
            out.append(CONFIDENCE_GUIDANCE);
        },
        None => {
            out = CONFIDENCE_GUIDANCE.to_owned();
        },
    }
    out.append("\n\n");
    out.append(listed.as_str());
    Some(out)
}

proof fn lemma_hint(
    a: Seq<char>,
    percent: Seq<char>,
    b: Seq<char>,
    suspect: Seq<char>,
    c: Seq<char>,
    excerpt: Seq<char>,
    d: Seq<char>,
)
    ensures
        ({
            let line = a + percent + b + suspect + c + excerpt + d;
            &&& contains(line, percent)
            &&& contains(line, suspect)
            &&& contains(line, excerpt)
            &&& contains(line, b)
        }),
{
    let line = a + percent + b + suspect + c + excerpt + d;
    lemma_contains_middle(a, percent, b + suspect + c + excerpt + d);
    assert(a + percent + (b + suspect + c + excerpt + d) =~= line);
    lemma_contains_middle(a + percent, b, suspect + c + excerpt + d);
    assert(a + percent + b + (suspect + c + excerpt + d) =~= line);
    lemma_contains_middle(a + percent + b, suspect, c + excerpt + d);
    assert(a + percent + b + suspect + (c + excerpt + d) =~= line);
    lemma_contains_middle(a + percent + b + suspect + c, excerpt, d);
}

/// A line that names a span tells how sure the speech engine was, the suspect words, their context, and
/// when they were said where that is known.
pub proof fn a_hint_tells_the_span(hint: SpanHint)
    ensures
        contains(hint_line(hint), decimal(hint.percent as nat)),
        contains(hint_line(hint), hint.suspect_text@),
        contains(hint_line(hint), hint.excerpt@),
        hint.time_label matches Some(label) ==> contains(hint_line(hint), label@),
{
    let p = decimal(hint.percent as nat);
    match hint.time_label {
        Some(label) => {
            let near = "% confidence near "@;
            let b = near + label@ + ": suspect phrase \""@;
            lemma_hint(
                "- "@,
                p,
                b,
                hint.suspect_text@,
                "\" in context \""@,
                hint.excerpt@,
                "\""@,
            );
            assert("- "@ + p + b =~= "- "@ + p + near + label@ + ": suspect phrase \""@);
            lemma_contains_middle(near, label@, ": suspect phrase \""@);
            lemma_contains_through(hint_line(hint), b, label@);
        },
        None => {
            lemma_hint(
                "- "@,
                p,
                "% confidence: suspect phrase \""@,
                hint.suspect_text@,
                "\" in context \""@,
                hint.excerpt@,
                "\""@,
            );
        },
    }
}

/// The prompt for optimizing a transcript begins with what the user set, where that says anything, and
/// ends with a line for every span, in order. Without spans it is what the user set.
#[verifier::rlimit(40)]
pub proof fn the_prompt_names_every_span(hints: Seq<SpanHint>, base: Option<Seq<char>>)
    ensures
        hints.len() == 0 && base is Some && inked(base->0).len() > 0 ==> confidence_prompt(hints, base)
            == Some(trim(base->0)),
        hints.len() == 0 && (base is None || inked(base->0).len() == 0) ==> confidence_prompt(
            hints,
            base,
        ) is None,
        hints.len() > 0 ==> {
            &&& confidence_prompt(hints, base) is Some
            &&& ends_with(confidence_prompt(hints, base)->0, join(hint_lines(hints), "\n"@))
            &&& in_order(confidence_prompt(hints, base)->0, hint_lines(hints))
            &&& contains(confidence_prompt(hints, base)->0, CONFIDENCE_GUIDANCE@)
            &&& base is Some && inked(base->0).len() > 0 ==> starts_with(
                confidence_prompt(hints, base)->0,
                trim(base->0),
            )
        },
{
    if base is Some {
        trimming_takes_white_only(base->0);
        lemma_inked_edge(trim(base->0));
    }
    if hints.len() > 0 {
        let all = confidence_prompt(hints, base)->0;
        let list = join(hint_lines(hints), "\n"@);
        let lead = match base_prompt_of(base) {
            Some(p) => p + "\n\n"@,
            None => Seq::empty(),
        };
        let g = CONFIDENCE_GUIDANCE@;
        let mid = "\n\n"@ + SPAN_LIST_HEAD@;
        assert(all =~= lead + g + mid + list);
        a_join_holds_its_parts_in_order(hint_lines(hints), "\n"@);
        lemma_in_order_after(lead + g + mid, list, hint_lines(hints));
        assert(all.skip(all.len() - list.len()) =~= list);
        lemma_contains_middle(lead, g, mid + list);
        assert(lead + g + (mid + list) =~= all);
        if base_prompt_of(base) is Some {
            let p = base_prompt_of(base)->0;
            assert(all.take(p.len() as int) =~= p);
        }
    }
}

/// The spans of every segment are listed, one segment after the other and under its number. The place at
/// which those of segment `k` begin is returned.
pub proof fn spans_of_every_segment_are_listed(segments: Seq<Vec<TimelineWord>>, n: int, k: int) -> (at:
    int)
    requires
        0 <= k < n <= segments.len(),
    ensures
        ({
            let own = spans_from(kept_words(segments[k]@, segments[k]@.len() as int), k, 0);
            &&& 0 <= at
            &&& at + own.len() <= all_spans(segments, n).len()
            &&& all_spans(segments, n).subrange(at, at + own.len()) == own
            &&& at == all_spans(segments, k).len()
        }),
    decreases n,
{
    let own = spans_from(kept_words(segments[k]@, segments[k]@.len() as int), k, 0);
    let all = all_spans(segments, n);
    let front = all_spans(segments, n - 1);
    if k == n - 1 {
        let at = front.len() as int;
        assert(all.subrange(at, at + own.len()) =~= own);
        at
    } else {
        let at = spans_of_every_segment_are_listed(segments, n - 1, k);
        assert(all.subrange(at, at + own.len()) =~= front.subrange(at, at + own.len()));
        at
    }
}

} // verus!
