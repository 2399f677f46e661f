//! Words of a transcript: chunks, search tokens and wrapped lines.

use vstd::prelude::*;
use vstd::string::*;

use crate::text::{
    alphanumeric, chars_of, contains, is_alphanumeric, is_white, join, join_holds_its_parts,
    join_texts, lead_white, lead_word, lemma_blank, lemma_holds_itself, lemma_lead_white,
    lemma_lead_word, lemma_trimmed, lowercase, lowercase_text, prefix, prefix_text, split_words,
    string_of, trim, trim_start, trim_text, views, words,
};

verus! {

/// Replaces every run of white space by one space, and trims.
pub fn normalize_whitespace(text: &str) -> (r: String)
    ensures
        r@ == join(words(text@), " "@),
{
    join_texts(&split_words(text), " ")
}

proof fn lemma_lead_white_add(a: Seq<char>, b: Seq<char>)
    ensures
        lead_white(a) == a.len() ==> lead_white(a + b) == a.len() + lead_white(b),
        lead_white(a) < a.len() ==> lead_white(a + b) == lead_white(a),
    decreases a.len(),
{
    lemma_lead_white(a);
    if a.len() == 0 {
        assert(a + b =~= b);
    } else if is_white(a[0]) {
        lemma_lead_white_add(a.skip(1), b);
        assert((a + b).skip(1) =~= a.skip(1) + b);
    }
}

proof fn lemma_lead_word_stop(a: Seq<char>, b: Seq<char>)
    requires
        b.len() > 0,
        is_white(b[0]),
    ensures
        lead_word(a + b) == lead_word(a),
    decreases a.len(),
{
    if a.len() == 0 {
        assert(a + b =~= b);
    } else if !is_white(a[0]) {
        lemma_lead_word_stop(a.skip(1), b);
        assert((a + b).skip(1) =~= a.skip(1) + b);
    }
}

proof fn lemma_words_add(a: Seq<char>, b: Seq<char>)
    ensures
        words(a + " "@ + b) == words(a) + words(b),
    decreases a.len(),
{
    reveal_strlit(" ");
    let gap = " "@ + b;
    assert(a + " "@ + b =~= a + gap);
    lemma_lead_white(a);
    lemma_lead_white_add(a, gap);
    let t = trim_start(a);
    if t.len() == 0 {
        lemma_lead_white(b);
        assert(gap.skip(1) =~= b);
        assert(trim_start(a + gap) =~= trim_start(b));
        assert(words(a + gap) == words(b));
        assert(words(a) + words(b) =~= words(b));
    } else {
        assert(t[0] == a[lead_white(a) as int]);
        lemma_lead_word(t);
        assert(trim_start(a + gap) =~= t + gap);
        lemma_lead_word_stop(t, gap);
        let n = lead_word(t) as int;
        assert((t + gap).take(n) =~= t.take(n));
        assert((t + gap).skip(n) =~= t.skip(n) + gap);
        assert(t.skip(n) + " "@ + b =~= t.skip(n) + gap);
        lemma_words_add(t.skip(n), b);
        assert(words(a + gap) =~= words(a) + words(b));
    }
}

proof fn lemma_words_join(ws: Seq<Seq<char>>)
    requires
        forall|i: int| 0 <= i < ws.len() ==> words(#[trigger] ws[i]) == seq![ws[i]],
    ensures
        words(join(ws, " "@)) == ws,
    decreases ws.len(),
{
    if ws.len() == 0 {
        assert(words(join(ws, " "@)) =~= ws);
    } else if ws.len() == 1 {
        assert(words(ws[0]) =~= ws);
    } else {
        let front = ws.drop_last();
        assert forall|i: int| 0 <= i < front.len() implies words(#[trigger] front[i]) == seq![
            front[i],
        ] by {
            assert(front[i] == ws[i]);
        }
        lemma_words_join(front);
        lemma_words_add(join(front, " "@), ws.last());
        assert(words(ws[ws.len() - 1]) == seq![ws.last()]);
        assert(front + seq![ws.last()] =~= ws);
    }
}

proof fn lemma_word_is_word(s: Seq<char>, i: int)
    requires
        0 <= i < words(s).len(),
    ensures
        words(words(s)[i]) == seq![words(s)[i]],
    decreases s.len(),
{
    let t = trim_start(s);
    lemma_lead_white(s);
    if t.len() > 0 {
        assert(t[0] == s[lead_white(s) as int]);
        lemma_lead_word(t);
        let n = lead_word(t) as int;
        let w = t.take(n);
        let rest = t.skip(n);
        assert(words(s) =~= seq![w] + words(rest));
        if i > 0 {
            assert(words(s)[i] == words(rest)[i - 1]);
            lemma_word_is_word(rest, i - 1);
        } else {
            assert(!is_white(w[0]));
            assert(trim_start(w) =~= w);
            lemma_lead_word(w);
            assert(lead_word(w) == w.len()) by {
                if lead_word(w) < w.len() {
                    let k = lead_word(w) as int;
                    assert(w[k] == t[k]);
                    assert(!is_white(t[k]));
                }
            }
            assert(w.take(w.len() as int) =~= w);
            assert(w.skip(w.len() as int).len() == 0);
            assert(words(w.skip(w.len() as int)) =~= Seq::<Seq<char>>::empty());
            assert(words(w) =~= seq![w]);
        }
    }
}

/// Normalizing keeps the words, so that normalizing again changes nothing.
pub proof fn normalizing_keeps_the_words(text: Seq<char>)
    ensures
        words(join(words(text), " "@)) == words(text),
{
    let ws = words(text);
    assert forall|i: int| 0 <= i < ws.len() implies words(#[trigger] ws[i]) == seq![ws[i]] by {
        lemma_word_is_word(text, i);
    }
    lemma_words_join(ws);
}

/// Brings text into the form in which timeline texts are compared.
pub fn normalized_timeline_match_text(value: &str) -> (r: String)
    ensures
        r@ == join(words(value@), " "@),
{
    normalize_whitespace(value)
}

/// Keeps at most the first `max_chars` characters.
pub fn truncate_chars(value: &str, max_chars: usize) -> (r: String)
    ensures
        r@ == prefix(value@, max_chars as nat),
{
    prefix_text(value, max_chars)
}

// ---------------------------------------------------------------------------
// Chunks
// ---------------------------------------------------------------------------

/// The number of characters of words `a` to `b`, with a space between neighbours.
pub open spec fn width(ws: Seq<Seq<char>>, a: int, b: int) -> nat
    decreases b - a,
{
    if b <= a {
        0
    } else if b == a + 1 {
        ws[a].len()
    } else {
        width(ws, a, b - 1) + 1 + ws[b - 1].len()
    }
}

/// Where the chunk that starts at `start` ends, when it holds the words up to `end` at least: it
/// takes words as long as they fit, and always one.
pub open spec fn chunk_end(ws: Seq<Seq<char>>, start: int, end: int, target: nat) -> int
    decreases ws.len() - end,
{
    if end < ws.len() && (end <= start || width(ws, start, end + 1) <= target) {
        chunk_end(ws, start, end + 1, target)
    } else {
        end
    }
}

proof fn lemma_chunk_end(ws: Seq<Seq<char>>, start: int, end: int, target: nat)
    requires
        0 <= start <= end <= ws.len(),
        start < ws.len(),
        end > start + 1 ==> width(ws, start, end) <= target,
    ensures
        start < chunk_end(ws, start, end, target) <= ws.len(),
        chunk_end(ws, start, end, target) >= end,
        ({
            let e = chunk_end(ws, start, end, target);
            &&& e > start + 1 ==> width(ws, start, e) <= target
            &&& e < ws.len() ==> width(ws, start, e + 1) > target
        }),
    decreases ws.len() - end,
{
    if end < ws.len() && (end <= start || width(ws, start, end + 1) <= target) {
        lemma_chunk_end(ws, start, end + 1, target);
    }
}

/// Where the chunk after one from `start` to `end` starts: `overlap` words before the end, unless
/// that would not go forward.
pub open spec fn next_start(start: int, end: int, overlap: nat) -> int {
    if end - overlap <= start {
        end
    } else {
        end - overlap
    }
}

/// The word ranges of the chunks from `start` on.
pub open spec fn chunk_ranges(
    ws: Seq<Seq<char>>,
    start: int,
    target: nat,
    overlap: nat,
) -> Seq<(int, int)>
    decreases ws.len() - start,
    via chunk_ranges_decreases
{
    if !(0 <= start < ws.len()) {
        Seq::empty()
    } else {
        let end = chunk_end(ws, start, start, target);
        if end >= ws.len() {
            seq![(start, end)]
        } else {
            seq![(start, end)] + chunk_ranges(ws, next_start(start, end, overlap), target, overlap)
        }
    }
}

#[via_fn]
proof fn chunk_ranges_decreases(ws: Seq<Seq<char>>, start: int, target: nat, overlap: nat) {
    if 0 <= start < ws.len() {
        lemma_chunk_end(ws, start, start, target);
    }
}

/// The chunks of a text.
pub open spec fn chunks(text: Seq<char>, target: nat, overlap: nat) -> Seq<Seq<char>> {
    let ws = words(text);
    chunk_ranges(ws, 0, target, overlap).map_values(
        |r: (int, int)| join(ws.subrange(r.0, r.1), " "@),
    )
}

/// The chunks of a text hold all of its words, in order: the ranges are not empty, the first
/// starts at the first word, each starts after the one before it and not after its end, and the
/// last ends at the last word. A chunk is longer than asked for only when it is one word.
pub proof fn chunks_cover_all_words(ws: Seq<Seq<char>>, start: int, target: nat, overlap: nat)
    requires
        0 <= start < ws.len(),
    ensures
        ({
            let rs = chunk_ranges(ws, start, target, overlap);
            &&& rs.len() > 0
            &&& rs[0].0 == start
            &&& rs.last().1 == ws.len()
            &&& forall|i: int|
                0 <= i < rs.len() ==> 0 <= (#[trigger] rs[i]).0 < rs[i].1 <= ws.len() && (rs[i].1
                    == rs[i].0 + 1 || width(ws, rs[i].0, rs[i].1) <= target)
            &&& forall|i: int|
                0 <= i < rs.len() - 1 ==> (#[trigger] rs[i]).0 < rs[i + 1].0 <= rs[i].1
        }),
    decreases ws.len() - start,
{
    lemma_chunk_end(ws, start, start, target);
    let end = chunk_end(ws, start, start, target);
    if end < ws.len() {
        let next = next_start(start, end, overlap);
        chunks_cover_all_words(ws, next, target, overlap);
        let tail = chunk_ranges(ws, next, target, overlap);
        let rs = chunk_ranges(ws, start, target, overlap);
        assert(rs =~= seq![(start, end)] + tail);
        assert(rs.last() == tail.last());
        assert forall|i: int| 0 <= i < rs.len() implies 0 <= (#[trigger] rs[i]).0 < rs[i].1
            <= ws.len() && (rs[i].1 == rs[i].0 + 1 || width(ws, rs[i].0, rs[i].1) <= target) by {
            if i > 0 {
                assert(rs[i] == tail[i - 1]);
            }
        }
        assert forall|i: int| 0 <= i < rs.len() - 1 implies (#[trigger] rs[i]).0 < rs[i + 1].0
            <= rs[i].1 by {
            assert(rs[i + 1] == tail[i]);
            if i > 0 {
                assert(rs[i] == tail[i - 1]);
                assert(tail[i] == tail[(i - 1) + 1]);
            }
        }
    }
}

proof fn lemma_width_join(ws: Seq<Seq<char>>, a: int, b: int)
    requires
        0 <= a <= b <= ws.len(),
    ensures
        join(ws.subrange(a, b), " "@).len() == width(ws, a, b),
    decreases b - a,
{
    reveal_strlit(" ");
    let part = ws.subrange(a, b);
    if b > a + 1 {
        assert(part.drop_last() =~= ws.subrange(a, b - 1));
        lemma_width_join(ws, a, b - 1);
    }
}

/// Every chunk of more than one word keeps to the length that was asked for.
pub proof fn chunks_fit(text: Seq<char>, target: nat, overlap: nat, i: int)
    requires
        0 <= i < chunks(text, target, overlap).len(),
    ensures
        chunks(text, target, overlap)[i].len() <= target || exists|k: int|
            0 <= k < words(text).len() && chunks(text, target, overlap)[i] == #[trigger] words(
                text,
            )[k],
{
    let ws = words(text);
    let rs = chunk_ranges(ws, 0, target, overlap);
    if ws.len() == 0 {
        assert(rs.len() == 0);
    } else {
        chunks_cover_all_words(ws, 0, target, overlap);
        let r = rs[i];
        lemma_width_join(ws, r.0, r.1);
        if r.1 == r.0 + 1 {
            assert(ws.subrange(r.0, r.1)[0] == ws[r.0]);
            assert(chunks(text, target, overlap)[i] == ws[r.0]);
        }
    }
}

/// A chunk takes as many words as fit, and the next one begins with the last words of it: with as
/// many as were asked for, where that leaves it room to go forward.
pub proof fn chunks_are_full_and_overlap(
    ws: Seq<Seq<char>>,
    start: int,
    target: nat,
    overlap: nat,
    i: int,
)
    requires
        0 <= start < ws.len(),
        0 <= i < chunk_ranges(ws, start, target, overlap).len() - 1,
    ensures
        ({
            let rs = chunk_ranges(ws, start, target, overlap);
            let (a, b) = rs[i];
            &&& 0 <= a < b < ws.len()
            &&& join(ws.subrange(a, b + 1), " "@).len() > target
            &&& b - a > overlap ==> b - rs[i + 1].0 == overlap
            &&& b - a <= overlap ==> b == rs[i + 1].0
        }),
    decreases ws.len() - start,
{
    lemma_chunk_end(ws, start, start, target);
    let end = chunk_end(ws, start, start, target);
    let next = next_start(start, end, overlap);
    let tail = chunk_ranges(ws, next, target, overlap);
    let rs = chunk_ranges(ws, start, target, overlap);
    assert(end < ws.len());
    assert(rs =~= seq![(start, end)] + tail);
    chunks_cover_all_words(ws, next, target, overlap);
    if i == 0 {
        lemma_width_join(ws, start, end + 1);
        assert(rs[1] == tail[0]);
    } else {
        chunks_are_full_and_overlap(ws, next, target, overlap, i - 1);
        assert(rs[i] == tail[i - 1]);
        assert(rs[i + 1] == tail[i]);
    }
}

proof fn lemma_range_of_word(ws: Seq<Seq<char>>, start: int, target: nat, overlap: nat, w: int) -> (
    i: int)
    requires
        0 <= start <= w < ws.len(),
    ensures
        0 <= i < chunk_ranges(ws, start, target, overlap).len(),
        chunk_ranges(ws, start, target, overlap)[i].0 <= w,
        w < chunk_ranges(ws, start, target, overlap)[i].1,
        chunk_ranges(ws, start, target, overlap)[i].1 <= ws.len(),
        0 <= chunk_ranges(ws, start, target, overlap)[i].0,
    decreases ws.len() - start,
{
    lemma_chunk_end(ws, start, start, target);
    let end = chunk_end(ws, start, start, target);
    let rs = chunk_ranges(ws, start, target, overlap);
    if w < end {
        assert(rs[0] == (start, end));
        0
    } else {
        let next = next_start(start, end, overlap);
        let tail = chunk_ranges(ws, next, target, overlap);
        assert(rs =~= seq![(start, end)] + tail);
        let i = lemma_range_of_word(ws, next, target, overlap, w);
        assert(rs[i + 1] == tail[i]);
        i + 1
    }
}

/// Every word of a text stands in one of its chunks, and a text has no chunks only when it has no
/// words.
pub proof fn every_word_is_in_a_chunk(text: Seq<char>, target: nat, overlap: nat, w: int) -> (i: int)
    requires
        0 <= w < words(text).len(),
    ensures
        0 <= i < chunks(text, target, overlap).len(),
        contains(chunks(text, target, overlap)[i], words(text)[w]),
{
    let ws = words(text);
    let i = lemma_range_of_word(ws, 0, target, overlap, w);
    let r = chunk_ranges(ws, 0, target, overlap)[i];
    let part = ws.subrange(r.0, r.1);
    assert(part[w - r.0] == ws[w]);
    lemma_holds_itself(ws[w]);
    join_holds_its_parts(part, " "@, w - r.0, ws[w]);
    i
}

/// A text that fits is one chunk: itself, with one space between its words.
pub proof fn a_short_text_is_one_chunk(text: Seq<char>, target: nat, overlap: nat)
    requires
        words(text).len() > 0,
        join(words(text), " "@).len() <= target,
    ensures
        chunks(text, target, overlap) == seq![join(words(text), " "@)],
{
    let ws = words(text);
    let n = ws.len() as int;
    lemma_chunk_end(ws, 0, 0, target);
    let end = chunk_end(ws, 0, 0, target);
    if end < n {
        lemma_width_join(ws, 0, end + 1);
        lemma_width_join(ws, 0, n);
        lemma_width_grows(ws, 0, end + 1, n);
        assert(ws.subrange(0, n) =~= ws);
    }
    assert(chunk_ranges(ws, 0, target, overlap) =~= seq![(0int, n)]);
    assert(ws.subrange(0, n) =~= ws);
    assert(chunks(text, target, overlap) =~= seq![join(ws, " "@)]);
}

proof fn lemma_width_grows(ws: Seq<Seq<char>>, a: int, b: int, c: int)
    requires
        a <= b <= c,
    ensures
        width(ws, a, b) <= width(ws, a, c),
    decreases c - b,
{
    if b < c {
        lemma_width_grows(ws, a, b, c - 1);
    }
}

fn join_range(list: &Vec<String>, a: usize, b: usize) -> (r: String)
    requires
        a <= b <= list@.len(),
    ensures
        r@ == join(views(list@).subrange(a as int, b as int), " "@),
{
    let mut out: String = String::new();
    let mut i: usize = a;
    while i < b
        invariant
            a <= i <= b <= list@.len(),
            out@ == join(views(list@).subrange(a as int, i as int), " "@),
        decreases b - i,
    {
        if i > a {
            out.append(" ");
        }
        out.append(list[i].as_str());
        proof {
            let now = views(list@).subrange(a as int, i + 1);
            assert(now.drop_last() =~= views(list@).subrange(a as int, i as int));
            assert(now.last() == list@[i as int]@);
            if i == a {
                assert(out@ =~= now[0]);
            }
        }
        i = i + 1;
    }
    out
}

/// Splits a text into chunks of about `target_chars` characters; neighbours share
/// `overlap_words` words where that leaves room to go forward.
pub fn chunk_text_by_words(text: &str, target_chars: usize, overlap_words: usize) -> (r: Vec<
    String,
>)
    ensures
        views(r@) == chunks(text@, target_chars as nat, overlap_words as nat),
{
    let list: Vec<String> = split_words(text);
    let ghost ws = words(text@);
    let ghost target = target_chars as nat;
    let ghost overlap = overlap_words as nat;
    let ghost part = |p: (int, int)| join(ws.subrange(p.0, p.1), " "@);
    let ghost all = chunk_ranges(ws, 0, target, overlap);
    let total: usize = list.len();
    assert(views(list@).len() == total);
    let mut out: Vec<String> = Vec::new();
    let mut start: usize = 0;
    let ghost mut done: Seq<(int, int)> = Seq::empty();
    assert(done + all =~= all);
    while start < total
        invariant
            views(list@) == ws,
            list@.len() == total,
            ws.len() == total,
            target == target_chars,
            overlap == overlap_words,
            all == chunk_ranges(ws, 0, target, overlap),
            start <= total,
            part == |p: (int, int)| join(ws.subrange(p.0, p.1), " "@),
            done + chunk_ranges(ws, start as int, target, overlap) == all,
            views(out@) =~= done.map_values(part),
        decreases total - start,
    {
        let mut end: usize = start;
        let mut chars: usize = 0;
        let mut full: bool = false;
        while end < total && !full
            invariant
                views(list@) == ws,
                list@.len() == total,
                ws.len() == total,
                target == target_chars,
                start <= end <= total,
                start < total,
                end == start ==> chars == 0 && !full,
                end > start ==> chars == width(ws, start as int, end as int),
                !full ==> chunk_end(ws, start as int, start as int, target) == chunk_end(
                    ws,
                    start as int,
                    end as int,
                    target,
                ),
                full ==> chunk_end(ws, start as int, start as int, target) == end,
            decreases total - end, (if full { 0int } else { 1int }),
        {
            let word_len: usize = list[end].as_str().unicode_len();
            assert(word_len == ws[end as int].len());
            if end > start && (chars > target_chars || word_len >= target_chars - chars) {
                assert(width(ws, start as int, end + 1) == chars + 1 + word_len);
                full = true;
            } else {
                if end > start {
                    chars = chars + 1 + word_len;
                } else {
                    chars = word_len;
                }
                end = end + 1;
            }
        }
        proof {
            lemma_chunk_end(ws, start as int, start as int, target);
        }
        let ghost before = done;
        let ghost prior = views(out@);
        let chunk: String = join_range(&list, start, end);
        out.push(chunk);
        proof {
            done = done.push((start as int, end as int));
            assert(views(out@) =~= prior.push(chunk@));
            assert(chunk@ == part((start as int, end as int)));
            assert(done.map_values(part) =~= before.map_values(part).push(chunk@));
        }
        if end >= total {
            proof {
                assert(chunk_ranges(ws, start as int, target, overlap) =~= seq![
                    (start as int, end as int),
                ]);
                assert(chunk_ranges(ws, total as int, target, overlap) =~= Seq::<(int, int)>::empty());
                assert(done + chunk_ranges(ws, total as int, target, overlap) =~= before
                    + chunk_ranges(ws, start as int, target, overlap));
            }
            start = total;
        } else {
            let next: usize = if end <= overlap_words || end - overlap_words <= start {
                end
            } else {
                end - overlap_words
            };
            proof {
                assert(next == next_start(start as int, end as int, overlap));
                assert(done + chunk_ranges(ws, next as int, target, overlap) =~= before
                    + chunk_ranges(ws, start as int, target, overlap));
            }
            start = next;
        }
    }
    proof {
        assert(chunk_ranges(ws, start as int, target, overlap) =~= Seq::<(int, int)>::empty());
        assert(done =~= all);
        assert(chunks(text@, target, overlap) =~= all.map_values(part));
    }
    out
}

// ---------------------------------------------------------------------------
// Search tokens
// ---------------------------------------------------------------------------

/// The number of letters and numbers that a text begins with.
pub open spec fn lead_token(s: Seq<char>) -> nat
    decreases s.len(),
{
    if s.len() > 0 && alphanumeric(s[0]) {
        1 + lead_token(s.skip(1))
    } else {
        0
    }
}

proof fn lemma_lead_token(s: Seq<char>)
    ensures
        lead_token(s) <= s.len(),
    decreases s.len(),
{
    if s.len() > 0 && alphanumeric(s[0]) {
        lemma_lead_token(s.skip(1));
    }
}

/// The search tokens of a text: its runs of letters and numbers, those of three characters and
/// more, in lower case.
pub open spec fn search_tokens(s: Seq<char>) -> Seq<Seq<char>>
    decreases s.len(),
    via search_tokens_decreases
{
    let n = lead_token(s) as int;
    let token = trim(s.take(n));
    let kept = if token.len() < 3 {
        Seq::empty()
    } else {
        seq![lowercase(token)]
    };
    if n >= s.len() {
        kept
    } else {
        kept + search_tokens(s.skip(n + 1))
    }
}

#[via_fn]
proof fn search_tokens_decreases(s: Seq<char>) {
    lemma_lead_token(s);
}

/// Finds the search tokens of a query.
pub fn tokenize_for_search(query: &str) -> (r: Vec<String>)
    ensures
        views(r@) == search_tokens(query@),
{
    let v: Vec<char> = chars_of(query);
    let mut out: Vec<String> = Vec::new();
    let mut i: usize = 0;
    let mut over: bool = false;
    assert(v@.skip(0) =~= v@);
    assert(views(out@) + search_tokens(v@) =~= search_tokens(v@));
    while !over
        invariant
            i <= v@.len(),
            !over ==> views(out@) + search_tokens(v@.skip(i as int)) == search_tokens(v@),
            over ==> views(out@) == search_tokens(v@),
        decreases (if over { 0int } else { 1int }), v@.len() - i,
    {
        let ghost tail = v@.skip(i as int);
        let ghost prior = views(out@);
        let mut e: usize = i;
        while e < v.len() && is_alphanumeric(v[e])
            invariant
                i <= e <= v@.len(),
                tail == v@.skip(i as int),
                lead_token(tail) == (e - i) + lead_token(v@.skip(e as int)),
            decreases v@.len() - e,
        {
            assert(v@.skip(e as int).skip(1) =~= v@.skip(e + 1));
            e = e + 1;
        }
        proof {
            assert(lead_token(v@.skip(e as int)) == 0) by {
                if e < v@.len() {
                    assert(v@.skip(e as int)[0] == v@[e as int]);
                }
            }
            assert(tail.take(e - i) =~= v@.subrange(i as int, e as int));
        }
        let token: String = trim_text(string_of(&v[i..e]).as_str());
        if token.as_str().unicode_len() >= 3 {
            let lower: String = lowercase_text(token.as_str());
            out.push(lower);
            assert(views(out@) =~= prior.push(lower@));
        }
        if e >= v.len() {
            over = true;
            assert(views(out@) =~= prior + search_tokens(tail));
        } else {
            assert(tail.skip(e - i + 1) =~= v@.skip(e + 1));
            assert(views(out@) + search_tokens(v@.skip(e + 1)) =~= prior + search_tokens(tail));
            i = e + 1;
        }
    }
    out
}

proof fn lemma_lead_token_all(s: Seq<char>, n: int)
    requires
        0 <= n <= s.len(),
        forall|i: int| 0 <= i < n ==> alphanumeric(#[trigger] s[i]),
        n < s.len() ==> !alphanumeric(s[n]),
    ensures
        lead_token(s) == n,
    decreases n,
{
    if n > 0 {
        assert(alphanumeric(s[0]));
        assert forall|i: int| 0 <= i < n - 1 implies alphanumeric(#[trigger] s.skip(1)[i]) by {
            assert(s.skip(1)[i] == s[i + 1]);
        }
        if n < s.len() {
            assert(s.skip(1)[n - 1] == s[n]);
        }
        lemma_lead_token_all(s.skip(1), n - 1);
    }
}

/// A run of letters and numbers at the beginning of a query, with no white character at its edges,
/// is searched for when it has three characters or more, in lower case; what stands behind it is
/// searched as a query of its own.
pub proof fn a_query_is_searched_by_its_runs(run: Seq<char>, c: char, rest: Seq<char>)
    requires
        run.len() > 0,
        forall|i: int| 0 <= i < run.len() ==> alphanumeric(#[trigger] run[i]),
        !is_white(run[0]),
        !is_white(run.last()),
        !alphanumeric(c),
    ensures
        search_tokens(run) == if run.len() >= 3 {
            seq![lowercase(run)]
        } else {
            Seq::empty()
        },
        search_tokens(run + seq![c] + rest) == search_tokens(run) + search_tokens(rest),
        search_tokens(seq![c] + rest) == search_tokens(rest),
{
    let s = run + seq![c] + rest;
    let n = run.len() as int;
    lemma_lead_token_all(run, n);
    assert forall|i: int| 0 <= i < n implies alphanumeric(#[trigger] s[i]) by {
        assert(s[i] == run[i]);
    }
    lemma_lead_token_all(s, n);
    lemma_trimmed(run);
    assert(run.take(n) =~= run);
    assert(s.take(n) =~= run);
    assert(s.skip(n + 1) =~= rest);
    let t = seq![c] + rest;
    lemma_lead_token_all(t, 0);
    assert(t.take(0) =~= Seq::<char>::empty());
    lemma_trimmed(t.take(0));
    assert(t.skip(1) =~= rest);
    assert(search_tokens(t) =~= search_tokens(rest));
}

// ---------------------------------------------------------------------------
// Wrapped lines
// ---------------------------------------------------------------------------

/// A word cut into pieces of `max` characters.
pub open spec fn pieces(word: Seq<char>, max: nat) -> Seq<Seq<char>>
    decreases word.len(),
{
    if max == 0 || word.len() == 0 {
        Seq::empty()
    } else if word.len() <= max {
        seq![word]
    } else {
        seq![word.take(max as int)] + pieces(word.skip(max as int), max)
    }
}

/// A line as a list: none when it is empty.
pub open spec fn line_of(current: Seq<char>) -> Seq<Seq<char>> {
    if current.len() == 0 {
        Seq::empty()
    } else {
        seq![current]
    }
}

/// The lines that words make when they are set after what `current` holds.
pub open spec fn wrapped(ws: Seq<Seq<char>>, current: Seq<char>, max: nat) -> Seq<Seq<char>>
    decreases ws.len(),
{
    if ws.len() == 0 {
        line_of(current)
    } else {
        let word = ws[0];
        let rest = ws.skip(1);
        if word.len() > max {
            line_of(current) + pieces(word, max) + wrapped(rest, Seq::empty(), max)
        } else if current.len() == 0 {
            wrapped(rest, word, max)
        } else if current.len() + 1 + word.len() > max {
            seq![current] + wrapped(rest, word, max)
        } else {
            wrapped(rest, current + " "@ + word, max)
        }
    }
}

/// The lines of a paragraph of at most `max` characters each; a blank paragraph is one empty line.
pub open spec fn wrapped_lines(line: Seq<char>, max: nat) -> Seq<Seq<char>> {
    if trim(line).len() == 0 {
        seq![Seq::empty()]
    } else {
        wrapped(words(line), Seq::empty(), max)
    }
}

fn push_pieces(out: &mut Vec<String>, word: &str, max_chars: usize)
    requires
        max_chars > 0,
    ensures
        views(final(out)@) == views(old(out)@) + pieces(word@, max_chars as nat),
{
    let v: Vec<char> = chars_of(word);
    let total: usize = v.len();
    let ghost start = views(out@);
    let mut i: usize = 0;
    assert(v@.skip(0) =~= v@);
    while i < total
        invariant
            total == v@.len(),
            max_chars > 0,
            i <= total,
            views(out@) + pieces(v@.skip(i as int), max_chars as nat) == start + pieces(
                v@,
                max_chars as nat,
            ),
        decreases total - i,
    {
        let e: usize = if total - i <= max_chars {
            total
        } else {
            i + max_chars
        };
        let ghost tail = v@.skip(i as int);
        let ghost prior = views(out@);
        let piece: String = string_of(&v[i..e]);
        out.push(piece);
        proof {
            assert(views(out@) =~= prior.push(piece@));
            assert(v@.subrange(i as int, e as int) =~= tail.take(e - i));
            assert(tail.skip(e - i) =~= v@.skip(e as int));
            if total - i <= max_chars {
                assert(tail.take(e - i) =~= tail);
                assert(pieces(v@.skip(e as int), max_chars as nat) =~= Seq::<Seq<char>>::empty());
            }
            assert(views(out@) + pieces(v@.skip(e as int), max_chars as nat) =~= prior + pieces(
                tail,
                max_chars as nat,
            ));
        }
        i = e;
    }
    assert(pieces(v@.skip(i as int), max_chars as nat) =~= Seq::<Seq<char>>::empty());
    assert(views(out@) + pieces(v@.skip(i as int), max_chars as nat) =~= views(out@));
}

/// Wraps a paragraph into lines of at most `max_chars` characters. A word that is longer is cut.
pub fn wrap_pdf_text_line(line: &str, max_chars: usize) -> (r: Vec<String>)
    requires
        max_chars > 0 || trim(line@).len() == 0,
    ensures
        views(r@) == wrapped_lines(line@, max_chars as nat),
{
    let mut out: Vec<String> = Vec::new();
    if trim_text(line).as_str().is_empty() {
        let empty: String = String::new();
        out.push(empty);
        assert(views(out@) =~= seq![Seq::empty()]);
        return out;
    }
    let list: Vec<String> = split_words(line);
    let ghost ws = words(line@);
    let ghost max = max_chars as nat;
    let mut current: String = String::new();
    let mut current_len: usize = 0;
    let mut i: usize = 0;
    assert(views(list@).skip(0) =~= ws);
    assert(current@ =~= Seq::<char>::empty());
    assert(views(out@) + wrapped(ws, Seq::empty(), max) =~= wrapped(ws, Seq::empty(), max));
    while i < list.len()
        invariant
            max_chars > 0,
            max == max_chars,
            views(list@) == ws,
            i <= list@.len(),
            current_len == current@.len(),
            current_len <= max_chars,
            views(out@) + wrapped(ws.skip(i as int), current@, max) == wrapped(
                ws,
                Seq::empty(),
                max,
            ),
        decreases list@.len() - i,
    {
        let word: &str = list[i].as_str();
        let word_len: usize = word.unicode_len();
        let ghost tail = ws.skip(i as int);
        let ghost prior = views(out@);
        let ghost held = current@;
        proof {
            assert(list@.len() == ws.len());
            assert(tail[0] == word@);
            assert(tail.skip(1) =~= ws.skip(i + 1));
        }
        if word_len > max_chars {
            if current_len > 0 {
                out.push(current);
                current = String::new();
                current_len = 0;
            }
            assert(views(out@) =~= prior + line_of(held));
            push_pieces(&mut out, word, max_chars);
            assert(current@ =~= Seq::<char>::empty());
            assert(views(out@) + wrapped(ws.skip(i + 1), current@, max) =~= prior + wrapped(
                tail,
                held,
                max,
            ));
        } else if current_len == 0 {
            current = word.to_owned();
            current_len = word_len;
        } else if word_len >= max_chars - current_len {
            out.push(current);
            current = word.to_owned();
            current_len = word_len;
            assert(views(out@) =~= prior.push(held));
            assert(views(out@) + wrapped(ws.skip(i + 1), current@, max) =~= prior + wrapped(
                tail,
                held,
                max,
            ));
        } else {
            proof {
                reveal_strlit(" ");
            }
            current.append(" ");
            current.append(word);
            current_len = current_len + 1 + word_len;
        }
        i = i + 1;
    }
    let ghost prior = views(out@);
    let ghost held = current@;
    assert(ws.skip(i as int).len() == 0);
    if current_len > 0 {
        out.push(current);
    }
    assert(views(out@) =~= prior + line_of(held));
    out
}

/// The characters of a text that are not white.
pub open spec fn ink(s: Seq<char>) -> Seq<char>
    decreases s.len(),
{
    if s.len() == 0 {
        Seq::empty()
    } else if is_white(s.last()) {
        ink(s.drop_last())
    } else {
        ink(s.drop_last()).push(s.last())
    }
}

/// The texts of a list, one after the other.
pub open spec fn flat(list: Seq<Seq<char>>) -> Seq<char>
    decreases list.len(),
{
    if list.len() == 0 {
        Seq::empty()
    } else {
        list[0] + flat(list.skip(1))
    }
}

proof fn lemma_ink_add(a: Seq<char>, b: Seq<char>)
    ensures
        ink(a + b) == ink(a) + ink(b),
    decreases b.len(),
{
    if b.len() == 0 {
        assert(a + b =~= a);
        assert(ink(a) + ink(b) =~= ink(a));
    } else {
        lemma_ink_add(a, b.drop_last());
        assert((a + b).drop_last() =~= a + b.drop_last());
        assert((a + b).last() == b.last());
        assert((ink(a) + ink(b.drop_last())).push(b.last()) =~= ink(a) + ink(
            b.drop_last(),
        ).push(b.last()));
    }
}

proof fn lemma_ink_word(s: Seq<char>)
    requires
        forall|i: int| 0 <= i < s.len() ==> !is_white(#[trigger] s[i]),
    ensures
        ink(s) == s,
    decreases s.len(),
{
    if s.len() > 0 {
        let t = s.drop_last();
        assert forall|i: int| 0 <= i < t.len() implies !is_white(#[trigger] t[i]) by {
            assert(t[i] == s[i]);
        }
        lemma_ink_word(t);
        assert(t.push(s.last()) =~= s);
    } else {
        assert(ink(s) =~= s);
    }
}

proof fn lemma_ink_twice(s: Seq<char>)
    ensures
        ink(ink(s)) == ink(s),
    decreases s.len(),
{
    if s.len() > 0 {
        lemma_ink_twice(s.drop_last());
        if !is_white(s.last()) {
            assert(ink(s).drop_last() =~= ink(s.drop_last()));
        }
    }
}

proof fn lemma_ink_blank(s: Seq<char>)
    requires
        forall|i: int| 0 <= i < s.len() ==> is_white(#[trigger] s[i]),
    ensures
        ink(s) == Seq::<char>::empty(),
    decreases s.len(),
{
    if s.len() > 0 {
        let t = s.drop_last();
        assert forall|i: int| 0 <= i < t.len() implies is_white(#[trigger] t[i]) by {
            assert(t[i] == s[i]);
        }
        lemma_ink_blank(t);
        assert(is_white(s[s.len() - 1]));
    }
}

proof fn lemma_flat_add(a: Seq<Seq<char>>, b: Seq<Seq<char>>)
    ensures
        flat(a + b) == flat(a) + flat(b),
    decreases a.len(),
{
    if a.len() == 0 {
        assert(a + b =~= b);
        assert(flat(a) + flat(b) =~= flat(b));
    } else {
        lemma_flat_add(a.skip(1), b);
        assert((a + b).skip(1) =~= a.skip(1) + b);
        assert(flat(a) + flat(b) =~= a[0] + (flat(a.skip(1)) + flat(b)));
    }
}

proof fn lemma_words_ink(s: Seq<char>)
    ensures
        flat(words(s)) == ink(s),
        forall|i: int, j: int|
            0 <= i < words(s).len() && 0 <= j < words(s)[i].len() ==> !is_white(
                #[trigger] words(s)[i][j],
            ),
    decreases s.len(),
{
    let t = trim_start(s);
    lemma_lead_white(s);
    let blank = s.take(lead_white(s) as int);
    lemma_ink_blank(blank);
    lemma_ink_add(blank, t);
    assert(blank + t =~= s);
    assert(ink(s) =~= ink(t));
    if t.len() > 0 {
        lemma_lead_word(t);
        assert(t[0] == s[lead_white(s) as int]);
        let n = lead_word(t) as int;
        let word = t.take(n);
        let rest = t.skip(n);
        assert forall|i: int| 0 <= i < word.len() implies !is_white(#[trigger] word[i]) by {
            assert(word[i] == t[i]);
        }
        lemma_ink_word(word);
        lemma_ink_add(word, rest);
        assert(word + rest =~= t);
        lemma_words_ink(rest);
        let ws = words(s);
        assert(ws =~= seq![word] + words(rest));
        assert(ws.skip(1) =~= words(rest));
        assert forall|i: int, j: int| 0 <= i < ws.len() && 0 <= j < ws[i].len() implies !is_white(
            #[trigger] ws[i][j],
        ) by {
            if i > 0 {
                assert(ws[i] == words(rest)[i - 1]);
                assert(!is_white(words(rest)[i - 1][j]));
            } else {
                assert(ws[0][j] == word[j]);
            }
        }
    }
}

proof fn lemma_flat_one(text: Seq<char>)
    ensures
        flat(seq![text]) == text,
{
    reveal_with_fuel(flat, 2);
    assert(flat(seq![text]) =~= text);
}

proof fn lemma_pieces(word: Seq<char>, max: nat)
    requires
        max > 0,
    ensures
        flat(pieces(word, max)) == word,
        forall|i: int| 0 <= i < pieces(word, max).len() ==> (#[trigger] pieces(word, max)[i]).len()
            <= max,
    decreases word.len(),
{
    let p = pieces(word, max);
    if word.len() == 0 {
        assert(flat(p) =~= word);
    } else if word.len() <= max {
        lemma_flat_one(word);
    } else {
        let rest = pieces(word.skip(max as int), max);
        lemma_pieces(word.skip(max as int), max);
        assert(p.skip(1) =~= rest);
        assert(flat(p) =~= word.take(max as int) + word.skip(max as int));
        assert(word.take(max as int) + word.skip(max as int) =~= word);
        assert forall|i: int| 0 <= i < p.len() implies (#[trigger] p[i]).len() <= max by {
            if i > 0 {
                assert(p[i] == rest[i - 1]);
            }
        }
    }
}

proof fn lemma_flat_line(current: Seq<char>)
    ensures
        flat(line_of(current)) == current,
{
    if current.len() == 0 {
        assert(flat(line_of(current)) =~= current);
    } else {
        lemma_flat_one(current);
    }
}

proof fn lemma_wrapped(ws: Seq<Seq<char>>, current: Seq<char>, max: nat)
    requires
        max > 0,
        current.len() <= max,
    ensures
        ink(flat(wrapped(ws, current, max))) == ink(current) + ink(flat(ws)),
        forall|i: int| 0 <= i < wrapped(ws, current, max).len() ==> (#[trigger] wrapped(
            ws,
            current,
            max,
        )[i]).len() <= max,
    decreases ws.len(),
{
    lemma_flat_line(current);
    let lines = wrapped(ws, current, max);
    if ws.len() == 0 {
        assert(ink(current) + ink(flat(ws)) =~= ink(current));
    } else {
        let word = ws[0];
        let rest = ws.skip(1);
        lemma_ink_add(word, flat(rest));
        if word.len() > max {
            let tail = wrapped(rest, Seq::empty(), max);
            lemma_wrapped(rest, Seq::empty(), max);
            lemma_pieces(word, max);
            lemma_flat_add(line_of(current) + pieces(word, max), tail);
            lemma_flat_add(line_of(current), pieces(word, max));
            lemma_ink_add(current + word, flat(tail));
            lemma_ink_add(current, word);
            assert(ink(flat(lines)) =~= ink(current) + ink(flat(ws)));
        } else if current.len() == 0 {
            lemma_wrapped(rest, word, max);
            assert(ink(current) + ink(flat(ws)) =~= ink(flat(ws)));
        } else if current.len() + 1 + word.len() > max {
            let tail = wrapped(rest, word, max);
            lemma_wrapped(rest, word, max);
            lemma_flat_add(seq![current], tail);
            assert(line_of(current) =~= seq![current]);
            lemma_ink_add(current, flat(tail));
            assert(ink(flat(lines)) =~= ink(current) + ink(flat(ws)));
        } else {
            reveal_strlit(" ");
            let held = current + " "@ + word;
            lemma_wrapped(rest, held, max);
            lemma_ink_add(current + " "@, word);
            lemma_ink_add(current, " "@);
            lemma_ink_blank(" "@);
            assert(ink(flat(lines)) =~= ink(current) + ink(flat(ws)));
        }
    }
}

/// Wrapping loses nothing but white space, and no line is longer than asked for.
pub proof fn wrapping_keeps_the_text(line: Seq<char>, max: nat)
    requires
        max > 0,
    ensures
        ink(flat(wrapped_lines(line, max))) == ink(line),
        forall|i: int| 0 <= i < wrapped_lines(line, max).len() ==> (#[trigger] wrapped_lines(
            line,
            max,
        )[i]).len() <= max,
{
    lemma_words_ink(line);
    if trim(line).len() == 0 {
        lemma_blank(line);
        lemma_ink_blank(line);
        lemma_flat_one(Seq::empty());
        assert(ink(Seq::<char>::empty()) =~= ink(line));
    } else {
        lemma_wrapped(words(line), Seq::empty(), max);
        lemma_ink_twice(line);
        assert(ink(Seq::<char>::empty()) =~= Seq::<char>::empty());
    }
}

/// The words of texts, one text after the other.
pub open spec fn all_words(list: Seq<Seq<char>>) -> Seq<Seq<char>>
    decreases list.len(),
{
    if list.len() == 0 {
        Seq::empty()
    } else {
        words(list[0]) + all_words(list.skip(1))
    }
}

proof fn lemma_wrapped_words(ws: Seq<Seq<char>>, current: Seq<char>, max: nat)
    requires
        forall|i: int| 0 <= i < ws.len() ==> words(#[trigger] ws[i]) == seq![ws[i]] && ws[i].len()
            <= max,
    ensures
        all_words(wrapped(ws, current, max)) == words(current) + ws,
    decreases ws.len(),
{
    let lines = wrapped(ws, current, max);
    reveal_with_fuel(all_words, 2);
    if ws.len() == 0 {
        if current.len() == 0 {
            assert(words(current) =~= Seq::<Seq<char>>::empty());
        }
        assert(all_words(lines) =~= words(current) + ws);
    } else {
        let word = ws[0];
        let rest = ws.skip(1);
        assert(words(word) == seq![word]);
        assert forall|i: int| 0 <= i < rest.len() implies words(#[trigger] rest[i]) == seq![
            rest[i],
        ] && rest[i].len() <= max by {
            assert(rest[i] == ws[i + 1]);
        }
        assert(seq![word] + rest =~= ws);
        if current.len() == 0 {
            lemma_wrapped_words(rest, word, max);
            assert(words(current) =~= Seq::<Seq<char>>::empty());
            assert(words(current) + ws =~= ws);
        } else if current.len() + 1 + word.len() > max {
            lemma_wrapped_words(rest, word, max);
            assert(lines.skip(1) =~= wrapped(rest, word, max));
            assert(all_words(lines) =~= words(current) + ws);
        } else {
            lemma_wrapped_words(rest, current + " "@ + word, max);
            lemma_words_add(current, word);
            assert(words(current) + seq![word] + rest =~= words(current) + ws);
        }
    }
}

/// Wrapping breaks a paragraph between words: where every word fits into a line, the lines have the
/// words of the paragraph, in order.
pub proof fn wrapping_keeps_words_whole(line: Seq<char>, max: nat)
    requires
        forall|i: int| 0 <= i < words(line).len() ==> (#[trigger] words(line)[i]).len() <= max,
    ensures
        all_words(wrapped_lines(line, max)) == words(line),
{
    let ws = words(line);
    assert forall|i: int| 0 <= i < ws.len() implies words(#[trigger] ws[i]) == seq![ws[i]] && ws[
        i
    ].len() <= max by {
        lemma_word_is_word(line, i);
    }
    assert(words(Seq::<char>::empty()) =~= Seq::<Seq<char>>::empty());
    if trim(line).len() == 0 {
        reveal_with_fuel(all_words, 2);
        lemma_blank(line);
        lemma_lead_white(line);
        assert(trim_start(line).len() == 0);
        assert(ws =~= Seq::<Seq<char>>::empty());
        assert(all_words(wrapped_lines(line, max)) =~= ws);
    } else {
        lemma_wrapped_words(ws, Seq::empty(), max);
        assert(words(Seq::<char>::empty()) + ws =~= ws);
    }
}

/// The words of a text are not empty and hold no white character, and together they are all of the
/// text that is not white.
pub proof fn words_are_all_that_is_not_white(s: Seq<char>)
    ensures
        flat(words(s)) == ink(s),
        forall|i: int| 0 <= i < words(s).len() ==> (#[trigger] words(s)[i]).len() > 0,
        forall|i: int, j: int|
            0 <= i < words(s).len() && 0 <= j < words(s)[i].len() ==> !is_white(
                #[trigger] words(s)[i][j],
            ),
{
    lemma_words_ink(s);
    assert forall|i: int| 0 <= i < words(s).len() implies (#[trigger] words(s)[i]).len() > 0 by {
        lemma_word_is_word(s, i);
        if words(s)[i].len() == 0 {
            assert(words(words(s)[i]) =~= Seq::<Seq<char>>::empty());
        }
    }
}

} // verus!
