//! The markers by which a service is told the language of each passage, and what is left of its
//! answer without them.

use vstd::prelude::*;
use vstd::string::*;

use crate::text::{
    before, chars_of, contains, find_char, inked, is_white, join, join_texts, lead_until, lead_white,
    lemma_inked_add, lemma_inked_white, lemma_lead_until, lemma_lead_white, lemma_trim_end, lines,
    lines_hold_all_of_the_text, matches_at, run, split_lines, starts_with, string_of, strip_cr, trim,
    trim_end, trim_end_text, trim_start, trim_text, trim_trims, trimming_takes_white_only, views,
};

verus! {

/// How a language marker begins.
pub const LANGUAGE_MARKER: &'static str = "[source_language=";

proof fn lemma_before(s: Seq<char>, p: Seq<char>)
    ensures
        before(s, p).len() <= s.len(),
    decreases s.len(),
{
    if s.len() > 0 && !starts_with(s, p) {
        lemma_before(s.skip(1), p);
    }
}

/// A text without its language markers. What is left when one is taken out is looked at again; a
/// marker that is not closed stays.
pub open spec fn unmarked(s: Seq<char>) -> Seq<char>
    decreases s.len(),
    via unmarked_decreases
{
    let i = before(s, LANGUAGE_MARKER@).len() as int;
    let n = lead_until(s.skip(i), ']') as int;
    if i < s.len() && i + n < s.len() {
        unmarked(s.take(i) + s.skip(i + n + 1))
    } else {
        s
    }
}

#[via_fn]
proof fn unmarked_decreases(s: Seq<char>) {
    lemma_before(s, LANGUAGE_MARKER@);
}

fn find_marker(v: &Vec<char>, marker: &Vec<char>) -> (r: usize)
    ensures
        r <= v@.len(),
        r == before(v@, marker@).len(),
{
    let mut i: usize = 0;
    assert(v@.skip(0) =~= v@);
    while i < v.len() && !matches_at(v, i, marker)
        invariant
            i <= v@.len(),
            before(v@, marker@).len() == i + before(v@.skip(i as int), marker@).len(),
        decreases v@.len() - i,
    {
        assert(v@.skip(i as int).skip(1) =~= v@.skip(i + 1));
        i = i + 1;
    }
    i
}

/// The lines of a text, each without trailing white space.
pub open spec fn trimmed_lines(s: Seq<char>) -> Seq<Seq<char>> {
    lines(s).map_values(|l: Seq<char>| trim_end(l))
}

/// The lines of a text without trailing white space, as one text.
pub open spec fn tidied(s: Seq<char>) -> Seq<char> {
    join(trimmed_lines(s), "\n"@)
}

/// What is left of a text that a service returned.
pub open spec fn without_markers(s: Seq<char>) -> Seq<char> {
    trim(tidied(unmarked(s)))
}

/// Takes the language markers out of a text that a service returned, and the white space that
/// they leave at the ends of lines.
pub fn strip_language_service_markers(value: &str) -> (r: String)
    ensures
        r@ == without_markers(value@),
{
    let marker: Vec<char> = chars_of(LANGUAGE_MARKER);
    let mut v: Vec<char> = chars_of(value);
    let mut over: bool = false;
    while !over
        invariant
            marker@ == LANGUAGE_MARKER@,
            !over ==> unmarked(v@) == unmarked(value@),
            over ==> v@ == unmarked(value@),
        decreases v@.len(), (if over { 0int } else { 1int }),
    {
        let start: usize = find_marker(&v, &marker);
        let end: usize = find_char(&v, start, ']');
        if start < v.len() && end < v.len() {
            let ghost held = v@;
            let mut rest: Vec<char> = Vec::new();
            let mut k: usize = 0;
            let total: usize = v.len();
            while k < total
                invariant
                    total == v@.len(),
                    k <= total,
                    start <= end < total,
                    v@ == held,
                    rest@ =~= held.take(if k <= start { k as int } else { start as int }) + (if k
                        <= end + 1 {
                        Seq::<char>::empty()
                    } else {
                        held.subrange(end + 1, k as int)
                    }),
                decreases total - k,
            {
                if k < start || k > end {
                    rest.push(v[k]);
                }
                k = k + 1;
            }
            assert(rest@ =~= held.take(start as int) + held.skip(end + 1));
            v = rest;
        } else {
            over = true;
        }
    }
    let cleaned: String = string_of(&v);
    let list: Vec<String> = split_lines(cleaned.as_str());
    let mut out: Vec<String> = Vec::new();
    let mut i: usize = 0;
    while i < list.len()
        invariant
            i <= list@.len(),
            views(list@) == lines(cleaned@),
            views(out@) =~= trimmed_lines(cleaned@).take(i as int),
        decreases list@.len() - i,
    {
        let ghost prior = views(out@);
        let line: String = trim_end_text(list[i].as_str());
        out.push(line);
        proof {
            assert(views(out@) =~= prior.push(line@));
            assert(lines(cleaned@)[i as int] == list@[i as int]@);
            assert(trimmed_lines(cleaned@)[i as int] == line@);
        }
        i = i + 1;
    }
    assert(views(list@).len() == list@.len());
    assert(trimmed_lines(cleaned@).take(i as int) =~= trimmed_lines(cleaned@));
    trim_text(join_texts(&out, "\n").as_str())
}

// ---------------------------------------------------------------------------
// What is left
// ---------------------------------------------------------------------------

/// Whether a language marker begins at `i` and a bracket closes it at `j`.
pub open spec fn closes(s: Seq<char>, i: int, j: int) -> bool {
    0 <= i <= j < s.len() && starts_with(s.skip(i), LANGUAGE_MARKER@) && s[j] == ']'
}

/// Whether a text holds a language marker with a closing bracket anywhere after its beginning.
pub open spec fn has_closed_marker(s: Seq<char>) -> bool {
    exists|i: int, j: int| closes(s, i, j)
}

/// Whether no line of a text ends in white space.
pub open spec fn lines_end_in_words(s: Seq<char>) -> bool {
    forall|k: int|
        0 <= k < lines(s).len() && (#[trigger] lines(s)[k]).len() > 0 ==> !is_white(
            lines(s)[k].last(),
        )
}

/// The same, by characters: what stands before a line feed, and at the end, is a line feed or not
/// white.
spec fn is_clean(s: Seq<char>) -> bool {
    &&& forall|j: int|
        0 < j < s.len() && #[trigger] s[j] == '\n' ==> s[j - 1] == '\n' || !is_white(s[j - 1])
    &&& s.len() > 0 && s.last() != '\n' ==> !is_white(s.last())
}

proof fn lemma_marker()
    ensures
        LANGUAGE_MARKER@.len() == 17,
        LANGUAGE_MARKER@[0] == '[',
        forall|k: int| 0 <= k < 17 ==> #[trigger] LANGUAGE_MARKER@[k] != '\n',
{
    reveal_strlit("[source_language=");
}

proof fn lemma_marker_before(s: Seq<char>)
    ensures
        before(s, LANGUAGE_MARKER@).len() <= s.len(),
        before(s, LANGUAGE_MARKER@).len() < s.len() ==> starts_with(
            s.skip(before(s, LANGUAGE_MARKER@).len() as int),
            LANGUAGE_MARKER@,
        ),
        forall|i: int|
            0 <= i < before(s, LANGUAGE_MARKER@).len() ==> !starts_with(
                #[trigger] s.skip(i),
                LANGUAGE_MARKER@,
            ),
    decreases s.len(),
{
    let p = LANGUAGE_MARKER@;
    assert(s.skip(0) =~= s);
    if s.len() > 0 && !starts_with(s, p) {
        let t = s.skip(1);
        lemma_marker_before(t);
        let n = before(t, p).len() as int;
        assert(t.skip(n) =~= s.skip(n + 1));
        assert forall|i: int| 0 <= i < before(s, p).len() implies !starts_with(
            #[trigger] s.skip(i),
            p,
        ) by {
            if i > 0 {
                assert(t.skip(i - 1) =~= s.skip(i));
            }
        }
    }
}

proof fn lemma_unmarked_has_no_closed_marker(s: Seq<char>)
    ensures
        !has_closed_marker(unmarked(s)),
    decreases s.len(),
{
    let i = before(s, LANGUAGE_MARKER@).len() as int;
    let n = lead_until(s.skip(i), ']') as int;
    lemma_marker_before(s);
    lemma_lead_until(s.skip(i), ']');
    if i < s.len() && i + n < s.len() {
        lemma_unmarked_has_no_closed_marker(s.take(i) + s.skip(i + n + 1));
    } else if has_closed_marker(s) {
        let (a, b) = choose|a: int, b: int| closes(s, a, b);
        assert(a >= i) by {
            if a < i {
                assert(!starts_with(s.skip(a), LANGUAGE_MARKER@));
            }
        }
        assert(s.skip(i)[b - i] == ']');
    }
}

proof fn lemma_unclosed_is_unmarked(s: Seq<char>)
    requires
        !has_closed_marker(s),
    ensures
        unmarked(s) == s,
{
    let i = before(s, LANGUAGE_MARKER@).len() as int;
    let n = lead_until(s.skip(i), ']') as int;
    lemma_marker_before(s);
    lemma_lead_until(s.skip(i), ']');
    if i < s.len() && i + n < s.len() {
        assert(s.skip(i)[n] == s[i + n]);
        assert(closes(s, i, i + n));
    }
}

proof fn lemma_join_front(first: Seq<char>, rest: Seq<Seq<char>>, sep: Seq<char>)
    requires
        rest.len() > 0,
    ensures
        join(seq![first] + rest, sep) == first + sep + join(rest, sep),
    decreases rest.len(),
{
    let all = seq![first] + rest;
    assert(all.last() == rest.last());
    if rest.len() == 1 {
        assert(all.drop_last() =~= seq![first]);
        assert(join(all.drop_last(), sep) == first);
    } else {
        assert(all.drop_last() =~= seq![first] + rest.drop_last());
        lemma_join_front(first, rest.drop_last(), sep);
        assert(join(all, sep) =~= first + sep + join(rest, sep));
    }
}

/// The first line of a text without what is trimmed from it.
spec fn first_line(s: Seq<char>) -> Seq<char> {
    let n = lead_until(s, '\n') as int;
    if n == s.len() {
        trim_end(s)
    } else {
        trim_end(strip_cr(s.take(n)))
    }
}

proof fn lemma_tidied(s: Seq<char>)
    requires
        s.len() > 0,
    ensures
        ({
            let n = lead_until(s, '\n') as int;
            let x = first_line(s);
            let rest = s.skip(n + 1);
            &&& x.len() <= n <= s.len()
            &&& x == s.take(x.len() as int)
            &&& x.len() > 0 ==> !is_white(x.last())
            &&& n == s.len() || lines(rest).len() == 0 ==> tidied(s) == x
            &&& n < s.len() && lines(rest).len() > 0 ==> tidied(s) == x + "\n"@ + tidied(rest)
            &&& n < s.len() && lines(rest).len() == 0 ==> rest.len() == 0
        }),
{
    let n = lead_until(s, '\n') as int;
    let x = first_line(s);
    lemma_lead_until(s, '\n');
    if n == s.len() {
        lemma_trim_end(s);
        assert(trimmed_lines(s) =~= seq![x]);
    } else {
        let rest = s.skip(n + 1);
        let line = strip_cr(s.take(n));
        lemma_trim_end(line);
        assert(line.take(x.len() as int) =~= s.take(x.len() as int));
        assert(trimmed_lines(s) =~= seq![x] + trimmed_lines(rest));
        if lines(rest).len() > 0 {
            lemma_join_front(x, trimmed_lines(rest), "\n"@);
        } else {
            assert(seq![x] + trimmed_lines(rest) =~= seq![x]);
        }
    }
}

proof fn lemma_tidied_keeps_bracket(s: Seq<char>)
    requires
        exists|j: int| 0 <= j < tidied(s).len() && #[trigger] tidied(s)[j] == ']',
    ensures
        exists|j: int| 0 <= j < s.len() && #[trigger] s[j] == ']',
    decreases s.len(),
{
    let t = tidied(s);
    if s.len() == 0 {
        assert(trimmed_lines(s) =~= Seq::empty());
    } else {
        reveal_strlit("\n");
        lemma_tidied(s);
        lemma_lead_until(s, '\n');
        let n = lead_until(s, '\n') as int;
        let x = first_line(s);
        let rest = s.skip(n + 1);
        let w = x.len() as int;
        let j = choose|j: int| 0 <= j < t.len() && #[trigger] t[j] == ']';
        if j < w {
            assert(x[j] == s.take(w)[j]);
            assert(s[j] == ']');
        } else {
            assert(t[w] == '\n');
            assert(tidied(rest)[j - w - 1] == ']');
            lemma_tidied_keeps_bracket(rest);
            let k = choose|k: int| 0 <= k < rest.len() && #[trigger] rest[k] == ']';
            assert(s[n + 1 + k] == ']');
        }
    }
}

proof fn lemma_tidied_closes_nothing(s: Seq<char>)
    requires
        has_closed_marker(tidied(s)),
    ensures
        has_closed_marker(s),
    decreases s.len(),
{
    let t = tidied(s);
    let (i, j) = choose|i: int, j: int| closes(t, i, j);
    lemma_marker();
    if s.len() == 0 {
        assert(trimmed_lines(s) =~= Seq::empty());
    } else {
        reveal_strlit("\n");
        lemma_tidied(s);
        lemma_lead_until(s, '\n');
        let n = lead_until(s, '\n') as int;
        let x = first_line(s);
        let rest = s.skip(n + 1);
        let w = x.len() as int;
        let m = LANGUAGE_MARKER@;
        assert(t.skip(i).take(17) == m);
        if i + 17 <= w {
            assert(s.skip(i).take(17) =~= t.skip(i).take(17)) by {
                assert forall|k: int| 0 <= k < 17 implies #[trigger] s.skip(i).take(17)[k]
                    == t.skip(i).take(17)[k] by {
                    assert(x[i + k] == s.take(w)[i + k]);
                }
            }
            assert(starts_with(s.skip(i), m));
            if j < w {
                assert(x[j] == s.take(w)[j]);
                assert(closes(s, i, j));
            } else {
                assert(t[w] == '\n');
                assert(tidied(rest)[j - w - 1] == ']');
                lemma_tidied_keeps_bracket(rest);
                let k = choose|k: int| 0 <= k < rest.len() && #[trigger] rest[k] == ']';
                assert(s[n + 1 + k] == ']');
                assert(closes(s, i, n + 1 + k));
            }
        } else if i <= w {
            assert(w < t.len());
            assert(t[w] == '\n');
            assert(t.skip(i).take(17)[w - i] == t[w]);
            assert(m[w - i] != '\n');
        } else {
            let r = tidied(rest);
            let a = i - w - 1;
            let b = j - w - 1;
            assert(r.skip(a).take(17) =~= t.skip(i).take(17));
            assert(closes(r, a, b));
            lemma_tidied_closes_nothing(rest);
            let (c, d) = choose|c: int, d: int| closes(rest, c, d);
            let e = n + 1 + c;
            assert(rest.skip(c).take(17) =~= s.skip(e).take(17));
            assert(starts_with(s.skip(e), m));
            assert(closes(s, e, n + 1 + d));
        }
    }
}

proof fn lemma_tidied_is_clean(s: Seq<char>)
    ensures
        is_clean(tidied(s)),
    decreases s.len(),
{
    let t = tidied(s);
    if s.len() == 0 {
        assert(trimmed_lines(s) =~= Seq::empty());
    } else {
        reveal_strlit("\n");
        lemma_tidied(s);
        lemma_lead_until(s, '\n');
        let n = lead_until(s, '\n') as int;
        let x = first_line(s);
        let rest = s.skip(n + 1);
        let w = x.len() as int;
        assert forall|k: int| 0 <= k < w implies #[trigger] x[k] != '\n' by {
            assert(x[k] == s.take(w)[k]);
        }
        if n < s.len() && lines(rest).len() > 0 {
            let r = tidied(rest);
            lemma_tidied_is_clean(rest);
            assert forall|j: int| 0 < j < t.len() && #[trigger] t[j] == '\n' implies t[j - 1]
                == '\n' || !is_white(t[j - 1]) by {
                if j < w {
                    assert(t[j] == x[j]);
                } else if j == w {
                    assert(t[j - 1] == x.last());
                } else if j > w + 1 {
                    assert(t[j] == r[j - w - 1]);
                    assert(t[j - 1] == r[j - w - 2]);
                }
            }
            if r.len() > 0 {
                assert(t.last() == r.last());
            }
        } else {
            assert(t == x);
        }
    }
}

proof fn lemma_clean_is_tidied(s: Seq<char>)
    requires
        is_clean(s),
        s.len() > 0 ==> s.last() != '\n',
    ensures
        tidied(s) == s,
        lines_end_in_words(s),
    decreases s.len(),
{
    if s.len() == 0 {
        assert(trimmed_lines(s) =~= Seq::empty());
        assert(tidied(s) =~= s);
    } else {
        reveal_strlit("\n");
        lemma_tidied(s);
        lemma_lead_until(s, '\n');
        let n = lead_until(s, '\n') as int;
        if n == s.len() {
            assert(trim_end(s) == s);
            assert(lines(s) =~= seq![s]);
        } else {
            let line = s.take(n);
            let rest = s.skip(n + 1);
            if n > 0 {
                assert(s[n] == '\n');
                assert(s[n - 1] != '\n');
                assert(line.last() == s[n - 1]);
            }
            assert(strip_cr(line) == line);
            assert(trim_end(line) == line);
            assert(n + 1 < s.len());
            assert(rest.last() == s.last());
            assert forall|j: int| 0 < j < rest.len() && #[trigger] rest[j] == '\n' implies rest[j
                - 1] == '\n' || !is_white(rest[j - 1]) by {
                assert(rest[j] == s[j + n + 1]);
                assert(rest[j - 1] == s[j + n]);
            }
            lemma_clean_is_tidied(rest);
            assert(lines(s) =~= seq![line] + lines(rest));
            assert(s =~= line + "\n"@ + rest);
            assert forall|k: int|
                0 <= k < lines(s).len() && (#[trigger] lines(s)[k]).len() > 0 implies !is_white(
                lines(s)[k].last(),
            ) by {
                if k > 0 {
                    assert(lines(s)[k] == lines(rest)[k - 1]);
                }
            }
        }
    }
}

proof fn lemma_trim_is_within(s: Seq<char>) -> (a: int)
    ensures
        0 <= a,
        a + trim(s).len() <= s.len(),
        trim(s) == s.subrange(a, a + trim(s).len()),
{
    let a = lead_white(s) as int;
    lemma_lead_white(s);
    let t = trim_start(s);
    lemma_trim_end(t);
    assert(trim(s) =~= s.subrange(a, a + trim(s).len()));
    a
}

proof fn lemma_left_is_clean(s: Seq<char>)
    ensures
        is_clean(without_markers(s)),
        without_markers(s).len() > 0 ==> without_markers(s).last() != '\n',
        !has_closed_marker(without_markers(s)),
        trim(without_markers(s)) == without_markers(s),
{
    let u = unmarked(s);
    let t = tidied(u);
    let r = trim(t);
    lemma_unmarked_has_no_closed_marker(s);
    lemma_tidied_is_clean(u);
    trim_trims(t);
    let a = lemma_trim_is_within(t);
    assert forall|j: int| 0 < j < r.len() && #[trigger] r[j] == '\n' implies r[j - 1] == '\n'
        || !is_white(r[j - 1]) by {
        assert(r[j] == t[a + j]);
        assert(r[j - 1] == t[a + j - 1]);
    }
    if has_closed_marker(r) {
        let (i, j) = choose|i: int, j: int| closes(r, i, j);
        lemma_marker();
        assert(r.skip(i).take(17) =~= t.skip(a + i).take(17));
        assert(starts_with(t.skip(a + i), LANGUAGE_MARKER@));
        assert(closes(t, a + i, a + j));
        lemma_tidied_closes_nothing(u);
    }
}

/// What is left of a text holds no language marker that is closed anywhere after it, has no white
/// space around it, and no line of it ends in white space.
pub proof fn stripped_text_is_clean(s: Seq<char>)
    ensures
        !has_closed_marker(without_markers(s)),
        trim(without_markers(s)) == without_markers(s),
        lines_end_in_words(without_markers(s)),
{
    lemma_left_is_clean(s);
    lemma_clean_is_tidied(without_markers(s));
}

/// Stripping what is left again changes nothing.
pub proof fn stripping_twice_is_stripping_once(s: Seq<char>)
    ensures
        without_markers(without_markers(s)) == without_markers(s),
{
    let r = without_markers(s);
    lemma_left_is_clean(s);
    lemma_unclosed_is_unmarked(r);
    lemma_clean_is_tidied(r);
}

proof fn lemma_before_all(s: Seq<char>, p: Seq<char>)
    requires
        !contains(s, p),
        p.len() > 0,
    ensures
        before(s, p).len() == s.len(),
    decreases s.len(),
{
    if s.len() > 0 {
        assert(s.skip(0) =~= s);
        if starts_with(s, p) {
            assert(starts_with(s.skip(0), p));
            assert(contains(s, p));
        } else {
            let rest = s.skip(1);
            if contains(rest, p) {
                let i = choose|i: int| 0 <= i <= rest.len() && starts_with(#[trigger] rest.skip(i), p);
                assert(s.skip(i + 1) =~= rest.skip(i));
                assert(starts_with(s.skip(i + 1), p));
                assert(contains(s, p));
            }
            lemma_before_all(rest, p);
        }
    }
}

proof fn lemma_trim_end_ink(s: Seq<char>)
    ensures
        inked(trim_end(s)) == inked(s),
    decreases s.len(),
{
    if s.len() > 0 && is_white(s.last()) {
        lemma_trim_end_ink(s.drop_last());
        lemma_inked_white(seq![s.last()], 1);
        assert(seq![s.last()].skip(1) =~= Seq::<char>::empty());
        lemma_inked_add(s.drop_last(), seq![s.last()]);
        assert(s =~= s.drop_last() + seq![s.last()]);
        assert(inked(s.drop_last()) + Seq::<char>::empty() =~= inked(s.drop_last()));
    }
}

proof fn lemma_join_ink(list: Seq<Seq<char>>, trimmed: Seq<Seq<char>>)
    requires
        list.len() == trimmed.len(),
        forall|i: int| 0 <= i < list.len() ==> inked(#[trigger] trimmed[i]) == inked(list[i]),
    ensures
        inked(join(trimmed, "\n"@)) == inked(run(list)),
    decreases list.len(),
{
    reveal_strlit("\n");
    let nl = "\n"@;
    lemma_inked_white(nl, 1);
    assert(nl.skip(1) =~= Seq::<char>::empty());
    assert(inked(nl) =~= Seq::<char>::empty());
    if list.len() > 0 {
        let a = list.drop_last();
        let b = trimmed.drop_last();
        assert forall|i: int| 0 <= i < a.len() implies inked(#[trigger] b[i]) == inked(a[i]) by {
            assert(b[i] == trimmed[i]);
        }
        lemma_join_ink(a, b);
        lemma_inked_add(run(a), list.last());
        if list.len() == 1 {
            assert(run(a) =~= Seq::<char>::empty());
            assert(inked(Seq::<char>::empty()) + inked(list.last()) =~= inked(list.last()));
            assert(trimmed[0] == trimmed.last());
        } else {
            lemma_inked_add(join(b, nl) + nl, trimmed.last());
            lemma_inked_add(join(b, nl), nl);
            assert(inked(join(b, nl)) + Seq::<char>::empty() =~= inked(join(b, nl)));
        }
    }
}

/// A text without language markers keeps everything in it that is not white.
pub proof fn a_text_without_markers_stays(s: Seq<char>)
    requires
        !contains(s, LANGUAGE_MARKER@),
    ensures
        inked(without_markers(s)) == inked(s),
{
    reveal_strlit("[source_language=");
    lemma_before_all(s, LANGUAGE_MARKER@);
    assert(unmarked(s) == s);
    lines_hold_all_of_the_text(s);
    let list = lines(s);
    let trimmed = trimmed_lines(s);
    assert forall|i: int| 0 <= i < list.len() implies inked(#[trigger] trimmed[i]) == inked(list[i]) by {
        lemma_trim_end_ink(list[i]);
    }
    lemma_join_ink(list, trimmed);
    trimming_takes_white_only(tidied(s));
}

proof fn lemma_before_at(a: Seq<char>, p: Seq<char>, b: Seq<char>)
    requires
        p.len() > 0,
        !a.contains(p[0]),
    ensures
        before(a + p + b, p).len() == a.len(),
    decreases a.len(),
{
    let s = a + p + b;
    if a.len() == 0 {
        assert(s.take(p.len() as int) =~= p);
    } else {
        let rest = a.skip(1);
        assert(s[0] == a[0]);
        assert(a.contains(a[0]));
        assert(!starts_with(s, p)) by {
            if starts_with(s, p) {
                assert(s.take(p.len() as int)[0] == s[0]);
            }
        }
        if rest.contains(p[0]) {
            let k = choose|k: int| 0 <= k < rest.len() && rest[k] == p[0];
            assert(a[k + 1] == p[0]);
        }
        lemma_before_at(rest, p, b);
        assert(s.skip(1) =~= rest + p + b);
    }
}

/// The first marker of a text, with the language that it names, is taken out, and the text around it
/// stays.
pub proof fn a_marker_is_taken_out(a: Seq<char>, language: Seq<char>, b: Seq<char>)
    requires
        !a.contains('['),
        !language.contains(']'),
    ensures
        unmarked(a + LANGUAGE_MARKER@ + language + seq![']'] + b) == unmarked(a + b),
{
    reveal_strlit("[source_language=");
    let p = LANGUAGE_MARKER@;
    let s = a + p + language + seq![']'] + b;
    let rest = language + seq![']'] + b;
    assert(s =~= a + p + rest);
    lemma_before_at(a, p, rest);
    let i = a.len() as int;
    let t = s.skip(i);
    let n = p.len() as int + language.len() as int;
    assert(t =~= p + language + seq![']'] + b);
    let head = p + language;
    assert(!head.contains(']')) by {
        if head.contains(']') {
            let k = choose|k: int| 0 <= k < head.len() && head[k] == ']';
            if k >= p.len() {
                assert(language[k - p.len()] == ']');
            }
        }
    }
    assert(t =~= head + seq![']'] + b);
    crate::text::lemma_lead_until_at(head, ']', b);
    assert(s.take(i) =~= a);
    assert(s.skip(i + n + 1) =~= b);
}

} // verus!
