//! Text as a sequence of Unicode scalar values: splitting, trimming, searching and joining.
//!
//! Every operation is stated over `Seq<char>`, the view of `str` and `String`.

use vstd::prelude::*;
use vstd::string::*;

verus! {

/// Appends one character to a string.
///
/// Trusted: `String::push` leaves the text it had, followed by `c`.
#[verifier::external_body]
pub(crate) fn push_char(out: &mut String, c: char)
    ensures
        final(out)@ == old(out)@.push(c),
{
    out.push(c);
}

/// The lower-case form of a text, by the rules of Unicode.
pub uninterp spec fn lowercase(s: Seq<char>) -> Seq<char>;

/// Lower-cases a string.
///
/// Trusted: what `str::to_lowercase` returns depends on the text alone, and is called
/// [`lowercase`]. Which text that is, is left unsaid.
#[verifier::external_body]
pub(crate) fn lowercase_text(s: &str) -> (r: String)
    ensures
        r@ == lowercase(s@),
{
    s.to_lowercase()
}

/// Whether Unicode counts a character as a letter or a number.
pub uninterp spec fn alphanumeric(c: char) -> bool;

/// Whether a character is a letter or a number.
///
/// Trusted: what `char::is_alphanumeric` returns depends on the character alone, and is called
/// [`alphanumeric`]. Which characters it holds of is left unsaid.
#[verifier::external_body]
pub(crate) fn is_alphanumeric(c: char) -> (r: bool)
    ensures
        r == alphanumeric(c),
{
    c.is_alphanumeric()
}

/// The characters of a string, in order.
pub fn chars_of(s: &str) -> (r: Vec<char>)
    ensures
        r@ == s@,
{
    let mut out: Vec<char> = Vec::new();
    for c in it: s.chars()
        invariant
            it.seq() == s@,
            out@ == s@.take(it.index()),
    {
        out.push(c);
    }
    out
}

/// A string made of the given characters.
pub fn string_of(chars: &[char]) -> (r: String)
    ensures
        r@ == chars@,
{
    let mut out: String = String::new();
    let mut i: usize = 0;
    while i < chars.len()
        invariant
            i <= chars@.len(),
            out@ == chars@.take(i as int),
        decreases chars@.len() - i,
    {
        push_char(&mut out, chars[i]);
        i = i + 1;
    }
    assert(chars@.take(i as int) =~= chars@);
    out
}

/// Whether two strings hold the same text.
pub fn same_text(a: &str, b: &str) -> (r: bool)
    ensures
        r == (a@ == b@),
{
    let left: String = a.to_owned();
    let right: String = b.to_owned();
    left == right
}

/// The texts held by a sequence of strings.
pub open spec fn views(v: Seq<String>) -> Seq<Seq<char>> {
    v.map_values(|s: String| s@)
}

/// The text of a string that may be absent.
pub open spec fn opt_view(o: Option<String>) -> Option<Seq<char>> {
    match o {
        Some(s) => Some(s@),
        None => None,
    }
}

/// Whether a list of strings holds a text.
pub fn list_contains(list: &Vec<String>, text: &str) -> (r: bool)
    ensures
        r == views(list@).contains(text@),
{
    let mut i: usize = 0;
    while i < list.len()
        invariant
            i <= list@.len(),
            forall|k: int| 0 <= k < i ==> views(list@)[k] != text@,
        decreases list@.len() - i,
    {
        if same_text(list[i].as_str(), text) {
            assert(views(list@)[i as int] == text@);
            return true;
        }
        i = i + 1;
    }
    false
}

// ---------------------------------------------------------------------------
// Whitespace
// ---------------------------------------------------------------------------

/// The Unicode `White_Space` property.
pub open spec fn is_white(c: char) -> bool {
    let n = c as u32;
    ||| 0x9 <= n <= 0xd
    ||| n == 0x20
    ||| n == 0x85
    ||| n == 0xa0
    ||| n == 0x1680
    ||| 0x2000 <= n <= 0x200a
    ||| n == 0x2028
    ||| n == 0x2029
    ||| n == 0x202f
    ||| n == 0x205f
    ||| n == 0x3000
}

/// Whether a character is white space.
pub fn is_whitespace(c: char) -> (r: bool)
    ensures
        r == is_white(c),
{
    let n: u32 = c as u32;
    (0x9 <= n && n <= 0xd) || n == 0x20 || n == 0x85 || n == 0xa0 || n == 0x1680 || (0x2000 <= n
        && n <= 0x200a) || n == 0x2028 || n == 0x2029 || n == 0x202f || n == 0x205f || n == 0x3000
}

/// The number of white characters a text begins with.
pub open spec fn lead_white(s: Seq<char>) -> nat
    decreases s.len(),
{
    if s.len() > 0 && is_white(s[0]) {
        1 + lead_white(s.skip(1))
    } else {
        0
    }
}

/// The number of characters before the first white one.
pub open spec fn lead_word(s: Seq<char>) -> nat
    decreases s.len(),
{
    if s.len() > 0 && !is_white(s[0]) {
        1 + lead_word(s.skip(1))
    } else {
        0
    }
}

pub proof fn lemma_lead_white(s: Seq<char>)
    ensures
        lead_white(s) <= s.len(),
        lead_white(s) < s.len() ==> !is_white(s[lead_white(s) as int]),
        forall|i: int| 0 <= i < lead_white(s) ==> is_white(#[trigger] s[i]),
    decreases s.len(),
{
    if s.len() > 0 && is_white(s[0]) {
        let t = s.skip(1);
        lemma_lead_white(t);
        assert forall|i: int| 0 <= i < lead_white(s) implies is_white(#[trigger] s[i]) by {
            if i > 0 {
                assert(s[i] == t[i - 1]);
            }
        }
    }
}

pub proof fn lemma_lead_word(s: Seq<char>)
    ensures
        lead_word(s) <= s.len(),
        lead_word(s) < s.len() ==> is_white(s[lead_word(s) as int]),
        forall|i: int| 0 <= i < lead_word(s) ==> !is_white(#[trigger] s[i]),
    decreases s.len(),
{
    if s.len() > 0 && !is_white(s[0]) {
        let t = s.skip(1);
        lemma_lead_word(t);
        assert forall|i: int| 0 <= i < lead_word(s) implies !is_white(#[trigger] s[i]) by {
            if i > 0 {
                assert(s[i] == t[i - 1]);
            }
        }
    }
}

/// A text without its leading white characters.
pub open spec fn trim_start(s: Seq<char>) -> Seq<char> {
    s.skip(lead_white(s) as int)
}

/// A text without its trailing white characters.
pub open spec fn trim_end(s: Seq<char>) -> Seq<char>
    decreases s.len(),
{
    if s.len() > 0 && is_white(s.last()) {
        trim_end(s.drop_last())
    } else {
        s
    }
}

/// A text without its leading and trailing white characters.
pub open spec fn trim(s: Seq<char>) -> Seq<char> {
    trim_end(trim_start(s))
}

pub proof fn lemma_trim_end(s: Seq<char>)
    ensures
        trim_end(s).len() <= s.len(),
        trim_end(s) == s.take(trim_end(s).len() as int),
        trim_end(s).len() > 0 ==> !is_white(trim_end(s).last()),
        trim_end(trim_end(s)) == trim_end(s),
    decreases s.len(),
{
    if s.len() > 0 && is_white(s.last()) {
        lemma_trim_end(s.drop_last());
        let n = trim_end(s).len() as int;
        assert(s.drop_last().take(n) =~= s.take(n));
    } else {
        assert(s.take(s.len() as int) =~= s);
    }
}

/// Trimming leaves no white character at either end, and trimming again changes nothing.
pub proof fn trim_trims(s: Seq<char>)
    ensures
        trim(s).len() > 0 ==> !is_white(trim(s)[0]) && !is_white(trim(s).last()),
        trim(trim(s)) == trim(s),
{
    let t = trim_start(s);
    lemma_lead_white(s);
    lemma_trim_end(t);
    let r = trim(s);
    if r.len() > 0 {
        assert(r[0] == t[0]);
        assert(t[0] == s[lead_white(s) as int]);
        assert(trim_start(r) =~= r);
    } else {
        assert(trim_start(r) =~= r);
    }
}

proof fn lemma_trim_end_keeps(s: Seq<char>, i: int)
    requires
        0 <= i < s.len(),
        !is_white(s[i]),
    ensures
        i < trim_end(s).len(),
    decreases s.len(),
{
    if is_white(s.last()) {
        lemma_trim_end_keeps(s.drop_last(), i);
    }
}

/// A text with no white character at either end is its own trimmed form.
pub proof fn lemma_trimmed(s: Seq<char>)
    requires
        s.len() > 0 ==> !is_white(s[0]) && !is_white(s.last()),
    ensures
        trim(s) == s,
{
    assert(trim_start(s) =~= s);
}

proof fn lemma_trim_end_blank(s: Seq<char>)
    ensures
        trim_end(s).len() == 0 <==> (forall|i: int| 0 <= i < s.len() ==> is_white(#[trigger] s[i])),
    decreases s.len(),
{
    if s.len() > 0 && is_white(s.last()) {
        let t = s.drop_last();
        lemma_trim_end_blank(t);
        if trim_end(s).len() == 0 {
            assert forall|i: int| 0 <= i < s.len() implies is_white(#[trigger] s[i]) by {
                if i < t.len() {
                    assert(is_white(t[i]));
                }
            }
        } else {
            let i = choose|i: int| 0 <= i < t.len() && !is_white(#[trigger] t[i]);
            assert(!is_white(s[i]));
        }
    } else if s.len() > 0 {
        assert(!is_white(s[s.len() - 1]));
    }
}

/// Trimming leaves nothing exactly of a text that is all white.
pub proof fn lemma_blank(s: Seq<char>)
    ensures
        trim(s).len() == 0 <==> (forall|i: int| 0 <= i < s.len() ==> is_white(#[trigger] s[i])),
{
    lemma_lead_white(s);
    let t = trim_start(s);
    let n = lead_white(s) as int;
    lemma_trim_end_blank(t);
    if trim(s).len() == 0 {
        assert forall|i: int| 0 <= i < s.len() implies is_white(#[trigger] s[i]) by {
            if i >= n {
                assert(is_white(t[i - n]));
            }
        }
    } else {
        let i = choose|i: int| 0 <= i < t.len() && !is_white(#[trigger] t[i]);
        assert(!is_white(s[i + n]));
    }
}

/// Finds where the leading white characters end.
fn white_end(s: &Vec<char>, from: usize) -> (r: usize)
    requires
        from <= s@.len(),
    ensures
        from <= r <= s@.len(),
        r == from + lead_white(s@.skip(from as int)),
{
    let mut i: usize = from;
    while i < s.len() && is_whitespace(s[i])
        invariant
            from <= i <= s@.len(),
            lead_white(s@.skip(from as int)) == (i - from) + lead_white(s@.skip(i as int)),
        decreases s@.len() - i,
    {
        assert(s@.skip(i as int).skip(1) =~= s@.skip(i + 1));
        i = i + 1;
    }
    i
}

/// Finds where the word that starts at `from` ends.
fn word_end(s: &Vec<char>, from: usize) -> (r: usize)
    requires
        from <= s@.len(),
    ensures
        from <= r <= s@.len(),
        r == from + lead_word(s@.skip(from as int)),
{
    let mut i: usize = from;
    while i < s.len() && !is_whitespace(s[i])
        invariant
            from <= i <= s@.len(),
            lead_word(s@.skip(from as int)) == (i - from) + lead_word(s@.skip(i as int)),
        decreases s@.len() - i,
    {
        assert(s@.skip(i as int).skip(1) =~= s@.skip(i + 1));
        i = i + 1;
    }
    i
}

/// Trims a string on both sides.
pub fn trim_text(s: &str) -> (r: String)
    ensures
        r@ == trim(s@),
{
    let v: Vec<char> = chars_of(s);
    let a: usize = white_end(&v, 0);
    assert(v@.skip(0) =~= v@);
    let mut b: usize = v.len();
    assert(v@.subrange(a as int, b as int) =~= trim_start(v@));
    while a < b && is_whitespace(v[b - 1])
        invariant
            a <= b <= v@.len(),
            trim_end(v@.subrange(a as int, b as int)) == trim(v@),
        decreases b,
    {
        assert(v@.subrange(a as int, b as int).drop_last() =~= v@.subrange(a as int, b - 1));
        b = b - 1;
    }
    string_of(&v[a..b])
}

/// Trims a string on the right.
pub fn trim_end_text(s: &str) -> (r: String)
    ensures
        r@ == trim_end(s@),
{
    let v: Vec<char> = chars_of(s);
    let mut b: usize = v.len();
    assert(v@.subrange(0, b as int) =~= v@);
    while 0 < b && is_whitespace(v[b - 1])
        invariant
            b <= v@.len(),
            trim_end(v@.subrange(0, b as int)) == trim_end(v@),
        decreases b,
    {
        assert(v@.subrange(0, b as int).drop_last() =~= v@.subrange(0, b - 1));
        b = b - 1;
    }
    string_of(&v[0..b])
}

/// The maximal runs of non-white characters, in order.
pub open spec fn words(s: Seq<char>) -> Seq<Seq<char>>
    decreases s.len(),
    via words_decreases
{
    let t = trim_start(s);
    if t.len() == 0 {
        Seq::empty()
    } else {
        seq![t.take(lead_word(t) as int)] + words(t.skip(lead_word(t) as int))
    }
}

#[via_fn]
proof fn words_decreases(s: Seq<char>) {
    lemma_lead_white(s);
    lemma_lead_word(trim_start(s));
}

/// Splits a string on white space.
pub fn split_words(s: &str) -> (r: Vec<String>)
    ensures
        views(r@) == words(s@),
{
    let v: Vec<char> = chars_of(s);
    let mut out: Vec<String> = Vec::new();
    let mut i: usize = 0;
    assert(v@.skip(0) =~= v@);
    assert(views(out@) + words(v@) =~= words(v@));
    while i < v.len()
        invariant
            i <= v@.len(),
            views(out@) + words(v@.skip(i as int)) == words(v@),
        decreases v@.len() - i,
    {
        let a: usize = white_end(&v, i);
        proof {
            lemma_lead_white(v@.skip(i as int));
            assert(trim_start(v@.skip(i as int)) =~= v@.skip(a as int));
        }
        if a < v.len() {
            let b: usize = word_end(&v, a);
            proof {
                lemma_lead_word(v@.skip(a as int));
                assert(v@[a as int] == v@.skip(a as int)[0]);
            }
            let word: String = string_of(&v[a..b]);
            let ghost before = views(out@);
            out.push(word);
            proof {
                assert(v@.skip(a as int).take(b - a) =~= v@.subrange(a as int, b as int));
                assert(v@.skip(a as int).skip(b - a) =~= v@.skip(b as int));
                assert(views(out@) =~= before.push(word@));
                assert(views(out@) + words(v@.skip(b as int)) =~= before + words(
                    v@.skip(i as int),
                ));
            }
            i = b;
        } else {
            proof {
                assert(words(v@.skip(i as int)) =~= Seq::<Seq<char>>::empty());
                assert(words(v@.skip(v@.len() as int)) =~= Seq::<Seq<char>>::empty()) by {
                    assert(v@.skip(v@.len() as int).len() == 0);
                }
            }
            i = v.len();
        }
    }
    proof {
        assert(v@.skip(i as int).len() == 0);
        assert(words(v@.skip(i as int)) =~= Seq::<Seq<char>>::empty());
        assert(views(out@) + words(v@.skip(i as int)) =~= views(out@));
    }
    out
}

// ---------------------------------------------------------------------------
// Lines
// ---------------------------------------------------------------------------

/// The number of characters before the first occurrence of `c`.
pub open spec fn lead_until(s: Seq<char>, c: char) -> nat
    decreases s.len(),
{
    if s.len() > 0 && s[0] != c {
        1 + lead_until(s.skip(1), c)
    } else {
        0
    }
}

pub proof fn lemma_lead_until(s: Seq<char>, c: char)
    ensures
        lead_until(s, c) <= s.len(),
        lead_until(s, c) < s.len() ==> s[lead_until(s, c) as int] == c,
        forall|i: int| 0 <= i < lead_until(s, c) ==> #[trigger] s[i] != c,
    decreases s.len(),
{
    if s.len() > 0 && s[0] != c {
        let t = s.skip(1);
        lemma_lead_until(t, c);
        assert forall|i: int| 0 <= i < lead_until(s, c) implies #[trigger] s[i] != c by {
            if i > 0 {
                assert(s[i] == t[i - 1]);
            }
        }
    }
}

/// A line without the carriage return before its line feed.
pub open spec fn strip_cr(s: Seq<char>) -> Seq<char> {
    if s.len() > 0 && s.last() == '\r' {
        s.drop_last()
    } else {
        s
    }
}

/// The lines of a text: each ends at a line feed, which is dropped together with a carriage
/// return before it; what follows the last line feed is a line only when it is not empty.
pub open spec fn lines(s: Seq<char>) -> Seq<Seq<char>>
    decreases s.len(),
    via lines_decreases
{
    let n = lead_until(s, '\n') as int;
    if s.len() == 0 {
        Seq::empty()
    } else if n == s.len() {
        seq![s]
    } else {
        seq![strip_cr(s.take(n))] + lines(s.skip(n + 1))
    }
}

#[via_fn]
proof fn lines_decreases(s: Seq<char>) {
    lemma_lead_until(s, '\n');
}

/// Finds the first `c` at or after `from`, or the end.
pub fn find_char(s: &Vec<char>, from: usize, c: char) -> (r: usize)
    requires
        from <= s@.len(),
    ensures
        from <= r <= s@.len(),
        r == from + lead_until(s@.skip(from as int), c),
{
    let mut i: usize = from;
    while i < s.len() && s[i] != c
        invariant
            from <= i <= s@.len(),
            lead_until(s@.skip(from as int), c) == (i - from) + lead_until(s@.skip(i as int), c),
        decreases s@.len() - i,
    {
        assert(s@.skip(i as int).skip(1) =~= s@.skip(i + 1));
        i = i + 1;
    }
    i
}

/// Splits a string into its lines.
pub fn split_lines(s: &str) -> (r: Vec<String>)
    ensures
        views(r@) == lines(s@),
{
    let v: Vec<char> = chars_of(s);
    let mut out: Vec<String> = Vec::new();
    let mut i: usize = 0;
    assert(v@.skip(0) =~= v@);
    assert(views(out@) + lines(v@) =~= lines(v@));
    while i < v.len()
        invariant
            i <= v@.len(),
            views(out@) + lines(v@.skip(i as int)) == lines(v@),
        decreases v@.len() - i,
    {
        let n: usize = find_char(&v, i, '\n');
        let ghost before = views(out@);
        let ghost tail = v@.skip(i as int);
        proof {
            lemma_lead_until(tail, '\n');
        }
        if n == v.len() {
            let line: String = string_of(&v[i..n]);
            out.push(line);
            proof {
                assert(v@.subrange(i as int, n as int) =~= tail);
                assert(views(out@) =~= before.push(line@));
                assert(v@.skip(n as int).len() == 0);
                assert(views(out@) + lines(v@.skip(n as int)) =~= before + lines(tail));
            }
            i = n;
        } else {
            let mut e: usize = n;
            if n > i && v[n - 1] == '\r' {
                e = n - 1;
            }
            let line: String = string_of(&v[i..e]);
            out.push(line);
            proof {
                assert(tail.take(n - i) =~= v@.subrange(i as int, n as int));
                assert(strip_cr(tail.take(n - i)) =~= v@.subrange(i as int, e as int));
                assert(tail.skip(n - i + 1) =~= v@.skip(n + 1));
                assert(views(out@) =~= before.push(line@));
                assert(views(out@) + lines(v@.skip(n + 1)) =~= before + lines(tail));
            }
            i = n + 1;
        }
    }
    proof {
        assert(v@.skip(i as int).len() == 0);
        assert(views(out@) + lines(v@.skip(i as int)) =~= views(out@));
    }
    out
}

/// The parts of a text between the occurrences of `c`; one part when there are none.
pub open spec fn split_on(s: Seq<char>, c: char) -> Seq<Seq<char>>
    decreases s.len(),
    via split_on_decreases
{
    let n = lead_until(s, c) as int;
    if n >= s.len() {
        seq![s]
    } else {
        seq![s.take(n)] + split_on(s.skip(n + 1), c)
    }
}

#[via_fn]
proof fn split_on_decreases(s: Seq<char>, c: char) {
    lemma_lead_until(s, c);
}

/// Splits a string at a character.
pub fn split_char(s: &str, c: char) -> (r: Vec<String>)
    ensures
        views(r@) == split_on(s@, c),
{
    let v: Vec<char> = chars_of(s);
    let mut out: Vec<String> = Vec::new();
    let mut i: usize = 0;
    let mut over: bool = false;
    assert(v@.skip(0) =~= v@);
    assert(views(out@) + split_on(v@, c) =~= split_on(v@, c));
    while !over
        invariant
            i <= v@.len(),
            !over ==> views(out@) + split_on(v@.skip(i as int), c) == split_on(v@, c),
            over ==> views(out@) == split_on(v@, c),
        decreases (if over { 0int } else { 1int }), v@.len() - i,
    {
        let n: usize = find_char(&v, i, c);
        let ghost prior = views(out@);
        let ghost tail = v@.skip(i as int);
        let part: String = string_of(&v[i..n]);
        out.push(part);
        proof {
            assert(views(out@) =~= prior.push(part@));
            assert(tail.take(n - i) =~= v@.subrange(i as int, n as int));
        }
        if n >= v.len() {
            over = true;
            assert(tail.take(n - i) =~= tail);
            assert(views(out@) =~= prior + split_on(tail, c));
        } else {
            assert(tail.skip(n - i + 1) =~= v@.skip(n + 1));
            assert(views(out@) + split_on(v@.skip(n + 1), c) =~= prior + split_on(tail, c));
            i = n + 1;
        }
    }
    out
}

// ---------------------------------------------------------------------------
// Searching and replacing
// ---------------------------------------------------------------------------

/// Whether `s` begins with `p`.
pub open spec fn starts_with(s: Seq<char>, p: Seq<char>) -> bool {
    p.len() <= s.len() && s.take(p.len() as int) == p
}

/// Whether `p` occurs somewhere in `s`.
pub open spec fn contains(s: Seq<char>, p: Seq<char>) -> bool {
    exists|i: int| 0 <= i <= s.len() && starts_with(#[trigger] s.skip(i), p)
}

/// Whether `s` ends with `p`.
pub open spec fn ends_with(s: Seq<char>, p: Seq<char>) -> bool {
    p.len() <= s.len() && s.skip(s.len() - p.len()) == p
}

/// `s` with every non-overlapping occurrence of `p`, found from the left, turned into `r`.
pub open spec fn replace(s: Seq<char>, p: Seq<char>, r: Seq<char>) -> Seq<char>
    decreases s.len(),
{
    if s.len() == 0 || p.len() == 0 {
        s
    } else if starts_with(s, p) {
        r + replace(s.skip(p.len() as int), p, r)
    } else {
        seq![s[0]] + replace(s.skip(1), p, r)
    }
}

/// What stands before the first occurrence of `p`; all of `s` when there is none.
pub open spec fn before(s: Seq<char>, p: Seq<char>) -> Seq<char>
    decreases s.len(),
{
    if s.len() == 0 || starts_with(s, p) {
        Seq::empty()
    } else {
        seq![s[0]] + before(s.skip(1), p)
    }
}

/// What stands before the first occurrence of a text begins the whole, holds no occurrence itself, and is
/// followed by one where it is not all.
pub proof fn before_ends_at_the_first_occurrence(s: Seq<char>, p: Seq<char>)
    requires
        p.len() > 0,
    ensures
        starts_with(s, before(s, p)),
        before(s, p).len() < s.len() ==> starts_with(s.skip(before(s, p).len() as int), p),
        forall|i: int| 0 <= i < before(s, p).len() ==> !starts_with(#[trigger] s.skip(i), p),
        before(s, p).len() == s.len() ==> before(s, p) == s,
    decreases s.len(),
{
    let b = before(s, p);
    if s.len() == 0 || starts_with(s, p) {
        assert(s.take(0) =~= b);
        assert(s.skip(0) =~= s);
    } else {
        let rest = s.skip(1);
        before_ends_at_the_first_occurrence(rest, p);
        let c = before(rest, p);
        assert(b =~= seq![s[0]] + c);
        assert(s.take(b.len() as int) =~= b) by {
            assert(rest.take(c.len() as int) =~= c);
        }
        assert(s.skip(b.len() as int) =~= rest.skip(c.len() as int));
        assert forall|i: int| 0 <= i < b.len() implies !starts_with(#[trigger] s.skip(i), p) by {
            if i == 0 {
                assert(s.skip(0) =~= s);
            } else {
                assert(s.skip(i) =~= rest.skip(i - 1));
            }
        }
        if b.len() == s.len() {
            assert(s.take(s.len() as int) =~= s);
        }
    }
}

/// Whether `p` stands at position `at`.
pub fn matches_at(s: &Vec<char>, at: usize, p: &Vec<char>) -> (r: bool)
    requires
        at <= s@.len(),
    ensures
        r == starts_with(s@.skip(at as int), p@),
{
    if p.len() > s.len() - at {
        return false;
    }
    let total: usize = s.len();
    let mut i: usize = 0;
    while i < p.len()
        invariant
            total == s@.len(),
            at <= s@.len(),
            p@.len() <= s@.len() - at,
            i <= p@.len(),
            forall|k: int| 0 <= k < i ==> s@[at + k] == #[trigger] p@[k],
        decreases p@.len() - i,
    {
        if s[at + i] != p[i] {
            assert(s@.skip(at as int).take(p@.len() as int)[i as int] != p@[i as int]);
            return false;
        }
        i = i + 1;
    }
    assert(s@.skip(at as int).take(p@.len() as int) =~= p@);
    true
}

/// Whether a string begins with another.
pub fn text_starts_with(s: &str, p: &str) -> (r: bool)
    ensures
        r == starts_with(s@, p@),
{
    let v: Vec<char> = chars_of(s);
    let q: Vec<char> = chars_of(p);
    assert(v@.skip(0) =~= v@);
    matches_at(&v, 0, &q)
}

/// Whether a string holds another.
pub fn text_contains(s: &str, p: &str) -> (r: bool)
    ensures
        r == contains(s@, p@),
{
    let v: Vec<char> = chars_of(s);
    let q: Vec<char> = chars_of(p);
    let mut i: usize = 0;
    loop
        invariant
            v@ == s@,
            q@ == p@,
            i <= v@.len(),
            forall|k: int| 0 <= k < i ==> !starts_with(#[trigger] v@.skip(k), q@),
        decreases v@.len() - i,
    {
        if matches_at(&v, i, &q) {
            return true;
        }
        if i == v.len() {
            return false;
        }
        i = i + 1;
    }
}

/// Replaces every occurrence of `p`.
pub fn replace_text(s: &str, p: &str, with: &str) -> (r: String)
    requires
        p@.len() > 0,
    ensures
        r@ == replace(s@, p@, with@),
{
    let v: Vec<char> = chars_of(s);
    let q: Vec<char> = chars_of(p);
    let mut out: String = String::new();
    let mut i: usize = 0;
    assert(v@.skip(0) =~= v@);
    assert(out@ + replace(v@, q@, with@) =~= replace(v@, q@, with@));
    while i < v.len()
        invariant
            q@.len() > 0,
            i <= v@.len(),
            out@ + replace(v@.skip(i as int), q@, with@) == replace(v@, q@, with@),
        decreases v@.len() - i,
    {
        let ghost tail = v@.skip(i as int);
        let ghost prior = out@;
        if matches_at(&v, i, &q) {
            out.append(with);
            proof {
                assert(tail.skip(q@.len() as int) =~= v@.skip(i + q@.len()));
                assert(out@ + replace(v@.skip(i + q@.len()), q@, with@) =~= prior + replace(
                    tail,
                    q@,
                    with@,
                ));
            }
            i = i + q.len();
        } else {
            push_char(&mut out, v[i]);
            proof {
                assert(tail.skip(1) =~= v@.skip(i + 1));
                assert(out@ + replace(v@.skip(i + 1), q@, with@) =~= prior + replace(
                    tail,
                    q@,
                    with@,
                ));
            }
            i = i + 1;
        }
    }
    proof {
        assert(v@.skip(i as int).len() == 0);
        assert(out@ + replace(v@.skip(i as int), q@, with@) =~= out@);
    }
    out
}

/// Cuts a string at the first occurrence of `p`.
pub fn text_before(s: &str, p: &str) -> (r: String)
    ensures
        r@ == before(s@, p@),
{
    let v: Vec<char> = chars_of(s);
    let q: Vec<char> = chars_of(p);
    let mut i: usize = 0;
    assert(v@.skip(0) =~= v@);
    assert(v@.take(0) + before(v@, q@) =~= before(v@, q@));
    while i < v.len() && !matches_at(&v, i, &q)
        invariant
            i <= v@.len(),
            v@.take(i as int) + before(v@.skip(i as int), q@) == before(v@, q@),
        decreases v@.len() - i,
    {
        proof {
            let tail = v@.skip(i as int);
            assert(tail.skip(1) =~= v@.skip(i + 1));
            assert(v@.take(i + 1) + before(v@.skip(i + 1), q@) =~= v@.take(i as int) + before(
                tail,
                q@,
            ));
        }
        i = i + 1;
    }
    assert(before(v@.skip(i as int), q@) =~= Seq::<char>::empty());
    assert(v@.take(i as int) + before(v@.skip(i as int), q@) =~= v@.subrange(0, i as int));
    string_of(&v[0..i])
}

// ---------------------------------------------------------------------------
// Joining
// ---------------------------------------------------------------------------

/// The parts, in order, with `sep` between neighbours.
pub open spec fn join(parts: Seq<Seq<char>>, sep: Seq<char>) -> Seq<char>
    decreases parts.len(),
{
    if parts.len() == 0 {
        Seq::empty()
    } else if parts.len() == 1 {
        parts[0]
    } else {
        join(parts.drop_last(), sep) + sep + parts.last()
    }
}

/// Trimming a text keeps every part of it that no white character begins or ends.
pub proof fn trimming_keeps_trimmed_parts(s: Seq<char>, p: Seq<char>)
    requires
        contains(s, p),
        p.len() > 0 ==> !is_white(p[0]) && !is_white(p.last()),
    ensures
        contains(trim(s), p),
{
    let t = trim(s);
    if p.len() == 0 {
        assert(t.skip(0).take(0) =~= p);
        assert(starts_with(t.skip(0), p));
    } else {
        let n = p.len() as int;
        let i = choose|i: int| 0 <= i <= s.len() && starts_with(#[trigger] s.skip(i), p);
        assert(s.skip(i).take(n)[0] == s[i]);
        assert(s.skip(i).take(n)[n - 1] == s[i + n - 1]);
        lemma_lead_white(s);
        let a = lead_white(s) as int;
        let u = trim_start(s);
        assert(a <= i);
        assert(u[i + n - 1 - a] == s[i + n - 1]);
        lemma_trim_end_keeps(u, i + n - 1 - a);
        lemma_trim_end(u);
        assert(t.skip(i - a).take(n) =~= s.skip(i).take(n));
        assert(starts_with(t.skip(i - a), p));
    }
}

/// A text holds every text that stands in it between two others.
pub proof fn lemma_contains_middle(a: Seq<char>, m: Seq<char>, b: Seq<char>)
    ensures
        contains(a + m + b, m),
{
    let s = a + m + b;
    let i = a.len() as int;
    assert(s.skip(i).take(m.len() as int) =~= m);
    assert(starts_with(s.skip(i), m));
}

/// A text holds what can be read in it from a place on.
pub proof fn lemma_found(s: Seq<char>, p: Seq<char>, at: int)
    requires
        0 <= at,
        at + p.len() <= s.len(),
        forall|i: int| 0 <= i < p.len() ==> #[trigger] p[i] == s[at + i],
    ensures
        contains(s, p),
{
    assert(s.skip(at).take(p.len() as int) =~= p);
    assert(starts_with(s.skip(at), p));
}

/// What a text holds, a text around it holds too.
pub proof fn lemma_contains_around(a: Seq<char>, s: Seq<char>, b: Seq<char>, p: Seq<char>)
    requires
        contains(s, p),
    ensures
        contains(a + s + b, p),
{
    let t = a + s + b;
    let i = choose|i: int| 0 <= i <= s.len() && starts_with(#[trigger] s.skip(i), p);
    let j = a.len() + i;
    assert(t.skip(j).take(p.len() as int) =~= s.skip(i).take(p.len() as int));
    assert(starts_with(t.skip(j), p));
}

/// A join holds what its parts hold.
pub proof fn join_holds_its_parts(parts: Seq<Seq<char>>, sep: Seq<char>, k: int, p: Seq<char>)
    requires
        0 <= k < parts.len(),
        contains(parts[k], p),
    ensures
        contains(join(parts, sep), p),
    decreases parts.len(),
{
    if parts.len() > 1 {
        let front = join(parts.drop_last(), sep);
        if k == parts.len() - 1 {
            lemma_contains_around(front + sep, parts.last(), Seq::empty(), p);
            assert(front + sep + parts.last() + Seq::empty() =~= join(parts, sep));
        } else {
            join_holds_its_parts(parts.drop_last(), sep, k, p);
            lemma_contains_around(Seq::empty(), front, sep + parts.last(), p);
            assert(Seq::empty() + front + (sep + parts.last()) =~= join(parts, sep));
        }
    }
}

/// What a join holds and does not meet the separator in a character lies in one of the parts.
pub proof fn join_holds_no_more(parts: Seq<Seq<char>>, sep: Seq<char>, p: Seq<char>)
    requires
        p.len() > 0,
        forall|i: int, j: int|
            0 <= i < p.len() && 0 <= j < sep.len() ==> #[trigger] p[i] != #[trigger] sep[j],
        sep.len() > 0,
        contains(join(parts, sep), p),
    ensures
        exists|k: int| 0 <= k < parts.len() && contains(#[trigger] parts[k], p),
    decreases parts.len(),
{
    let s = join(parts, sep);
    let i = choose|i: int| 0 <= i <= s.len() && starts_with(#[trigger] s.skip(i), p);
    let n = p.len() as int;
    assert(s.skip(i).take(n) == p);
    assert(i + n <= s.len());
    if parts.len() == 1 {
        assert(contains(parts[0], p));
    } else {
        let front = join(parts.drop_last(), sep);
        let last = parts.last();
        let f = front.len() as int;
        let w = sep.len() as int;
        if i + n <= f {
            assert(front.skip(i).take(n) =~= s.skip(i).take(n));
            assert(starts_with(front.skip(i), p));
            join_holds_no_more(parts.drop_last(), sep, p);
            let k = choose|k: int|
                0 <= k < parts.drop_last().len() && contains(#[trigger] parts.drop_last()[k], p);
            assert(contains(parts[k], p));
        } else if i >= f + w {
            let j = i - f - w;
            assert(last.skip(j).take(n) =~= s.skip(i).take(n));
            assert(starts_with(last.skip(j), p));
            assert(contains(parts[parts.len() - 1], p));
        } else {
            let at = if i <= f {
                f
            } else {
                i
            };
            assert(s.skip(i).take(n)[at - i] == s[at]);
            assert(s[at] == sep[at - f]);
            assert(p[at - i] == sep[at - f]);
        }
    }
}

/// A text does not hold another one whose first character and a later one never stand so far apart
/// in it.
pub proof fn lemma_not_contained(s: Seq<char>, p: Seq<char>, k: int)
    requires
        0 <= k < p.len(),
        forall|i: int|
            0 <= i && i + k < s.len() ==> #[trigger] s[i] != p[0] || s[i + k] != p[k],
    ensures
        !contains(s, p),
{
    if contains(s, p) {
        let i = choose|i: int| 0 <= i <= s.len() && starts_with(#[trigger] s.skip(i), p);
        assert(s.skip(i).take(p.len() as int)[0] == s[i]);
        assert(s.skip(i).take(p.len() as int)[k] == s[i + k]);
    }
}

/// Whether texts stand in another one, in order and one after the other.
pub open spec fn in_order(s: Seq<char>, parts: Seq<Seq<char>>) -> bool
    decreases parts.len(),
{
    parts.len() == 0 || exists|i: int|
        0 <= i <= s.len() && starts_with(#[trigger] s.skip(i), parts.last()) && in_order(
            s.take(i),
            parts.drop_last(),
        )
}

/// The place of the last of some texts that stand in order.
pub proof fn lemma_last_place(s: Seq<char>, parts: Seq<Seq<char>>) -> (i: int)
    requires
        in_order(s, parts),
        parts.len() > 0,
    ensures
        0 <= i <= s.len(),
        i + parts.last().len() <= s.len(),
        s.subrange(i, i + parts.last().len() as int) == parts.last(),
        starts_with(s.skip(i), parts.last()),
        in_order(s.take(i), parts.drop_last()),
{
    let i = choose|i: int|
        0 <= i <= s.len() && starts_with(#[trigger] s.skip(i), parts.last()) && in_order(
            s.take(i),
            parts.drop_last(),
        );
    assert(s.subrange(i, i + parts.last().len() as int) =~= s.skip(i).take(
        parts.last().len() as int,
    ));
    i
}

/// What stands in order in a text still does when another text follows.
pub proof fn lemma_in_order_before(s: Seq<char>, tail: Seq<char>, parts: Seq<Seq<char>>)
    requires
        in_order(s, parts),
    ensures
        in_order(s + tail, parts),
{
    if parts.len() > 0 {
        let i = lemma_last_place(s, parts);
        let t = s + tail;
        let n = parts.last().len() as int;
        assert(t.skip(i).take(n) =~= s.skip(i).take(n));
        assert(t.take(i) =~= s.take(i));
        assert(starts_with(t.skip(i), parts.last()));
    }
}

/// What stands in order in a text still does when another text comes first.
pub proof fn lemma_in_order_after(head: Seq<char>, s: Seq<char>, parts: Seq<Seq<char>>)
    requires
        in_order(s, parts),
    ensures
        in_order(head + s, parts),
    decreases parts.len(),
{
    if parts.len() > 0 {
        let i = lemma_last_place(s, parts);
        let t = head + s;
        let n = parts.last().len() as int;
        let j = head.len() + i;
        lemma_in_order_after(head, s.take(i), parts.drop_last());
        assert(t.take(j) =~= head + s.take(i));
        assert(t.skip(j).take(n) =~= s.skip(i).take(n));
        assert(starts_with(t.skip(j), parts.last()));
    }
}

/// One more text stands behind those that stand in order.
pub proof fn lemma_in_order_push(
    s: Seq<char>,
    parts: Seq<Seq<char>>,
    gap: Seq<char>,
    p: Seq<char>,
    tail: Seq<char>,
)
    requires
        in_order(s, parts),
    ensures
        in_order(s + gap + p + tail, parts.push(p)),
{
    let t = s + gap + p + tail;
    let all = parts.push(p);
    let i = (s + gap).len() as int;
    lemma_in_order_before(s, gap, parts);
    assert(t.take(i) =~= s + gap);
    assert(t.skip(i).take(p.len() as int) =~= p);
    assert(all.drop_last() =~= parts);
    assert(all.last() == p);
    assert(starts_with(t.skip(i), all.last()));
}

/// Texts that stand in order hold what they hold in order.
pub proof fn lemma_in_order_inside(s: Seq<char>, outer: Seq<Seq<char>>, inner: Seq<Seq<char>>)
    requires
        in_order(s, outer),
        outer.len() == inner.len(),
        forall|k: int| 0 <= k < outer.len() ==> contains(#[trigger] outer[k], inner[k]),
    ensures
        in_order(s, inner),
    decreases outer.len(),
{
    if outer.len() > 0 {
        let i = lemma_last_place(s, outer);
        let o = outer.last();
        let p = inner.last();
        assert(contains(outer[outer.len() - 1], inner[outer.len() - 1]));
        let j = choose|j: int| 0 <= j <= o.len() && starts_with(#[trigger] o.skip(j), p);
        let n = p.len() as int;
        let front = outer.drop_last();
        assert forall|k: int| 0 <= k < front.len() implies contains(
            #[trigger] front[k],
            inner.drop_last()[k],
        ) by {
            assert(contains(outer[k], inner[k]));
        }
        lemma_in_order_inside(s.take(i), front, inner.drop_last());
        lemma_in_order_before(s.take(i), s.subrange(i, i + j), inner.drop_last());
        assert(s.take(i + j) =~= s.take(i) + s.subrange(i, i + j));
        assert(s.skip(i + j).take(n) =~= o.skip(j).take(n)) by {
            assert(s.subrange(i, i + o.len() as int) == o);
            assert forall|x: int| 0 <= x < n implies s.skip(i + j).take(n)[x] == o.skip(j).take(
                n,
            )[x] by {
                assert(s.subrange(i, i + o.len() as int)[j + x] == s[i + j + x]);
            }
        }
        assert(starts_with(s.skip(i + j), inner.last()));
    }
}

/// Each of the texts that stand in order is held.
pub proof fn lemma_in_order_holds(s: Seq<char>, parts: Seq<Seq<char>>, k: int)
    requires
        in_order(s, parts),
        0 <= k < parts.len(),
    ensures
        contains(s, parts[k]),
    decreases parts.len(),
{
    let i = lemma_last_place(s, parts);
    if k == parts.len() - 1 {
        assert(starts_with(s.skip(i), parts[k]));
    } else {
        lemma_in_order_holds(s.take(i), parts.drop_last(), k);
        lemma_contains_around(Seq::empty(), s.take(i), s.skip(i), parts[k]);
        assert(Seq::<char>::empty() + s.take(i) + s.skip(i) =~= s);
    }
}

/// The sum of the lengths of texts.
pub open spec fn total_len(parts: Seq<Seq<char>>) -> nat
    decreases parts.len(),
{
    if parts.len() == 0 {
        0
    } else {
        total_len(parts.drop_last()) + parts.last().len()
    }
}

/// A join holds its parts in order, and nothing but them and what stands between them.
pub proof fn a_join_holds_its_parts_in_order(parts: Seq<Seq<char>>, sep: Seq<char>)
    ensures
        in_order(join(parts, sep), parts),
        join(parts, sep).len() == total_len(parts) + if parts.len() == 0 {
            0
        } else {
            (parts.len() - 1) * sep.len()
        },
    decreases parts.len(),
{
    reveal_with_fuel(total_len, 2);
    let s = join(parts, sep);
    if parts.len() == 1 {
        assert(s.skip(0) =~= s);
        assert(s.take(parts[0].len() as int) =~= s);
        assert(starts_with(s.skip(0), parts.last()));
        assert(parts.drop_last().len() == 0);
        assert(in_order(s.take(0), parts.drop_last()));
        assert(total_len(parts.drop_last()) == 0);
    } else if parts.len() > 1 {
        let front = parts.drop_last();
        a_join_holds_its_parts_in_order(front, sep);
        lemma_in_order_push(join(front, sep), front, sep, parts.last(), Seq::empty());
        assert(join(front, sep) + sep + parts.last() + Seq::empty() =~= s);
        assert(front.push(parts.last()) =~= parts);
        assert((front.len() - 1) * sep.len() + sep.len() == (parts.len() - 1) * sep.len())
            by (nonlinear_arith)
            requires
                front.len() == parts.len() - 1,
        ;
    }
}

/// A character of a join is one of the separator or of a part.
pub proof fn lemma_join_chars(parts: Seq<Seq<char>>, sep: Seq<char>, c: char)
    requires
        !sep.contains(c),
        forall|k: int| 0 <= k < parts.len() ==> !(#[trigger] parts[k]).contains(c),
    ensures
        !join(parts, sep).contains(c),
    decreases parts.len(),
{
    let s = join(parts, sep);
    if parts.len() > 1 {
        let front = parts.drop_last();
        assert forall|k: int| 0 <= k < front.len() implies !(#[trigger] front[k]).contains(c) by {
            assert(front[k] == parts[k]);
        }
        lemma_join_chars(front, sep, c);
        let f = join(front, sep);
        let last = parts[parts.len() - 1];
        assert(!last.contains(c));
        if s.contains(c) {
            let i = choose|i: int| 0 <= i < s.len() && s[i] == c;
            if i < f.len() {
                assert(f[i] == c);
            } else if i < f.len() + sep.len() {
                assert(sep[i - f.len()] == c);
            } else {
                assert(last[i - f.len() - sep.len()] == c);
            }
        }
    } else if parts.len() == 1 {
        assert(!parts[0].contains(c));
    }
}

/// Texts one after the other.
pub open spec fn run(parts: Seq<Seq<char>>) -> Seq<char>
    decreases parts.len(),
{
    if parts.len() <= 1 {
        if parts.len() == 0 {
            Seq::empty()
        } else {
            parts[0]
        }
    } else {
        run(parts.drop_last()) + parts.last()
    }
}

/// Texts one after the other hold what each of them holds, and stand in order.
pub proof fn lemma_run_holds(parts: Seq<Seq<char>>, k: int, p: Seq<char>)
    requires
        0 <= k < parts.len(),
        contains(parts[k], p),
    ensures
        contains(run(parts), p),
    decreases parts.len(),
{
    if parts.len() > 1 {
        let front = run(parts.drop_last());
        if k == parts.len() - 1 {
            lemma_contains_around(front, parts.last(), Seq::empty(), p);
            assert(front + parts.last() + Seq::empty() =~= run(parts));
        } else {
            lemma_run_holds(parts.drop_last(), k, p);
            lemma_contains_around(Seq::empty(), front, parts.last(), p);
            assert(Seq::empty() + front + parts.last() =~= run(parts));
        }
    }
}

/// Every text holds itself, and the empty one.
pub proof fn lemma_holds_itself(s: Seq<char>)
    ensures
        contains(s, s),
        contains(s, Seq::empty()),
{
    assert(s.skip(0) =~= s);
    assert(s.take(s.len() as int) =~= s);
    assert(starts_with(s.skip(0), s));
    assert(s.take(0) =~= Seq::empty());
    assert(starts_with(s.skip(0), Seq::empty()));
}

/// What a held text holds is held.
pub proof fn lemma_contains_through(s: Seq<char>, m: Seq<char>, p: Seq<char>)
    requires
        contains(s, m),
        contains(m, p),
    ensures
        contains(s, p),
{
    let i = choose|i: int| 0 <= i <= s.len() && starts_with(#[trigger] s.skip(i), m);
    let n = m.len() as int;
    assert(s.skip(i).take(n) == m);
    lemma_contains_around(s.take(i), m, s.skip(i + n), p);
    assert(s.take(i) + m + s.skip(i + n) =~= s) by {
        assert(s.take(i) + s.skip(i).take(n) + s.skip(i + n) =~= s);
    }
}

/// Replacing leaves a text alone in which what is replaced does not occur.
pub proof fn replacing_nothing_changes_nothing(s: Seq<char>, p: Seq<char>, r: Seq<char>)
    requires
        !contains(s, p),
    ensures
        replace(s, p, r) == s,
    decreases s.len(),
{
    if s.len() > 0 && p.len() > 0 {
        assert(s.skip(0) =~= s);
        assert(!starts_with(s.skip(0), p));
        assert forall|i: int| 0 <= i <= s.skip(1).len() implies !starts_with(
            #[trigger] s.skip(1).skip(i),
            p,
        ) by {
            assert(s.skip(1).skip(i) =~= s.skip(i + 1));
        }
        replacing_nothing_changes_nothing(s.skip(1), p, r);
        assert(seq![s[0]] + s.skip(1) =~= s);
    }
}

/// Replacing reaches no further than the last character of what is replaced.
pub proof fn replacing_keeps_the_tail(a: Seq<char>, b: Seq<char>, p: Seq<char>, r: Seq<char>)
    requires
        p.len() > 0,
        forall|i: int| 0 <= i < b.len() ==> #[trigger] b[i] != p.last(),
    ensures
        replace(a + b, p, r) == replace(a, p, r) + b,
    decreases a.len(),
{
    let s = a + b;
    if starts_with(s, p) {
        let n = p.len() as int;
        assert(s.take(n)[n - 1] == s[n - 1]);
        if n > a.len() {
            assert(s[n - 1] == b[n - 1 - a.len()]);
        }
        assert(n <= a.len());
        assert(a.take(n) =~= s.take(n));
        assert(s.skip(n) =~= a.skip(n) + b);
        replacing_keeps_the_tail(a.skip(n), b, p, r);
        assert(replace(s, p, r) =~= r + replace(a.skip(n), p, r) + b);
        assert(replace(a, p, r) == r + replace(a.skip(n), p, r));
    } else if a.len() > 0 {
        assert(!starts_with(a, p)) by {
            if starts_with(a, p) {
                assert(s.take(p.len() as int) =~= a.take(p.len() as int));
            }
        }
        assert(s.skip(1) =~= a.skip(1) + b);
        replacing_keeps_the_tail(a.skip(1), b, p, r);
        assert(replace(s, p, r) =~= seq![a[0]] + replace(a.skip(1), p, r) + b);
    } else {
        assert(s =~= b);
        assert(!contains(b, p)) by {
            if contains(b, p) {
                let i = choose|i: int| 0 <= i <= b.len() && starts_with(#[trigger] b.skip(i), p);
                let n = p.len() as int;
                assert(b.skip(i).take(n)[n - 1] == b[i + n - 1]);
            }
        }
        replacing_nothing_changes_nothing(b, p, r);
        assert(replace(a, p, r) + b =~= b);
    }
}

/// What is replaced where it occurs is put there.
pub proof fn a_replacement_is_put_in(s: Seq<char>, p: Seq<char>, r: Seq<char>)
    requires
        contains(s, p),
        p.len() > 0,
    ensures
        contains(replace(s, p, r), r),
    decreases s.len(),
{
    let i = choose|i: int| 0 <= i <= s.len() && starts_with(#[trigger] s.skip(i), p);
    if s.len() == 0 {
        assert(s.skip(i).len() == 0);
    } else if starts_with(s, p) {
        let rest = replace(s.skip(p.len() as int), p, r);
        lemma_contains_middle(Seq::empty(), r, rest);
        assert(Seq::empty() + r + rest =~= r + rest);
    } else {
        if i == 0 {
            assert(s.skip(0) =~= s);
        }
        assert(s.skip(1).skip(i - 1) =~= s.skip(i));
        assert(starts_with(s.skip(1).skip(i - 1), p));
        a_replacement_is_put_in(s.skip(1), p, r);
        let rest = replace(s.skip(1), p, r);
        lemma_contains_around(seq![s[0]], rest, Seq::empty(), r);
        assert(seq![s[0]] + rest + Seq::empty() =~= seq![s[0]] + rest);
    }
}

/// Splitting takes nothing away: the parts, joined again, are the text, and the separator is in none
/// of them.
pub proof fn splitting_and_joining_gives_the_text_back(s: Seq<char>, c: char)
    ensures
        join(split_on(s, c), seq![c]) == s,
        split_on(s, c).len() >= 1,
        forall|i: int|
            0 <= i < split_on(s, c).len() ==> !(#[trigger] split_on(s, c)[i]).contains(c),
    decreases s.len(),
{
    lemma_lead_until(s, c);
    let n = lead_until(s, c) as int;
    let parts = split_on(s, c);
    if n >= s.len() {
        assert(parts =~= seq![s]);
        assert(!s.contains(c));
    } else {
        let rest = split_on(s.skip(n + 1), c);
        splitting_and_joining_gives_the_text_back(s.skip(n + 1), c);
        assert(parts =~= seq![s.take(n)] + rest);
        lemma_join_first(s.take(n), rest, seq![c]);
        assert(s.take(n) + seq![c] + s.skip(n + 1) =~= s);
        assert(!s.take(n).contains(c));
        assert forall|i: int| 0 <= i < parts.len() implies !(#[trigger] parts[i]).contains(c) by {
            if i > 0 {
                assert(parts[i] == rest[i - 1]);
            }
        }
    }
}

/// The first part of a join stands before the rest.
pub proof fn lemma_join_first(first: Seq<char>, rest: Seq<Seq<char>>, sep: Seq<char>)
    requires
        rest.len() > 0,
    ensures
        join(seq![first] + rest, sep) == first + sep + join(rest, sep),
    decreases rest.len(),
{
    let all = seq![first] + rest;
    if rest.len() == 1 {
        reveal_with_fuel(join, 3);
        assert(all.drop_last() =~= seq![first]);
    } else {
        lemma_join_first(first, rest.drop_last(), sep);
        assert(all.drop_last() =~= seq![first] + rest.drop_last());
        assert(all.last() == rest.last());
        assert(join(all, sep) =~= first + sep + join(rest, sep));
    }
}

/// The characters of a text that are not white.
pub open spec fn inked(s: Seq<char>) -> Seq<char>
    decreases s.len(),
{
    if s.len() == 0 {
        Seq::empty()
    } else if is_white(s[0]) {
        inked(s.skip(1))
    } else {
        seq![s[0]] + inked(s.skip(1))
    }
}

/// Leading white characters have no ink.
pub proof fn lemma_inked_white(s: Seq<char>, n: int)
    requires
        0 <= n <= s.len(),
        forall|i: int| 0 <= i < n ==> is_white(#[trigger] s[i]),
    ensures
        inked(s) == inked(s.skip(n)),
    decreases n,
{
    if n > 0 {
        assert(is_white(s[0]));
        assert forall|i: int| 0 <= i < n - 1 implies is_white(#[trigger] s.skip(1)[i]) by {
            assert(s.skip(1)[i] == s[i + 1]);
        }
        lemma_inked_white(s.skip(1), n - 1);
        assert(s.skip(1).skip(n - 1) =~= s.skip(n));
    } else {
        assert(s.skip(0) =~= s);
    }
}

/// The ink of a text is that of its parts.
pub proof fn lemma_inked_add(a: Seq<char>, b: Seq<char>)
    ensures
        inked(a + b) == inked(a) + inked(b),
    decreases a.len(),
{
    let s = a + b;
    if a.len() == 0 {
        assert(s =~= b);
        assert(inked(a) + inked(b) =~= inked(b));
    } else {
        assert(s.skip(1) =~= a.skip(1) + b);
        lemma_inked_add(a.skip(1), b);
        assert(inked(s) =~= inked(a) + inked(b));
    }
}

/// Trimming takes white characters only, and those at the edges: what is left stands in the text, in
/// one piece, and holds all of it that is not white.
pub proof fn trimming_takes_white_only(s: Seq<char>)
    ensures
        contains(s, trim(s)),
        inked(trim(s)) == inked(s),
        trim(s).len() > 0 ==> !is_white(trim(s)[0]) && !is_white(trim(s).last()),
{
    lemma_lead_white(s);
    let a = lead_white(s) as int;
    let u = trim_start(s);
    lemma_trim_end(u);
    trim_trims(s);
    let n = trim(s).len() as int;
    let tail = u.skip(n);
    assert(s =~= s.take(a) + trim(s) + tail);
    lemma_contains_middle(s.take(a), trim(s), tail);
    lemma_inked_white(s, a);
    lemma_trim_end_rest(u);
    lemma_inked_add(trim(s), tail);
    assert(trim(s) + tail =~= u);
    lemma_inked_white(tail, tail.len() as int);
    assert(inked(tail.skip(tail.len() as int)) =~= Seq::<char>::empty());
    assert(inked(trim(s)) + inked(tail) =~= inked(trim(s)));
}

/// A text without white edges has ink exactly when it is not empty.
pub proof fn lemma_inked_edge(s: Seq<char>)
    requires
        s.len() > 0 ==> !is_white(s[0]),
    ensures
        inked(s).len() > 0 <==> s.len() > 0,
{
}

/// What stands before a character is what there is up to its first occurrence.
pub proof fn lemma_lead_until_at(a: Seq<char>, c: char, b: Seq<char>)
    requires
        !a.contains(c),
    ensures
        lead_until(a + seq![c] + b, c) == a.len(),
        lead_until(a, c) == a.len(),
        (a + seq![c] + b).take(a.len() as int) == a,
        (a + seq![c] + b).skip(a.len() as int + 1) == b,
{
    let s = a + seq![c] + b;
    lemma_lead_until(s, c);
    lemma_lead_until(a, c);
    let n = lead_until(s, c) as int;
    assert(s[a.len() as int] == c);
    if n < a.len() {
        assert(a[n] == s[n]);
        assert(a.contains(c));
    }
    if n > a.len() {
        assert(s[a.len() as int] != c);
    }
    let m = lead_until(a, c) as int;
    if m < a.len() {
        assert(a[m] == c);
    }
    assert(s.take(a.len() as int) =~= a);
    assert(s.skip(a.len() as int + 1) =~= b);
}

/// The first of texts one after the other stands before the rest.
pub proof fn lemma_run_first(first: Seq<char>, rest: Seq<Seq<char>>)
    ensures
        run(seq![first] + rest) == first + run(rest),
    decreases rest.len(),
{
    let all = seq![first] + rest;
    if rest.len() == 0 {
        assert(all =~= seq![first]);
        assert(first + run(rest) =~= first);
    } else if rest.len() == 1 {
        reveal_with_fuel(run, 3);
        assert(all.drop_last() =~= seq![first]);
    } else {
        lemma_run_first(first, rest.drop_last());
        assert(all.drop_last() =~= seq![first] + rest.drop_last());
        assert(run(all) =~= first + run(rest));
    }
}

/// The lines of a text are all of it but the ends of lines: no line feed is in a line, and together
/// the lines hold all of the text that is not white.
pub proof fn lines_hold_all_of_the_text(s: Seq<char>)
    ensures
        forall|i: int| 0 <= i < lines(s).len() ==> !(#[trigger] lines(s)[i]).contains('\n'),
        inked(run(lines(s))) == inked(s),
    decreases s.len(),
{
    lemma_lead_until(s, '\n');
    let n = lead_until(s, '\n') as int;
    let all = lines(s);
    if s.len() == 0 {
        assert(all =~= Seq::<Seq<char>>::empty());
        assert(run(all) =~= s);
    } else if n == s.len() {
        assert(all =~= seq![s]);
        assert(!s.contains('\n'));
    } else {
        let line = s.take(n);
        let kept = strip_cr(line);
        let rest = s.skip(n + 1);
        lines_hold_all_of_the_text(rest);
        assert(all =~= seq![kept] + lines(rest));
        lemma_run_first(kept, lines(rest));
        lemma_inked_add(kept, run(lines(rest)));
        assert(s =~= line + seq!['\n'] + rest);
        lemma_inked_add(line + seq!['\n'], rest);
        lemma_inked_add(line, seq!['\n']);
        lemma_inked_white(seq!['\n'], 1);
        assert(seq!['\n'].skip(1) =~= Seq::<char>::empty());
        assert(inked(line) + Seq::<char>::empty() =~= inked(line));
        if kept.len() < line.len() {
            assert(line =~= kept + seq!['\r']);
            lemma_inked_add(kept, seq!['\r']);
            lemma_inked_white(seq!['\r'], 1);
            assert(seq!['\r'].skip(1) =~= Seq::<char>::empty());
            assert(inked(kept) + Seq::<char>::empty() =~= inked(kept));
        }
        assert forall|i: int| 0 <= i < all.len() implies !(#[trigger] all[i]).contains('\n') by {
            if i > 0 {
                assert(all[i] == lines(rest)[i - 1]);
            } else if kept.contains('\n') {
                let k = choose|k: int| 0 <= k < kept.len() && kept[k] == '\n';
                assert(s[k] == '\n');
            }
        }
    }
}

proof fn lemma_trim_end_rest(s: Seq<char>)
    ensures
        forall|i: int| trim_end(s).len() <= i < s.len() ==> is_white(#[trigger] s[i]),
    decreases s.len(),
{
    if s.len() > 0 && is_white(s.last()) {
        lemma_trim_end_rest(s.drop_last());
        assert forall|i: int| trim_end(s).len() <= i < s.len() implies is_white(
            #[trigger] s[i],
        ) by {
            if i < s.len() - 1 {
                assert(is_white(s.drop_last()[i]));
            }
        }
    }
}

/// Joins strings with a separator.
pub fn join_texts(parts: &Vec<String>, sep: &str) -> (r: String)
    ensures
        r@ == join(views(parts@), sep@),
{
    let mut out: String = String::new();
    let mut i: usize = 0;
    while i < parts.len()
        invariant
            i <= parts@.len(),
            out@ == join(views(parts@).take(i as int), sep@),
        decreases parts@.len() - i,
    {
        if i > 0 {
            out.append(sep);
        }
        out.append(parts[i].as_str());
        proof {
            let now = views(parts@).take(i + 1);
            assert(now.drop_last() =~= views(parts@).take(i as int));
            assert(now.last() == parts@[i as int]@);
            if i == 0 {
                assert(out@ =~= now[0]);
            }
        }
        i = i + 1;
    }
    assert(views(parts@).take(i as int) =~= views(parts@));
    out
}

/// Two texts, one after the other.
pub fn cat2(a: &str, b: &str) -> (r: String)
    ensures
        r@ == a@ + b@,
{
    let mut out: String = a.to_owned();
    out.append(b);
    out
}

/// Three texts, one after the other.
pub fn cat3(a: &str, b: &str, c: &str) -> (r: String)
    ensures
        r@ == a@ + b@ + c@,
{
    let mut out: String = a.to_owned();
    out.append(b);
    out.append(c);
    out
}

/// Four texts, one after the other.
pub fn cat4(a: &str, b: &str, c: &str, d: &str) -> (r: String)
    ensures
        r@ == a@ + b@ + c@ + d@,
{
    let mut out: String = cat3(a, b, c);
    out.append(d);
    out
}

/// Five texts, one after the other.
pub fn cat5(a: &str, b: &str, c: &str, d: &str, e: &str) -> (r: String)
    ensures
        r@ == a@ + b@ + c@ + d@ + e@,
{
    let mut out: String = cat4(a, b, c, d);
    out.append(e);
    out
}

// ---------------------------------------------------------------------------
// ASCII letters and digits
// ---------------------------------------------------------------------------

/// The lower-case form of an ASCII upper-case letter; any other character unchanged.
pub open spec fn lower_char(c: char) -> char {
    if 'A' <= c <= 'Z' {
        ((c as u32) + 32) as char
    } else {
        c
    }
}

/// A text with its ASCII letters in lower case.
pub open spec fn ascii_lower(s: Seq<char>) -> Seq<char> {
    s.map_values(|c: char| lower_char(c))
}

/// Lower-cases an ASCII letter.
pub fn ascii_lower_char(c: char) -> (r: char)
    ensures
        r == lower_char(c),
{
    if 'A' <= c && c <= 'Z' {
        let n: u8 = (c as u32 + 32) as u8;
        n as char
    } else {
        c
    }
}

/// Lower-cases the ASCII letters of a string.
pub fn ascii_lower_text(s: &str) -> (r: String)
    ensures
        r@ == ascii_lower(s@),
{
    let v: Vec<char> = chars_of(s);
    let mut out: String = String::new();
    let mut i: usize = 0;
    while i < v.len()
        invariant
            i <= v@.len(),
            out@ == ascii_lower(v@.take(i as int)),
        decreases v@.len() - i,
    {
        push_char(&mut out, ascii_lower_char(v[i]));
        proof {
            assert(ascii_lower(v@.take(i + 1)) =~= ascii_lower(v@.take(i as int)).push(
                lower_char(v@[i as int]),
            ));
        }
        i = i + 1;
    }
    assert(v@.take(i as int) =~= v@);
    out
}

/// Whether two strings agree when the case of ASCII letters is ignored.
pub fn same_ascii_text(a: &str, b: &str) -> (r: bool)
    ensures
        r == (ascii_lower(a@) == ascii_lower(b@)),
{
    let left: String = ascii_lower_text(a);
    let right: String = ascii_lower_text(b);
    left == right
}

/// An ASCII letter or digit.
pub open spec fn is_ascii_alnum(c: char) -> bool {
    'a' <= c <= 'z' || 'A' <= c <= 'Z' || '0' <= c <= '9'
}

/// Whether a character is an ASCII letter or digit.
pub fn is_ascii_alphanumeric(c: char) -> (r: bool)
    ensures
        r == is_ascii_alnum(c),
{
    ('a' <= c && c <= 'z') || ('A' <= c && c <= 'Z') || ('0' <= c && c <= '9')
}

/// The digit `d` of base sixteen, in lower case.
pub open spec fn digit(d: int) -> char {
    if d < 10 {
        (48 + d) as char
    } else {
        (87 + d) as char
    }
}

/// A number in base ten, without leading zeros.
pub open spec fn decimal(n: nat) -> Seq<char>
    decreases n,
{
    if n < 10 {
        seq![digit(n as int)]
    } else {
        decimal(n / 10).push(digit((n % 10) as int))
    }
}

/// Writes a digit.
pub fn digit_char(d: u8) -> (r: char)
    requires
        d < 16,
    ensures
        r == digit(d as int),
{
    let n: u8 = if d < 10 {
        48 + d
    } else {
        87 + d
    };
    n as char
}

/// Writes a number in base ten at the end of `out`.
pub fn push_decimal(out: &mut String, n: u64)
    ensures
        final(out)@ == old(out)@ + decimal(n as nat),
    decreases n,
{
    if n >= 10 {
        push_decimal(out, n / 10);
    }
    push_char(out, digit_char((n % 10) as u8));
    proof {
        if n >= 10 {
            assert(old(out)@ + decimal(n as nat) =~= (old(out)@ + decimal((n / 10) as nat)).push(
                digit((n % 10) as int),
            ));
        } else {
            assert(old(out)@ + decimal(n as nat) =~= old(out)@.push(digit(n as int)));
        }
    }
}

/// A number in base ten, padded on the left with zeros to at least `width` digits.
pub open spec fn padded(n: nat, width: nat) -> Seq<char> {
    let d = decimal(n);
    if d.len() < width {
        Seq::new((width - d.len()) as nat, |i: int| '0') + d
    } else {
        d
    }
}

/// The number that digits of base ten stand for.
pub open spec fn number(digits: Seq<char>) -> int
    decreases digits.len(),
{
    if digits.len() == 0 {
        0
    } else {
        number(digits.drop_last()) * 10 + (digits.last() as int - 48)
    }
}

/// Written in base ten, a number can be read back; it is all digits, and has one at least.
pub proof fn a_decimal_gives_back_its_number(n: nat)
    ensures
        number(decimal(n)) == n,
        decimal(n).len() > 0,
        forall|i: int| 0 <= i < decimal(n).len() ==> '0' <= #[trigger] decimal(n)[i] <= '9',
    decreases n,
{
    reveal_with_fuel(number, 2);
    if n >= 10 {
        a_decimal_gives_back_its_number(n / 10);
        assert(decimal(n).drop_last() =~= decimal(n / 10));
        assert(decimal(n).last() == digit((n % 10) as int));
    } else {
        assert(decimal(n).drop_last() =~= Seq::empty());
    }
}

proof fn lemma_leading_zeros(zeros: Seq<char>, digits: Seq<char>)
    requires
        forall|i: int| 0 <= i < zeros.len() ==> #[trigger] zeros[i] == '0',
    ensures
        number(zeros + digits) == number(digits),
    decreases zeros.len() + digits.len(),
{
    let all = zeros + digits;
    if digits.len() > 0 {
        lemma_leading_zeros(zeros, digits.drop_last());
        assert(all.drop_last() =~= zeros + digits.drop_last());
    } else if zeros.len() > 0 {
        assert(all =~= zeros);
        lemma_leading_zeros(zeros.drop_last(), digits);
        assert(all.drop_last() =~= zeros.drop_last() + digits);
    }
}

/// Padded with zeros, a number can be read back.
pub proof fn a_padded_number_gives_back_its_number(n: nat, width: nat)
    ensures
        number(padded(n, width)) == n,
{
    a_decimal_gives_back_its_number(n);
    let d = decimal(n);
    if d.len() < width {
        lemma_leading_zeros(Seq::new((width - d.len()) as nat, |i: int| '0'), d);
    }
}

/// A padded number is all digits.
pub proof fn a_padded_number_is_digits(n: nat, width: nat)
    ensures
        forall|i: int| 0 <= i < padded(n, width).len() ==> '0' <= #[trigger] padded(n, width)[i] <= '9',
        padded(n, width).len() >= width,
        padded(n, width).len() > 0,
{
    a_decimal_gives_back_its_number(n);
    let d = decimal(n);
    let p = padded(n, width);
    if d.len() < width {
        let pad = (width - d.len()) as int;
        assert forall|i: int| 0 <= i < p.len() implies '0' <= #[trigger] p[i] <= '9' by {
            if i >= pad {
                assert(p[i] == d[i - pad]);
            }
        }
    }
}

/// A number that needs no more digits than it is padded to has just as many.
pub proof fn lemma_padded_width(n: nat)
    ensures
        n < 100 ==> padded(n, 2).len() == 2,
        n < 1000 ==> padded(n, 3).len() == 3,
{
    reveal_with_fuel(decimal, 4);
}

/// Writes a number with at least `width` digits at the end of `out`.
pub fn push_padded(out: &mut String, n: u64, width: usize)
    ensures
        final(out)@ == old(out)@ + padded(n as nat, width as nat),
{
    let mut text: String = String::new();
    push_decimal(&mut text, n);
    let len: usize = text.as_str().unicode_len();
    let ghost start = out@;
    assert(text@ =~= decimal(n as nat));
    let mut i: usize = len;
    while i < width
        invariant
            len <= i,
            i <= width || i == len,
            out@ == start + Seq::new((i - len) as nat, |k: int| '0'),
        decreases width - i,
    {
        push_char(out, '0');
        assert(Seq::new((i - len) as nat, |k: int| '0').push('0') =~= Seq::new(
            (i + 1 - len) as nat,
            |k: int| '0',
        ));
        assert(out@ =~= start + Seq::new((i + 1 - len) as nat, |k: int| '0'));
        i = i + 1;
    }
    out.append(text.as_str());
    proof {
        if len < width {
            assert(out@ =~= start + padded(n as nat, width as nat));
        } else {
            assert(Seq::new(0, |k: int| '0') =~= Seq::<char>::empty());
            assert(out@ =~= start + padded(n as nat, width as nat));
        }
    }
}

/// The first `n` characters of a text, or all of it when it is shorter.
pub open spec fn prefix(s: Seq<char>, n: nat) -> Seq<char> {
    if s.len() <= n {
        s
    } else {
        s.take(n as int)
    }
}

/// Keeps at most the first `n` characters.
pub fn prefix_text(s: &str, n: usize) -> (r: String)
    ensures
        r@ == prefix(s@, n as nat),
{
    let v: Vec<char> = chars_of(s);
    if v.len() <= n {
        string_of(&v)
    } else {
        string_of(&v[0..n])
    }
}

} // verus!
