//! Paths as texts: joining a directory and a name, taking a path apart, and telling whether two
//! texts are one path.

use vstd::prelude::*;

use crate::text::{
    ascii_lower_char, chars_of, ends_with, lower_char, opt_view, same_text, starts_with, string_of,
    views,
};

verus! {

/// How a platform writes paths.
#[derive(Clone, Copy, PartialEq, Eq, Structural, Debug)]
pub enum PathStyle {
    /// `/` separates names; there are no prefixes.
    Unix,
    /// `\` and `/` separate names; a drive (`C:`) or a share (`\\server\share`) may stand first.
    /// A path that begins with `\\?\` is read by the same rules.
    Windows,
}

/// Whether a character separates names.
pub open spec fn is_separator(style: PathStyle, c: char) -> bool {
    c == '/' || (style == PathStyle::Windows && c == '\\')
}

/// The separator that a join writes.
pub open spec fn separator(style: PathStyle) -> Seq<char> {
    match style {
        PathStyle::Unix => "/"@,
        PathStyle::Windows => "\\"@,
    }
}

/// The number of characters before the first separator.
pub open spec fn lead_name(style: PathStyle, s: Seq<char>) -> nat
    decreases s.len(),
{
    if s.len() > 0 && !is_separator(style, s[0]) {
        1 + lead_name(style, s.skip(1))
    } else {
        0
    }
}

/// Whether a path begins with a drive.
pub open spec fn has_drive(style: PathStyle, s: Seq<char>) -> bool {
    style == PathStyle::Windows && s.len() >= 2 && 'a' <= lower_char(s[0]) <= 'z' && s[1] == ':'
}

/// The name of the server that a path begins with.
pub open spec fn server_len(style: PathStyle, s: Seq<char>) -> nat {
    lead_name(style, s.skip(2))
}

/// The name of the share that follows the server.
pub open spec fn share_len(style: PathStyle, s: Seq<char>) -> nat {
    lead_name(style, s.skip(3 + server_len(style, s) as int))
}

/// Whether a path begins with a share: two separators, a server, a separator and a name.
pub open spec fn has_share(style: PathStyle, s: Seq<char>) -> bool {
    &&& style == PathStyle::Windows
    &&& s.len() >= 2
    &&& is_separator(style, s[0])
    &&& is_separator(style, s[1])
    &&& server_len(style, s) > 0
    &&& 2 + server_len(style, s) < s.len()
    &&& share_len(style, s) > 0
}

/// The length of the drive or share that a path begins with.
pub open spec fn prefix_len(style: PathStyle, s: Seq<char>) -> nat {
    if has_drive(style, s) {
        2
    } else if has_share(style, s) {
        3 + server_len(style, s) + share_len(style, s)
    } else {
        0
    }
}

/// Whether a path starts at a root: at a separator behind the prefix, or at a share.
pub open spec fn is_rooted(style: PathStyle, s: Seq<char>) -> bool {
    let p = prefix_len(style, s);
    has_share(style, s) || (p < s.len() && is_separator(style, s[p as int]))
}

/// A path below a directory. A name with a prefix stands for itself, one that starts at a root keeps
/// the directory's prefix alone, and any other is set behind the directory, by a separator where one
/// is needed.
pub open spec fn joined(style: PathStyle, dir: Seq<char>, name: Seq<char>) -> Seq<char> {
    if prefix_len(style, name) > 0 {
        name
    } else if is_rooted(style, name) {
        dir.take(prefix_len(style, dir) as int) + name
    } else if dir.len() == 0 || is_separator(style, dir.last()) || (has_drive(style, dir)
        && dir.len() == 2) {
        dir + name
    } else {
        dir + separator(style) + name
    }
}

/// The names between separators. Empty ones count for nothing, and neither does `.`, unless the
/// path starts with it.
pub open spec fn names(style: PathStyle, s: Seq<char>, first: bool) -> Seq<Seq<char>>
    decreases s.len(),
    via names_decreases
{
    if s.len() == 0 {
        Seq::empty()
    } else {
        let n = lead_name(style, s) as int;
        let rest = if n < s.len() {
            s.skip(n + 1)
        } else {
            Seq::empty()
        };
        if n == 0 || (s.take(n) == seq!['.'] && !first) {
            names(style, rest, false)
        } else {
            seq![s.take(n)] + names(style, rest, false)
        }
    }
}

#[via_fn]
proof fn names_decreases(style: PathStyle, s: Seq<char>, first: bool) {
    lemma_lead_name(style, s);
}

/// What a path consists of.
pub struct PathParts {
    /// The drive with its letter in lower case, or the server and the share.
    pub prefix: Seq<Seq<char>>,
    pub rooted: bool,
    pub names: Seq<Seq<char>>,
}

/// The prefix of a path.
pub open spec fn prefix_parts(style: PathStyle, s: Seq<char>) -> Seq<Seq<char>> {
    if has_drive(style, s) {
        seq![seq![lower_char(s[0]), ':']]
    } else if has_share(style, s) {
        let server = server_len(style, s) as int;
        seq![
            s.subrange(2, 2 + server),
            s.subrange(3 + server, 3 + server + share_len(style, s)),
        ]
    } else {
        Seq::empty()
    }
}

/// The parts of a path.
pub open spec fn parts(style: PathStyle, s: Seq<char>) -> PathParts {
    PathParts {
        prefix: prefix_parts(style, s),
        rooted: is_rooted(style, s),
        names: names(style, s.skip(prefix_len(style, s) as int), !is_rooted(style, s)),
    }
}

/// Whether two texts are one path: they have the same parts.
pub open spec fn same_path(style: PathStyle, a: Seq<char>, b: Seq<char>) -> bool {
    parts(style, a) == parts(style, b)
}

/// Where the names of a path end that starts at index `at` of a longer text.
pub open spec fn name_ends(style: PathStyle, s: Seq<char>, first: bool, at: int) -> Seq<int>
    decreases s.len(),
    via name_ends_decreases
{
    if s.len() == 0 {
        Seq::empty()
    } else {
        let n = lead_name(style, s) as int;
        let rest = if n < s.len() {
            s.skip(n + 1)
        } else {
            Seq::empty()
        };
        if n == 0 || (s.take(n) == seq!['.'] && !first) {
            name_ends(style, rest, false, at + n + 1)
        } else {
            seq![at + n] + name_ends(style, rest, false, at + n + 1)
        }
    }
}

#[via_fn]
proof fn name_ends_decreases(style: PathStyle, s: Seq<char>, first: bool, at: int) {
    lemma_lead_name(style, s);
}

/// Where the names of a path end.
pub open spec fn path_ends(style: PathStyle, s: Seq<char>) -> Seq<int> {
    let p = prefix_len(style, s) as int;
    name_ends(style, s.skip(p), !is_rooted(style, s), p)
}

/// The directory of a path: what stands before its last name, without the separators between. A
/// path without names has none.
pub open spec fn parent(style: PathStyle, s: Seq<char>) -> Option<Seq<char>> {
    let ends = path_ends(style, s);
    let p = prefix_len(style, s) as int;
    if ends.len() == 0 {
        None
    } else if ends.len() == 1 {
        Some(
            if p < s.len() && is_separator(style, s[p]) {
                s.take(p + 1)
            } else {
                s.take(p)
            },
        )
    } else {
        Some(s.take(ends[ends.len() - 2]))
    }
}

/// The last name of a path, unless it leads elsewhere.
pub open spec fn file_name(style: PathStyle, s: Seq<char>) -> Option<Seq<char>> {
    let all = parts(style, s).names;
    if all.len() == 0 || all.last() == seq!['.'] || all.last() == seq!['.', '.'] {
        None
    } else {
        Some(all.last())
    }
}

pub proof fn lemma_lead_name(style: PathStyle, s: Seq<char>)
    ensures
        lead_name(style, s) <= s.len(),
        lead_name(style, s) < s.len() ==> is_separator(style, s[lead_name(style, s) as int]),
        forall|i: int|
            0 <= i < lead_name(style, s) ==> !is_separator(style, #[trigger] s[i]),
    decreases s.len(),
{
    if s.len() > 0 && !is_separator(style, s[0]) {
        let t = s.skip(1);
        lemma_lead_name(style, t);
        assert forall|i: int| 0 <= i < lead_name(style, s) implies !is_separator(
            style,
            #[trigger] s[i],
        ) by {
            if i > 0 {
                assert(s[i] == t[i - 1]);
            }
        }
    }
}

proof fn lemma_lead_name_is(style: PathStyle, s: Seq<char>, n: int)
    requires
        0 <= n <= s.len(),
        n < s.len() ==> is_separator(style, s[n]),
        forall|i: int| 0 <= i < n ==> !is_separator(style, #[trigger] s[i]),
    ensures
        lead_name(style, s) == n,
{
    lemma_lead_name(style, s);
    let m = lead_name(style, s) as int;
    if m < n {
        assert(!is_separator(style, s[m]));
    } else if n < m {
        assert(!is_separator(style, s[n]));
    }
}

/// The names of a path that is cut at a separator are those of its two pieces.
pub proof fn names_at_separator(
    style: PathStyle,
    a: Seq<char>,
    c: char,
    b: Seq<char>,
    first: bool,
)
    requires
        is_separator(style, c),
    ensures
        names(style, a + seq![c] + b, first) == names(style, a, first) + names(style, b, false),
    decreases a.len(),
{
    let s = a + seq![c] + b;
    lemma_lead_name(style, a);
    let n = lead_name(style, a) as int;
    assert forall|i: int| 0 <= i < n implies !is_separator(style, #[trigger] s[i]) by {
        assert(s[i] == a[i]);
    }
    if n < a.len() {
        assert(s[n] == a[n]);
        lemma_lead_name_is(style, s, n);
        let rest = a.skip(n + 1);
        assert(s.skip(n + 1) =~= rest + seq![c] + b);
        assert(s.take(n) =~= a.take(n));
        names_at_separator(style, rest, c, b, false);
        assert(names(style, s, first) =~= names(style, a, first) + names(style, b, false));
    } else {
        assert(s[n] == c);
        lemma_lead_name_is(style, s, n);
        assert(s.skip(n + 1) =~= b);
        assert(s.take(n) =~= a);
        assert(a.take(n) =~= a);
        assert(names(style, Seq::<char>::empty(), false) =~= Seq::<Seq<char>>::empty());
        assert(names(style, s, first) =~= names(style, a, first) + names(style, b, false));
    }
}

/// A trailing separator, and a separator that is written twice, make no other path.
pub proof fn extra_separators_keep_the_path(a: Seq<char>, b: Seq<char>)
    ensures
        a.len() > 0 ==> same_path(PathStyle::Unix, a + seq!['/'], a),
        same_path(PathStyle::Unix, a + seq!['/'] + (seq!['/'] + b), a + seq!['/'] + b),
{
    let style = PathStyle::Unix;
    let first = !is_rooted(style, a);
    if a.len() > 0 {
        let s = a + seq!['/'];
        names_at_separator(style, a, '/', Seq::empty(), first);
        assert(a + seq!['/'] + Seq::empty() =~= s);
        assert(s[0] == a[0]);
        assert(s.skip(0) =~= s);
        assert(a.skip(0) =~= a);
        assert(names(style, s, first) =~= names(style, a, first));
    }
    let s = a + seq!['/'] + (seq!['/'] + b);
    let t = a + seq!['/'] + b;
    assert(s[0] == t[0]);
    assert(s.skip(0) =~= s);
    assert(t.skip(0) =~= t);
    let first = !is_rooted(style, s);
    names_at_separator(style, a, '/', seq!['/'] + b, first);
    names_at_separator(style, a, '/', b, first);
    names_at_separator(style, Seq::empty(), '/', b, false);
    assert(Seq::<char>::empty() + seq!['/'] + b =~= seq!['/'] + b);
    assert(names(style, seq!['/'] + b, false) =~= names(style, b, false));
}

/// A directory may be written with or without a trailing separator: what is joined to it is one
/// path.
pub proof fn trailing_separator_keeps_the_join(dir: Seq<char>, name: Seq<char>)
    requires
        dir.len() > 0,
    ensures
        same_path(
            PathStyle::Unix,
            joined(PathStyle::Unix, dir + seq!['/'], name),
            joined(PathStyle::Unix, dir, name),
        ),
{
    let style = PathStyle::Unix;
    reveal_strlit("/");
    assert("/"@ =~= seq!['/']);
    let d = dir + seq!['/'];
    assert(d.last() == '/');
    if is_rooted(style, name) {
        assert(d.take(0) =~= dir.take(0));
    } else if dir.last() == '/' {
        let a = dir.drop_last();
        assert(dir =~= a + seq!['/']);
        assert(d + name =~= a + seq!['/'] + (seq!['/'] + name));
        assert(dir + name =~= a + seq!['/'] + name);
        extra_separators_keep_the_path(a, name);
    } else {
        assert(d + name =~= dir + "/"@ + name);
    }
}

/// A name below a directory: the path begins with the directory and ends with the name, and at most one
/// character stands between them, which separates names.
pub proof fn a_join_is_the_directory_and_the_name(
    style: PathStyle,
    dir: Seq<char>,
    name: Seq<char>,
)
    requires
        prefix_len(style, name) == 0,
        !is_rooted(style, name),
    ensures
        starts_with(joined(style, dir, name), dir),
        ends_with(joined(style, dir, name), name),
        ({
            let n = joined(style, dir, name).len() - dir.len() - name.len();
            &&& n == 0 || n == 1
            &&& n == 1 ==> is_separator(style, joined(style, dir, name)[dir.len() as int])
            &&& n == 0 ==> dir.len() == 0 || is_separator(style, dir.last()) || (has_drive(style, dir)
                && dir.len() == 2)
        }),
{
    reveal_strlit("/");
    reveal_strlit("\\");
    let s = joined(style, dir, name);
    assert(s.take(dir.len() as int) =~= dir);
    assert(s.skip(s.len() - name.len()) =~= name);
}

proof fn lemma_plain_name(style: PathStyle, name: Seq<char>, first: bool)
    requires
        name.len() > 0,
        forall|i: int| 0 <= i < name.len() ==> !is_separator(style, #[trigger] name[i]),
        name != seq!['.'],
    ensures
        names(style, name, first) == seq![name],
{
    lemma_lead_name_is(style, name, name.len() as int);
    assert(name.take(name.len() as int) =~= name);
    assert(names(style, Seq::<char>::empty(), false) =~= Seq::<Seq<char>>::empty());
    assert(seq![name] + Seq::<Seq<char>>::empty() =~= seq![name]);
}

/// What is below a directory has the directory's names and one more, by which it is called.
pub proof fn a_name_below_a_directory_is_found_there(dir: Seq<char>, name: Seq<char>)
    requires
        name.len() > 0,
        !name.contains('/'),
        name != seq!['.'],
        name != seq!['.', '.'],
    ensures
        file_name(PathStyle::Unix, joined(PathStyle::Unix, dir, name)) == Some(name),
        dir.len() > 0 ==> parts(PathStyle::Unix, joined(PathStyle::Unix, dir, name)).names == parts(
            PathStyle::Unix,
            dir,
        ).names.push(name),
        dir.len() > 0 ==> parts(PathStyle::Unix, joined(PathStyle::Unix, dir, name)).rooted == parts(
            PathStyle::Unix,
            dir,
        ).rooted,
{
    let style = PathStyle::Unix;
    reveal_strlit("/");
    assert("/"@ =~= seq!['/']);
    assert forall|i: int| 0 <= i < name.len() implies !is_separator(style, #[trigger] name[i]) by {
        assert(name.contains(name[i]));
    }
    let s = joined(style, dir, name);
    assert(s.skip(0) =~= s);
    assert(dir.skip(0) =~= dir);
    lemma_plain_name(style, name, true);
    lemma_plain_name(style, name, false);
    if dir.len() == 0 {
        assert(s =~= name);
    } else {
        let first = !is_rooted(style, dir);
        assert(s[0] == dir[0]);
        if dir.last() == '/' {
            let a = dir.drop_last();
            assert(dir =~= a + seq!['/'] + Seq::empty());
            assert(s =~= a + seq!['/'] + name);
            names_at_separator(style, a, '/', name, first);
            names_at_separator(style, a, '/', Seq::empty(), first);
            assert(names(style, Seq::<char>::empty(), false) =~= Seq::<Seq<char>>::empty());
            assert(names(style, dir, first) =~= names(style, a, first));
        } else {
            names_at_separator(style, dir, '/', name, first);
        }
        assert(names(style, s, first) =~= names(style, dir, first).push(name));
    }
}

fn is_separator_char(style: PathStyle, c: char) -> (r: bool)
    ensures
        r == is_separator(style, c),
{
    c == '/' || (style == PathStyle::Windows && c == '\\')
}

/// The end of the name that starts at an index.
fn name_end(style: PathStyle, v: &Vec<char>, from: usize) -> (r: usize)
    requires
        from <= v@.len(),
    ensures
        from <= r <= v@.len(),
        r - from == lead_name(style, v@.skip(from as int)),
{
    let mut i: usize = from;
    while i < v.len() && !is_separator_char(style, v[i])
        invariant
            from <= i <= v@.len(),
            forall|k: int| from <= k < i ==> !is_separator(style, #[trigger] v@[k]),
        decreases v@.len() - i,
    {
        i = i + 1;
    }
    proof {
        let s = v@.skip(from as int);
        assert forall|k: int| 0 <= k < i - from implies !is_separator(style, #[trigger] s[k]) by {
            assert(s[k] == v@[from + k]);
        }
        if i < v@.len() {
            assert(s[i - from] == v@[i as int]);
        }
        lemma_lead_name_is(style, s, i - from);
    }
    i
}

fn begins_with_drive(style: PathStyle, v: &Vec<char>) -> (r: bool)
    ensures
        r == has_drive(style, v@),
{
    if style == PathStyle::Windows && v.len() >= 2 {
        let c: char = ascii_lower_char(v[0]);
        'a' <= c && c <= 'z' && v[1] == ':'
    } else {
        false
    }
}

/// Where the server and the share of a path end.
fn share_ends(style: PathStyle, v: &Vec<char>) -> (r: Option<(usize, usize)>)
    ensures
        r is Some <==> has_share(style, v@),
        r matches Some(ends) ==> {
            &&& ends.0 == 2 + server_len(style, v@)
            &&& ends.1 == 3 + server_len(style, v@) + share_len(style, v@)
            &&& ends.0 < ends.1 <= v@.len()
        },
{
    if style == PathStyle::Windows && v.len() >= 2 && is_separator_char(style, v[0])
        && is_separator_char(style, v[1]) {
        let server: usize = name_end(style, v, 2);
        if server > 2 && server < v.len() {
            let share: usize = name_end(style, v, server + 1);
            if share > server + 1 {
                return Some((server, share));
            }
        }
    }
    None
}

fn prefix_end(style: PathStyle, v: &Vec<char>) -> (r: usize)
    ensures
        r == prefix_len(style, v@),
        r <= v@.len(),
{
    if begins_with_drive(style, v) {
        2
    } else {
        match share_ends(style, v) {
            Some(ends) => ends.1,
            None => 0,
        }
    }
}

fn starts_at_root(style: PathStyle, v: &Vec<char>) -> (r: bool)
    ensures
        r == is_rooted(style, v@),
{
    let p: usize = prefix_end(style, v);
    share_ends(style, v).is_some() || (p < v.len() && is_separator_char(style, v[p]))
}

/// Joins a directory and a path below it.
pub fn join_path(style: PathStyle, dir: &str, name: &str) -> (r: String)
    ensures
        r@ == joined(style, dir@, name@),
{
    let d: Vec<char> = chars_of(dir);
    let n: Vec<char> = chars_of(name);
    if prefix_end(style, &n) > 0 {
        return name.to_owned();
    }
    if starts_at_root(style, &n) {
        let p: usize = prefix_end(style, &d);
        let mut out: String = string_of(&d[0..p]);
        out.append(name);
        assert(d@.subrange(0, p as int) =~= d@.take(p as int));
        return out;
    }
    let mut out: String = dir.to_owned();
    let len: usize = d.len();
    if len > 0 && !is_separator_char(style, d[len - 1]) && !(begins_with_drive(style, &d) && len
        == 2) {
        out.append(
            match style {
                PathStyle::Unix => "/",
                PathStyle::Windows => "\\",
            },
        );
    }
    out.append(name);
    out
}

fn path_prefix(style: PathStyle, v: &Vec<char>) -> (r: Vec<String>)
    ensures
        views(r@) == prefix_parts(style, v@),
{
    let mut out: Vec<String> = Vec::new();
    if begins_with_drive(style, v) {
        let drive: Vec<char> = vec![ascii_lower_char(v[0]), ':'];
        out.push(string_of(&drive[0..2]));
        assert(drive@.subrange(0, 2) =~= seq![lower_char(v@[0]), ':']);
        assert(views(out@) =~= prefix_parts(style, v@));
    } else {
        match share_ends(style, v) {
            Some(ends) => {
                out.push(string_of(&v[2..ends.0]));
                out.push(string_of(&v[ends.0 + 1..ends.1]));
                assert(views(out@) =~= prefix_parts(style, v@));
            },
            None => {
                assert(views(out@) =~= prefix_parts(style, v@));
            },
        }
    }
    out
}

fn path_names(style: PathStyle, v: &Vec<char>, from: usize, at_start: bool) -> (r: Vec<String>)
    requires
        from <= v@.len(),
    ensures
        views(r@) == names(style, v@.skip(from as int), at_start),
{
    let mut out: Vec<String> = Vec::new();
    let mut i: usize = from;
    let mut first: bool = at_start;
    let ghost all = names(style, v@.skip(from as int), at_start);
    assert(views(out@) + all =~= all);
    while i < v.len()
        invariant
            i <= v@.len(),
            views(out@) + names(style, v@.skip(i as int), first) == all,
        decreases v@.len() - i,
    {
        let end: usize = name_end(style, v, i);
        let ghost s = v@.skip(i as int);
        let ghost n = end - i;
        proof {
            lemma_lead_name(style, s);
            assert(s.take(n) =~= v@.subrange(i as int, end as int));
            assert(n == 1 && s[0] == '.' ==> s.take(n) =~= seq!['.']);
            assert(n != 1 || s[0] != '.' ==> s.take(n) != seq!['.']) by {
                if s.take(n) == seq!['.'] {
                    assert(s.take(n)[0] == '.');
                    assert(s.take(n).len() == 1);
                }
            }
        }
        let counts: bool = end > i && (first || end - i != 1 || v[i] != '.');
        let ghost before = views(out@);
        let ghost was_first = first;
        if counts {
            out.push(string_of(&v[i..end]));
            assert(views(out@) =~= before.push(s.take(n)));
        }
        if end < v.len() {
            proof {
                assert(s.skip(n + 1) =~= v@.skip(end + 1));
            }
            i = end + 1;
        } else {
            proof {
                assert(v@.skip(end as int) =~= Seq::<char>::empty());
            }
            i = end;
        }
        first = false;
        proof {
            assert(views(out@) + names(style, v@.skip(i as int), false) =~= before + names(
                style,
                s,
                was_first,
            ));
        }
    }
    proof {
        assert(v@.skip(i as int).len() == 0);
        assert(views(out@) + names(style, v@.skip(i as int), first) =~= views(out@));
    }
    out
}

fn same_lists(a: &Vec<String>, b: &Vec<String>) -> (r: bool)
    ensures
        r == (views(a@) == views(b@)),
{
    if a.len() != b.len() {
        assert(views(a@).len() != views(b@).len());
        return false;
    }
    let mut i: usize = 0;
    while i < a.len()
        invariant
            i <= a@.len(),
            a@.len() == b@.len(),
            forall|k: int| 0 <= k < i ==> #[trigger] a@[k]@ == b@[k]@,
        decreases a@.len() - i,
    {
        if !same_text(a[i].as_str(), b[i].as_str()) {
            assert(views(a@)[i as int] != views(b@)[i as int]);
            return false;
        }
        i = i + 1;
    }
    assert(views(a@) =~= views(b@));
    true
}

proof fn lemma_name_ends(style: PathStyle, s: Seq<char>, first: bool, at: int)
    ensures
        name_ends(style, s, first, at).len() == names(style, s, first).len(),
        forall|i: int|
            0 <= i < name_ends(style, s, first, at).len() ==> at <= #[trigger] name_ends(
                style,
                s,
                first,
                at,
            )[i] <= at + s.len(),
    decreases s.len(),
{
    if s.len() > 0 {
        lemma_lead_name(style, s);
        let n = lead_name(style, s) as int;
        let rest = if n < s.len() {
            s.skip(n + 1)
        } else {
            Seq::empty()
        };
        lemma_name_ends(style, rest, false, at + n + 1);
        let ends = name_ends(style, s, first, at);
        let tail = name_ends(style, rest, false, at + n + 1);
        assert forall|i: int| 0 <= i < ends.len() implies at <= #[trigger] ends[i] <= at
            + s.len() by {
            if n == 0 || (s.take(n) == seq!['.'] && !first) {
                assert(ends[i] == tail[i]);
            } else if i > 0 {
                assert(ends[i] == tail[i - 1]);
            }
            if n == s.len() {
                assert(tail.len() == 0);
            }
        }
    }
}

/// The ends of the names of a path, where the names are those of [`path_names`].
fn ends_of_names(style: PathStyle, v: &Vec<char>, from: usize, at_start: bool) -> (r: Vec<usize>)
    requires
        from <= v@.len(),
    ensures
        r@.map_values(|n: usize| n as int) == name_ends(
            style,
            v@.skip(from as int),
            at_start,
            from as int,
        ),
{
    let ghost f = |n: usize| n as int;
    let mut out: Vec<usize> = Vec::new();
    let mut i: usize = from;
    let mut first: bool = at_start;
    let mut over: bool = i >= v.len();
    let ghost all = name_ends(style, v@.skip(from as int), at_start, from as int);
    assert(out@.map_values(f) + all =~= all);
    while !over
        invariant
            f == |n: usize| n as int,
            i <= v@.len(),
            over ==> out@.map_values(f) == all,
            !over ==> i < v@.len() && out@.map_values(f) + name_ends(
                style,
                v@.skip(i as int),
                first,
                i as int,
            ) == all,
        decreases v@.len() - i, (if over { 0int } else { 1int }),
    {
        let end: usize = name_end(style, v, i);
        let ghost s = v@.skip(i as int);
        let ghost n = end - i;
        proof {
            lemma_lead_name(style, s);
            assert(n == 1 && s[0] == '.' ==> s.take(n) =~= seq!['.']);
            assert(n != 1 || s[0] != '.' ==> s.take(n) != seq!['.']) by {
                if s.take(n) == seq!['.'] {
                    assert(s.take(n)[0] == '.');
                    assert(s.take(n).len() == 1);
                }
            }
        }
        let counts: bool = end > i && (first || end - i != 1 || v[i] != '.');
        let ghost before = out@.map_values(f);
        let ghost whole = name_ends(style, s, first, i as int);
        if counts {
            out.push(end);
            assert(out@.map_values(f) =~= before.push(end as int));
        }
        first = false;
        if v.len() - end > 1 {
            proof {
                assert(s.skip(n + 1) =~= v@.skip(end + 1));
                assert(out@.map_values(f) + name_ends(
                    style,
                    v@.skip(end + 1),
                    false,
                    end + 1,
                ) =~= before + whole);
            }
            i = end + 1;
        } else {
            proof {
                let rest = if n < s.len() {
                    s.skip(n + 1)
                } else {
                    Seq::empty()
                };
                assert(rest.len() == 0);
                assert(name_ends(style, rest, false, i + n + 1) =~= Seq::<int>::empty());
                assert(out@.map_values(f) =~= before + whole);
            }
            over = true;
        }
    }
    proof {
        if from >= v@.len() {
            assert(v@.skip(from as int).len() == 0);
            assert(all =~= Seq::<int>::empty());
        }
    }
    out
}

/// Names the directory of a path.
pub fn parent_path(style: PathStyle, path: &str) -> (r: Option<String>)
    ensures
        opt_view(r) == parent(style, path@),
{
    let v: Vec<char> = chars_of(path);
    let p: usize = prefix_end(style, &v);
    let rooted: bool = starts_at_root(style, &v);
    let ends: Vec<usize> = ends_of_names(style, &v, p, !rooted);
    let ghost all = path_ends(style, path@);
    let n: usize = ends.len();
    assert(all.len() == n);
    if n == 0 {
        return None;
    }
    let end: usize = if n > 1 {
        proof {
            lemma_name_ends(style, v@.skip(p as int), !rooted, p as int);
            assert(all[n - 2] == ends@[n - 2] as int);
        }
        ends[n - 2]
    } else if p < v.len() && is_separator_char(style, v[p]) {
        p + 1
    } else {
        p
    };
    assert(v@.subrange(0, end as int) =~= v@.take(end as int));
    Some(string_of(&v[0..end]))
}

/// Names what a path leads to.
pub fn path_file_name(style: PathStyle, path: &str) -> (r: Option<String>)
    ensures
        opt_view(r) == file_name(style, path@),
{
    let v: Vec<char> = chars_of(path);
    let p: usize = prefix_end(style, &v);
    let list: Vec<String> = path_names(style, &v, p, !starts_at_root(style, &v));
    let n: usize = list.len();
    assert(views(list@).len() == n);
    if n == 0 {
        return None;
    }
    let last: &String = &list[n - 1];
    assert(views(list@).last() == last@);
    proof {
        reveal_strlit(".");
        reveal_strlit("..");
        assert("."@ =~= seq!['.']);
        assert(".."@ =~= seq!['.', '.']);
    }
    if same_text(last.as_str(), ".") || same_text(last.as_str(), "..") {
        None
    } else {
        Some(last.clone())
    }
}

/// Tells whether two texts are one path.
pub fn is_same_path(style: PathStyle, a: &str, b: &str) -> (r: bool)
    ensures
        r == same_path(style, a@, b@),
{
    let v: Vec<char> = chars_of(a);
    let w: Vec<char> = chars_of(b);
    let v_rooted: bool = starts_at_root(style, &v);
    let w_rooted: bool = starts_at_root(style, &w);
    let v_prefix: usize = prefix_end(style, &v);
    let w_prefix: usize = prefix_end(style, &w);
    v_rooted == w_rooted && same_lists(&path_prefix(style, &v), &path_prefix(style, &w))
        && same_lists(
        &path_names(style, &v, v_prefix, !v_rooted),
        &path_names(style, &w, w_prefix, !w_rooted),
    )
}

proof fn lemma_name_ends_at_separator(
    style: PathStyle,
    a: Seq<char>,
    c: char,
    b: Seq<char>,
    first: bool,
    at: int,
)
    requires
        is_separator(style, c),
    ensures
        name_ends(style, a + seq![c] + b, first, at) == name_ends(style, a, first, at) + name_ends(
            style,
            b,
            false,
            at + a.len() + 1,
        ),
    decreases a.len(),
{
    let s = a + seq![c] + b;
    lemma_lead_name(style, a);
    let n = lead_name(style, a) as int;
    assert forall|i: int| 0 <= i < n implies !is_separator(style, #[trigger] s[i]) by {
        assert(s[i] == a[i]);
    }
    let want = name_ends(style, a, first, at) + name_ends(style, b, false, at + a.len() + 1);
    if n < a.len() {
        assert(s[n] == a[n]);
        lemma_lead_name_is(style, s, n);
        let rest = a.skip(n + 1);
        assert(s.skip(n + 1) =~= rest + seq![c] + b);
        assert(s.take(n) =~= a.take(n));
        lemma_name_ends_at_separator(style, rest, c, b, false, at + n + 1);
        assert(name_ends(style, s, first, at) =~= want);
    } else {
        assert(s[n] == c);
        lemma_lead_name_is(style, s, n);
        assert(s.skip(n + 1) =~= b);
        assert(s.take(n) =~= a);
        assert(a.take(n) =~= a);
        assert(name_ends(style, Seq::<char>::empty(), false, at + n + 1) =~= Seq::<int>::empty());
        assert(name_ends(style, s, first, at) =~= want);
    }
}

/// The last name of a path that ends in one ends where the path does.
proof fn lemma_last_end(style: PathStyle, s: Seq<char>, first: bool, at: int)
    requires
        s.len() > 0,
        !is_separator(style, s.last()),
        s.last() != '.',
    ensures
        name_ends(style, s, first, at).len() > 0,
        name_ends(style, s, first, at).last() == at + s.len(),
    decreases s.len(),
{
    lemma_lead_name(style, s);
    let n = lead_name(style, s) as int;
    if n == s.len() {
        assert(s.take(n) =~= s);
        assert(s != seq!['.']);
        assert(name_ends(style, Seq::<char>::empty(), false, at + n + 1) =~= Seq::<int>::empty());
        assert(name_ends(style, s, first, at) =~= seq![at + n]);
    } else {
        let rest = s.skip(n + 1);
        assert(rest.len() > 0) by {
            assert(is_separator(style, s[n]));
            assert(s.last() == s[s.len() - 1]);
        }
        assert(rest.last() == s.last());
        lemma_last_end(style, rest, false, at + n + 1);
        let tail = name_ends(style, rest, false, at + n + 1);
        if n == 0 || (s.take(n) == seq!['.'] && !first) {
            assert(name_ends(style, s, first, at) == tail);
        } else {
            assert((seq![at + n] + tail).last() == tail.last());
        }
    }
}

/// The directory of what is below a directory is that directory.
pub proof fn a_join_lies_in_its_directory(dir: Seq<char>, name: Seq<char>)
    requires
        dir.len() > 0,
        dir.last() != '/',
        dir.last() != '.',
        name.len() > 0,
        !name.contains('/'),
        name != seq!['.'],
    ensures
        parent(PathStyle::Unix, joined(PathStyle::Unix, dir, name)) == Some(dir),
{
    let style = PathStyle::Unix;
    reveal_strlit("/");
    assert("/"@ =~= seq!['/']);
    let s = joined(style, dir, name);
    assert forall|i: int| 0 <= i < name.len() implies !is_separator(style, #[trigger] name[i]) by {
        assert(name.contains(name[i]));
    }
    lemma_lead_name_is(style, name, name.len() as int);
    assert(name.take(name.len() as int) =~= name);
    let first = !is_rooted(style, dir);
    assert(s[0] == dir[0]);
    assert(s =~= dir + seq!['/'] + name);
    assert(s.skip(0) =~= s);
    lemma_name_ends_at_separator(style, dir, '/', name, first, 0);
    lemma_last_end(style, dir, first, 0);
    let at = dir.len() as int + 1;
    assert(name_ends(style, Seq::<char>::empty(), false, at + name.len() + 1) =~= Seq::<int>::empty());
    assert(name_ends(style, name, false, at) =~= seq![at + name.len()]);
    let ends = path_ends(style, s);
    assert(ends[ends.len() - 2] == dir.len());
    assert(s.take(dir.len() as int) =~= dir);
}

} // verus!
