//! Sets of names, kept in the order of their characters.

use vstd::prelude::*;
use vstd::string::*;

use crate::text::{chars_of, same_text, views};

verus! {

/// The order of texts, character by character; a text comes after its own beginnings.
pub open spec fn precedes(a: Seq<char>, b: Seq<char>) -> bool
    decreases a.len(),
{
    if b.len() == 0 {
        false
    } else if a.len() == 0 {
        true
    } else if a[0] != b[0] {
        a[0] < b[0]
    } else {
        precedes(a.skip(1), b.skip(1))
    }
}

/// Of two different texts exactly one precedes the other.
pub proof fn lemma_precedes_total(a: Seq<char>, b: Seq<char>)
    ensures
        precedes(a, b) || a == b || precedes(b, a),
        !(precedes(a, b) && precedes(b, a)),
        !precedes(a, a),
    decreases a.len() + b.len(),
{
    if a.len() > 0 && b.len() > 0 {
        lemma_precedes_total(a.skip(1), b.skip(1));
        if a[0] == b[0] && a.skip(1) == b.skip(1) {
            assert(a =~= seq![a[0]] + a.skip(1));
            assert(b =~= seq![b[0]] + b.skip(1));
        }
        lemma_precedes_irreflexive(a);
    } else if a.len() == 0 && b.len() == 0 {
        assert(a =~= b);
    } else {
        lemma_precedes_irreflexive(a);
    }
}

proof fn lemma_precedes_irreflexive(a: Seq<char>)
    ensures
        !precedes(a, a),
    decreases a.len(),
{
    if a.len() > 0 {
        lemma_precedes_irreflexive(a.skip(1));
    }
}

/// The order is transitive.
pub proof fn lemma_precedes_transitive(a: Seq<char>, b: Seq<char>, c: Seq<char>)
    requires
        precedes(a, b),
        precedes(b, c),
    ensures
        precedes(a, c),
    decreases a.len(),
{
    if a.len() > 0 && a[0] == b[0] && b[0] == c[0] {
        lemma_precedes_transitive(a.skip(1), b.skip(1), c.skip(1));
    }
}

/// Whether a text precedes another.
pub fn text_precedes(a: &str, b: &str) -> (r: bool)
    ensures
        r == precedes(a@, b@),
{
    let x: Vec<char> = chars_of(a);
    let y: Vec<char> = chars_of(b);
    let mut i: usize = 0;
    assert(x@.skip(0) =~= x@);
    assert(y@.skip(0) =~= y@);
    while i < x.len() && i < y.len() && x[i] == y[i]
        invariant
            i <= x@.len(),
            i <= y@.len(),
            precedes(x@.skip(i as int), y@.skip(i as int)) == precedes(x@, y@),
        decreases x@.len() - i,
    {
        assert(x@.skip(i as int).skip(1) =~= x@.skip(i + 1));
        assert(y@.skip(i as int).skip(1) =~= y@.skip(i + 1));
        i = i + 1;
    }
    if i == y.len() {
        return false;
    }
    if i == x.len() {
        return true;
    }
    assert(x@.skip(i as int)[0] == x@[i as int]);
    assert(y@.skip(i as int)[0] == y@[i as int]);
    x[i] < y[i]
}

/// A set of names.
pub struct NameSet {
    pub names: Vec<String>,
}

/// A list in strict order.
pub open spec fn in_order(list: Seq<Seq<char>>) -> bool {
    forall|i: int, j: int|
        0 <= i < j < list.len() ==> precedes(#[trigger] list[i], #[trigger] list[j])
}

impl NameSet {
    /// The names in order.
    pub open spec fn list(&self) -> Seq<Seq<char>> {
        views(self.names@)
    }

    /// The names are in strict order, so none occurs twice.
    pub open spec fn wf(&self) -> bool {
        in_order(self.list())
    }

    /// The empty set.
    pub fn new() -> (r: NameSet)
        ensures
            r.wf(),
            r.list() == Seq::<Seq<char>>::empty(),
    {
        let r = NameSet { names: Vec::new() };
        assert(r.list() =~= Seq::empty());
        r
    }

    /// Adds a name, in its place.
    pub fn insert(&mut self, name: String)
        requires
            old(self).wf(),
        ensures
            final(self).wf(),
            forall|n: Seq<char>|
                #[trigger] final(self).list().contains(n) <==> (old(self).list().contains(n) || n
                    == name@),
    {
        let ghost before = self.list();
        let mut i: usize = 0;
        while i < self.names.len() && text_precedes(self.names[i].as_str(), name.as_str())
            invariant
                i <= self.names@.len(),
                self.list() == before,
                forall|k: int| 0 <= k < i ==> precedes(#[trigger] before[k], name@),
            decreases self.names@.len() - i,
        {
            assert(before[i as int] == self.names@[i as int]@);
            i = i + 1;
        }
        assert(before.len() == self.names@.len());
        if i < self.names.len() && same_text(self.names[i].as_str(), name.as_str()) {
            assert(before[i as int] == name@);
            return ;
        }
        let ghost value = name@;
        self.names.insert(i, name);
        proof {
            let now = self.list();
            assert(now =~= before.insert(i as int, value));
            if i < before.len() {
                lemma_precedes_total(before[i as int], value);
            }
            assert forall|k: int| i <= k < before.len() implies precedes(
                value,
                #[trigger] before[k],
            ) by {
                if k > i {
                    lemma_precedes_transitive(value, before[i as int], before[k]);
                }
            }
            assert forall|a: int, b: int| 0 <= a < b < now.len() implies precedes(
                #[trigger] now[a],
                #[trigger] now[b],
            ) by {
                if b < i {
                    assert(now[a] == before[a] && now[b] == before[b]);
                } else if b == i {
                    assert(now[a] == before[a]);
                } else if a < i {
                    assert(now[a] == before[a] && now[b] == before[b - 1]);
                } else if a == i {
                    assert(now[b] == before[b - 1]);
                } else {
                    assert(now[a] == before[a - 1] && now[b] == before[b - 1]);
                }
            }
            assert forall|n: Seq<char>| #[trigger] now.contains(n) <==> (before.contains(n) || n
                == value) by {
                if before.contains(n) {
                    let k = choose|k: int| 0 <= k < before.len() && before[k] == n;
                    if k < i {
                        assert(now[k] == n);
                    } else {
                        assert(now[k + 1] == n);
                    }
                }
                if n == value {
                    assert(now[i as int] == n);
                }
                if now.contains(n) {
                    let k = choose|k: int| 0 <= k < now.len() && now[k] == n;
                    if k < i {
                        assert(before[k] == n);
                    } else if k > i {
                        assert(before[k - 1] == n);
                    }
                }
            }
        }
    }
}

/// The first character in which two texts differ decides which precedes the other, and the beginning of a
/// text precedes it.
pub proof fn the_first_difference_decides(a: Seq<char>, b: Seq<char>, i: int)
    requires
        0 <= i <= a.len(),
        i < b.len(),
        a.take(i) == b.take(i),
    ensures
        i < a.len() && a[i] < b[i] ==> precedes(a, b),
        i == a.len() ==> precedes(a, b),
    decreases i,
{
    if i > 0 {
        assert(a.take(i)[0] == a[0]);
        assert(b.take(i)[0] == b[0]);
        assert(a.skip(1).take(i - 1) =~= a.take(i).skip(1));
        assert(b.skip(1).take(i - 1) =~= b.take(i).skip(1));
        the_first_difference_decides(a.skip(1), b.skip(1), i - 1);
    }
}

} // verus!
