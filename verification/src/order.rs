//! Stable orders by rank.

use vstd::prelude::*;

verus! {

/// An order with one more place: after every one whose rank is not higher.
pub open spec fn placed(order: Seq<int>, ranks: Seq<i64>, k: int) -> Seq<int>
    decreases order.len(),
{
    if order.len() == 0 || ranks[order.last()] <= ranks[k] {
        order.push(k)
    } else {
        placed(order.drop_last(), ranks, k).push(order.last())
    }
}

/// The first `n` places in the order of their ranks.
pub open spec fn order_upto(ranks: Seq<i64>, n: nat) -> Seq<int>
    decreases n,
{
    if n == 0 {
        Seq::empty()
    } else {
        placed(order_upto(ranks, (n - 1) as nat), ranks, n - 1)
    }
}

/// Places in the order of their ranks; those of equal rank stay in their order.
pub open spec fn ordered(ranks: Seq<i64>) -> Seq<int> {
    order_upto(ranks, ranks.len())
}

/// Whether a place goes before another.
pub open spec fn goes_before(ranks: Seq<i64>, a: int, b: int) -> bool {
    ranks[a] < ranks[b] || (ranks[a] == ranks[b] && a < b)
}

proof fn lemma_placed(order: Seq<int>, ranks: Seq<i64>, k: int)
    requires
        forall|i: int| 0 <= i < order.len() ==> 0 <= #[trigger] order[i] < k,
        forall|i: int, j: int|
            0 <= i < j < order.len() ==> goes_before(
                ranks,
                #[trigger] order[i],
                #[trigger] order[j],
            ),
        0 <= k,
    ensures
        placed(order, ranks, k).len() == order.len() + 1,
        forall|i: int|
            0 <= i < placed(order, ranks, k).len() ==> 0 <= #[trigger] placed(order, ranks, k)[i]
                <= k,
        forall|i: int, j: int|
            0 <= i < j < placed(order, ranks, k).len() ==> goes_before(
                ranks,
                #[trigger] placed(order, ranks, k)[i],
                #[trigger] placed(order, ranks, k)[j],
            ),
        forall|a: int|
            #[trigger] placed(order, ranks, k).contains(a) <==> (order.contains(a) || a == k),
    decreases order.len(),
{
    let out = placed(order, ranks, k);
    if order.len() == 0 || ranks[order.last()] <= ranks[k] {
        assert forall|i: int, j: int| 0 <= i < j < out.len() implies goes_before(
            ranks,
            #[trigger] out[i],
            #[trigger] out[j],
        ) by {
            if j == order.len() {
                assert(out[i] == order[i]);
                if i < order.len() - 1 {
                    assert(goes_before(ranks, order[i], order[order.len() - 1]));
                }
            }
        }
        assert forall|a: int| #[trigger] out.contains(a) <==> (order.contains(a) || a == k) by {
            if order.contains(a) {
                let i = choose|i: int| 0 <= i < order.len() && order[i] == a;
                assert(out[i] == a);
            }
            if a == k {
                assert(out[order.len() as int] == a);
            }
        }
    } else {
        let front = order.drop_last();
        let before = placed(front, ranks, k);
        let top = order.last();
        lemma_placed(front, ranks, k);
        assert(out =~= before.push(top));
        assert forall|i: int, j: int| 0 <= i < j < out.len() implies goes_before(
            ranks,
            #[trigger] out[i],
            #[trigger] out[j],
        ) by {
            if j == before.len() {
                assert(before.contains(out[i]));
                if front.contains(out[i]) {
                    let m = choose|m: int| 0 <= m < front.len() && front[m] == out[i];
                    assert(goes_before(ranks, order[m], order[order.len() - 1]));
                }
            }
        }
        assert forall|a: int| #[trigger] out.contains(a) <==> (order.contains(a) || a == k) by {
            if order.contains(a) {
                let i = choose|i: int| 0 <= i < order.len() && order[i] == a;
                if i < front.len() {
                    assert(front[i] == a);
                    assert(before.contains(a));
                    let m = choose|m: int| 0 <= m < before.len() && before[m] == a;
                    assert(out[m] == a);
                } else {
                    assert(out[before.len() as int] == a);
                }
            }
            if a == k {
                assert(before.contains(a));
                let m = choose|m: int| 0 <= m < before.len() && before[m] == a;
                assert(out[m] == a);
            }
            if out.contains(a) {
                let m = choose|m: int| 0 <= m < out.len() && out[m] == a;
                if m < before.len() {
                    assert(before.contains(a));
                    if front.contains(a) {
                        let i = choose|i: int| 0 <= i < front.len() && front[i] == a;
                        assert(order[i] == a);
                    }
                } else {
                    assert(order[order.len() - 1] == a);
                }
            }
        }
    }
}

proof fn lemma_order_upto(ranks: Seq<i64>, n: nat)
    ensures
        order_upto(ranks, n).len() == n,
        forall|i: int| 0 <= i < n ==> 0 <= #[trigger] order_upto(ranks, n)[i] < n,
        forall|i: int, j: int|
            0 <= i < j < n ==> goes_before(
                ranks,
                #[trigger] order_upto(ranks, n)[i],
                #[trigger] order_upto(ranks, n)[j],
            ),
        forall|a: int| 0 <= a < n ==> #[trigger] order_upto(ranks, n).contains(a),
    decreases n,
{
    if n > 0 {
        let m = (n - 1) as nat;
        lemma_order_upto(ranks, m);
        lemma_placed(order_upto(ranks, m), ranks, n - 1);
    }
}

/// An order holds every place once, by rank and then by place.
pub proof fn an_order_is_sorted_and_stable(ranks: Seq<i64>)
    ensures
        ordered(ranks).len() == ranks.len(),
        forall|a: int| 0 <= a < ranks.len() ==> #[trigger] ordered(ranks).contains(a),
        forall|i: int, j: int|
            0 <= i < j < ranks.len() ==> goes_before(
                ranks,
                #[trigger] ordered(ranks)[i],
                #[trigger] ordered(ranks)[j],
            ),
{
    lemma_order_upto(ranks, ranks.len());
}

/// What an order holds are places.
pub proof fn lemma_order_places(ranks: Seq<i64>, i: int)
    requires
        0 <= i < ranks.len(),
    ensures
        0 <= ordered(ranks)[i] < ranks.len(),
{
    lemma_order_upto(ranks, ranks.len());
}

/// The places of an order, as integers.
pub open spec fn places(order: Seq<usize>) -> Seq<int> {
    order.map_values(|i: usize| i as int)
}

proof fn lemma_placed_at(order: Seq<int>, ranks: Seq<i64>, k: int, p: int)
    requires
        0 <= p <= order.len(),
        p > 0 ==> ranks[order[p - 1]] <= ranks[k],
        forall|i: int| p <= i < order.len() ==> ranks[#[trigger] order[i]] > ranks[k],
    ensures
        placed(order, ranks, k) == order.insert(p, k),
    decreases order.len(),
{
    if p == order.len() {
        assert(order.insert(p, k) =~= order.push(k));
    } else {
        assert(order.last() == order[order.len() - 1]);
        lemma_placed_at(order.drop_last(), ranks, k, p);
        assert(order.drop_last().insert(p, k).push(order.last()) =~= order.insert(p, k));
    }
}

/// Orders places by rank.
pub fn stable_order(ranks: &Vec<i64>) -> (r: Vec<usize>)
    ensures
        places(r@) == ordered(ranks@),
        forall|i: int| 0 <= i < r@.len() ==> #[trigger] r@[i] < ranks@.len(),
{
    let mut out: Vec<usize> = Vec::new();
    let mut k: usize = 0;
    while k < ranks.len()
        invariant
            k <= ranks@.len(),
            places(out@) =~= order_upto(ranks@, k as nat),
            out@.len() == k,
            forall|i: int| 0 <= i < out@.len() ==> #[trigger] out@[i] < k,
        decreases ranks@.len() - k,
    {
        let ghost before = out@;
        let mut p: usize = k;
        while p > 0 && ranks[out[p - 1]] > ranks[k]
            invariant
                p <= k < ranks@.len(),
                out@ == before,
                out@.len() == k,
                forall|i: int| 0 <= i < out@.len() ==> #[trigger] out@[i] < k,
                forall|i: int| p <= i < k ==> ranks@[#[trigger] places(before)[i]] > ranks@[k as int],
            decreases p,
        {
            p = p - 1;
        }
        proof {
            lemma_placed_at(places(before), ranks@, k as int, p as int);
        }
        out.insert(p, k);
        proof {
            assert(places(out@) =~= places(before).insert(p as int, k as int));
            assert forall|i: int| 0 <= i < out@.len() implies #[trigger] out@[i] < k + 1 by {
                if i < p {
                    assert(out@[i] == before[i]);
                } else if i > p {
                    assert(out@[i] == before[i - 1]);
                }
            }
        }
        k = k + 1;
    }
    out
}

} // verus!
