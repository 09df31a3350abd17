//! The order in which results are shown.
//!
//! Every candidate has a weight, and a lighter candidate comes first;
//! candidates of the same weight keep the order in which they stood. For the
//! candidates of a catalog query the weight is made of two things: whether
//! the name holds the query, and how long the name is.

use vstd::prelude::*;
use vstd::set_lib::{lemma_int_range, lemma_subset_equality, set_int_range};

verus! {

/// The candidate at position `i` is shown before the one at `j`: it is
/// lighter, or as heavy and stood before it.
pub open spec fn precedes(weights: Seq<int>, i: int, j: int) -> bool {
    weights[i] < weights[j] || (weights[i] == weights[j] && i < j)
}

/// `order` lists the positions `lo..hi` of the candidates, each once, so
/// that every position precedes all that follow it.
pub open spec fn ranks(weights: Seq<int>, order: Seq<int>, lo: int, hi: int) -> bool {
    &&& order.len() == hi - lo
    &&& forall|a: int| 0 <= a < order.len() ==> lo <= #[trigger] order[a] < hi
    &&& forall|a: int, b: int|
        0 <= a < b < order.len() ==> precedes(weights, #[trigger] order[a], #[trigger] order[b])
}

/// `order` is the ranked order of all candidates.
pub open spec fn is_ranking(weights: Seq<int>, order: Seq<int>) -> bool {
    ranks(weights, order, 0, weights.len() as int)
}

/// The ranked order of the candidates with these weights, as positions:
/// the one sequence that `is_ranking` holds of.
pub open spec fn ranking(weights: Seq<int>) -> Seq<int> {
    choose|order: Seq<int>| is_ranking(weights, order)
}

/// A sequence of weights as integers.
pub open spec fn weights_of(weights: Seq<u128>) -> Seq<int> {
    weights.map_values(|w: u128| w as int)
}

/// A sequence of positions as integers.
pub open spec fn positions(order: Seq<usize>) -> Seq<int> {
    order.map_values(|p: usize| p as int)
}

/// How many results are shown of `available` under a limit.
pub open spec fn shown(limit: nat, available: nat) -> nat {
    if limit <= available {
        limit
    } else {
        available
    }
}

spec fn place(weights: Seq<int>, order: Seq<int>, i: int) -> Seq<int>
    decreases order.len(),
{
    if order.len() == 0 {
        seq![i]
    } else if precedes(weights, order.last(), i) {
        order.push(i)
    } else {
        place(weights, order.drop_last(), i).push(order.last())
    }
}

spec fn built(weights: Seq<int>, n: nat) -> Seq<int>
    decreases n,
{
    if n == 0 {
        Seq::empty()
    } else {
        place(weights, built(weights, (n - 1) as nat), n - 1)
    }
}

proof fn lemma_place(weights: Seq<int>, order: Seq<int>, i: int, k: int)
    requires
        0 <= k <= i,
        order.len() == k,
        forall|a: int| 0 <= a < order.len() ==> 0 <= #[trigger] order[a] < i,
        forall|a: int, b: int|
            0 <= a < b < order.len() ==> precedes(weights, #[trigger] order[a], #[trigger] order[b]),
    ensures
        place(weights, order, i).len() == k + 1,
        forall|a: int|
            0 <= a < k + 1 ==> 0 <= #[trigger] place(weights, order, i)[a] <= i,
        forall|a: int|
            0 <= a < k + 1 ==> (#[trigger] place(weights, order, i)[a] == i || order.contains(
                place(weights, order, i)[a],
            )),
        forall|a: int, b: int|
            0 <= a < b < k + 1 ==> precedes(
                weights,
                #[trigger] place(weights, order, i)[a],
                #[trigger] place(weights, order, i)[b],
            ),
    decreases order.len(),
{
    let out = place(weights, order, i);
    if order.len() == 0 {
    } else if precedes(weights, order.last(), i) {
        assert forall|a: int, b: int| 0 <= a < b < k + 1 implies precedes(
            weights,
            #[trigger] out[a],
            #[trigger] out[b],
        ) by {
            if b == k {
                if a < k - 1 {
                    assert(precedes(weights, order[a], order[k - 1]));
                }
            }
        }
        assert forall|a: int| 0 <= a < k + 1 implies (#[trigger] out[a] == i || order.contains(
            out[a],
        )) by {
            if a < k {
                assert(order[a] == out[a]);
            }
        }
    } else {
        let rest = order.drop_last();
        lemma_place(weights, rest, i, k - 1);
        let inner = place(weights, rest, i);
        assert forall|a: int| 0 <= a < k + 1 implies (#[trigger] out[a] == i || order.contains(
            out[a],
        )) by {
            if a < k {
                if inner[a] != i {
                    let w = choose|w: int| 0 <= w < rest.len() && rest[w] == inner[a];
                    assert(order[w] == inner[a]);
                }
            } else {
                assert(order[k - 1] == out[a]);
            }
        }
        assert forall|a: int, b: int| 0 <= a < b < k + 1 implies precedes(
            weights,
            #[trigger] out[a],
            #[trigger] out[b],
        ) by {
            if b == k {
                if inner[a] != i {
                    let w = choose|w: int| 0 <= w < rest.len() && rest[w] == inner[a];
                    assert(order[w] == inner[a]);
                    assert(precedes(weights, order[w], order[k - 1]));
                }
            } else {
                assert(precedes(weights, inner[a], inner[b]));
            }
        }
    }
}

proof fn lemma_built(weights: Seq<int>, n: nat)
    ensures
        ranks(weights, built(weights, n), 0, n as int),
    decreases n,
{
    if n > 0 {
        lemma_built(weights, (n - 1) as nat);
        lemma_place(weights, built(weights, (n - 1) as nat), n - 1, n - 1);
    }
}

/// Every sequence of weights has a ranked order.
pub proof fn lemma_ranking(weights: Seq<int>)
    ensures
        is_ranking(weights, ranking(weights)),
{
    lemma_built(weights, weights.len());
    assert(is_ranking(weights, built(weights, weights.len())));
}

/// A ranked order holds every position.
pub proof fn lemma_ranking_holds_all(weights: Seq<int>, order: Seq<int>, p: int)
    requires
        is_ranking(weights, order),
        0 <= p < weights.len(),
    ensures
        order.contains(p),
{
    let n = weights.len() as int;
    assert forall|a: int, b: int| 0 <= a < order.len() && 0 <= b < order.len() && a
        != b implies order[a] != order[b] by {
        if a < b {
            assert(precedes(weights, order[a], order[b]));
        } else {
            assert(precedes(weights, order[b], order[a]));
        }
    }
    assert(order.no_duplicates());
    order.unique_seq_to_set();
    lemma_int_range(0, n);
    assert(order.to_set().subset_of(set_int_range(0, n))) by {
        assert forall|v: int| order.to_set().contains(v) implies set_int_range(0, n).contains(
            v,
        ) by {
            let a = choose|a: int| 0 <= a < order.len() && order[a] == v;
            assert(0 <= order[a] < n);
        }
    }
    vstd::seq_lib::seq_to_set_is_finite(order);
    lemma_subset_equality(order.to_set(), set_int_range(0, n));
    assert(set_int_range(0, n).contains(p));
    assert(order.to_set().contains(p));
}

/// The ranked order is unique: two orders that both rank the same weights are
/// the same order.
pub proof fn lemma_ranking_unique(weights: Seq<int>, first: Seq<int>, second: Seq<int>)
    requires
        is_ranking(weights, first),
        is_ranking(weights, second),
    ensures
        first == second,
{
    assert forall|a: int| 0 <= a < first.len() implies first[a] == second[a] by {
        lemma_agree_upto(weights, first, second, a);
    }
    assert(first =~= second);
}

proof fn lemma_agree_upto(weights: Seq<int>, first: Seq<int>, second: Seq<int>, a: int)
    requires
        is_ranking(weights, first),
        is_ranking(weights, second),
        0 <= a < first.len(),
    ensures
        first[a] == second[a],
    decreases a,
{
    assert forall|c: int| 0 <= c < a implies first[c] == second[c] by {
        lemma_agree_upto(weights, first, second, c);
    }
    if first[a] != second[a] {
        let (lesser, greater) = if precedes(weights, first[a], second[a]) {
            (first, second)
        } else {
            (second, first)
        };
        assert(precedes(weights, lesser[a], greater[a]));
        lemma_ranking_holds_all(weights, greater, lesser[a]);
        let c = choose|c: int| 0 <= c < greater.len() && greater[c] == lesser[a];
        if c < a {
            assert(lesser[c] == greater[c]);
            assert(precedes(weights, lesser[c], lesser[a]));
        } else {
            assert(precedes(weights, greater[a], greater[c]));
        }
    }
}

fn comes_before(weights: &Vec<u128>, i: usize, j: usize) -> (before: bool)
    requires
        i < weights.len(),
        j < weights.len(),
    ensures
        before == precedes(weights_of(weights@), i as int, j as int),
{
    let a = weights[i];
    let b = weights[j];
    a < b || (a == b && i < j)
}

fn merge(
    weights: &Vec<u128>,
    left: &Vec<usize>,
    right: &Vec<usize>,
    Ghost(lo): Ghost<int>,
    Ghost(mid): Ghost<int>,
    Ghost(hi): Ghost<int>,
) -> (out: Vec<usize>)
    requires
        0 <= lo <= mid <= hi <= weights.len(),
        ranks(weights_of(weights@), positions(left@), lo, mid),
        ranks(weights_of(weights@), positions(right@), mid, hi),
    ensures
        ranks(weights_of(weights@), positions(out@), lo, hi),
{
    let mut out: Vec<usize> = Vec::new();
    let mut i: usize = 0;
    let mut j: usize = 0;
    while i < left.len() || j < right.len()
        invariant
            0 <= lo <= mid <= hi <= weights.len(),
            ranks(weights_of(weights@), positions(left@), lo, mid),
            ranks(weights_of(weights@), positions(right@), mid, hi),
            i <= left.len(),
            j <= right.len(),
            out.len() == i + j,
            forall|a: int| 0 <= a < out.len() ==> lo <= #[trigger] out[a] < hi,
            forall|a: int, b: int|
                0 <= a < b < out.len() ==> precedes(
                    weights_of(weights@),
                    #[trigger] out[a] as int,
                    #[trigger] out[b] as int,
                ),
            forall|a: int, k: int|
                0 <= a < out.len() && i <= k < left.len() ==> precedes(
                    weights_of(weights@),
                    #[trigger] out[a] as int,
                    #[trigger] left[k] as int,
                ),
            forall|a: int, k: int|
                0 <= a < out.len() && j <= k < right.len() ==> precedes(
                    weights_of(weights@),
                    #[trigger] out[a] as int,
                    #[trigger] right[k] as int,
                ),
        decreases left.len() - i + right.len() - j,
    {
        proof {
            if i < left.len() {
                assert(lo <= positions(left@)[i as int] < mid);
                assert forall|k: int| i < k < left.len() implies precedes(
                    weights_of(weights@),
                    left[i as int] as int,
                    #[trigger] left[k] as int,
                ) by {
                    assert(precedes(weights_of(weights@), positions(left@)[i as int], positions(left@)[k]));
                }
            }
            if j < right.len() {
                assert(mid <= positions(right@)[j as int] < hi);
                assert forall|k: int| j < k < right.len() implies precedes(
                    weights_of(weights@),
                    right[j as int] as int,
                    #[trigger] right[k] as int,
                ) by {
                    assert(precedes(weights_of(weights@), positions(right@)[j as int], positions(right@)[k]));
                }
            }
        }
        let take_left = if i >= left.len() {
            false
        } else if j >= right.len() {
            true
        } else {
            comes_before(weights, left[i], right[j])
        };
        if take_left {
            out.push(left[i]);
            i = i + 1;
        } else {
            out.push(right[j]);
            j = j + 1;
        }
    }
    assert(positions(out@).len() == hi - lo) by {
        assert(positions(left@).len() == mid - lo);
        assert(positions(right@).len() == hi - mid);
    }
    assert forall|a: int, b: int| 0 <= a < b < positions(out@).len() implies precedes(
        weights_of(weights@),
        #[trigger] positions(out@)[a],
        #[trigger] positions(out@)[b],
    ) by {
        assert(precedes(weights_of(weights@), out[a] as int, out[b] as int));
    }
    out
}

fn sort_span(weights: &Vec<u128>, lo: usize, hi: usize) -> (out: Vec<usize>)
    requires
        lo <= hi <= weights.len(),
    ensures
        ranks(weights_of(weights@), positions(out@), lo as int, hi as int),
    decreases hi - lo,
{
    if hi - lo == 0 {
        Vec::new()
    } else if hi - lo == 1 {
        let mut out: Vec<usize> = Vec::new();
        out.push(lo);
        out
    } else {
        let mid = lo + (hi - lo) / 2;
        let left = sort_span(weights, lo, mid);
        let right = sort_span(weights, mid, hi);
        merge(weights, &left, &right, Ghost(lo as int), Ghost(mid as int), Ghost(hi as int))
    }
}

/// Ranks candidates by their weights and returns the positions of the
/// first `limit` of them, lightest first.
pub fn rank_by_weight(weights: &Vec<u128>, limit: usize) -> (order: Vec<usize>)
    ensures
        positions(order@) == ranking(weights_of(weights@)).take(
            shown(limit as nat, weights@.len()) as int,
        ),
{
    let mut order = sort_span(weights, 0, weights.len());
    proof {
        lemma_ranking(weights_of(weights@));
        lemma_ranking_unique(
            weights_of(weights@),
            positions(order@),
            ranking(weights_of(weights@)),
        );
    }
    let ghost full = order@;
    if limit < order.len() {
        order.truncate(limit);
    }
    assert(positions(order@) =~= positions(full).take(shown(limit as nat, weights@.len()) as int));
    order
}

/// What the place of one candidate of a catalog query rests on.
#[derive(Clone, Copy, Debug)]
pub struct RankKey {
    /// The name holds the query.
    pub name_hit: bool,
    /// Length of the name in bytes.
    pub name_len: usize,
}

/// What sets a candidate whose name does not hold the query behind every
/// candidate whose name does: more than any length of a name.
pub const PATH_ONLY: u128 = 0x1_0000_0000_0000_0000;

/// The weight of a candidate of a catalog query: the length of its name,
/// and `PATH_ONLY` on top where the name does not hold the query.
pub open spec fn weight(key: RankKey) -> int {
    if key.name_hit {
        key.name_len as int
    } else {
        PATH_ONLY + key.name_len
    }
}

/// The weights of a sequence of keys.
pub open spec fn weights_of_keys(keys: Seq<RankKey>) -> Seq<int> {
    keys.map_values(|key: RankKey| weight(key))
}

/// Ranks the candidates of a catalog query by their keys and returns the
/// positions of the first `limit` of them, best first.
pub fn rank(keys: &Vec<RankKey>, limit: usize) -> (order: Vec<usize>)
    ensures
        positions(order@) == ranking(weights_of_keys(keys@)).take(
            shown(limit as nat, keys@.len()) as int,
        ),
{
    let mut weights: Vec<u128> = Vec::new();
    let mut k: usize = 0;
    while k < keys.len()
        invariant
            k <= keys.len(),
            weights.len() == k,
            forall|i: int| 0 <= i < k ==> (#[trigger] weights[i]) as int == weight(keys[i]),
        decreases keys.len() - k,
    {
        let key = keys[k];
        let len = key.name_len as u128;
        weights.push(if key.name_hit { len } else { PATH_ONLY + len });
        k = k + 1;
    }
    assert(weights_of(weights@) =~= weights_of_keys(keys@));
    rank_by_weight(&weights, limit)
}

} // verus!
