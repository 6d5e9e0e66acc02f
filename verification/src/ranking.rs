//! The order that scores give: where a new score enters a sequence of scores,
//! and in which order the scored entries of a sequence are listed.
//!
//! Everything here speaks of scores alone, so it serves every kind of item.
use vstd::prelude::*;

verus! {

/// The place of a score in the order: an absent score comes before every
/// present one, present scores follow by value.
pub open spec fn rank(score: Option<i64>) -> int {
    match score {
        None => i64::MIN - 1,
        Some(v) => v as int,
    }
}

/// No score is followed by one of lower rank.
pub open spec fn ascending(scores: Seq<Option<i64>>) -> bool {
    forall|i: int, j: int| 0 <= i < j < scores.len() ==> rank(scores[i]) <= rank(scores[j])
}

/// The first position whose score ranks above `new`; the length where there
/// is none. A score that enters here comes after all its equals.
pub open spec fn first_greater(scores: Seq<Option<i64>>, new: Option<i64>) -> int
    decreases scores.len(),
{
    if scores.len() == 0 || rank(scores[0]) > rank(new) {
        0
    } else {
        1 + first_greater(scores.drop_first(), new)
    }
}

/// `at` is the position that `first_greater` describes.
pub open spec fn is_first_greater(scores: Seq<Option<i64>>, new: Option<i64>, at: int) -> bool {
    &&& 0 <= at <= scores.len()
    &&& forall|j: int| 0 <= j < at ==> rank(#[trigger] scores[j]) <= rank(new)
    &&& at < scores.len() ==> rank(scores[at]) > rank(new)
}

/// `first_greater` is a position with nothing of higher rank before it and,
/// unless it is the end, a score of higher rank at it.
pub proof fn lemma_first_greater(scores: Seq<Option<i64>>, new: Option<i64>)
    ensures
        is_first_greater(scores, new, first_greater(scores, new)),
    decreases scores.len(),
{
    if scores.len() == 0 || rank(scores[0]) > rank(new) {
    } else {
        let rest = scores.drop_first();
        lemma_first_greater(rest, new);
        let at = first_greater(scores, new);
        assert forall|j: int| 0 <= j < at implies rank(#[trigger] scores[j]) <= rank(new) by {
            if j > 0 {
                assert(scores[j] == rest[j - 1]);
            }
        }
        if at < scores.len() {
            assert(scores[at] == rest[at - 1]);
        }
    }
}

/// Only one position is as `first_greater` describes.
pub proof fn lemma_first_greater_unique(scores: Seq<Option<i64>>, new: Option<i64>, at: int)
    requires
        is_first_greater(scores, new, at),
    ensures
        at == first_greater(scores, new),
    decreases scores.len(),
{
    if scores.len() == 0 {
    } else if rank(scores[0]) > rank(new) {
        if at > 0 {
            assert(rank(scores[0]) <= rank(new));
        }
    } else {
        let rest = scores.drop_first();
        assert forall|j: int| 0 <= j < at - 1 implies rank(#[trigger] rest[j]) <= rank(new) by {
            assert(rest[j] == scores[j + 1]);
        }
        if at - 1 < rest.len() {
            assert(rest[at - 1] == scores[at]);
        }
        lemma_first_greater_unique(rest, new, at - 1);
    }
}

/// A score that enters an ascending sequence at `first_greater` leaves it
/// ascending.
pub proof fn lemma_enter_keeps_ascending(scores: Seq<Option<i64>>, new: Option<i64>)
    requires
        ascending(scores),
    ensures
        ascending(scores.insert(first_greater(scores, new), new)),
{
    lemma_first_greater(scores, new);
    let at = first_greater(scores, new);
    let after = scores.insert(at, new);
    assert forall|i: int, j: int| 0 <= i < j < after.len() implies rank(after[i]) <= rank(
        after[j],
    ) by {
        if i < at {
            assert(after[i] == scores[i]);
        } else if i > at {
            assert(after[i] == scores[i - 1]);
        }
        if j < at {
            assert(after[j] == scores[j]);
        } else if j > at {
            assert(after[j] == scores[j - 1]);
            assert(at < scores.len());
            assert(rank(scores[at]) <= rank(scores[j - 1]) || at == j - 1);
        }
    }
}

/// The scores at the positions that `order` lists.
pub open spec fn picked(scores: Seq<Option<i64>>, order: Seq<int>) -> Seq<Option<i64>> {
    order.map_values(|i: int| scores[i])
}

/// The positions of the present scores, by ascending score; positions of
/// equal score in their own order.
pub open spec fn ranking(scores: Seq<Option<i64>>) -> Seq<int>
    decreases scores.len(),
{
    if scores.len() == 0 {
        Seq::empty()
    } else {
        let earlier = ranking(scores.drop_last());
        if scores.last() is None {
            earlier
        } else {
            earlier.insert(first_greater(picked(scores, earlier), scores.last()), scores.len() - 1)
        }
    }
}

/// `order` lists positions of `scores` with a present score only, each
/// before every position of higher score and before every later position of
/// the same score.
pub open spec fn ranked(scores: Seq<Option<i64>>, order: Seq<int>) -> bool {
    &&& forall|k: int|
        0 <= k < order.len() ==> 0 <= #[trigger] order[k] < scores.len() && scores[order[k]]
            is Some
    &&& forall|j: int, k: int|
        0 <= j < k < order.len() ==> {
            ||| rank(scores[#[trigger] order[j]]) < rank(scores[#[trigger] order[k]])
            ||| rank(scores[order[j]]) == rank(scores[order[k]]) && order[j] < order[k]
        }
}

/// `order` leaves out no position of `scores` that has a present score.
pub open spec fn covers(scores: Seq<Option<i64>>, order: Seq<int>) -> bool {
    forall|i: int| 0 <= i < scores.len() && (#[trigger] scores[i]) is Some ==> order.contains(i)
}

/// What `ranking` is: the positions with a present score, all of them, each
/// once, by ascending score and, among equals, by position.
pub proof fn lemma_ranking(scores: Seq<Option<i64>>)
    ensures
        ranked(scores, ranking(scores)),
        covers(scores, ranking(scores)),
        ranking(scores).len() <= scores.len(),
    decreases scores.len(),
{
    if scores.len() == 0 {
    } else {
        let n = scores.len() - 1;
        let front = scores.drop_last();
        let earlier = ranking(front);
        lemma_ranking(front);
        assert forall|k: int| 0 <= k < earlier.len() implies scores[#[trigger] earlier[k]]
            == front[earlier[k]] by {}
        if scores.last() is None {
            assert forall|i: int| 0 <= i < scores.len() && (#[trigger] scores[i]) is Some implies earlier.contains(
                i,
            ) by {
                assert(front[i] is Some);
            }
        } else {
            let keys = picked(scores, earlier);
            let at = first_greater(keys, scores.last());
            lemma_first_greater(keys, scores.last());
            let order = earlier.insert(at, n);
            assert(order == ranking(scores));
            assert forall|k: int| 0 <= k < order.len() implies 0 <= #[trigger] order[k]
                < scores.len() && scores[order[k]] is Some by {
                if k < at {
                    assert(order[k] == earlier[k]);
                } else if k > at {
                    assert(order[k] == earlier[k - 1]);
                }
            }
            assert forall|j: int, k: int| 0 <= j < k < order.len() implies {
                ||| rank(scores[#[trigger] order[j]]) < rank(scores[#[trigger] order[k]])
                ||| rank(scores[order[j]]) == rank(scores[order[k]]) && order[j] < order[k]
            } by {
                if j < at {
                    assert(order[j] == earlier[j]);
                    assert(keys[j] == scores[earlier[j]]);
                } else if j > at {
                    assert(order[j] == earlier[j - 1]);
                }
                if k < at {
                    assert(order[k] == earlier[k]);
                } else if k > at {
                    assert(order[k] == earlier[k - 1]);
                    assert(keys[k - 1] == scores[earlier[k - 1]]);
                    if j == at {
                        assert(keys[at] == scores[earlier[at]]);
                        if at < k - 1 {
                            assert(rank(scores[earlier[at]]) <= rank(scores[earlier[k - 1]]));
                        }
                    }
                }
            }
            assert forall|i: int| 0 <= i < scores.len() && (#[trigger] scores[i]) is Some implies order.contains(
                i,
            ) by {
                if i == n {
                    assert(order[at] == n);
                } else {
                    assert(front[i] is Some);
                    let k = choose|k: int| 0 <= k < earlier.len() && earlier[k] == i;
                    if k < at {
                        assert(order[k] == i);
                    } else {
                        assert(order[k + 1] == i);
                    }
                }
            }
        }
    }
}

/// Only `ranking` lists the positions of the present scores, all of them,
/// in that order.
pub proof fn lemma_ranking_unique(scores: Seq<Option<i64>>, order: Seq<int>)
    requires
        ranked(scores, order),
        covers(scores, order),
    ensures
        order == ranking(scores),
    decreases scores.len(),
{
    if scores.len() == 0 {
        if order.len() > 0 {
            assert(0 <= order[0] < scores.len());
        }
        assert(order =~= Seq::<int>::empty());
    } else {
        let n = scores.len() - 1;
        let front = scores.drop_last();
        if scores.last() is None {
            assert forall|k: int| 0 <= k < order.len() implies 0 <= #[trigger] order[k]
                < front.len() && front[order[k]] is Some by {
                assert(scores[order[k]] is Some);
            }
            assert forall|i: int| 0 <= i < front.len() && (#[trigger] front[i]) is Some implies order.contains(
                i,
            ) by {
                assert(scores[i] is Some);
            }
            lemma_ranking_unique(front, order);
        } else {
            assert(scores[n] is Some);
            assert(order.contains(n));
            let p = choose|p: int| 0 <= p < order.len() && order[p] == n;
            let rest = order.remove(p);
            assert forall|k: int| 0 <= k < rest.len() implies 0 <= #[trigger] rest[k] < front.len()
                && front[rest[k]] is Some by {
                let k0 = if k < p { k } else { k + 1 };
                assert(rest[k] == order[k0]);
                assert(scores[order[k0]] is Some);
                if k0 < p {
                    assert(order[k0] != order[p]);
                } else {
                    assert(order[p] != order[k0]);
                }
            }
            assert forall|j: int, k: int| 0 <= j < k < rest.len() implies {
                ||| rank(front[#[trigger] rest[j]]) < rank(front[#[trigger] rest[k]])
                ||| rank(front[rest[j]]) == rank(front[rest[k]]) && rest[j] < rest[k]
            } by {
                let j0 = if j < p { j } else { j + 1 };
                let k0 = if k < p { k } else { k + 1 };
                assert(rest[j] == order[j0]);
                assert(rest[k] == order[k0]);
                assert(0 <= rest[j] < front.len());
                assert(0 <= rest[k] < front.len());
            }
            assert forall|i: int| 0 <= i < front.len() && (#[trigger] front[i]) is Some implies rest.contains(
                i,
            ) by {
                assert(scores[i] is Some);
                let k = choose|k: int| 0 <= k < order.len() && order[k] == i;
                if k < p {
                    assert(rest[k] == i);
                } else {
                    assert(rest[k - 1] == i);
                }
            }
            lemma_ranking_unique(front, rest);
            let keys = picked(scores, rest);
            assert forall|j: int| 0 <= j < p implies rank(#[trigger] keys[j]) <= rank(
                scores.last(),
            ) by {
                assert(rest[j] == order[j]);
                assert(keys[j] == scores[order[j]]);
            }
            if p < keys.len() {
                assert(rest[p] == order[p + 1]);
                assert(keys[p] == scores[order[p + 1]]);
                assert(0 <= rest[p] < front.len());
            }
            lemma_first_greater_unique(keys, scores.last(), p);
            assert(order =~= rest.insert(p, n));
        }
    }
}

/// Whether `a` ranks above `b`.
pub fn outranks(a: Option<i64>, b: Option<i64>) -> (r: bool)
    ensures
        r == (rank(a) > rank(b)),
{
    match a {
        None => false,
        Some(x) => match b {
            None => true,
            Some(y) => x > y,
        },
    }
}

/// The position at which `new` enters `scores`.
pub fn entry_position(scores: &Vec<Option<i64>>, new: Option<i64>) -> (at: usize)
    ensures
        at == first_greater(scores@, new),
        at <= scores.len(),
{
    let mut at: usize = 0;
    while at < scores.len() && !outranks(scores[at], new)
        invariant
            at <= scores.len(),
            forall|j: int| 0 <= j < at ==> rank(#[trigger] scores@[j]) <= rank(new),
        decreases scores.len() - at,
    {
        at += 1;
    }
    proof {
        lemma_first_greater_unique(scores@, new, at as int);
    }
    at
}

/// The positions that `order` holds, as numbers without a bound.
pub open spec fn positions(order: Seq<usize>) -> Seq<int> {
    order.map_values(|i: usize| i as int)
}

/// Lists the positions of the present scores by ascending score, equals in
/// their own order.
pub fn rank_order(scores: &Vec<Option<i64>>) -> (order: Vec<usize>)
    ensures
        positions(order@) == ranking(scores@),
{
    let mut order: Vec<usize> = Vec::new();
    let mut keys: Vec<Option<i64>> = Vec::new();
    let mut i: usize = 0;
    assert(scores@.take(0) =~= Seq::<Option<i64>>::empty());
    assert(positions(order@) =~= ranking(scores@.take(0)));
    while i < scores.len()
        invariant
            i <= scores.len(),
            positions(order@) == ranking(scores@.take(i as int)),
            keys@ == picked(scores@, positions(order@)),
            keys.len() == order.len(),
        decreases scores.len() - i,
    {
        let ghost front = scores@.take(i as int);
        let ghost next = scores@.take(i + 1);
        proof {
            assert(next.drop_last() =~= front);
            assert(next.last() == scores@[i as int]);
            lemma_ranking(front);
            assert(picked(next, ranking(front)) =~= picked(scores@, ranking(front)));
        }
        let score = scores[i];
        if score.is_some() {
            let at = entry_position(&keys, score);
            order.insert(at, i);
            keys.insert(at, score);
            proof {
                assert(positions(order@) =~= ranking(front).insert(at as int, i as int));
                assert(keys@ =~= picked(scores@, positions(order@)));
            }
        }
        i += 1;
    }
    assert(scores@.take(i as int) =~= scores@);
    order
}

} // verus!
