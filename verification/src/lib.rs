//! Ranked lists of short text items, a searchable help table, and the state
//! machine that turns key presses into changes of both.
use vstd::prelude::*;

pub mod app;
pub mod app_builder;
pub mod help;
pub mod key;
pub mod ordered_list;
pub mod parse;
pub mod popup;
pub mod ranking;
pub mod static_info;
pub mod text;
pub mod ui;

verus! {

/// Something that can be rated against a search text.
pub trait Score {
    /// The rating of `self` against `query`: `None` where `self` does not
    /// belong to the results, else a number by which the results are ordered.
    spec fn score_spec(&self, query: Seq<char>) -> Option<i64>;

    /// Rates `self` against `query`.
    fn score(&self, query: &str) -> (r: Option<i64>)
        ensures
            r == self.score_spec(query@),
    ;
}

/// The ratings of `items` against `query`, one for each item.
pub open spec fn scores_of<T: Score>(items: Seq<T>, query: Seq<char>) -> Seq<Option<i64>> {
    items.map_values(|item: T| item.score_spec(query))
}

/// The results of a search: each position that `ranking` lists, with the
/// item that stands there.
pub open spec fn query_spec<T: Score>(items: Seq<T>, query: Seq<char>) -> Seq<(usize, T)> {
    ranking::ranking(scores_of(items, query)).map_values(|i: int| (i as usize, items[i]))
}

/// The rating of a plain text: its length in bytes where it contains the
/// query, as far as that length is an `i64`.
pub open spec fn text_score(text: Seq<char>, query: Seq<char>) -> Option<i64> {
    if text::contains(text, query) && text::byte_len(text) <= i64::MAX {
        Some(text::byte_len(text) as i64)
    } else {
        None
    }
}

/// Rates the text `text` against `query`.
pub fn score_text(text: &str, query: &str) -> (r: Option<i64>)
    ensures
        r == text_score(text@, query@),
{
    if text::contains_text(text, query) {
        let n: u64 = text.as_bytes().len() as u64;
        if n <= 0x7fff_ffff_ffff_ffffu64 {
            Some(n as i64)
        } else {
            None
        }
    } else {
        None
    }
}

impl Score for String {
    open spec fn score_spec(&self, query: Seq<char>) -> Option<i64> {
        text_score(self@, query)
    }

    fn score(&self, query: &str) -> (r: Option<i64>) {
        score_text(self.as_str(), query)
    }
}

/// Rates every item against `query`.
fn rate_all<T: Score>(items: &Vec<T>, query: &str) -> (scores: Vec<Option<i64>>)
    ensures
        scores@ == scores_of(items@, query@),
{
    let mut scores: Vec<Option<i64>> = Vec::new();
    let mut i: usize = 0;
    while i < items.len()
        invariant
            i <= items.len(),
            scores@ == scores_of(items@.take(i as int), query@),
        decreases items.len() - i,
    {
        let score = items[i].score(query);
        scores.push(score);
        assert(scores@ =~= scores_of(items@.take(i + 1), query@));
        i += 1;
    }
    assert(items@.take(i as int) =~= items@);
    scores
}

/// Puts every item into a slot of its own, from which it can be taken.
fn into_slots<T>(items: Vec<T>) -> (slots: Vec<Option<T>>)
    ensures
        slots@.len() == items@.len(),
        forall|i: int| 0 <= i < items@.len() ==> slots@[i] == Some(items@[i]),
{
    let ghost all = items@;
    let mut slots: Vec<Option<T>> = Vec::new();
    for item in it: items
        invariant
            it.seq() == all,
            slots@.len() == it.index(),
            forall|i: int| 0 <= i < slots@.len() ==> slots@[i] == Some(all[i]),
    {
        slots.push(Some(item));
    }
    slots
}

/// Searches `iter` for `search`: the items that `search` does not exclude, each
/// with its position in `iter`, by ascending score; items of equal score keep
/// their order.
pub fn query<T: Score>(iter: Vec<T>, search: &str) -> (r: Vec<(usize, T)>)
    ensures
        r@ == query_spec(iter@, search@),
{
    let scores = rate_all(&iter, search);
    let order = ranking::rank_order(&scores);
    let ghost all = iter@;
    let ghost wanted = query_spec(all, search@);
    proof {
        ranking::lemma_ranking(scores@);
        assert forall|j: int| 0 <= j < order.len() implies (#[trigger] order@[j]) < all.len() by {
            assert(ranking::positions(order@)[j] == order@[j]);
        }
        assert forall|i: int, j: int| 0 <= i < j < order.len() implies order@[i] != order@[j] by {
            assert(ranking::positions(order@)[i] == order@[i]);
            assert(ranking::positions(order@)[j] == order@[j]);
        }
    }
    let mut slots = into_slots(iter);
    let mut r: Vec<(usize, T)> = Vec::new();
    let mut k: usize = 0;
    while k < order.len()
        invariant
            k <= order.len(),
            ranking::positions(order@) == ranking::ranking(scores@),
            forall|j: int| 0 <= j < order.len() ==> (#[trigger] order@[j]) < all.len(),
            forall|i: int, j: int| 0 <= i < j < order.len() ==> order@[i] != order@[j],
            scores@ == scores_of(all, search@),
            wanted == query_spec(all, search@),
            slots@.len() == all.len(),
            forall|j: int|
                k <= j < order.len() ==> slots@[order@[j] as int] == Some(all[order@[j] as int]),
            r@ == wanted.take(k as int),
        decreases order.len() - k,
    {
        let at = order[k];
        assert(ranking::positions(order@)[k as int] == at);
        let taken = slots[at].take();
        assert forall|j: int| k < j < order.len() implies slots@[order@[j] as int] == Some(
            all[order@[j] as int],
        ) by {
            assert(order@[j] != order@[k as int]);
        }
        match taken {
            Some(item) => {
                r.push((at, item));
                assert(ranking::positions(order@).len() == order.len());
                assert(wanted[k as int] == ((at as int) as usize, all[at as int]));
                assert(r@ =~= wanted.take(k + 1));
            },
            None => {
                assert(false);
            },
        }
        k += 1;
    }
    assert(wanted.take(k as int) =~= wanted);
    r
}

/// What a search finds: items of the list with their positions, none that
/// the search text excludes (each item found has a score) and all that it
/// does not, by ascending score, and in the order of the list where scores
/// are equal.
pub proof fn lemma_query_spec<T: Score>(items: Seq<T>, search: Seq<char>)
    requires
        items.len() <= usize::MAX,
    ensures
        query_spec(items, search).len() <= items.len(),
        forall|k: int|
            0 <= k < query_spec(items, search).len() ==> {
                let found = #[trigger] query_spec(items, search)[k];
                &&& found.0 < items.len()
                &&& found.1 == items[found.0 as int]
                &&& found.1.score_spec(search) is Some
            },
        forall|j: int, k: int|
            0 <= j < k < query_spec(items, search).len() ==> {
                let a = #[trigger] query_spec(items, search)[j];
                let b = #[trigger] query_spec(items, search)[k];
                ||| ranking::rank(a.1.score_spec(search)) < ranking::rank(b.1.score_spec(search))
                ||| a.1.score_spec(search) == b.1.score_spec(search) && a.0 < b.0
            },
        forall|i: int|
            0 <= i < items.len() && (#[trigger] items[i]).score_spec(search) is Some ==> exists|
                k: int,
            |
                0 <= k < query_spec(items, search).len() && (#[trigger] query_spec(
                    items,
                    search,
                )[k]).0 == i,
{
    let scores = scores_of(items, search);
    let order = ranking::ranking(scores);
    let found = query_spec(items, search);
    ranking::lemma_ranking(scores);
    assert forall|k: int| 0 <= k < found.len() implies {
        let f = #[trigger] found[k];
        &&& f.0 < items.len()
        &&& f.1 == items[f.0 as int]
        &&& f.1.score_spec(search) is Some
        &&& f.0 == order[k]
        &&& f.1.score_spec(search) == scores[order[k]]
    } by {
        assert(0 <= order[k] < scores.len());
    }
    assert forall|j: int, k: int| 0 <= j < k < found.len() implies {
        let a = #[trigger] found[j];
        let b = #[trigger] found[k];
        ||| ranking::rank(a.1.score_spec(search)) < ranking::rank(b.1.score_spec(search))
        ||| a.1.score_spec(search) == b.1.score_spec(search) && a.0 < b.0
    } by {
        assert(0 <= order[j] < scores.len());
        assert(0 <= order[k] < scores.len());
    }
    assert forall|i: int|
        0 <= i < items.len() && (#[trigger] items[i]).score_spec(search) is Some implies exists|
        k: int,
    |
        0 <= k < found.len() && (#[trigger] found[k]).0 == i by {
        assert(scores[i] is Some);
        assert(order.contains(i));
        let k = choose|k: int| 0 <= k < order.len() && order[k] == i;
        assert(found[k].0 == i);
    }
}

} // verus!
