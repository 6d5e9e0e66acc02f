//! A list that keeps its items in the order of their scores.
use vstd::prelude::*;

use vstd::std_specs::cmp::{PartialEqSpec, PartialEqSpecImpl};

use crate::ranking::{ascending, first_greater, ranking};
use crate::{scores_of, Score};

verus! {

/// An index that a list of `len` items does not have.
#[derive(Debug, Clone, Copy, PartialEq, Eq)]
pub struct OutOfBounds {
    /// The index that was asked for.
    pub index: usize,
    /// The number of items in the list.
    pub len: usize,
}

/// The scores by which a list is ordered: those against the empty search
/// text.
pub open spec fn rest_scores<T: Score>(items: Seq<T>) -> Seq<Option<i64>> {
    scores_of(items, Seq::empty())
}

/// No item is followed by one of lower score.
pub open spec fn sorted<T: Score>(items: Seq<T>) -> bool {
    ascending(rest_scores(items))
}

/// Every item has a score against the empty search text.
pub open spec fn all_scored<T: Score>(items: Seq<T>) -> bool {
    forall|i: int| 0 <= i < items.len() ==> (#[trigger] items[i]).score_spec(Seq::empty()) is Some
}

/// Where `item` enters `items`: before the first item of higher score, and so
/// after every item of its own score.
pub open spec fn entry<T: Score>(items: Seq<T>, item: T) -> int {
    first_greater(rest_scores(items), item.score_spec(Seq::empty()))
}

/// `items` with `item` entered at its place.
pub open spec fn inserted<T: Score>(items: Seq<T>, item: T) -> Seq<T> {
    items.insert(entry(items, item), item)
}

/// The scored items of `items` by ascending score, items of equal score in
/// the order they had.
pub open spec fn arranged<T: Score>(items: Seq<T>) -> Seq<T> {
    ranking(rest_scores(items)).map_values(|i: int| items[i])
}

/// A list of items in the order of their scores against the empty search
/// text.
#[derive(Debug)]
pub struct OrderedList<T: Score> {
    data: Vec<T>,
}

impl<T: Score> View for OrderedList<T> {
    type V = Seq<T>;

    closed spec fn view(&self) -> Seq<T> {
        self.data@
    }
}

impl<T: Score> OrderedList<T> {
    /// A list without items.
    pub fn new() -> (r: Self)
        ensures
            r@ == Seq::<T>::empty(),
    {
        OrderedList { data: Vec::new() }
    }

    /// The list of the scored items of `items`, by ascending score; items of
    /// equal score keep their order, items without a score are left out.
    pub fn from_iter(items: Vec<T>) -> (r: Self)
        ensures
            r@ == arranged(items@),
            sorted(r@),
            all_scored(r@),
    {
        let ghost all = items@;
        proof {
            reveal_strlit("");
            assert(""@ =~= Seq::<char>::empty());
            lemma_arranged(all);
        }
        let found = crate::query(items, "");
        let ghost pairs = found@;
        let mut data: Vec<T> = Vec::new();
        for pair in it: found
            invariant
                it.seq() == pairs,
                pairs == crate::query_spec(all, Seq::<char>::empty()),
                data@ == arranged(all).take(it.index() as int),
        {
            data.push(pair.1);
            assert(data@ =~= arranged(all).take(it.index() + 1));
        }
        assert(arranged(all).take(pairs.len() as int) =~= arranged(all));
        OrderedList { data }
    }

    /// Enters `item` before the first item of higher score, which leaves a
    /// sorted list sorted, and returns the position it took.
    pub fn insert(&mut self, item: T) -> (at: usize)
        ensures
            at == entry(old(self)@, item),
            final(self)@ == inserted(old(self)@, item),
            sorted(old(self)@) ==> sorted(final(self)@),
            all_scored(old(self)@) && item.score_spec(Seq::empty()) is Some ==> all_scored(
                final(self)@,
            ),
    {
        let new = item.score("");
        proof {
            reveal_strlit("");
            assert(""@ =~= Seq::<char>::empty());
            crate::ranking::lemma_first_greater(rest_scores(self@), new);
        }
        let mut at: usize = 0;
        while at < self.data.len() && !crate::ranking::outranks(self.data[at].score(""), new)
            invariant
                at <= self.data.len(),
                self.data@ == old(self)@,
                ""@ == Seq::<char>::empty(),
                forall|j: int|
                    0 <= j < at ==> crate::ranking::rank(#[trigger] rest_scores(self.data@)[j])
                        <= crate::ranking::rank(new),
            decreases self.data.len() - at,
        {
            at += 1;
        }
        proof {
            crate::ranking::lemma_first_greater_unique(rest_scores(self@), new, at as int);
            if sorted(self@) {
                lemma_inserted_sorted(self@, item);
            }
            if all_scored(self@) && new is Some {
                lemma_inserted_scored(self@, item);
            }
        }
        self.data.insert(at, item);
        at
    }

    /// The number of items.
    pub fn len(&self) -> (n: usize)
        ensures
            n == self@.len(),
    {
        self.data.len()
    }

    /// Whether the list has no items.
    pub fn is_empty(&self) -> (r: bool)
        ensures
            r == (self@.len() == 0),
    {
        self.data.len() == 0
    }

    /// The item at `index`; an error where the list has no such index.
    pub fn index(&self, index: usize) -> (r: Result<&T, OutOfBounds>)
        ensures
            index < self@.len() ==> r == Ok::<&T, OutOfBounds>(&self@[index as int]),
            index >= self@.len() ==> r == Err::<&T, OutOfBounds>(
                OutOfBounds { index, len: self@.len() as usize },
            ),
    {
        if index < self.data.len() {
            Ok(&self.data[index])
        } else {
            Err(OutOfBounds { index, len: self.data.len() })
        }
    }

    /// The item at `index`, to be changed in place; an error where the list
    /// has no such index. The order of the list is not restored after a
    /// change.
    pub fn index_mut(&mut self, index: usize) -> (r: Result<&mut T, OutOfBounds>)
        ensures
            match r {
                Ok(item) => {
                    &&& index < old(self)@.len()
                    &&& *item == old(self)@[index as int]
                    &&& final(self)@ == old(self)@.update(index as int, *final(item))
                },
                Err(e) => {
                    &&& index >= old(self)@.len()
                    &&& e == (OutOfBounds { index, len: old(self)@.len() as usize })
                    &&& final(self)@ == old(self)@
                },
            },
    {
        if index < self.data.len() {
            Ok(&mut self.data[index])
        } else {
            Err(OutOfBounds { index, len: self.data.len() })
        }
    }

    /// Takes the item at `index` out of the list, the later items moving down
    /// by one; an error, and no change, where the list has no such index.
    pub fn remove(&mut self, index: usize) -> (r: Result<T, OutOfBounds>)
        ensures
            match r {
                Ok(item) => {
                    &&& index < old(self)@.len()
                    &&& item == old(self)@[index as int]
                    &&& final(self)@ == old(self)@.remove(index as int)
                },
                Err(e) => {
                    &&& index >= old(self)@.len()
                    &&& e == (OutOfBounds { index, len: old(self)@.len() as usize })
                    &&& final(self)@ == old(self)@
                },
            },
            sorted(old(self)@) ==> sorted(final(self)@),
    {
        if index < self.data.len() {
            proof {
                if sorted(self@) {
                    lemma_removed_sorted(self@, index as int);
                }
            }
            Ok(self.data.remove(index))
        } else {
            Err(OutOfBounds { index, len: self.data.len() })
        }
    }
}

impl<T: Score> Default for OrderedList<T> {
    fn default() -> (r: Self)
        ensures
            r@ == Seq::<T>::empty(),
    {
        OrderedList::new()
    }
}

impl<T: Score + Clone> Clone for OrderedList<T> {
    fn clone(&self) -> (r: Self)
        ensures
            r@.len() == self@.len(),
            forall|i: int| 0 <= i < self@.len() ==> cloned::<T>(self@[i], #[trigger] r@[i]),
    {
        OrderedList { data: self.data.clone() }
    }
}

impl<T: Score + PartialEq> PartialEq for OrderedList<T> {
    fn eq(&self, other: &Self) -> (r: bool) {
        if self.data.len() != other.data.len() {
            return false;
        }
        let mut i: usize = 0;
        while i < self.data.len()
            invariant
                i <= self.data.len(),
                self.data.len() == other.data.len(),
                T::obeys_eq_spec() ==> forall|j: int|
                    0 <= j < i ==> (#[trigger] self.data@[j]).eq_spec(&other.data@[j]),
            decreases self.data.len() - i,
        {
            if !(self.data[i] == other.data[i]) {
                return false;
            }
            i += 1;
        }
        true
    }
}

impl<T: Score + PartialEq> PartialEqSpecImpl for OrderedList<T> {
    open spec fn obeys_eq_spec() -> bool {
        T::obeys_eq_spec()
    }

    /// Two lists are equal where they have the same length and equal items
    /// at each position.
    open spec fn eq_spec(&self, other: &Self) -> bool {
        &&& self@.len() == other@.len()
        &&& forall|i: int| 0 <= i < self@.len() ==> (#[trigger] self@[i]).eq_spec(&other@[i])
    }
}

/// An item that enters a sorted list at its place leaves the list sorted.
pub proof fn lemma_inserted_sorted<T: Score>(items: Seq<T>, item: T)
    requires
        sorted(items),
    ensures
        sorted(inserted(items, item)),
{
    let new = item.score_spec(Seq::empty());
    crate::ranking::lemma_first_greater(rest_scores(items), new);
    crate::ranking::lemma_enter_keeps_ascending(rest_scores(items), new);
    assert(rest_scores(inserted(items, item)) =~= rest_scores(items).insert(
        entry(items, item),
        new,
    ));
}

/// An item with a score that enters a list of items with scores leaves
/// every item with a score.
pub proof fn lemma_inserted_scored<T: Score>(items: Seq<T>, item: T)
    requires
        all_scored(items),
        item.score_spec(Seq::empty()) is Some,
    ensures
        all_scored(inserted(items, item)),
{
    crate::ranking::lemma_first_greater(rest_scores(items), item.score_spec(Seq::empty()));
    let at = entry(items, item);
    let after = inserted(items, item);
    assert forall|i: int| 0 <= i < after.len() implies (#[trigger] after[i]).score_spec(
        Seq::empty(),
    ) is Some by {
        if i < at {
            assert(after[i] == items[i]);
        } else if i > at {
            assert(after[i] == items[i - 1]);
        }
    }
}

/// A sorted list stays sorted when an item leaves it.
pub proof fn lemma_removed_sorted<T: Score>(items: Seq<T>, index: int)
    requires
        sorted(items),
        0 <= index < items.len(),
    ensures
        sorted(items.remove(index)),
{
    let before = rest_scores(items);
    let after = rest_scores(items.remove(index));
    assert forall|i: int, j: int| 0 <= i < j < after.len() implies crate::ranking::rank(after[i])
        <= crate::ranking::rank(after[j]) by {
        let a = if i < index { i } else { i + 1 };
        let b = if j < index { j } else { j + 1 };
        assert(after[i] == before[a]);
        assert(after[j] == before[b]);
    }
}

/// What `arranged` keeps and how: only scored items, in ascending order.
pub proof fn lemma_arranged<T: Score>(items: Seq<T>)
    ensures
        sorted(arranged(items)),
        all_scored(arranged(items)),
        arranged(items).len() <= items.len(),
{
    let scores = rest_scores(items);
    crate::ranking::lemma_ranking(scores);
    let order = ranking(scores);
    let out = arranged(items);
    assert forall|i: int| 0 <= i < out.len() implies (#[trigger] out[i]).score_spec(Seq::empty())
        == scores[order[i]] by {}
    assert forall|i: int, j: int| 0 <= i < j < out.len() implies crate::ranking::rank(
        rest_scores(out)[i],
    ) <= crate::ranking::rank(rest_scores(out)[j]) by {
        assert(rest_scores(out)[i] == scores[order[i]]);
        assert(rest_scores(out)[j] == scores[order[j]]);
    }
}

/// The list that `start` becomes when the items of `items` enter it one
/// after another.
pub open spec fn inserted_all<T: Score>(start: Seq<T>, items: Seq<T>) -> Seq<T>
    decreases items.len(),
{
    if items.len() == 0 {
        start
    } else {
        inserted(inserted_all(start, items.drop_last()), items.last())
    }
}

/// Whatever items enter a sorted list, one after another, the list is
/// sorted after each of them.
pub proof fn lemma_insertions_sorted<T: Score>(start: Seq<T>, items: Seq<T>, entered: int)
    requires
        sorted(start),
        0 <= entered <= items.len(),
    ensures
        sorted(inserted_all(start, items.take(entered))),
    decreases entered,
{
    if entered > 0 {
        let so_far = items.take(entered);
        assert(so_far.drop_last() =~= items.take(entered - 1));
        lemma_insertions_sorted(start, items, entered - 1);
        lemma_inserted_sorted(inserted_all(start, so_far.drop_last()), so_far.last());
    }
}

/// The place that an item takes is a place of the list, or its end.
pub proof fn lemma_entry_in_range<T: Score>(items: Seq<T>, item: T)
    ensures
        0 <= entry(items, item) <= items.len(),
        inserted(items, item).len() == items.len() + 1,
        inserted(items, item)[entry(items, item)] == item,
{
    crate::ranking::lemma_first_greater(rest_scores(items), item.score_spec(Seq::empty()));
}

/// An item that enters a list and is then removed at the place it took
/// leaves the list as it was.
pub proof fn lemma_insert_remove<T: Score>(items: Seq<T>, item: T)
    ensures
        inserted(items, item).remove(entry(items, item)) == items,
{
    lemma_entry_in_range(items, item);
    assert(inserted(items, item).remove(entry(items, item)) =~= items);
}

/// Where every item has a score, arranging the items gives the list that
/// grows from the empty list as they enter one after another.
pub proof fn lemma_arranged_is_inserted_all<T: Score>(items: Seq<T>)
    requires
        all_scored(items),
    ensures
        arranged(items) == inserted_all(Seq::empty(), items),
    decreases items.len(),
{
    if items.len() == 0 {
        assert(arranged(items) =~= Seq::<T>::empty());
    } else {
        let front = items.drop_last();
        let last = items.last();
        assert forall|i: int| 0 <= i < front.len() implies (#[trigger] front[i]).score_spec(
            Seq::empty(),
        ) is Some by {
            assert(front[i] == items[i]);
        }
        lemma_arranged_is_inserted_all(front);
        let scores = rest_scores(items);
        assert(scores.drop_last() =~= rest_scores(front));
        let earlier = ranking(rest_scores(front));
        crate::ranking::lemma_ranking(rest_scores(front));
        let keys = crate::ranking::picked(scores, earlier);
        assert(keys =~= rest_scores(arranged(front)));
        assert(scores.last() == last.score_spec(Seq::empty()));
        crate::ranking::lemma_first_greater(keys, scores.last());
        let at = first_greater(keys, scores.last());
        assert(ranking(scores) == earlier.insert(at, items.len() - 1));
        assert(arranged(items) =~= arranged(front).insert(at, last));
    }
}

} // verus!
