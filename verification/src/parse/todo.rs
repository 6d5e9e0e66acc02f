//! Todo items and lists of items.
use vstd::prelude::*;

use crate::ordered_list::{all_scored, arranged, inserted, sorted, OrderedList, OutOfBounds};
use crate::ranking::{first_greater, ranking};
use crate::parse::ListItem;
use crate::text::{byte_len, contains, decimal};
use crate::Score;

verus! {

/// A single todo item.
#[derive(Debug, Default)]
pub struct Item {
    /// The title of this todo item
    pub title: String,
    /// A description of what this todo item entails
    pub description: String,
    /// How far one has scrolled in the description
    pub description_scroll: usize,
}

/// A todo item as plain values.
pub struct ItemView {
    /// The title, as text.
    pub title: Seq<char>,
    /// The description, as text.
    pub description: Seq<char>,
    /// How far the description is scrolled.
    pub description_scroll: nat,
}

/// A length as a score: the length itself, or the largest score where the
/// length is beyond it.
pub open spec fn capped(n: nat) -> i64 {
    if n <= i64::MAX {
        n as i64
    } else {
        i64::MAX
    }
}

impl ItemView {
    /// The rating of the item against `query`. The item is found by its
    /// title followed by the digits of its scroll position; its rating is
    /// the length in bytes of title and description together.
    pub open spec fn score(self, query: Seq<char>) -> Option<i64> {
        if contains(self.title + decimal(self.description_scroll), query) {
            Some(capped(byte_len(self.title) + byte_len(self.description)))
        } else {
            None
        }
    }
}

impl View for Item {
    type V = ItemView;

    open spec fn view(&self) -> ItemView {
        ItemView {
            title: self.title@,
            description: self.description@,
            description_scroll: self.description_scroll as nat,
        }
    }
}

impl Clone for Item {
    fn clone(&self) -> (r: Self)
        ensures
            r == *self,
    {
        Item {
            title: self.title.clone(),
            description: self.description.clone(),
            description_scroll: self.description_scroll,
        }
    }
}

impl ListItem for Item {
    open spec fn title_spec(&self) -> Seq<char> {
        self.title@
    }

    open spec fn description_spec(&self) -> Seq<char> {
        self.description@
    }

    fn title(&self) -> (r: String) {
        self.title.clone()
    }

    fn description(&self) -> (r: String) {
        self.description.clone()
    }
}

impl Score for Item {
    open spec fn score_spec(&self, query: Seq<char>) -> Option<i64> {
        self@.score(query)
    }

    fn score(&self, query: &str) -> (r: Option<i64>) {
        let mut hay = crate::text::chars_of(self.title.as_str());
        crate::text::push_decimal(&mut hay, self.description_scroll);
        let needle = crate::text::chars_of(query);
        if crate::text::find(&hay, &needle) {
            let cap: u64 = 0x7fff_ffff_ffff_ffffu64;
            let a: u64 = self.title.as_str().as_bytes().len() as u64;
            let b: u64 = self.description.as_str().as_bytes().len() as u64;
            if a > cap || b > cap - a {
                Some(i64::MAX)
            } else {
                Some((a + b) as i64)
            }
        } else {
            None
        }
    }
}

impl From<(String, (String, usize))> for Item {
    fn from(value: (String, (String, usize))) -> (r: Self) {
        let (title, (description, description_scroll)) = value;
        Item { title, description, description_scroll }
    }
}

impl vstd::std_specs::convert::FromSpecImpl<(String, (String, usize))> for Item {
    open spec fn obeys_from_spec() -> bool {
        true
    }

    open spec fn from_spec(value: (String, (String, usize))) -> Self {
        Item { title: value.0, description: value.1.0, description_scroll: value.1.1 }
    }
}

/// The items as plain values.
pub open spec fn item_views(items: Seq<Item>) -> Seq<ItemView> {
    items.map_values(|item: Item| item@)
}

/// The scores by which a list of todo items is ordered.
pub open spec fn view_scores(items: Seq<ItemView>) -> Seq<Option<i64>> {
    items.map_values(|item: ItemView| item.score(Seq::empty()))
}

/// `items` with `item` entered before the first item of higher score.
pub open spec fn entered(items: Seq<ItemView>, item: ItemView) -> Seq<ItemView> {
    items.insert(first_greater(view_scores(items), item.score(Seq::empty())), item)
}

/// Entering an item into a list and looking at the result as plain values
/// is entering the item's values into the list's values.
pub proof fn lemma_entered(items: Seq<Item>, item: Item)
    ensures
        item_views(inserted(items, item)) == entered(item_views(items), item@),
{
    assert(crate::ordered_list::rest_scores(items) =~= view_scores(item_views(items)));
    crate::ranking::lemma_first_greater(view_scores(item_views(items)), item@.score(Seq::empty()));
    assert(item_views(inserted(items, item)) =~= entered(item_views(items), item@));
}

/// The items by ascending score, items of equal score in the order they
/// had.
pub open spec fn arranged_views(items: Seq<ItemView>) -> Seq<ItemView> {
    ranking(view_scores(items)).map_values(|i: int| items[i])
}

/// Arranging items and looking at the result as plain values is arranging
/// the items' values.
pub proof fn lemma_arranged_views(items: Seq<Item>)
    ensures
        item_views(arranged(items)) == arranged_views(item_views(items)),
{
    assert(crate::ordered_list::rest_scores(items) =~= view_scores(item_views(items)));
    crate::ranking::lemma_ranking(view_scores(item_views(items)));
    assert(item_views(arranged(items)) =~= arranged_views(item_views(items)));
}

/// A todo item is found by the empty search text, whatever it holds.
pub proof fn lemma_item_scored(item: ItemView)
    ensures
        item.score(Seq::empty()) is Some,
{
    crate::text::lemma_contains_empty(item.title + decimal(item.description_scroll));
}

/// A list of items: a todo list, or the help table.
#[derive(Debug)]
pub struct Items<T: Score + ListItem> {
    /// The items, in the order of their scores.
    pub items: OrderedList<T>,
}

impl<T: Score + ListItem> View for Items<T> {
    type V = Seq<T>;

    open spec fn view(&self) -> Seq<T> {
        self.items@
    }
}

impl<T: Score + ListItem> Default for Items<T> {
    fn default() -> (r: Self)
        ensures
            r@ == Seq::<T>::empty(),
    {
        Items::new()
    }
}

impl<T: Score + ListItem + Clone> Clone for Items<T> {
    fn clone(&self) -> (r: Self)
        ensures
            r@.len() == self@.len(),
            forall|i: int| 0 <= i < self@.len() ==> cloned::<T>(self@[i], #[trigger] r@[i]),
    {
        Items { items: self.items.clone() }
    }
}

impl<T: Score + ListItem> Items<T> {
    /// A list without items.
    pub fn new() -> (r: Self)
        ensures
            r@ == Seq::<T>::empty(),
    {
        Items { items: OrderedList::new() }
    }

    /// The list of the scored items of `items`, by ascending score; items of
    /// equal score keep their order.
    pub fn from_iter(items: Vec<T>) -> (r: Self)
        ensures
            r@ == arranged(items@),
            sorted(r@),
            all_scored(r@),
    {
        Items { items: OrderedList::from_iter(items) }
    }

    /// Returns the amount of items left
    pub fn amount(&self) -> (n: usize)
        ensures
            n == self@.len(),
    {
        self.items.len()
    }

    /// Adds an item at the place its score gives it: before the first item
    /// of higher score.
    pub fn add(&mut self, item: T)
        ensures
            final(self)@ == inserted(old(self)@, item),
            sorted(old(self)@) ==> sorted(final(self)@),
            all_scored(old(self)@) && item.score_spec(Seq::empty()) is Some ==> all_scored(
                final(self)@,
            ),
    {
        let _ = self.items.insert(item);
    }

    /// Removes the item at `index` and returns it; an error, and no change,
    /// where the list has no such index.
    pub fn remove(&mut self, index: usize) -> (r: Result<T, OutOfBounds>)
        ensures
            match r {
                Ok(item) => {
                    &&& index < old(self)@.len()
                    &&& item == old(self)@[index as int]
                    &&& final(self)@ == old(self)@.remove(index as int)
                },
                Err(e) => {
                    &&& index >= old(self)@.len()
                    &&& e == (OutOfBounds { index, len: old(self)@.len() as usize })
                    &&& final(self)@ == old(self)@
                },
            },
            sorted(old(self)@) ==> sorted(final(self)@),
    {
        self.items.remove(index)
    }

    /// Check if there are any items left
    pub fn is_empty(&self) -> (r: bool)
        ensures
            r == (self@.len() == 0),
    {
        self.items.is_empty()
    }

    /// Returns a list of each title
    pub fn titles(&self) -> (r: Vec<String>)
        ensures
            r@.len() == self@.len(),
            forall|i: int| 0 <= i < self@.len() ==> (#[trigger] r@[i])@ == self@[i].title_spec(),
    {
        let mut r: Vec<String> = Vec::new();
        let mut i: usize = 0;
        while i < self.items.len()
            invariant
                i <= self@.len(),
                r@.len() == i,
                forall|j: int| 0 <= j < i ==> (#[trigger] r@[j])@ == self@[j].title_spec(),
            decreases self@.len() - i,
        {
            match self.items.index(i) {
                Ok(item) => {
                    r.push(item.title());
                },
                Err(_) => {},
            }
            i += 1;
        }
        r
    }

    /// The item at `index`; an error where the list has no such index.
    pub fn index(&self, index: usize) -> (r: Result<&T, OutOfBounds>)
        ensures
            index < self@.len() ==> r == Ok::<&T, OutOfBounds>(&self@[index as int]),
            index >= self@.len() ==> r == Err::<&T, OutOfBounds>(
                OutOfBounds { index, len: self@.len() as usize },
            ),
    {
        self.items.index(index)
    }

    /// The item at `index`, to be changed in place; an error where the list
    /// has no such index.
    pub fn index_mut(&mut self, index: usize) -> (r: Result<&mut T, OutOfBounds>)
        ensures
            match r {
                Ok(item) => {
                    &&& index < old(self)@.len()
                    &&& *item == old(self)@[index as int]
                    &&& final(self)@ == old(self)@.update(index as int, *final(item))
                },
                Err(e) => {
                    &&& index >= old(self)@.len()
                    &&& e == (OutOfBounds { index, len: old(self)@.len() as usize })
                    &&& final(self)@ == old(self)@
                },
            },
    {
        self.items.index_mut(index)
    }
}

} // verus!
