//! What is loaded once at the start: the help table and the todo lists by
//! name.
use vstd::prelude::*;

use crate::help::{self, json_string_map, Help, ParseError};
use crate::ordered_list::arranged;
use crate::parse::todo::{self, Items};

verus! {

/// The help table and the named todo lists.
#[derive(Debug)]
pub struct StaticInfo {
    /// All help entries
    pub help: Items<help::Item>,
    /// The todo lists with their names; no name occurs twice.
    pub lists: Vec<(String, Items<todo::Item>)>,
}

/// The lists that `given` names, each arranged by score; where a name
/// occurs more than once, its last list.
pub open spec fn lists_of(given: Seq<(String, Vec<todo::Item>)>) -> Map<Seq<char>, Seq<todo::Item>>
    decreases given.len(),
{
    if given.len() == 0 {
        Map::empty()
    } else {
        lists_of(given.drop_last()).insert(given.last().0@, arranged(given.last().1@))
    }
}

impl Default for StaticInfo {
    fn default() -> (r: Self)
        ensures
            r.wf(),
            r.help@ == Seq::<help::Item>::empty(),
            r.lists_view() == Map::<Seq<char>, Seq<todo::Item>>::empty(),
    {
        StaticInfo::new(Items::new())
    }
}

impl StaticInfo {
    /// No name stands for two lists.
    pub open spec fn wf(&self) -> bool {
        forall|i: int, j: int|
            0 <= i < j < self.lists@.len() ==> (#[trigger] self.lists@[i]).0@ != (
            #[trigger] self.lists@[j]).0@
    }

    /// Whether the list at position `i` has the name `name`.
    pub open spec fn named(&self, i: int, name: Seq<char>) -> bool {
        0 <= i < self.lists@.len() && self.lists@[i].0@ == name
    }

    /// The todo lists by name.
    pub open spec fn lists_view(&self) -> Map<Seq<char>, Seq<todo::Item>> {
        Map::new(
            |name: Seq<char>| exists|i: int| self.named(i, name),
            |name: Seq<char>| self.lists@[choose|i: int| self.named(i, name)].1@,
        )
    }

    /// The help table and no list.
    pub fn new(help: Items<help::Item>) -> (r: Self)
        ensures
            r.wf(),
            r.help == help,
            r.lists_view() == Map::<Seq<char>, Seq<todo::Item>>::empty(),
    {
        let r = StaticInfo { help, lists: Vec::new() };
        assert(r.lists_view() =~= Map::<Seq<char>, Seq<todo::Item>>::empty());
        r
    }

    /// The position of the list named `name`.
    pub fn position(&self, name: &str) -> (r: Option<usize>)
        ensures
            match r {
                Some(i) => self.named(i as int, name@),
                None => forall|i: int| !self.named(i, name@),
            },
    {
        let wanted = name.to_owned();
        let mut i: usize = 0;
        while i < self.lists.len()
            invariant
                i <= self.lists.len(),
                wanted@ == name@,
                forall|j: int| 0 <= j < i ==> !self.named(j, name@),
            decreases self.lists.len() - i,
        {
            if self.lists[i].0 == wanted {
                return Some(i);
            }
            i += 1;
        }
        None
    }

    /// Under wf, the list at a position is the list of its name.
    pub proof fn lemma_named(&self, i: int, name: Seq<char>)
        requires
            self.wf(),
            self.named(i, name),
        ensures
            self.lists_view().contains_key(name),
            self.lists_view()[name] == self.lists@[i].1@,
    {
        let c = choose|c: int| self.named(c, name);
        if c < i {
            assert(self.lists@[c].0@ != self.lists@[i].0@);
        } else if i < c {
            assert(self.lists@[i].0@ != self.lists@[c].0@);
        }
    }

    /// `after` is `self` with another list in the place of that at `i`.
    pub open spec fn replaced(&self, after: StaticInfo, i: int) -> bool {
        &&& after.help == self.help
        &&& 0 <= i < self.lists@.len()
        &&& after.lists@ == self.lists@.update(i, (self.lists@[i].0, after.lists@[i].1))
    }

    /// Another list in the place of that named `name` changes what stands
    /// under `name`, and nothing else.
    pub proof fn lemma_replaced(&self, after: StaticInfo, i: int, name: Seq<char>)
        requires
            self.wf(),
            self.named(i, name),
            self.replaced(after, i),
        ensures
            after.wf(),
            after.lists_view() == self.lists_view().insert(name, after.lists@[i].1@),
    {
        assert forall|j: int, n: Seq<char>| after.named(j, n) == self.named(j, n) by {}
        assert(after.wf());
        after.lemma_named(i, name);
        assert forall|n: Seq<char>| n != name && self.lists_view().contains_key(n) implies after.lists_view()[n]
            == self.lists_view()[n] by {
            let c = choose|c: int| self.named(c, n);
            self.lemma_named(c, n);
            after.lemma_named(c, n);
        }
        assert(after.lists_view() =~= self.lists_view().insert(name, after.lists@[i].1@));
    }

    /// Whether there is a list named `name`.
    pub fn has(&self, name: &str) -> (r: bool)
        ensures
            r == self.lists_view().contains_key(name@),
    {
        self.position(name).is_some()
    }

    /// The list named `name`.
    pub fn list(&self, name: &str) -> (r: Option<&Items<todo::Item>>)
        requires
            self.wf(),
        ensures
            match r {
                Some(list) => self.lists_view().contains_key(name@) && list@
                    == self.lists_view()[name@],
                None => !self.lists_view().contains_key(name@),
            },
    {
        match self.position(name) {
            Some(i) => {
                proof {
                    self.lemma_named(i as int, name@);
                }
                Some(&self.lists[i].1)
            },
            None => None,
        }
    }

    /// Puts `items` under `name`, in the place of the list that stood there
    /// if there was one, which is returned.
    pub fn insert(&mut self, name: String, items: Items<todo::Item>) -> (r: Option<Items<todo::Item>>)
        requires
            old(self).wf(),
        ensures
            final(self).wf(),
            final(self).help == old(self).help,
            final(self).lists_view() == old(self).lists_view().insert(name@, items@),
            match r {
                Some(before) => old(self).lists_view().contains_key(name@) && before@
                    == old(self).lists_view()[name@],
                None => !old(self).lists_view().contains_key(name@),
            },
    {
        let mut items = items;
        match self.position(name.as_str()) {
            Some(i) => {
                proof {
                    self.lemma_named(i as int, name@);
                    let before = *self;
                    assert forall|after: StaticInfo|
                        #![trigger after.wf()]
                        #![trigger after.lists_view()]
                        before.replaced(after, i as int) implies after.wf() && after.lists_view()
                        == before.lists_view().insert(name@, after.lists@[i as int].1@) by {
                        before.lemma_replaced(after, i as int, name@);
                    }
                }
                core::mem::swap(&mut self.lists[i].1, &mut items);
                Some(items)
            },
            None => {
                let ghost before = *self;
                self.lists.push((name, items));
                proof {
                    let after = *self;
                    let last = before.lists@.len() as int;
                    assert forall|j: int, n: Seq<char>| after.named(j, n) == (before.named(j, n) || (j
                        == last && n == name@)) by {}
                    assert forall|a: int, b: int| 0 <= a < b < after.lists@.len() implies (
                    #[trigger] after.lists@[a]).0@ != (#[trigger] after.lists@[b]).0@ by {
                        if b == last {
                            assert(!before.named(a, name@));
                        } else {
                            assert(before.lists@[a].0@ != before.lists@[b].0@);
                        }
                    }
                    after.lemma_named(last, name@);
                    assert forall|n: Seq<char>| before.lists_view().contains_key(n) implies after.lists_view()[n]
                        == before.lists_view()[n] by {
                        let c = choose|c: int| before.named(c, n);
                        before.lemma_named(c, n);
                        after.lemma_named(c, n);
                    }
                    assert(after.lists_view() =~= before.lists_view().insert(name@, items@));
                }
                None
            },
        }
    }

    /// Takes the list named `query` out and returns it.
    pub fn get(&mut self, query: &str) -> (r: Option<Items<todo::Item>>)
        requires
            old(self).wf(),
        ensures
            final(self).wf(),
            final(self).help == old(self).help,
            final(self).lists_view() == old(self).lists_view().remove(query@),
            match r {
                Some(list) => old(self).lists_view().contains_key(query@) && list@
                    == old(self).lists_view()[query@],
                None => !old(self).lists_view().contains_key(query@),
            },
    {
        match self.position(query) {
            Some(i) => {
                let ghost before = *self;
                let entry = self.lists.remove(i);
                proof {
                    let after = *self;
                    before.lemma_named(i as int, query@);
                    assert forall|j: int, n: Seq<char>| after.named(j, n) == (if j < i {
                        before.named(j, n)
                    } else {
                        before.named(j + 1, n)
                    }) by {}
                    assert forall|a: int, b: int| 0 <= a < b < after.lists@.len() implies (
                    #[trigger] after.lists@[a]).0@ != (#[trigger] after.lists@[b]).0@ by {
                        let a0 = if a < i { a } else { a + 1 };
                        let b0 = if b < i { b } else { b + 1 };
                        assert(before.lists@[a0].0@ != before.lists@[b0].0@);
                    }
                    assert forall|n: Seq<char>| after.lists_view().contains_key(n) implies n != query@
                        && before.lists_view().contains_key(n) && after.lists_view()[n]
                        == before.lists_view()[n] by {
                        let c = choose|c: int| after.named(c, n);
                        let c0 = if c < i { c } else { c + 1 };
                        assert(before.named(c0, n));
                        after.lemma_named(c, n);
                        before.lemma_named(c0, n);
                        if c0 < i {
                            assert(before.lists@[c0].0@ != before.lists@[i as int].0@);
                        } else {
                            assert(before.lists@[i as int].0@ != before.lists@[c0].0@);
                        }
                    }
                    assert forall|n: Seq<char>| n != query@ && before.lists_view().contains_key(
                        n,
                    ) implies after.lists_view().contains_key(n) by {
                        let c = choose|c: int| before.named(c, n);
                        let c1 = if c < i { c } else { c - 1 };
                        assert(after.named(c1, n));
                    }
                    assert(after.lists_view() =~= before.lists_view().remove(query@));
                }
                Some(entry.1)
            },
            None => {
                assert(self.lists_view().remove(query@) =~= self.lists_view());
                None
            },
        }
    }

    /// `self` holds what `lists` and the text `help` give: the lists that
    /// `lists` names, and a help table, sorted by score, of the entries that
    /// the JSON parser reads from `help`, each key once, none with a score
    /// left out.
    pub open spec fn loaded_from(
        &self,
        lists: Seq<(String, Vec<todo::Item>)>,
        help: Seq<char>,
    ) -> bool {
        &&& self.wf()
        &&& self.lists_view() == lists_of(lists)
        &&& json_string_map(help) matches Some(table) && help::entries_of(
            help::item_pairs(self.help@),
            table,
        ) && help::all_scored_entries(help::item_pairs(self.help@), table)
        &&& crate::ordered_list::sorted(self.help@)
    }

    /// Whether no name stands for two lists.
    pub fn is_wf(&self) -> (r: bool)
        ensures
            r == self.wf(),
    {
        let mut j: usize = 0;
        while j < self.lists.len()
            invariant
                j <= self.lists.len(),
                forall|a: int, b: int|
                    0 <= a < b < j ==> (#[trigger] self.lists@[a]).0@ != (
                    #[trigger] self.lists@[b]).0@,
            decreases self.lists.len() - j,
        {
            let mut i: usize = 0;
            while i < j
                invariant
                    i <= j,
                    j < self.lists.len(),
                    forall|a: int| 0 <= a < i ==> (#[trigger] self.lists@[a]).0@ != self.lists@[j as int].0@,
                decreases j - i,
            {
                if self.lists[i].0 == self.lists[j].0 {
                    return false;
                }
                i += 1;
            }
            j += 1;
        }
        true
    }

    /// The help table read from the text `help`, a JSON object of strings,
    /// and the lists that `lists` names, each arranged by score. It fails
    /// where the JSON parser fails on `help`.
    pub fn from(lists: Vec<(String, Vec<todo::Item>)>, help: &str) -> (r: Result<Self, ParseError>)
        ensures
            match r {
                Ok(info) => info.loaded_from(lists@, help@),
                Err(_) => json_string_map(help@) is None,
            },
    {
        let table = match Help::parse(help) {
            Ok(table) => table,
            Err(e) => {
                return Err(e);
            },
        };
        let mut info = StaticInfo::new(Items { items: table.0 });
        let ghost all = lists@;
        for entry in it: lists
            invariant
                it.seq() == all,
                info.wf(),
                info.help.items == table.0,
                info.lists_view() == lists_of(all.take(it.index() as int)),
        {
            proof {
                assert(all.take(it.index() + 1).drop_last() =~= all.take(it.index() as int));
            }
            let (name, items) = entry;
            let _ = info.insert(name, Items::from_iter(items));
        }
        assert(all.take(all.len() as int) =~= all);
        Ok(info)
    }

    /// The list named `name`, to be changed in place.
    pub fn list_mut(&mut self, name: &str) -> (r: Option<&mut Items<todo::Item>>)
        requires
            old(self).wf(),
        ensures
            final(self).wf(),
            final(self).help == old(self).help,
            match r {
                Some(list) => {
                    &&& old(self).lists_view().contains_key(name@)
                    &&& list@ == old(self).lists_view()[name@]
                    &&& final(self).lists_view() == old(self).lists_view().insert(
                        name@,
                        final(list)@,
                    )
                },
                None => {
                    &&& !old(self).lists_view().contains_key(name@)
                    &&& final(self).lists_view() == old(self).lists_view()
                },
            },
    {
        match self.position(name) {
            Some(i) => {
                proof {
                    self.lemma_named(i as int, name@);
                }
                proof {
                    let before = *self;
                    assert forall|after: StaticInfo|
                        #![trigger after.wf()]
                        #![trigger after.lists_view()]
                        before.replaced(after, i as int) implies after.wf() && after.lists_view()
                        == before.lists_view().insert(
                        name@,
                        after.lists@[i as int].1@,
                    ) by {
                        before.lemma_replaced(after, i as int, name@);
                    }
                }
                let list = &mut self.lists[i].1;
                Some(list)
            },
            None => None,
        }
    }
}

} // verus!
