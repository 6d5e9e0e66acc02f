use todo::ordered_list::{OrderedList, OutOfBounds};
use todo::Score;

/// An item with a score of its own choosing.
#[derive(Debug, Clone, PartialEq)]
struct Rated {
    name: &'static str,
    score: Option<i64>,
}

impl Score for Rated {
    fn score_spec(&self, _query: vstd::seq::Seq<char>) -> Option<i64> {
        self.score
    }

    fn score(&self, _query: &str) -> Option<i64> {
        self.score
    }
}

fn rated(name: &'static str, score: i64) -> Rated {
    Rated { name, score: Some(score) }
}

fn names(list: &OrderedList<Rated>) -> Vec<&'static str> {
    let mut out = Vec::new();
    for i in 0..list.len() {
        out.push(list.index(i).unwrap().name);
    }
    out
}

fn is_sorted(list: &OrderedList<Rated>) -> bool {
    for i in 1..list.len() {
        if list.index(i - 1).unwrap().score > list.index(i).unwrap().score {
            return false;
        }
    }
    true
}

#[test]
fn insert_keeps_the_list_sorted_after_each_insertion() {
    let mut list = OrderedList::new();
    for (name, score) in [("e", 5), ("a", 1), ("c", 3), ("b", 2), ("d", 4), ("a2", 1), ("z", 9)] {
        list.insert(rated(name, score));
        assert!(is_sorted(&list));
    }
    assert_eq!(names(&list), vec!["a", "a2", "b", "c", "d", "e", "z"]);
}

#[test]
fn insert_returns_the_position_taken() {
    let mut list = OrderedList::new();
    assert_eq!(list.insert(rated("m", 10)), 0);
    assert_eq!(list.insert(rated("s", 5)), 0);
    assert_eq!(list.insert(rated("l", 20)), 2);
    assert_eq!(list.insert(rated("x", 15)), 2);
    assert_eq!(names(&list), vec!["s", "m", "x", "l"]);
}

#[test]
fn insert_puts_an_item_after_its_equals() {
    let mut list = OrderedList::new();
    list.insert(rated("first", 7));
    list.insert(rated("low", 1));
    assert_eq!(list.insert(rated("second", 7)), 2);
    assert_eq!(list.insert(rated("third", 7)), 3);
    assert_eq!(names(&list), vec!["low", "first", "second", "third"]);
}

#[test]
fn insert_then_remove_restores_the_list() {
    let mut list = OrderedList::new();
    for (name, score) in [("a", 1), ("b", 4), ("c", 4), ("d", 8)] {
        list.insert(rated(name, score));
    }
    let before = names(&list);
    for score in [0, 1, 4, 5, 8, 9] {
        let at = list.insert(rated("new", score));
        let removed = list.remove(at).unwrap();
        assert_eq!(removed, rated("new", score));
        assert_eq!(names(&list), before);
    }
}

#[test]
fn index_beyond_the_end_is_out_of_bounds() {
    let mut list: OrderedList<Rated> = OrderedList::new();
    assert_eq!(list.index(0).err(), Some(OutOfBounds { index: 0, len: 0 }));
    assert_eq!(list.index_mut(0).err(), Some(OutOfBounds { index: 0, len: 0 }));
    assert_eq!(list.remove(0).err(), Some(OutOfBounds { index: 0, len: 0 }));
    list.insert(rated("a", 1));
    list.insert(rated("b", 2));
    assert!(list.index(1).is_ok());
    assert_eq!(list.index(2).err(), Some(OutOfBounds { index: 2, len: 2 }));
    assert_eq!(list.index(usize::MAX).err(), Some(OutOfBounds { index: usize::MAX, len: 2 }));
    assert_eq!(list.index_mut(2).err(), Some(OutOfBounds { index: 2, len: 2 }));
    assert_eq!(list.remove(5).err(), Some(OutOfBounds { index: 5, len: 2 }));
    assert_eq!(list.len(), 2);
}

#[test]
fn remove_moves_the_later_items_down() {
    let mut list = OrderedList::new();
    for (name, score) in [("a", 1), ("b", 2), ("c", 3)] {
        list.insert(rated(name, score));
    }
    assert_eq!(list.remove(1).unwrap().name, "b");
    assert_eq!(names(&list), vec!["a", "c"]);
    assert_eq!(list.len(), 2);
    assert!(!list.is_empty());
}

#[test]
fn index_mut_changes_an_item_in_place() {
    let mut list = OrderedList::new();
    list.insert(rated("a", 1));
    list.insert(rated("b", 2));
    list.index_mut(0).unwrap().name = "changed";
    assert_eq!(names(&list), vec!["changed", "b"]);
}

#[test]
fn from_iter_sorts_and_leaves_out_items_without_score() {
    let list = OrderedList::from_iter(vec![
        rated("c", 3),
        Rated { name: "none", score: None },
        rated("a", 1),
        rated("c2", 3),
        rated("b", 2),
        Rated { name: "none2", score: None },
    ]);
    assert_eq!(names(&list), vec!["a", "b", "c", "c2"]);
}

#[test]
fn from_iter_gives_what_insertions_give() {
    let items = vec![rated("x", 4), rated("y", 2), rated("z", 4), rated("w", 2), rated("v", 9)];
    let arranged = OrderedList::from_iter(items.clone());
    let mut grown = OrderedList::new();
    for item in items {
        grown.insert(item);
    }
    assert!(arranged == grown);
    assert_eq!(names(&arranged), vec!["y", "w", "x", "z", "v"]);
}

#[test]
fn lists_are_equal_when_their_items_are_pairwise() {
    let a = OrderedList::from_iter(vec![rated("a", 1), rated("b", 2)]);
    let b = OrderedList::from_iter(vec![rated("b", 2), rated("a", 1)]);
    let shorter = OrderedList::from_iter(vec![rated("a", 1)]);
    let other = OrderedList::from_iter(vec![rated("a", 1), rated("c", 2)]);
    assert!(a == b);
    assert!(a != shorter);
    assert!(a != other);
    assert!(OrderedList::<Rated>::new() == OrderedList::default());
}

#[test]
fn an_item_without_score_enters_before_the_scored_ones() {
    let mut list = OrderedList::new();
    list.insert(rated("a", -5));
    assert_eq!(list.insert(Rated { name: "none", score: None }), 0);
    assert_eq!(list.insert(Rated { name: "none2", score: None }), 1);
    assert_eq!(names(&list), vec!["none", "none2", "a"]);
}

#[test]
fn a_clone_holds_the_same_items() {
    let list = OrderedList::from_iter(vec![rated("b", 2), rated("a", 1)]);
    let copy = list.clone();
    assert!(copy == list);
    assert_eq!(names(&copy), vec!["a", "b"]);
}
