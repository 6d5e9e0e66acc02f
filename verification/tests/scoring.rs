use todo::help;
use todo::parse::todo::Item;
use todo::parse::ListItem;
use todo::{query, score_text, Score};

fn item(title: &str, description: &str, description_scroll: usize) -> Item {
    Item { title: title.to_string(), description: description.to_string(), description_scroll }
}

fn entry(key: &str, value: &str) -> help::Item {
    help::Item((key.to_string(), value.to_string()))
}

#[test]
fn a_todo_item_scores_its_length_against_the_empty_query() {
    assert_eq!(item("abc", "", 0).score(""), Some(3));
    assert_eq!(item("abc", "defgh", 0).score(""), Some(8));
    assert_eq!(item("", "", 0).score(""), Some(0));
}

#[test]
fn a_todo_item_is_found_by_a_part_of_its_title() {
    let it = item("write tests", "soon", 0);
    assert_eq!(it.score("write"), Some(15));
    assert_eq!(it.score("te t"), Some(15));
    assert_eq!(it.score("tests"), Some(15));
}

#[test]
fn a_todo_item_without_the_query_has_no_score() {
    let it = item("abc", "", 0);
    assert_eq!(it.score("abd"), None);
    assert_eq!(it.score("abcd"), None);
    assert_eq!(it.score("x"), None);
}

#[test]
fn a_todo_item_is_not_found_by_its_description() {
    let it = item("abc", "xyz", 0);
    assert_eq!(it.score("xyz"), None);
    assert_eq!(it.score("abc"), Some(6));
}

#[test]
fn a_todo_item_is_found_by_the_digits_of_its_scroll_position() {
    let it = item("ab", "cd", 12);
    assert_eq!(it.score("12"), Some(4));
    assert_eq!(it.score("b12"), Some(4));
    assert_eq!(it.score("b1"), Some(4));
    assert_eq!(it.score("b2"), None);
    assert_eq!(it.score("120"), None);
    assert_eq!(item("ab", "cd", 0).score("b0"), Some(4));
    assert_eq!(item("ab", "cd", 0).score("0b"), None);
}

#[test]
fn a_todo_item_counts_bytes() {
    assert_eq!(item("é", "€", 0).score(""), Some(5));
    assert_eq!(item("é", "€", 0).score("é"), Some(5));
}

#[test]
fn a_text_scores_its_length_where_it_holds_the_query() {
    assert_eq!("hello".to_string().score("ell"), Some(5));
    assert_eq!("hello".to_string().score(""), Some(5));
    assert_eq!("hello".to_string().score("help"), None);
    assert_eq!(score_text("grüße", "üß"), Some(7));
    assert_eq!(score_text("", ""), Some(0));
    assert_eq!(score_text("", "a"), None);
}

#[test]
fn a_help_item_is_searched_as_key_blank_value() {
    let it = entry("q", "quit");
    assert_eq!(it.score(""), Some(6));
    assert_eq!(it.score("q q"), Some(6));
    assert_eq!(it.score("quit"), Some(6));
    assert_eq!(it.score("qq"), None);
    assert_eq!(it.score("quit "), None);
}

#[test]
fn items_show_title_and_description() {
    let it = item("T", "D", 3);
    assert_eq!(it.title(), "T");
    assert_eq!(it.description(), "D");
    let h = entry("k", "up");
    assert_eq!(h.title(), "k");
    assert_eq!(h.description(), "up");
}

#[test]
fn an_item_is_made_from_a_nested_pair() {
    let it = Item::from(("t".to_string(), ("d".to_string(), 4usize)));
    assert_eq!(it.title, "t");
    assert_eq!(it.description, "d");
    assert_eq!(it.description_scroll, 4);
    let copy = it.clone();
    assert_eq!(copy.title, "t");
    assert_eq!(copy.description, "d");
    assert_eq!(copy.description_scroll, 4);
}

#[test]
fn query_orders_by_score_and_keeps_positions() {
    let items: Vec<String> = ["ccc", "a", "bb", "dd", "zz"].iter().map(|s| s.to_string()).collect();
    let found = query(items, "");
    let expected: Vec<(usize, String)> = vec![
        (1, "a".to_string()),
        (2, "bb".to_string()),
        (3, "dd".to_string()),
        (4, "zz".to_string()),
        (0, "ccc".to_string()),
    ];
    assert_eq!(found, expected);
}

#[test]
fn query_leaves_out_what_does_not_hold_the_search_text() {
    let items: Vec<String> = ["abcd", "xyz", "b", "cab", ""].iter().map(|s| s.to_string()).collect();
    let found = query(items, "b");
    let expected: Vec<(usize, String)> =
        vec![(2, "b".to_string()), (3, "cab".to_string()), (0, "abcd".to_string())];
    assert_eq!(found, expected);
}

#[test]
fn query_finds_nothing_in_nothing() {
    assert_eq!(query(Vec::<String>::new(), ""), vec![]);
    assert_eq!(query(vec!["abc".to_string()], "x"), vec![]);
}

#[test]
fn query_on_todo_items_keeps_equal_scores_in_order() {
    let items = vec![item("bb", "1", 0), item("a", "22", 0), item("ccc", "", 0), item("zzzz", "", 0), item("c", "", 0)];
    let found = query(items, "");
    let places: Vec<usize> = found.iter().map(|f| f.0).collect();
    assert_eq!(places, vec![4, 0, 1, 2, 3]);
    let titles: Vec<&str> = found.iter().map(|f| f.1.title.as_str()).collect();
    assert_eq!(titles, vec!["c", "bb", "a", "ccc", "zzzz"]);
}
