use todo::help::{self, Help};
use todo::parse::todo::{Item, Items};
use todo::static_info::StaticInfo;

fn item(title: &str, description: &str) -> Item {
    Item { title: title.to_string(), description: description.to_string(), description_scroll: 0 }
}

fn list(titles: &[&str]) -> Items<Item> {
    Items::from_iter(titles.iter().map(|t| item(t, "")).collect())
}

fn titles(items: &Items<Item>) -> Vec<String> {
    items.titles()
}

fn help_pairs(items: &Items<help::Item>) -> Vec<(String, String)> {
    (0..items.amount()).map(|i| items.index(i).unwrap().0.clone()).collect()
}

#[test]
fn help_parse_reads_an_object_of_strings() {
    let help = Help::parse(r#"{"j": "down one", "q": "quit", "?": "this table"}"#).unwrap();
    let mut pairs = Vec::new();
    for i in 0..help.0.len() {
        pairs.push(help.0.index(i).unwrap().0.clone());
    }
    assert_eq!(
        pairs,
        vec![
            ("q".to_string(), "quit".to_string()),
            ("j".to_string(), "down one".to_string()),
            ("?".to_string(), "this table".to_string()),
        ]
    );
}

#[test]
fn help_parse_keeps_every_key_once() {
    let help = Help::parse(r#"{"a": "1", "b": "22", "a": "333", "c": ""}"#).unwrap();
    let mut pairs = Vec::new();
    for i in 0..help.0.len() {
        pairs.push(help.0.index(i).unwrap().0.clone());
    }
    assert_eq!(
        pairs,
        vec![
            ("c".to_string(), "".to_string()),
            ("b".to_string(), "22".to_string()),
            ("a".to_string(), "333".to_string()),
        ]
    );
}

#[test]
fn help_parse_reads_escapes_and_an_empty_object() {
    let help = Help::parse(r#"{"tab\t": "say \"hi\" é"}"#).unwrap();
    assert_eq!(help.0.index(0).unwrap().0, ("tab\t".to_string(), "say \"hi\" é".to_string()));
    assert_eq!(Help::parse("  {}  ").unwrap().0.len(), 0);
}

#[test]
fn help_parse_fails_on_what_is_no_object_of_strings() {
    for text in ["", "{", "[]", r#"{"a": 1}"#, r#"{"a": "b"} x"#, r#"{"a": {"b": "c"}}"#, r#"{"a": null}"#, "q"] {
        let failed = Help::parse(text);
        assert!(failed.is_err(), "parsed {text:?}");
        assert!(!failed.err().unwrap().message.is_empty());
    }
}

#[test]
fn help_from_entries_orders_by_length_and_keeps_ties() {
    let help = Help::from_entries(vec![
        ("bb".to_string(), "22".to_string()),
        ("a".to_string(), "1".to_string()),
        ("cc".to_string(), "33".to_string()),
        ("d".to_string(), "4".to_string()),
    ]);
    let keys: Vec<String> = (0..help.0.len()).map(|i| help.0.index(i).unwrap().0 .0.clone()).collect();
    assert_eq!(keys, vec!["a", "d", "bb", "cc"]);
}

#[test]
fn static_info_from_arranges_each_list() {
    let info = StaticInfo::from(
        vec![
            ("work".to_string(), vec![item("long title", "x"), item("b", ""), item("cc", "")]),
            ("home".to_string(), vec![]),
        ],
        r#"{"q": "quit"}"#,
    )
    .unwrap();
    assert!(info.is_wf());
    assert!(info.has("work"));
    assert!(info.has("home"));
    assert!(!info.has("Work"));
    assert_eq!(titles(info.list("work").unwrap()), vec!["b", "cc", "long title"]);
    assert_eq!(info.list("home").unwrap().amount(), 0);
    assert!(info.list("none").is_none());
    assert_eq!(help_pairs(&info.help), vec![("q".to_string(), "quit".to_string())]);
}

#[test]
fn static_info_from_takes_the_last_list_of_a_name() {
    let info = StaticInfo::from(
        vec![
            ("a".to_string(), vec![item("first", "")]),
            ("b".to_string(), vec![item("other", "")]),
            ("a".to_string(), vec![item("second", ""), item("x", "")]),
        ],
        "{}",
    )
    .unwrap();
    assert!(info.is_wf());
    assert_eq!(info.lists.len(), 2);
    assert_eq!(titles(info.list("a").unwrap()), vec!["x", "second"]);
    assert_eq!(titles(info.list("b").unwrap()), vec!["other"]);
}

#[test]
fn static_info_from_fails_where_the_help_text_is_malformed() {
    assert!(StaticInfo::from(vec![], "not json").is_err());
    assert!(StaticInfo::from(vec![("a".to_string(), vec![])], r#"{"a": 3}"#).is_err());
}

#[test]
fn static_info_get_takes_the_list_out() {
    let mut info = StaticInfo::new(Items::new());
    assert!(info.insert("a".to_string(), list(&["1"])).is_none());
    assert!(info.insert("b".to_string(), list(&["2", "22"])).is_none());
    assert!(info.insert("c".to_string(), list(&["3"])).is_none());
    let taken = info.get("b").unwrap();
    assert_eq!(titles(&taken), vec!["2", "22"]);
    assert!(!info.has("b"));
    assert!(info.get("b").is_none());
    assert_eq!(titles(info.list("a").unwrap()), vec!["1"]);
    assert_eq!(titles(info.list("c").unwrap()), vec!["3"]);
    assert!(info.is_wf());
}

#[test]
fn static_info_insert_replaces_a_list_of_the_same_name() {
    let mut info = StaticInfo::new(Items::new());
    assert!(info.insert("a".to_string(), list(&["old"])).is_none());
    let before = info.insert("a".to_string(), list(&["new"])).unwrap();
    assert_eq!(titles(&before), vec!["old"]);
    assert_eq!(titles(info.list("a").unwrap()), vec!["new"]);
    assert_eq!(info.lists.len(), 1);
}

#[test]
fn static_info_list_mut_changes_a_list_in_place() {
    let mut info = StaticInfo::new(Items::new());
    info.insert("a".to_string(), list(&["1"]));
    info.insert("b".to_string(), list(&["2"]));
    info.list_mut("b").unwrap().add(item("", ""));
    assert!(info.list_mut("zzz").is_none());
    assert_eq!(titles(info.list("b").unwrap()), vec!["", "2"]);
    assert_eq!(titles(info.list("a").unwrap()), vec!["1"]);
}

#[test]
fn static_info_is_wf_sees_a_name_twice() {
    let mut info = StaticInfo::new(Items::new());
    info.insert("a".to_string(), list(&[]));
    info.insert("b".to_string(), list(&[]));
    assert!(info.is_wf());
    info.lists.push(("a".to_string(), list(&[])));
    assert!(!info.is_wf());
}

#[test]
fn items_add_remove_and_count() {
    let mut items = list(&["bbb", "a"]);
    assert_eq!(items.amount(), 2);
    assert!(!items.is_empty());
    items.add(item("cc", ""));
    assert_eq!(titles(&items), vec!["a", "cc", "bbb"]);
    assert_eq!(items.remove(1).unwrap().title, "cc");
    assert!(items.remove(2).is_err());
    assert!(items.index(2).is_err());
    assert!(items.index_mut(2).is_err());
    items.index_mut(0).unwrap().description_scroll = 9;
    assert_eq!(items.index(0).unwrap().description_scroll, 9);
    items.remove(0).unwrap();
    items.remove(0).unwrap();
    assert!(items.is_empty());
    assert_eq!(items.amount(), 0);
    assert!(Items::<Item>::new().is_empty());
}

#[test]
fn defaults_are_empty() {
    let info = StaticInfo::default();
    assert!(info.is_wf());
    assert!(info.lists.is_empty());
    assert!(info.help.is_empty());
    let items: Items<Item> = Items::default();
    assert!(items.is_empty());
    let mut copy = list(&["a", "bb"]).clone();
    assert_eq!(titles(&copy), vec!["a", "bb"]);
    copy.add(item("", ""));
    assert_eq!(copy.amount(), 3);
}
