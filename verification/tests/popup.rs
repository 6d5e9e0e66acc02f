use todo::app::{CurrentEdit, Substate};
use todo::help;
use todo::key::Key;
use todo::parse::todo::Items;
use todo::popup::{Popup, ReturnAction};

fn help_of(n: usize) -> Items<help::Item> {
    let mut entries = Vec::new();
    for i in 0..n {
        entries.push(help::Item((format!("k{i}"), "x".repeat(i))));
    }
    Items::from_iter(entries)
}

fn edit(title: &str, description: &str, editing: CurrentEdit, to_change: Option<usize>) -> Popup {
    Popup::Edit {
        title: title.to_string(),
        description: description.to_string(),
        editing,
        to_change,
    }
}

fn fields(popup: &Popup) -> (String, String, CurrentEdit, Option<usize>) {
    match popup {
        Popup::Edit { title, description, editing, to_change } => {
            (title.clone(), description.clone(), *editing, *to_change)
        }
        Popup::Help(_) => panic!("the popup is the help table"),
    }
}

fn help_selected(popup: &Popup) -> usize {
    match popup {
        Popup::Help(selected) => *selected,
        Popup::Edit { .. } => panic!("the popup edits an item"),
    }
}

#[test]
fn edit_char_goes_to_the_part_in_focus() {
    let help = help_of(0);
    let mut popup = edit("ab", "cd", CurrentEdit::Title, None);
    assert!(matches!(popup.handle_input(Key::Char('x'), &help), ReturnAction::Nothing));
    assert_eq!(fields(&popup), ("abx".to_string(), "cd".to_string(), CurrentEdit::Title, None));
    let mut popup = edit("ab", "cd", CurrentEdit::Body, Some(3));
    assert!(matches!(popup.handle_input(Key::Char('q'), &help), ReturnAction::Nothing));
    assert_eq!(fields(&popup), ("ab".to_string(), "cdq".to_string(), CurrentEdit::Body, Some(3)));
}

#[test]
fn edit_backspace_takes_the_last_character_off() {
    let help = help_of(0);
    let mut popup = edit("ab", "cd", CurrentEdit::Title, None);
    assert!(matches!(popup.handle_input(Key::Backspace, &help), ReturnAction::Nothing));
    assert_eq!(fields(&popup).0, "a");
    popup.handle_input(Key::Backspace, &help);
    popup.handle_input(Key::Backspace, &help);
    assert_eq!(fields(&popup), ("".to_string(), "cd".to_string(), CurrentEdit::Title, None));
    let mut popup = edit("ab", "cd", CurrentEdit::Body, None);
    popup.handle_input(Key::Backspace, &help);
    assert_eq!(fields(&popup), ("ab".to_string(), "c".to_string(), CurrentEdit::Body, None));
}

#[test]
fn edit_tab_moves_the_focus() {
    let help = help_of(0);
    let mut popup = edit("ab", "cd", CurrentEdit::Title, None);
    assert!(matches!(popup.handle_input(Key::Tab, &help), ReturnAction::Nothing));
    assert_eq!(fields(&popup).2, CurrentEdit::Body);
    assert!(matches!(popup.handle_input(Key::Tab, &help), ReturnAction::Nothing));
    assert_eq!(fields(&popup), ("ab".to_string(), "cd".to_string(), CurrentEdit::Title, None));
}

#[test]
fn edit_escape_asks_to_close() {
    let help = help_of(0);
    let mut popup = edit("ab", "cd", CurrentEdit::Body, Some(1));
    assert!(matches!(popup.handle_input(Key::Esc, &help), ReturnAction::Exit));
    assert_eq!(fields(&popup), ("ab".to_string(), "cd".to_string(), CurrentEdit::Body, Some(1)));
}

#[test]
fn edit_enter_hands_out_a_new_item() {
    let help = help_of(0);
    let mut popup = edit("ab", "cd", CurrentEdit::Body, None);
    match popup.handle_input(Key::Enter, &help) {
        ReturnAction::Add(value) => {
            assert_eq!(value, ("ab".to_string(), ("cd".to_string(), 0)));
        }
        other => panic!("not an addition: {other:?}"),
    }
    assert_eq!(fields(&popup), ("ab".to_string(), "cd".to_string(), CurrentEdit::Body, None));
}

#[test]
fn edit_enter_hands_out_a_change() {
    let help = help_of(0);
    let mut popup = edit("ab", "cd", CurrentEdit::Title, Some(4));
    match popup.handle_input(Key::Enter, &help) {
        ReturnAction::Edit(index, value) => {
            assert_eq!(index, 4);
            assert_eq!(value, ("ab".to_string(), ("cd".to_string(), 0)));
        }
        other => panic!("not a change: {other:?}"),
    }
}

#[test]
fn edit_ignores_other_keys() {
    let help = help_of(0);
    for key in [Key::Up, Key::Down, Key::Other] {
        let mut popup = edit("ab", "cd", CurrentEdit::Title, Some(0));
        assert!(matches!(popup.handle_input(key, &help), ReturnAction::Nothing));
        assert_eq!(fields(&popup), ("ab".to_string(), "cd".to_string(), CurrentEdit::Title, Some(0)));
    }
}

#[test]
fn help_q_asks_to_close() {
    let help = help_of(3);
    let mut popup = Popup::Help(1);
    assert!(matches!(popup.handle_input(Key::Char('q'), &help), ReturnAction::Exit));
    assert_eq!(help_selected(&popup), 1);
}

#[test]
fn help_j_selects_the_next_entry_up_to_the_last() {
    let help = help_of(3);
    let mut popup = Popup::Help(0);
    assert!(matches!(popup.handle_input(Key::Char('j'), &help), ReturnAction::Nothing));
    assert_eq!(help_selected(&popup), 1);
    popup.handle_input(Key::Char('j'), &help);
    assert_eq!(help_selected(&popup), 2);
    popup.handle_input(Key::Char('j'), &help);
    assert_eq!(help_selected(&popup), 2);
}

#[test]
fn help_j_stays_on_an_empty_table() {
    let help = help_of(0);
    let mut popup = Popup::Help(0);
    assert!(matches!(popup.handle_input(Key::Char('j'), &help), ReturnAction::Nothing));
    assert_eq!(help_selected(&popup), 0);
}

#[test]
fn help_k_selects_the_entry_before_down_to_the_first() {
    let help = help_of(3);
    let mut popup = Popup::Help(2);
    assert!(matches!(popup.handle_input(Key::Char('k'), &help), ReturnAction::Nothing));
    assert_eq!(help_selected(&popup), 1);
    popup.handle_input(Key::Char('k'), &help);
    assert_eq!(help_selected(&popup), 0);
    popup.handle_input(Key::Char('k'), &help);
    assert_eq!(help_selected(&popup), 0);
}

#[test]
fn help_slash_starts_a_search() {
    let help = help_of(3);
    let mut popup = Popup::Help(2);
    match popup.handle_input(Key::Char('/'), &help) {
        ReturnAction::EnterSubState(Substate::Filter(query)) => assert_eq!(query, ""),
        other => panic!("not a search: {other:?}"),
    }
    assert_eq!(help_selected(&popup), 2);
}

#[test]
fn help_ignores_other_keys() {
    let help = help_of(3);
    for key in [Key::Enter, Key::Esc, Key::Tab, Key::Backspace, Key::Up, Key::Down, Key::Other, Key::Char('x')] {
        let mut popup = Popup::Help(1);
        assert!(matches!(popup.handle_input(key, &help), ReturnAction::Nothing));
        assert_eq!(help_selected(&popup), 1);
    }
}
