use todo::app::{App, CurrentEdit, CurrentSelection, Substate, ACTIVE_LIST};
use todo::key::Key;
use todo::parse::todo::Item;
use todo::popup::Popup;
use todo::ui::{field_text, help_options, popup_screen, ui, PopupScreen, CURSOR};

fn app() -> App {
    App::from_files(
        vec![(
            ACTIVE_LIST.to_string(),
            vec![
                Item { title: "Bb".to_string(), description: "second".to_string(), description_scroll: 3 },
                Item { title: "A".to_string(), description: "first".to_string(), description_scroll: 0 },
            ],
        )],
        r#"{"q": "quit", "j": "down 1", "?": "show this table"}"#,
    )
    .unwrap()
}

fn keys_of(options: &[(usize, todo::help::Item)]) -> Vec<(usize, String)> {
    options.iter().map(|o| (o.0, o.1 .0 .0.clone())).collect()
}

#[test]
fn field_text_shows_the_cursor_in_focus() {
    assert_eq!(field_text("abc", false), "abc");
    assert_eq!(field_text("abc", true), format!("abc{CURSOR}"));
    assert_eq!(field_text("", true), CURSOR.to_string());
    assert_eq!(CURSOR, '█');
}

#[test]
fn substate_render_shows_slash_query_and_cursor() {
    let filter = Substate::Filter("br".to_string());
    assert_eq!(filter.render(true), "/br█");
    assert_eq!(filter.render(false), "/br");
    assert_eq!(Substate::Filter(String::new()).render(true), "/█");
}

#[test]
fn screen_of_the_menu() {
    let mut app = app();
    let screen = ui(&app);
    assert_eq!(screen.substate, None);
    assert_eq!(screen.focus, CurrentSelection::Menu);
    assert_eq!(screen.title, "");
    assert_eq!(screen.titles, vec!["A", "Bb"]);
    assert_eq!(screen.selected, None);
    assert_eq!(screen.info, "");
    assert_eq!(screen.info_scroll, 0);
    assert!(screen.popup.is_none());
    app.handle_input(Key::Char('k'));
    app.handle_input(Key::Enter);
    let screen = ui(&app);
    assert_eq!(screen.focus, CurrentSelection::Description);
    assert_eq!(screen.selected, Some(1));
    assert_eq!(screen.info, "second");
    assert_eq!(screen.info_scroll, 3);
}

#[test]
fn screen_of_the_edit_popup() {
    let mut app = app();
    for key in [Key::Char('a'), Key::Char('x'), Key::Tab, Key::Char('y')] {
        app.handle_input(key);
    }
    match ui(&app).popup {
        Some(PopupScreen::Edit { title, description, editing }) => {
            assert_eq!(title, "x");
            assert_eq!(description, "y█");
            assert_eq!(editing, CurrentEdit::Body);
        }
        other => panic!("no edit popup: {other:?}"),
    }
    app.handle_input(Key::Tab);
    match ui(&app).popup {
        Some(PopupScreen::Edit { title, description, editing }) => {
            assert_eq!(title, "x█");
            assert_eq!(description, "y");
            assert_eq!(editing, CurrentEdit::Title);
        }
        other => panic!("no edit popup: {other:?}"),
    }
}

#[test]
fn screen_of_the_help_popup() {
    let mut app = app();
    app.handle_input(Key::Char('?'));
    app.handle_input(Key::Char('j'));
    match ui(&app).popup {
        Some(PopupScreen::Help { options, selected, description }) => {
            assert_eq!(
                keys_of(&options),
                vec![(0, "q".to_string()), (1, "j".to_string()), (2, "?".to_string())]
            );
            assert_eq!(selected, 1);
            assert_eq!(description, "down 1");
        }
        other => panic!("no help popup: {other:?}"),
    }
}

#[test]
fn screen_of_the_help_popup_with_a_search() {
    let mut app = app();
    for key in [Key::Char('?'), Key::Char('j'), Key::Char('j'), Key::Char('/'), Key::Char('o'), Key::Char('w')] {
        app.handle_input(key);
    }
    let screen = ui(&app);
    assert_eq!(screen.substate, Some("/ow█".to_string()));
    match screen.popup {
        Some(PopupScreen::Help { options, selected, description }) => {
            assert_eq!(keys_of(&options), vec![(1, "j".to_string()), (2, "?".to_string())]);
            assert_eq!(selected, 0);
            assert_eq!(description, "down 1");
        }
        other => panic!("no help popup: {other:?}"),
    }
    app.handle_input(Key::Enter);
    app.handle_input(Key::Char('j'));
    let screen = ui(&app);
    assert_eq!(screen.substate, Some("/ow".to_string()));
    match screen.popup {
        Some(PopupScreen::Help { options, selected, description }) => {
            assert_eq!(options.len(), 2);
            assert_eq!(selected, 1);
            assert_eq!(description, "show this table");
        }
        other => panic!("no help popup: {other:?}"),
    }
    app.handle_input(Key::Char('j'));
    match ui(&app).popup {
        Some(PopupScreen::Help { options, selected, description }) => {
            assert_eq!(options.len(), 2);
            assert_eq!(selected, 2);
            assert_eq!(description, "");
        }
        other => panic!("no help popup: {other:?}"),
    }
}

#[test]
fn help_options_without_a_popup() {
    let mut app = app();
    assert_eq!(keys_of(&help_options(&app)).len(), 3);
    app.substate = Some((false, Substate::Filter("zzz".to_string())));
    assert_eq!(help_options(&app).len(), 0);
    match popup_screen(&app, &Popup::Help(0)) {
        PopupScreen::Help { options, selected, description } => {
            assert!(options.is_empty());
            assert_eq!(selected, 0);
            assert_eq!(description, "");
        }
        other => panic!("no help popup: {other:?}"),
    }
}
