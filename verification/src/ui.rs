//! What the screen shows of a state: the texts, lists and marks that a
//! terminal then draws.
use vstd::prelude::*;
use vstd::string::StringExecFns;

use crate::app::{App, CurrentEdit, CurrentSelection, Substate, SubstateView};
use crate::help;
use crate::parse::todo::Items;
use crate::parse::ListItem;
use crate::popup::Popup;
use crate::query_spec;

verus! {

/// The mark that stands where the next character goes.
pub const CURSOR: char = '\u{2588}';

/// `text`, followed by the cursor where the text is in focus.
pub open spec fn with_cursor(text: Seq<char>, focused: bool) -> Seq<char> {
    if focused {
        text.push(CURSOR)
    } else {
        text
    }
}

impl SubstateView {
    /// The line that shows the substate: a slash and the text searched for,
    /// and the cursor while the search takes the key presses.
    pub open spec fn line(self, in_state: bool) -> Seq<char> {
        match self {
            SubstateView::Filter(query) => with_cursor(seq!['/'] + query, in_state),
        }
    }
}

/// What the popup shows.
#[derive(Debug)]
pub enum PopupScreen {
    /// An item that is being written.
    Edit {
        /// The title, with the cursor where the title is in focus.
        title: String,
        /// The description, with the cursor where it is in focus.
        description: String,
        /// The part in focus.
        editing: CurrentEdit,
    },
    /// The help table.
    Help {
        /// The entries listed, each with its position in the table.
        options: Vec<(usize, help::Item)>,
        /// The row that is marked.
        selected: usize,
        /// The explanation beside the list: that of the marked row.
        description: String,
    },
}

/// What the screen shows.
#[derive(Debug)]
pub struct Screen {
    /// The line of the substate, where there is one.
    pub substate: Option<String>,
    /// The screen in focus.
    pub focus: CurrentSelection,
    /// The title of the application.
    pub title: String,
    /// The titles of the active list.
    pub titles: Vec<String>,
    /// The index of the title that is marked.
    pub selected: Option<usize>,
    /// The description of the selected item; empty where none is selected.
    pub info: String,
    /// How far the description is scrolled.
    pub info_scroll: usize,
    /// The popup above everything, where one is open.
    pub popup: Option<PopupScreen>,
}

/// `text`, followed by the cursor where the text is in focus.
pub fn field_text(text: &str, focused: bool) -> (r: String)
    ensures
        r@ == with_cursor(text@, focused),
{
    let mut r = text.to_owned();
    if focused {
        r.push(CURSOR);
    }
    r
}

impl Substate {
    /// The line that shows the substate; `in_state` says whether the
    /// substate takes the key presses.
    pub fn render(&self, in_state: bool) -> (r: String)
        ensures
            r@ == self@.line(in_state),
    {
        match self {
            Substate::Filter(query) => {
                let mut r = String::new();
                r.push('/');
                r.append(query.as_str());
                if in_state {
                    r.push(CURSOR);
                }
                assert(r@ =~= self@.line(in_state));
                r
            },
        }
    }
}

/// Every entry of the table with its position.
pub open spec fn numbered(items: Seq<help::Item>) -> Seq<(usize, help::Item)> {
    Seq::new(items.len(), |i: int| (i as usize, items[i]))
}

/// The entries that the help popup lists: what the search finds where
/// there is a search, else every entry; each with its position in the
/// table.
pub open spec fn help_options_spec(
    help: Seq<help::Item>,
    substate: Option<(bool, Substate)>,
) -> Seq<(usize, help::Item)> {
    match substate {
        Some((_, Substate::Filter(query))) => query_spec(help, query@),
        None => numbered(help),
    }
}

/// The row that the help popup marks: the first while a search takes the
/// key presses, else the selected one.
pub open spec fn help_row(selected: usize, substate: Option<(bool, Substate)>) -> usize {
    match substate {
        Some((true, _)) => 0,
        _ => selected,
    }
}

/// The explanation of the entry in row `row`; empty where there is no such
/// row.
pub open spec fn help_description_spec(options: Seq<(usize, help::Item)>, row: usize) -> Seq<char> {
    if row < options.len() {
        options[row as int].1.0.1@
    } else {
        Seq::empty()
    }
}

/// The entries of the help table, copied.
fn help_items(help: &Items<help::Item>) -> (r: Vec<help::Item>)
    ensures
        r@ == help@,
{
    let mut r: Vec<help::Item> = Vec::new();
    let mut i: usize = 0;
    while i < help.amount()
        invariant
            i <= help@.len(),
            r@ == help@.take(i as int),
        decreases help@.len() - i,
    {
        if let Ok(item) = help.index(i) {
            r.push(item.clone());
        }
        assert(r@ =~= help@.take(i + 1));
        i += 1;
    }
    assert(help@.take(i as int) =~= help@);
    r
}

/// The entries that the help popup lists.
pub fn help_options(app: &App) -> (r: Vec<(usize, help::Item)>)
    ensures
        r@ == help_options_spec(app.static_information.help@, app.substate),
{
    let items = help_items(&app.static_information.help);
    match &app.substate {
        Some((_, Substate::Filter(query))) => crate::query(items, query.as_str()),
        None => {
            let ghost all = items@;
            let mut r: Vec<(usize, help::Item)> = Vec::new();
            for item in it: items
                invariant
                    it.seq() == all,
                    r@ == numbered(all).take(it.index() as int),
            {
                let at = r.len();
                r.push((at, item));
                assert(r@ =~= numbered(all).take(it.index() + 1));
            }
            assert(numbered(all).take(all.len() as int) =~= numbered(all));
            r
        },
    }
}

/// `shown` is what `popup` shows over the state `app`: of an item being
/// written, both parts, the one in focus with the cursor; of the help
/// table, the entries listed, the row marked and that row's explanation.
pub open spec fn popup_shown(app: &App, popup: Popup, shown: PopupScreen) -> bool {
    match popup {
        Popup::Edit { title, description, editing, .. } => shown matches PopupScreen::Edit {
            title: t,
            description: d,
            editing: e,
        } && t@ == with_cursor(title@, editing == CurrentEdit::Title) && d@ == with_cursor(
            description@,
            editing == CurrentEdit::Body,
        ) && e == editing,
        Popup::Help(selected) => shown matches PopupScreen::Help {
            options,
            selected: row,
            description,
        } && options@ == help_options_spec(app.static_information.help@, app.substate) && row
            == help_row(selected, app.substate) && description@ == help_description_spec(
            options@,
            row,
        ),
    }
}

/// What the open popup shows.
pub fn popup_screen(app: &App, popup: &Popup) -> (r: PopupScreen)
    ensures
        popup_shown(app, *popup, r),
{
    match popup {
        Popup::Edit { title, description, editing, .. } => {
            let on_title = match editing {
                CurrentEdit::Title => true,
                CurrentEdit::Body => false,
            };
            PopupScreen::Edit {
                title: field_text(title.as_str(), on_title),
                description: field_text(description.as_str(), !on_title),
                editing: *editing,
            }
        },
        Popup::Help(selected) => {
            let options = help_options(app);
            let row = match &app.substate {
                Some((true, _)) => 0,
                _ => *selected,
            };
            let description = if row < options.len() {
                options[row].1.description()
            } else {
                String::new()
            };
            PopupScreen::Help { options, selected: row, description }
        },
    }
}

/// What the screen shows of `app`.
pub fn ui(app: &App) -> (r: Screen)
    requires
        app.wf(),
    ensures
        match app.substate {
            Some((in_state, substate)) => r.substate matches Some(line) && line@
                == substate@.line(in_state),
            None => r.substate is None,
        },
        r.focus == app.current_selection,
        r.title@ == app.title@,
        r.titles@.len() == app@.active().len(),
        forall|i: int|
            0 <= i < r.titles@.len() ==> (#[trigger] r.titles@[i])@ == app@.active()[i].title,
        r.selected == app.selected,
        match app.selected {
            Some(i) => r.info@ == app@.active()[i as int].description && r.info_scroll
                == app@.active()[i as int].description_scroll,
            None => r.info@ == Seq::<char>::empty() && r.info_scroll == 0,
        },
        match app.popup {
            Some(popup) => r.popup matches Some(shown) && popup_shown(app, popup, shown),
            None => r.popup is None,
        },
{
    let substate = match &app.substate {
        Some((in_state, substate)) => Some(substate.render(*in_state)),
        None => None,
    };
    let mut titles: Vec<String> = Vec::new();
    let mut info = String::new();
    let mut info_scroll: usize = 0;
    if let Some(list) = app.static_information.list(crate::app::ACTIVE_LIST) {
        titles = list.titles();
        if let Some(i) = app.selected {
            if let Ok(item) = list.index(i) {
                info = item.description.clone();
                info_scroll = item.description_scroll;
            }
        }
    }
    let popup = match &app.popup {
        Some(popup) => Some(popup_screen(app, popup)),
        None => None,
    };
    Screen {
        substate,
        focus: app.current_selection,
        title: app.title.clone(),
        titles,
        selected: app.selected,
        info,
        info_scroll,
        popup,
    }
}

} // verus!
