//! The application's state and what each key press makes of it.
use vstd::prelude::*;

use crate::help::item_pairs;
use crate::key::Key;
use crate::parse::todo::{self, entered, item_views, ItemView};
use crate::popup::{without_last, ActionView, Popup, PopupView, ReturnAction};
use crate::help::ParseError;
use crate::static_info::{lists_of, StaticInfo};

verus! {

/// The name of the todo list that the application shows and changes.
pub const ACTIVE_LIST: &'static str = "AndyCo";

/// The name of the active list, as text.
pub open spec fn active_name() -> Seq<char> {
    ACTIVE_LIST@
}

/// The screen that is shown behind all popups.
#[derive(Debug, Clone, Copy, PartialEq, Eq)]
pub enum CurrentSelection {
    /// The list of titles is in focus.
    Menu,
    /// The description of the selected item is in focus.
    Description,
}

/// The direction in which the selection moves.
#[derive(Debug, Clone, Copy, PartialEq, Eq)]
pub enum Direction {
    /// To the next index, from the last to the first.
    Up,
    /// To the index before, from the first to the last.
    Down,
}

/// The current layout of the screen.
#[derive(Debug, Clone, Copy, PartialEq, Eq)]
pub enum ScreenLayout {
    /// Everything is at its smallest size
    Small,
}

/// The part of a todo item that is being edited.
#[derive(Debug, Clone, Copy, PartialEq, Eq)]
pub enum CurrentEdit {
    /// The title.
    Title,
    /// The description.
    Body,
}

/// A mode that takes the key presses before popup and screen do.
#[derive(Debug)]
pub enum Substate {
    /// A search; it holds the text searched for.
    Filter(String),
}

/// A substate as plain values.
pub enum SubstateView {
    /// A search for the given text.
    Filter(Seq<char>),
}

impl View for Substate {
    type V = SubstateView;

    open spec fn view(&self) -> SubstateView {
        match self {
            Substate::Filter(query) => SubstateView::Filter(query@),
        }
    }
}

/// Contains all state information of the app
#[derive(Debug)]
pub struct App {
    /// The screen that the user is currently selecting
    pub current_selection: CurrentSelection,
    /// The popup that is shown above everything
    pub popup: Option<Popup>,
    /// The title of the application
    pub title: String,
    /// The currently selected item (An index)
    pub selected: Option<usize>,
    /// The current layout of the screen
    pub layout: ScreenLayout,
    /// The help table and the todo lists.
    pub static_information: StaticInfo,
    /// The substate, if there is one, and whether it takes the key presses.
    pub substate: Option<(bool, Substate)>,
}

/// The application's state as plain values.
pub struct AppView {
    /// The screen in focus.
    pub current_selection: CurrentSelection,
    /// The open popup.
    pub popup: Option<PopupView>,
    /// The title of the application.
    pub title: Seq<char>,
    /// The index of the selected item of the active list.
    pub selected: Option<nat>,
    /// The layout of the screen.
    pub layout: ScreenLayout,
    /// The help table: keys and explanations.
    pub help: Seq<(Seq<char>, Seq<char>)>,
    /// The todo lists by name.
    pub lists: Map<Seq<char>, Seq<ItemView>>,
    /// The substate, and whether it takes the key presses.
    pub substate: Option<(bool, SubstateView)>,
}

/// The selection after a move in direction `dir` over a list of `len` items:
/// to the next index or the one before, around the ends; from no selection
/// to the first index (up) or the last (down). An empty list has no
/// selection to move.
pub open spec fn move_selection(selected: Option<nat>, dir: Direction, len: nat) -> Option<nat> {
    if len == 0 {
        selected
    } else {
        match dir {
            Direction::Up => match selected {
                None => Some(0),
                Some(x) => Some((((x + 1) as int) % (len as int)) as nat),
            },
            Direction::Down => match selected {
                None => Some((len - 1) as nat),
                Some(x) => Some((((x + len - 1) as int) % (len as int)) as nat),
            },
        }
    }
}

/// The selection after `times` moves in direction `dir`.
pub open spec fn moved_times(selected: Option<nat>, dir: Direction, len: nat, times: nat) -> Option<
    nat,
>
    decreases times,
{
    if times == 0 {
        selected
    } else {
        move_selection(moved_times(selected, dir, len, (times - 1) as nat), dir, len)
    }
}

/// Where the selection is after a number of moves: as many places further
/// up, or down, around the ends.
pub proof fn lemma_moved_times(x: nat, dir: Direction, len: nat, times: nat)
    requires
        x < len,
    ensures
        moved_times(Some(x), dir, len, times) == Some(
            match dir {
                Direction::Up => (((x + times) as int) % (len as int)) as nat,
                Direction::Down => ((x + times * (len - 1)) % (len as int)) as nat,
            },
        ),
    decreases times,
{
    if times == 0 {
        vstd::arithmetic::div_mod::lemma_small_mod(x, len);
        assert(times * (len - 1) == 0) by (nonlinear_arith)
            requires
                times == 0,
        ;
    } else {
        let before = (times - 1) as nat;
        lemma_moved_times(x, dir, len, before);
        match dir {
            Direction::Up => {
                vstd::arithmetic::div_mod::lemma_add_mod_noop_right(
                    1,
                    (x + before) as int,
                    len as int,
                );
            },
            Direction::Down => {
                vstd::arithmetic::div_mod::lemma_add_mod_noop_right(
                    len - 1,
                    x + before * (len - 1),
                    len as int,
                );
                assert(before * (len - 1) + (len - 1) == times * (len - 1)) by (nonlinear_arith)
                    requires
                        before + 1 == times,
                ;
                assert(before * (len - 1) >= 0) by (nonlinear_arith)
                    requires
                        before >= 0,
                        len >= 1,
                ;
            },
        }
    }
}

/// In a list of `len` items, `len` moves in one direction bring the
/// selection back to the item it was on.
pub proof fn lemma_full_circle(x: nat, dir: Direction, len: nat)
    requires
        x < len,
    ensures
        moved_times(Some(x), dir, len, len) == Some(x),
{
    lemma_moved_times(x, dir, len, len);
    vstd::arithmetic::div_mod::lemma_small_mod(x, len);
    match dir {
        Direction::Up => {
            vstd::arithmetic::div_mod::lemma_mod_add_multiples_vanish(x as int, len as int);
        },
        Direction::Down => {
            vstd::arithmetic::div_mod::lemma_mod_multiples_vanish(
                len - 1,
                x as int,
                len as int,
            );
            assert(len * (len - 1) == (len - 1) * len) by (nonlinear_arith);
        },
    }
}

impl AppView {
    /// There is an active list, and the selection and the item that the
    /// popup changes are indices of it.
    pub open spec fn wf(self) -> bool {
        &&& self.lists.contains_key(active_name())
        &&& self.selected matches Some(i) ==> i < self.active().len()
        &&& self.popup matches Some(PopupView::Edit { to_change: Some(i), .. }) ==> i
            < self.active().len()
    }

    /// The active list.
    pub open spec fn active(self) -> Seq<ItemView> {
        self.lists[active_name()]
    }

    /// The state with `items` as the active list.
    pub open spec fn with_active(self, items: Seq<ItemView>) -> AppView {
        AppView { lists: self.lists.insert(active_name(), items), ..self }
    }

    /// The state after a move of the selection.
    pub open spec fn moved(self, dir: Direction) -> AppView {
        AppView { selected: move_selection(self.selected, dir, self.active().len()), ..self }
    }

    /// The state with a popup that edits the selected item, beginning at its
    /// title; the same state where nothing is selected.
    pub open spec fn editing(self) -> AppView {
        match self.selected {
            Some(i) => AppView {
                popup: Some(
                    PopupView::Edit {
                        title: self.active()[i as int].title,
                        description: self.active()[i as int].description,
                        editing: CurrentEdit::Title,
                        to_change: Some(i),
                    },
                ),
                ..self
            },
            None => self,
        }
    }

    /// The state with a popup that writes a new item, beginning at its
    /// title.
    pub open spec fn adding(self) -> AppView {
        AppView {
            popup: Some(
                PopupView::Edit {
                    title: Seq::empty(),
                    description: Seq::empty(),
                    editing: CurrentEdit::Title,
                    to_change: None,
                },
            ),
            ..self
        }
    }

    /// Whether a substate takes the key presses.
    pub open spec fn capturing(self) -> bool {
        self.substate matches Some((true, _))
    }

    /// The state after `key` went to the search: a character key adds its
    /// character to the text searched for, Backspace takes the last one off,
    /// Enter keeps the text and ends the taking of key presses, Escape ends
    /// the search.
    pub open spec fn filtered(self, key: Key) -> AppView {
        match self.substate {
            Some((true, SubstateView::Filter(query))) => match key {
                Key::Enter => AppView {
                    substate: Some((false, SubstateView::Filter(query))),
                    ..self
                },
                Key::Esc => AppView { substate: None, ..self },
                Key::Backspace => AppView {
                    substate: Some((true, SubstateView::Filter(without_last(query)))),
                    ..self
                },
                Key::Char(c) => AppView {
                    substate: Some((true, SubstateView::Filter(query.push(c)))),
                    ..self
                },
                _ => self,
            },
            _ => self,
        }
    }

    /// The state with the first entry selected in the help table, where that
    /// is open.
    pub open spec fn help_reset(self) -> AppView {
        match self.popup {
            Some(PopupView::Help(_)) => AppView { popup: Some(PopupView::Help(0)), ..self },
            _ => self,
        }
    }

    /// The state after a key press that the substate takes.
    pub open spec fn substate_step(self, key: Key) -> AppView {
        if key == Key::Enter {
            self.filtered(key).help_reset()
        } else {
            self.filtered(key)
        }
    }

    /// The state after the popup's action was carried out: the popup closed,
    /// an item put in the place of another or entered into the active list
    /// at the place its score gives it, or a substate begun.
    pub open spec fn applied(self, action: ActionView) -> AppView {
        match action {
            ActionView::Exit => AppView { popup: None, ..self },
            ActionView::Nothing => self,
            ActionView::Edit(i, item) => AppView {
                popup: None,
                ..self.with_active(self.active().update(i as int, item))
            },
            ActionView::Add(item) => AppView {
                popup: None,
                ..self.with_active(entered(self.active(), item))
            },
            ActionView::EnterSubState(s) => AppView { substate: Some((true, s)), ..self },
        }
    }

    /// The state after a key press that the open popup takes.
    pub open spec fn popup_step(self, key: Key) -> AppView {
        match self.popup {
            Some(popup) => AppView {
                popup: Some(popup.next(key, self.help.len())),
                ..self
            }.applied(popup.action(key)),
            None => self,
        }
    }

    /// The state without the selected item. The selection stays where it
    /// was, but for the last item: there it moves to the item before, or is
    /// given up where no item is left.
    pub open spec fn deleted(self) -> AppView {
        match self.selected {
            Some(i) => {
                let rest = self.active().remove(i as int);
                AppView {
                    selected: if i == rest.len() {
                        if rest.len() == 0 {
                            None
                        } else {
                            Some((i - 1) as nat)
                        }
                    } else {
                        Some(i)
                    },
                    ..self.with_active(rest)
                }
            },
            None => self,
        }
    }

    /// The state with the selected item's description scrolled to `to`.
    pub open spec fn scrolled_to(self, i: nat, to: nat) -> AppView {
        self.with_active(
            self.active().update(
                i as int,
                ItemView { description_scroll: to, ..self.active()[i as int] },
            ),
        )
    }

    /// The state with the selected item's description one line further
    /// down, unless the last item of the list is selected, or the position
    /// is the largest number there is.
    pub open spec fn scrolled_down(self) -> AppView {
        match self.selected {
            Some(i) => {
                let at = self.active()[i as int].description_scroll;
                if i + 1 != self.active().len() && at < usize::MAX {
                    self.scrolled_to(i, at + 1)
                } else {
                    self
                }
            },
            None => self,
        }
    }

    /// The state with the selected item's description one line further up,
    /// unless it is at the top.
    pub open spec fn scrolled_up(self) -> AppView {
        match self.selected {
            Some(i) => {
                let at = self.active()[i as int].description_scroll;
                if at > 0 {
                    self.scrolled_to(i, (at - 1) as nat)
                } else {
                    self
                }
            },
            None => self,
        }
    }

    /// The state after a key press on the list of titles.
    pub open spec fn menu_step(self, key: Key) -> AppView {
        match key {
            Key::Char(c) => if c == '?' {
                AppView { popup: Some(PopupView::Help(0)), ..self }
            } else if c == 'j' {
                self.moved(Direction::Up)
            } else if c == 'k' {
                self.moved(Direction::Down)
            } else if c == 'e' {
                self.editing()
            } else if c == 'a' {
                self.adding()
            } else if c == 'd' {
                self.deleted()
            } else if c == '/' {
                AppView { substate: Some((true, SubstateView::Filter(Seq::empty()))), ..self }
            } else {
                self
            },
            Key::Down => self.moved(Direction::Up),
            Key::Up => self.moved(Direction::Down),
            Key::Enter => if self.selected is Some {
                AppView { current_selection: CurrentSelection::Description, ..self }
            } else {
                self
            },
            _ => self,
        }
    }

    /// The state after a key press on the description.
    pub open spec fn description_step(self, key: Key) -> AppView {
        match key {
            Key::Char(c) => if c == 'q' {
                AppView { current_selection: CurrentSelection::Menu, ..self }
            } else if c == 'j' {
                self.scrolled_down()
            } else if c == 'k' {
                self.scrolled_up()
            } else {
                self
            },
            Key::Down => self.scrolled_down(),
            Key::Up => self.scrolled_up(),
            _ => self,
        }
    }

    /// The state after a key press. A substate that takes key presses gets
    /// it; else the open popup; else the screen in focus.
    pub open spec fn step(self, key: Key) -> AppView {
        if self.capturing() {
            self.substate_step(key)
        } else if self.popup is Some {
            self.popup_step(key)
        } else {
            match self.current_selection {
                CurrentSelection::Menu => self.menu_step(key),
                CurrentSelection::Description => self.description_step(key),
            }
        }
    }

    /// Whether `key` ends the application: `q` on the list of titles, with
    /// no popup open and no substate taking the key.
    pub open spec fn quits(self, key: Key) -> bool {
        &&& !self.capturing()
        &&& self.popup is None
        &&& self.current_selection == CurrentSelection::Menu
        &&& key == Key::Char('q')
    }
}

/// What a key press did in the substate.
enum SubstateReturn {
    /// No substate took the key: go on with popup and screen.
    Continue,
    /// The substate took the key.
    Exit,
    /// The substate took the key and asks for the first entry to be
    /// selected.
    Select,
}

/// Looking at the lists as plain values after one of them was replaced is
/// replacing that list's values.
pub proof fn lemma_views_insert(
    lists: Map<Seq<char>, Seq<todo::Item>>,
    name: Seq<char>,
    list: Seq<todo::Item>,
)
    ensures
        lists.insert(name, list).map_values(|l: Seq<todo::Item>| item_views(l)) == lists.map_values(
            |l: Seq<todo::Item>| item_views(l),
        ).insert(name, item_views(list)),
{
    assert(lists.insert(name, list).map_values(|l: Seq<todo::Item>| item_views(l))
        =~= lists.map_values(|l: Seq<todo::Item>| item_views(l)).insert(name, item_views(list)));
}

impl View for App {
    type V = AppView;

    open spec fn view(&self) -> AppView {
        AppView {
            current_selection: self.current_selection,
            popup: match self.popup {
                Some(p) => Some(p@),
                None => None,
            },
            title: self.title@,
            selected: match self.selected {
                Some(i) => Some(i as nat),
                None => None,
            },
            layout: self.layout,
            help: item_pairs(self.static_information.help@),
            lists: self.static_information.lists_view().map_values(
                |list: Seq<todo::Item>| item_views(list),
            ),
            substate: match self.substate {
                Some((capturing, s)) => Some((capturing, s@)),
                None => None,
            },
        }
    }
}

impl App {
    /// No list name stands for two lists, there is an active list, and the
    /// selection and the item that the popup changes are indices of it.
    pub open spec fn wf(&self) -> bool {
        self.static_information.wf() && self@.wf()
    }

    /// The application at its start, over the lists that `lists` names
    /// and the help table read from the text `help`: the list of titles in
    /// focus, nothing selected, no popup, no substate. It fails where the
    /// help table cannot be read. The result is ready for key presses if
    /// `lists` names the active list.
    pub fn from_files(lists: Vec<(String, Vec<todo::Item>)>, help: &str) -> (r: Result<
        Self,
        ParseError,
    >)
        ensures
            match r {
                Ok(app) => {
                    &&& app.static_information.loaded_from(lists@, help@)
                    &&& app.current_selection == CurrentSelection::Menu
                    &&& app.layout == ScreenLayout::Small
                    &&& app.popup is None
                    &&& app.selected is None
                    &&& app.substate is None
                    &&& app.title@ == Seq::<char>::empty()
                    &&& (app.wf() <==> lists_of(lists@).contains_key(active_name()))
                },
                Err(_) => crate::help::json_string_map(help@) is None,
            },
    {
        match StaticInfo::from(lists, help) {
            Ok(static_information) => Ok(
                App {
                    layout: ScreenLayout::Small,
                    current_selection: CurrentSelection::Menu,
                    popup: None,
                    selected: None,
                    title: String::new(),
                    static_information,
                    substate: None,
                },
            ),
            Err(e) => Err(e),
        }
    }

    /// Whether the state is one that key presses can be handed to.
    pub fn well_formed(&self) -> (r: bool)
        ensures
            r == self.wf(),
    {
        if !self.static_information.is_wf() {
            return false;
        }
        let len = match self.static_information.list(ACTIVE_LIST) {
            Some(list) => list.amount(),
            None => {
                return false;
            },
        };
        if let Some(i) = self.selected {
            if i >= len {
                return false;
            }
        }
        if let Some(Popup::Edit { to_change: Some(i), .. }) = &self.popup {
            if *i >= len {
                return false;
            }
        }
        true
    }

    /// The number of items in the active list.
    pub fn active_len(&self) -> (n: usize)
        requires
            self.static_information.wf(),
            self@.lists.contains_key(active_name()),
        ensures
            n == self@.active().len(),
    {
        match self.static_information.list(ACTIVE_LIST) {
            Some(list) => list.amount(),
            None => 0,
        }
    }

    /// Changes what item is selected.
    pub fn change_menu_item(&mut self, dir: &Direction)
        requires
            old(self).wf(),
        ensures
            final(self)@ == old(self)@.moved(*dir),
            final(self).wf(),
    {
        let len = self.active_len();
        if len == 0 {
            return ;
        }
        match *dir {
            Direction::Up => {
                self.selected = match self.selected {
                    None => Some(0),
                    Some(x) => Some((x + 1) % len),
                };
            },
            Direction::Down => {
                self.selected = match self.selected {
                    None => Some(len - 1),
                    Some(x) => {
                        if x == 0 {
                            assert((x + len - 1) % (len as int) == len - 1) by {
                                vstd::arithmetic::div_mod::lemma_small_mod(
                                    (len - 1) as nat,
                                    len as nat,
                                );
                            }
                            Some(len - 1)
                        } else {
                            assert((x + len - 1) % (len as int) == x - 1) by {
                                vstd::arithmetic::div_mod::lemma_mod_add_multiples_vanish(
                                    x - 1,
                                    len as int,
                                );
                                vstd::arithmetic::div_mod::lemma_small_mod(
                                    (x - 1) as nat,
                                    len as nat,
                                );
                            }
                            Some(x - 1)
                        }
                    },
                };
            },
        }
    }

    /// Puts `item` in the place of the item at `index` of the active list.
    fn set_item(&mut self, index: usize, item: todo::Item)
        requires
            old(self).wf(),
            index < old(self)@.active().len(),
        ensures
            final(self)@ == old(self)@.with_active(old(self)@.active().update(index as int, item@)),
            final(self).wf(),
    {
        let ghost before = self.static_information.lists_view();
        if let Some(list) = self.static_information.list_mut(ACTIVE_LIST) {
            let ghost was = list@;
            if let Ok(slot) = list.index_mut(index) {
                *slot = item;
            }
            proof {
                assert(item_views(list@) =~= item_views(was).update(index as int, item@));
                lemma_views_insert(before, active_name(), list@);
            }
        }
    }

    /// Enters `item` into the active list at the place its score gives it.
    fn add_item(&mut self, item: todo::Item)
        requires
            old(self).wf(),
        ensures
            final(self)@ == old(self)@.with_active(entered(old(self)@.active(), item@)),
            final(self).wf(),
    {
        let ghost before = self.static_information.lists_view();
        if let Some(list) = self.static_information.list_mut(ACTIVE_LIST) {
            proof {
                todo::lemma_entered(list@, item);
                crate::ranking::lemma_first_greater(
                    todo::view_scores(item_views(list@)),
                    item@.score(Seq::empty()),
                );
            }
            list.add(item);
            proof {
                lemma_views_insert(before, active_name(), list@);
            }
        }
    }

    /// Takes the item at `index` out of the active list.
    fn remove_item(&mut self, index: usize)
        requires
            old(self).wf(),
            index < old(self)@.active().len(),
        ensures
            final(self)@ == old(self)@.with_active(old(self)@.active().remove(index as int)),
            final(self).static_information.wf(),
    {
        let ghost before = self.static_information.lists_view();
        if let Some(list) = self.static_information.list_mut(ACTIVE_LIST) {
            let ghost was = list@;
            let _ = list.remove(index);
            proof {
                assert(item_views(list@) =~= item_views(was).remove(index as int));
                lemma_views_insert(before, active_name(), list@);
            }
        }
    }

    /// Scrolls the description of the item at `index` by one line, down or
    /// up, as far as there is a line to go to.
    fn scroll_item(&mut self, index: usize, down: bool)
        requires
            old(self).wf(),
            index < old(self)@.active().len(),
        ensures
            final(self)@ == ({
                let at = old(self)@.active()[index as int].description_scroll;
                if down && at < usize::MAX {
                    old(self)@.scrolled_to(index as nat, at + 1)
                } else if !down && at > 0 {
                    old(self)@.scrolled_to(index as nat, (at - 1) as nat)
                } else {
                    old(self)@
                }
            }),
            final(self).wf(),
    {
        let ghost before = self.static_information.lists_view();
        if let Some(list) = self.static_information.list_mut(ACTIVE_LIST) {
            let ghost was = list@;
            if let Ok(item) = list.index_mut(index) {
                if down {
                    if item.description_scroll < usize::MAX {
                        item.description_scroll = item.description_scroll + 1;
                    }
                } else {
                    if item.description_scroll > 0 {
                        item.description_scroll = item.description_scroll - 1;
                    }
                }
            }
            proof {
                let at = was[index as int].description_scroll;
                if down && at < usize::MAX {
                    assert(item_views(list@) =~= item_views(was).update(
                        index as int,
                        ItemView { description_scroll: (at + 1) as nat, ..was[index as int]@ },
                    ));
                } else if !down && at > 0 {
                    assert(item_views(list@) =~= item_views(was).update(
                        index as int,
                        ItemView { description_scroll: (at - 1) as nat, ..was[index as int]@ },
                    ));
                } else {
                    assert(list@ =~= was);
                }
                lemma_views_insert(before, active_name(), list@);
                assert(old(self)@.lists.insert(active_name(), old(self)@.active()) =~= old(self)@.lists);
            }
        }
    }

    /// Opens the popup that edits the selected item; does nothing where no
    /// item is selected. No popup may be open.
    pub fn edit(&mut self)
        requires
            old(self).wf(),
            old(self).popup is None,
        ensures
            final(self)@ == old(self)@.editing(),
            final(self).wf(),
    {
        let loc = match self.selected {
            Some(loc) => loc,
            None => {
                return ;
            },
        };
        if let Some(list) = self.static_information.list(ACTIVE_LIST) {
            if let Ok(item) = list.index(loc) {
                self.popup = Some(
                    Popup::Edit {
                        title: item.title.clone(),
                        description: item.description.clone(),
                        editing: CurrentEdit::Title,
                        to_change: Some(loc),
                    },
                );
            }
        }
    }

    /// Opens the popup that writes a new item. No popup may be open.
    pub fn add(&mut self)
        requires
            old(self).wf(),
            old(self).popup is None,
        ensures
            final(self)@ == old(self)@.adding(),
            final(self).wf(),
    {
        self.popup = Some(
            Popup::Edit {
                title: String::new(),
                description: String::new(),
                editing: CurrentEdit::Title,
                to_change: None,
            },
        );
    }

    /// Hands `key` to the substate, if one takes key presses, and says
    /// whether it did.
    fn handle_substate(&mut self, key: Key) -> (r: SubstateReturn)
        requires
            old(self).wf(),
        ensures
            final(self)@ == old(self)@.filtered(key),
            final(self).wf(),
            r is Continue <==> !old(self)@.capturing(),
            r is Select <==> old(self)@.capturing() && key == Key::Enter,
    {
        let capturing = match &self.substate {
            Some((capturing, _)) => *capturing,
            None => false,
        };
        if !capturing {
            return SubstateReturn::Continue;
        }
        match key {
            Key::Enter => {
                if let Some((capturing, _)) = &mut self.substate {
                    *capturing = false;
                }
                SubstateReturn::Select
            },
            Key::Esc => {
                self.substate = None;
                SubstateReturn::Exit
            },
            Key::Backspace => {
                if let Some((_, Substate::Filter(search))) = &mut self.substate {
                    let _ = search.pop();
                }
                SubstateReturn::Exit
            },
            Key::Char(c) => {
                if let Some((_, Substate::Filter(search))) = &mut self.substate {
                    search.push(c);
                }
                SubstateReturn::Exit
            },
            _ => SubstateReturn::Exit,
        }
    }

    /// Hands `key` to the open popup and carries out what it asks for.
    fn handle_popup(&mut self, key: Key)
        requires
            old(self).wf(),
            old(self).popup is Some,
        ensures
            final(self)@ == old(self)@.popup_step(key),
            final(self).wf(),
    {
        let action = match &mut self.popup {
            Some(popup) => popup.handle_input(key, &self.static_information.help),
            None => ReturnAction::Nothing,
        };
        match action {
            ReturnAction::Exit => {
                self.popup = None;
            },
            ReturnAction::Nothing => {},
            ReturnAction::Edit(index, value) => {
                self.popup = None;
                if index < self.active_len() {
                    self.set_item(index, todo::Item::from(value));
                }
            },
            ReturnAction::Add(value) => {
                self.popup = None;
                self.add_item(todo::Item::from(value));
            },
            ReturnAction::EnterSubState(substate) => {
                self.substate = Some((true, substate));
            },
        }
    }

    /// Takes a key press on the list of titles; returns whether the key
    /// ends the application.
    fn handle_menu(&mut self, key: Key) -> (quit: bool)
        requires
            old(self).wf(),
            old(self).popup is None,
        ensures
            final(self)@ == old(self)@.menu_step(key),
            final(self).wf(),
            quit == (key == Key::Char('q')),
    {
        match key {
            Key::Char(c) => {
                if c == 'q' {
                    return true;
                } else if c == '?' {
                    self.popup = Some(Popup::Help(0));
                } else if c == 'j' {
                    self.change_menu_item(&Direction::Up);
                } else if c == 'k' {
                    self.change_menu_item(&Direction::Down);
                } else if c == 'e' {
                    self.edit();
                } else if c == 'a' {
                    self.add();
                } else if c == 'd' {
                    self.delete();
                } else if c == '/' {
                    self.substate = Some((true, Substate::Filter(String::new())));
                }
            },
            Key::Down => self.change_menu_item(&Direction::Up),
            Key::Up => self.change_menu_item(&Direction::Down),
            Key::Enter => {
                if self.selected.is_some() {
                    self.current_selection = CurrentSelection::Description;
                }
            },
            _ => {},
        }
        false
    }

    /// Removes the selected item from the active list and keeps the
    /// selection on an item, as far as one is left.
    fn delete(&mut self)
        requires
            old(self).wf(),
            old(self).popup is None,
        ensures
            final(self)@ == old(self)@.deleted(),
            final(self).wf(),
    {
        if let Some(selected) = self.selected {
            self.remove_item(selected);
            let left = self.active_len();
            if selected == left {
                if left == 0 {
                    self.selected = None;
                } else {
                    self.selected = Some(selected - 1);
                }
            }
        }
    }

    /// Takes a key press on the description.
    fn handle_description(&mut self, key: Key)
        requires
            old(self).wf(),
        ensures
            final(self)@ == old(self)@.description_step(key),
            final(self).wf(),
    {
        let down = match key {
            Key::Char(c) => {
                if c == 'q' {
                    self.current_selection = CurrentSelection::Menu;
                    return ;
                } else if c == 'j' {
                    true
                } else if c == 'k' {
                    false
                } else {
                    return ;
                }
            },
            Key::Down => true,
            Key::Up => false,
            _ => {
                return ;
            },
        };
        if let Some(selected) = self.selected {
            if down {
                let len = self.active_len();
                if selected + 1 != len {
                    self.scroll_item(selected, true);
                }
            } else {
                self.scroll_item(selected, false);
            }
        }
    }

    /// Takes a key press and changes the state as `AppView::step` says.
    /// Returns `Some(true)` where the key ends the application, else `None`.
    pub fn handle_input(&mut self, key: Key) -> (r: Option<bool>)
        requires
            old(self).wf(),
        ensures
            final(self)@ == old(self)@.step(key),
            final(self).wf(),
            r == (if old(self)@.quits(key) {
                Some(true)
            } else {
                None
            }),
    {
        match self.handle_substate(key) {
            SubstateReturn::Continue => {},
            SubstateReturn::Exit => {
                return None;
            },
            SubstateReturn::Select => {
                if let Some(Popup::Help(selected)) = &mut self.popup {
                    *selected = 0;
                }
                return None;
            },
        }
        if self.popup.is_some() {
            self.handle_popup(key);
            None
        } else {
            match self.current_selection {
                CurrentSelection::Menu => {
                    if self.handle_menu(key) {
                        Some(true)
                    } else {
                        None
                    }
                },
                CurrentSelection::Description => {
                    self.handle_description(key);
                    None
                },
            }
        }
    }
}

} // verus!
