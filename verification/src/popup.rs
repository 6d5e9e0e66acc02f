//! The popups: editing an item, browsing the help table.
use vstd::prelude::*;

use crate::app::{CurrentEdit, Substate, SubstateView};
use crate::help;
use crate::key::Key;
use crate::parse::todo::{ItemView, Items};

verus! {

/// State data for a popup
#[derive(Debug)]
pub enum Popup {
    /// An item is being written: a new one, or a change to one of the list.
    Edit {
        /// The title of the item
        title: String,
        /// The description of the item
        description: String,
        /// The part that key presses go to.
        editing: CurrentEdit,
        /// The index of the item that is changed; `None` for a new item.
        to_change: Option<usize>,
    },
    /// The help table, with the index of the selected entry.
    Help(usize),
}

/// A popup as plain values.
pub enum PopupView {
    /// An item is being written.
    Edit {
        /// The title so far.
        title: Seq<char>,
        /// The description so far.
        description: Seq<char>,
        /// The part that key presses go to.
        editing: CurrentEdit,
        /// The index of the item that is changed; `None` for a new item.
        to_change: Option<nat>,
    },
    /// The help table, with the index of the selected entry.
    Help(nat),
}

impl View for Popup {
    type V = PopupView;

    open spec fn view(&self) -> PopupView {
        match self {
            Popup::Edit { title, description, editing, to_change } => PopupView::Edit {
                title: title@,
                description: description@,
                editing: *editing,
                to_change: match to_change {
                    Some(i) => Some(*i as nat),
                    None => None,
                },
            },
            Popup::Help(selected) => PopupView::Help(*selected as nat),
        }
    }
}

/// What the owner of a popup is to do after a key press.
#[derive(Debug)]
pub enum ReturnAction {
    /// Close the popup.
    Exit,
    /// Do nothing
    Nothing,
    /// Put the new value in the place of the item at the index, and close
    /// the popup.
    Edit(usize, (String, (String, usize))),
    /// Add the value to the list, and close the popup.
    Add((String, (String, usize))),
    /// Enter a substate
    EnterSubState(Substate),
}

/// An action as plain values.
pub enum ActionView {
    /// Close the popup.
    Exit,
    /// Do nothing.
    Nothing,
    /// Put the item in the place of that at the index.
    Edit(nat, ItemView),
    /// Add the item to the list.
    Add(ItemView),
    /// Enter a substate.
    EnterSubState(SubstateView),
}

/// The item that a value of an action stands for.
pub open spec fn value_view(value: (String, (String, usize))) -> ItemView {
    ItemView { title: value.0@, description: value.1.0@, description_scroll: value.1.1 as nat }
}

impl View for ReturnAction {
    type V = ActionView;

    open spec fn view(&self) -> ActionView {
        match self {
            ReturnAction::Exit => ActionView::Exit,
            ReturnAction::Nothing => ActionView::Nothing,
            ReturnAction::Edit(i, value) => ActionView::Edit(*i as nat, value_view(*value)),
            ReturnAction::Add(value) => ActionView::Add(value_view(*value)),
            ReturnAction::EnterSubState(s) => ActionView::EnterSubState(s@),
        }
    }
}

/// `text` without its last character; the empty text stays empty.
pub open spec fn without_last(text: Seq<char>) -> Seq<char> {
    if text.len() > 0 {
        text.drop_last()
    } else {
        text
    }
}

impl PopupView {
    /// The popup after `key`, over a help table of `help_len` entries.
    ///
    /// While an item is written, Backspace takes the last character off the
    /// part in focus, a character key adds its character to it, and Tab
    /// moves the focus to the other part. In the help table `j` selects the
    /// next entry unless the last is selected, and `k` the one before
    /// unless the first is.
    pub open spec fn next(self, key: Key, help_len: nat) -> PopupView {
        match self {
            PopupView::Edit { title, description, editing, to_change } => match key {
                Key::Backspace => match editing {
                    CurrentEdit::Title => PopupView::Edit {
                        title: without_last(title),
                        description,
                        editing,
                        to_change,
                    },
                    CurrentEdit::Body => PopupView::Edit {
                        title,
                        description: without_last(description),
                        editing,
                        to_change,
                    },
                },
                Key::Tab => PopupView::Edit {
                    title,
                    description,
                    editing: match editing {
                        CurrentEdit::Title => CurrentEdit::Body,
                        CurrentEdit::Body => CurrentEdit::Title,
                    },
                    to_change,
                },
                Key::Char(c) => match editing {
                    CurrentEdit::Title => PopupView::Edit {
                        title: title.push(c),
                        description,
                        editing,
                        to_change,
                    },
                    CurrentEdit::Body => PopupView::Edit {
                        title,
                        description: description.push(c),
                        editing,
                        to_change,
                    },
                },
                _ => self,
            },
            PopupView::Help(selected) => match key {
                Key::Char(c) => if c == 'j' && selected + 1 < help_len {
                    PopupView::Help(selected + 1)
                } else if c == 'k' && selected > 0 {
                    PopupView::Help((selected - 1) as nat)
                } else {
                    self
                },
                _ => self,
            },
        }
    }

    /// What the owner is to do after `key`.
    ///
    /// While an item is written, Escape asks to close the popup, and Enter
    /// hands out the item written, scrolled to the top: as a change to the
    /// item at `to_change`, or as a new item where that is `None`. In the
    /// help table `q` asks to close the popup and `/` to start a search with
    /// an empty text.
    pub open spec fn action(self, key: Key) -> ActionView {
        match self {
            PopupView::Edit { title, description, editing, to_change } => match key {
                Key::Esc => ActionView::Exit,
                Key::Enter => {
                    let item = ItemView { title, description, description_scroll: 0 };
                    match to_change {
                        Some(i) => ActionView::Edit(i, item),
                        None => ActionView::Add(item),
                    }
                },
                _ => ActionView::Nothing,
            },
            PopupView::Help(_) => match key {
                Key::Char(c) => if c == 'q' {
                    ActionView::Exit
                } else if c == '/' {
                    ActionView::EnterSubState(SubstateView::Filter(Seq::empty()))
                } else {
                    ActionView::Nothing
                },
                _ => ActionView::Nothing,
            },
        }
    }
}

impl Popup {
    /// Takes a key press: changes the popup as `PopupView::next` says and
    /// returns the action that `PopupView::action` names.
    pub fn handle_input(&mut self, key: Key, help: &Items<help::Item>) -> (r: ReturnAction)
        ensures
            final(self)@ == old(self)@.next(key, help@.len()),
            r@ == old(self)@.action(key),
    {
        match self {
            Popup::Edit { title, description, editing, to_change } => match key {
                Key::Backspace => {
                    match editing {
                        CurrentEdit::Title => {
                            let _ = title.pop();
                        },
                        CurrentEdit::Body => {
                            let _ = description.pop();
                        },
                    }
                    ReturnAction::Nothing
                },
                Key::Esc => ReturnAction::Exit,
                Key::Enter => {
                    let value = (title.clone(), (description.clone(), 0usize));
                    match to_change {
                        Some(i) => ReturnAction::Edit(*i, value),
                        None => ReturnAction::Add(value),
                    }
                },
                Key::Tab => {
                    *editing = match editing {
                        CurrentEdit::Title => CurrentEdit::Body,
                        CurrentEdit::Body => CurrentEdit::Title,
                    };
                    ReturnAction::Nothing
                },
                Key::Char(c) => {
                    match editing {
                        CurrentEdit::Title => title.push(c),
                        CurrentEdit::Body => description.push(c),
                    }
                    ReturnAction::Nothing
                },
                _ => ReturnAction::Nothing,
            },
            Popup::Help(selected) => match key {
                Key::Char(c) => {
                    if c == 'q' {
                        ReturnAction::Exit
                    } else if c == 'j' {
                        if *selected < help.amount() && *selected + 1 < help.amount() {
                            *selected = *selected + 1;
                        }
                        ReturnAction::Nothing
                    } else if c == 'k' {
                        if *selected > 0 {
                            *selected = *selected - 1;
                        }
                        ReturnAction::Nothing
                    } else if c == '/' {
                        ReturnAction::EnterSubState(Substate::Filter(String::new()))
                    } else {
                        ReturnAction::Nothing
                    }
                },
                _ => ReturnAction::Nothing,
            },
        }
    }
}

} // verus!
