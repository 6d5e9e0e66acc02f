//! What a list shows of its items, and the todo items themselves.
use vstd::prelude::*;

pub mod todo;

verus! {

/// An item with a short title, shown in lists, and a longer description,
/// shown when the title is selected.
pub trait ListItem {
    /// The title, as text.
    spec fn title_spec(&self) -> Seq<char>;

    /// The description, as text.
    spec fn description_spec(&self) -> Seq<char>;

    /// The title of the item.
    fn title(&self) -> (r: String)
        ensures
            r@ == self.title_spec(),
    ;

    /// The description of the item.
    fn description(&self) -> (r: String)
        ensures
            r@ == self.description_spec(),
    ;
}

} // verus!
