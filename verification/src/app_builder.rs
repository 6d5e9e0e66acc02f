//! Building an application step by step.
use vstd::prelude::*;

use crate::app::{
    active_name, lemma_views_insert, App, AppView, CurrentSelection, ScreenLayout, ACTIVE_LIST,
};
use crate::parse::todo::{self, arranged_views, item_views, ItemView, Items};
use crate::static_info::StaticInfo;

verus! {

/// An [`App`] in the making: it starts with an empty active list and no
/// help, and takes a title and the items of the active list.
#[derive(Debug)]
pub struct AppBuilder(App);

/// The items that pairs of title and description stand for, each scrolled
/// to the top.
pub open spec fn option_views(options: Seq<(&str, &str)>) -> Seq<ItemView> {
    options.map_values(
        |o: (&str, &str)| ItemView { title: o.0@, description: o.1@, description_scroll: 0 },
    )
}

impl AppBuilder {
    #[verifier::type_invariant]
    spec fn inv(self) -> bool {
        self.0.wf() && self.0.selected is None && self.0.popup is None
    }

    /// The application as built so far.
    pub closed spec fn app(self) -> App {
        self.0
    }

    /// Set the title of the app
    pub fn with_title(self, title: &str) -> (r: Self)
        ensures
            r.app()@ == (AppView { title: title@, ..self.app()@ }),
    {
        proof {
            use_type_invariant(&self);
        }
        let mut app = self.0;
        app.title = title.to_owned();
        AppBuilder(app)
    }

    /// Set the options of the app: the items of the active list, given as
    /// pairs of title and description. The list holds them by ascending
    /// score, items of equal score in the order given.
    pub fn with_options(self, options: Vec<(&str, &str)>) -> (r: Self)
        ensures
            r.app()@ == self.app()@.with_active(arranged_views(option_views(options@))),
    {
        proof {
            use_type_invariant(&self);
        }
        let ghost all = options@;
        let mut items: Vec<todo::Item> = Vec::new();
        for option in it: options
            invariant
                it.seq() == all,
                items@.len() == it.index(),
                item_views(items@) == option_views(all.take(it.index() as int)),
        {
            let ghost before = items@;
            items.push(
                todo::Item {
                    title: option.0.to_owned(),
                    description: option.1.to_owned(),
                    description_scroll: 0,
                },
            );
            proof {
                let k = it.index() as int;
                assert(option == all[k]);
                assert forall|j: int| 0 <= j <= k implies item_views(items@)[j] == option_views(
                    all.take(k + 1),
                )[j] by {
                    if j < k {
                        assert(item_views(before)[j] == option_views(all.take(k))[j]);
                        assert(items@[j] == before[j]);
                    }
                }
                assert(item_views(items@) =~= option_views(all.take(k + 1)));
            }
        }
        assert(all.take(all.len() as int) =~= all);
        proof {
            todo::lemma_arranged_views(items@);
        }
        let list = Items::from_iter(items);
        let mut app = self.0;
        proof {
            lemma_views_insert(app.static_information.lists_view(), active_name(), list@);
        }
        let _ = app.static_information.insert(ACTIVE_LIST.to_owned(), list);
        AppBuilder(app)
    }

    /// The application that was built. It is ready for key presses.
    pub fn build(self) -> (r: App)
        ensures
            r == self.app(),
            r.wf(),
    {
        proof {
            use_type_invariant(&self);
        }
        self.0
    }
}

impl Default for AppBuilder {
    /// An application without title and without help, with an empty active
    /// list and no other list; the list of titles is in focus.
    fn default() -> (r: Self)
        ensures
            r.app()@ == (AppView {
                current_selection: CurrentSelection::Menu,
                popup: None,
                title: Seq::empty(),
                selected: None,
                layout: ScreenLayout::Small,
                help: Seq::empty(),
                lists: Map::empty().insert(active_name(), Seq::empty()),
                substate: None,
            }),
    {
        let mut static_information = StaticInfo::new(Items::new());
        let list: Items<todo::Item> = Items::new();
        proof {
            lemma_views_insert(static_information.lists_view(), active_name(), list@);
        }
        let _ = static_information.insert(ACTIVE_LIST.to_owned(), list);
        let app = App {
            layout: ScreenLayout::Small,
            current_selection: CurrentSelection::Menu,
            popup: None,
            selected: None,
            title: String::new(),
            static_information,
            substate: None,
        };
        assert(app@.help =~= Seq::empty());
        assert(item_views(Seq::<todo::Item>::empty()) =~= Seq::<ItemView>::empty());
        assert(Map::<Seq<char>, Seq<todo::Item>>::empty().map_values(
            |l: Seq<todo::Item>| item_views(l),
        ) =~= Map::<Seq<char>, Seq<ItemView>>::empty());
        assert(app@.lists =~= Map::empty().insert(active_name(), Seq::empty()));
        AppBuilder(app)
    }
}

impl From<AppBuilder> for App {
    fn from(value: AppBuilder) -> (r: Self) {
        value.build()
    }
}

impl vstd::std_specs::convert::FromSpecImpl<AppBuilder> for App {
    open spec fn obeys_from_spec() -> bool {
        true
    }

    open spec fn from_spec(value: AppBuilder) -> Self {
        value.app()
    }
}

} // verus!
