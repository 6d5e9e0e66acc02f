//! The help table: keys and what they do, read from a JSON object.
use vstd::prelude::*;
use vstd::string::StringExecFns;

use crate::ordered_list::{arranged, rest_scores, sorted, OrderedList};
use crate::parse::ListItem;
use crate::ranking::ranking;
use crate::{text_score, Score};

verus! {

/// One entry of the help table: a key and its explanation.
#[derive(Debug, Default)]
pub struct Item(pub (String, String));

/// The help table, in the order of the scores of its entries.
#[derive(Debug)]
pub struct Help(pub OrderedList<Item>);

/// A text that is no JSON object of strings.
#[derive(Debug)]
pub struct ParseError {
    /// What the parser found wrong, and where.
    pub message: String,
}

/// The line under which an entry is searched: key, a blank, explanation.
pub open spec fn entry_line(entry: (Seq<char>, Seq<char>)) -> Seq<char> {
    entry.0 + seq![' '] + entry.1
}

impl View for Item {
    type V = (Seq<char>, Seq<char>);

    open spec fn view(&self) -> (Seq<char>, Seq<char>) {
        (self.0.0@, self.0.1@)
    }
}

impl Clone for Item {
    fn clone(&self) -> (r: Self)
        ensures
            r == *self,
    {
        Item((self.0.0.clone(), self.0.1.clone()))
    }
}

impl ListItem for Item {
    open spec fn title_spec(&self) -> Seq<char> {
        self.0.0@
    }

    open spec fn description_spec(&self) -> Seq<char> {
        self.0.1@
    }

    fn title(&self) -> (r: String) {
        self.0.0.clone()
    }

    fn description(&self) -> (r: String) {
        self.0.1.clone()
    }
}

impl Score for Item {
    open spec fn score_spec(&self, query: Seq<char>) -> Option<i64> {
        text_score(entry_line(self@), query)
    }

    fn score(&self, query: &str) -> (r: Option<i64>) {
        proof {
            reveal_strlit(" ");
            assert(" "@ =~= seq![' ']);
        }
        let line = self.0.0.clone().concat(" ").concat(self.0.1.as_str());
        crate::score_text(line.as_str(), query)
    }
}

/// `serde_json::Error`, the error of the JSON parser.
#[verifier::external_type_specification]
#[verifier::external_body]
pub struct ExJsonError(serde_json::Error);

/// What `serde_json::from_str` reads from `text` as a map from strings to
/// strings: the map, or `None` where it reports an error.
pub uninterp spec fn json_string_map(text: Seq<char>) -> Option<Map<Seq<char>, Seq<char>>>;

/// `pairs` lists entries of `table` only, and no key twice.
pub open spec fn entries_of(pairs: Seq<(Seq<char>, Seq<char>)>, table: Map<Seq<char>, Seq<char>>) -> bool {
    &&& forall|i: int| 0 <= i < pairs.len() ==> table.contains_pair((#[trigger] pairs[i]).0, pairs[i].1)
    &&& forall|i: int, j: int|
        0 <= i < j < pairs.len() ==> (#[trigger] pairs[i]).0 != (#[trigger] pairs[j]).0
}

/// `pairs` has every key of `table`.
pub open spec fn all_entries(pairs: Seq<(Seq<char>, Seq<char>)>, table: Map<Seq<char>, Seq<char>>) -> bool {
    forall|key: Seq<char>| #[trigger]
        table.contains_key(key) ==> exists|i: int| 0 <= i < pairs.len() && (#[trigger] pairs[i]).0 == key
}

/// `pairs` has every key of `table` under which an entry with a score
/// stands.
pub open spec fn all_scored_entries(
    pairs: Seq<(Seq<char>, Seq<char>)>,
    table: Map<Seq<char>, Seq<char>>,
) -> bool {
    forall|key: Seq<char>| #[trigger]
        table.contains_key(key) && text_score(entry_line((key, table[key])), Seq::empty()) is Some
            ==> exists|i: int| 0 <= i < pairs.len() && (#[trigger] pairs[i]).0 == key
}

/// The texts of key and value of each pair.
pub open spec fn pair_views(pairs: Seq<(String, String)>) -> Seq<(Seq<char>, Seq<char>)> {
    pairs.map_values(|p: (String, String)| (p.0@, p.1@))
}

/// Calls `serde_json::from_str` for a `HashMap<String, String>` and hands
/// out the map's entries in the order in which the map is walked. The
/// contract claims: the call fails exactly on the texts for which
/// `json_string_map` is `None`; else the entries are those of the named map,
/// each key once and none left out. It claims nothing of their order.
#[verifier::external_body]
fn read_string_map(text: &str) -> (r: Result<Vec<(String, String)>, serde_json::Error>)
    ensures
        match r {
            Ok(pairs) => json_string_map(text@) matches Some(table) && entries_of(
                pair_views(pairs@),
                table,
            ) && all_entries(pair_views(pairs@), table),
            Err(_) => json_string_map(text@) is None,
        },
{
    let parsed: std::collections::HashMap<String, String> = serde_json::from_str(text)?;
    Ok(parsed.into_iter().collect())
}

/// The key and explanation of each item, as texts.
pub open spec fn item_pairs(items: Seq<Item>) -> Seq<(Seq<char>, Seq<char>)> {
    items.map_values(|item: Item| item@)
}

/// The entries as help items.
pub open spec fn as_items(pairs: Seq<(String, String)>) -> Seq<Item> {
    pairs.map_values(|p: (String, String)| Item(p))
}

impl Help {
    /// The entries of the table as texts, in the table's order.
    pub open spec fn pairs(self) -> Seq<(Seq<char>, Seq<char>)> {
        item_pairs(self.0@)
    }

    /// The help table of the given entries: those with a score, by ascending
    /// score, entries of equal score in the order given.
    pub fn from_entries(entries: Vec<(String, String)>) -> (r: Self)
        ensures
            r.0@ == arranged(as_items(entries@)),
            sorted(r.0@),
    {
        let ghost all = entries@;
        let mut items: Vec<Item> = Vec::new();
        for pair in it: entries
            invariant
                it.seq() == all,
                items@ == as_items(all.take(it.index() as int)),
        {
            items.push(Item(pair));
            assert(items@ =~= as_items(all.take(it.index() + 1)));
        }
        assert(all.take(all.len() as int) =~= all);
        Help(OrderedList::from_iter(items))
    }

    /// Parses the text of a help file: a JSON object whose values are
    /// strings. Which of two entries of equal score comes first is left
    /// open.
    pub fn parse(text: &str) -> (r: Result<Self, ParseError>)
        ensures
            match r {
                Ok(help) => {
                    &&& json_string_map(text@) matches Some(table) && entries_of(
                        help.pairs(),
                        table,
                    ) && all_scored_entries(help.pairs(), table)
                    &&& sorted(help.0@)
                },
                Err(_) => json_string_map(text@) is None,
            },
    {
        match read_string_map(text) {
            Ok(entries) => {
                let ghost table = json_string_map(text@).unwrap();
                let ghost given = entries@;
                let help = Help::from_entries(entries);
                proof {
                    lemma_arranged_entries(given, table);
                }
                Ok(help)
            },
            Err(e) => Err(ParseError { message: e.to_string() }),
        }
    }
}

/// Arranging the entries of a table by score keeps them entries of the
/// table, each key once, and loses none that has a score.
pub proof fn lemma_arranged_entries(given: Seq<(String, String)>, table: Map<Seq<char>, Seq<char>>)
    requires
        entries_of(pair_views(given), table),
        all_entries(pair_views(given), table),
    ensures
        entries_of(item_pairs(arranged(as_items(given))), table),
        all_scored_entries(item_pairs(arranged(as_items(given))), table),
{
    let items = as_items(given);
    let views = pair_views(given);
    let scores = rest_scores(items);
    let order = ranking(scores);
    let out = item_pairs(arranged(items));
    crate::ranking::lemma_ranking(scores);
    assert forall|k: int| 0 <= k < out.len() implies (#[trigger] out[k]) == views[order[k]] by {}
    assert forall|i: int| 0 <= i < out.len() implies table.contains_pair(
        (#[trigger] out[i]).0,
        out[i].1,
    ) by {
        assert(out[i] == views[order[i]]);
    }
    assert forall|i: int, j: int| 0 <= i < j < out.len() implies (#[trigger] out[i]).0 != (
    #[trigger] out[j]).0 by {
        assert(out[i] == views[order[i]]);
        assert(out[j] == views[order[j]]);
        assert(order[i] != order[j]);
        if order[i] < order[j] {
            assert(views[order[i]].0 != views[order[j]].0);
        } else {
            assert(views[order[j]].0 != views[order[i]].0);
        }
    }
    assert forall|key: Seq<char>| #[trigger]
        table.contains_key(key) && text_score(entry_line((key, table[key])), Seq::empty())
            is Some implies exists|i: int| 0 <= i < out.len() && (#[trigger] out[i]).0 == key by {
        let g = choose|g: int| 0 <= g < views.len() && (#[trigger] views[g]).0 == key;
        assert(table.contains_pair(views[g].0, views[g].1));
        assert(views[g] == (key, table[key]));
        assert(scores[g] == text_score(entry_line(views[g]), Seq::empty()));
        assert(order.contains(g));
        let k = choose|k: int| 0 <= k < order.len() && order[k] == g;
        assert(out[k] == views[g]);
    }
}

} // verus!
