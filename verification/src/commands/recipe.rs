//! Choosing recipes by name.

use vstd::prelude::*;
use fuzzy_matcher::skim::SkimMatcherV2;
use fuzzy_matcher::FuzzyMatcher;

verus! {

/// The score that the skim matcher of the `fuzzy-matcher` crate, in its
/// second version and as it comes by default, gives to a choice for a
/// pattern; none where the choice does not match the pattern.
pub uninterp spec fn skim_score(choice: Seq<char>, pattern: Seq<char>) -> Option<i64>;

/// Calls `FuzzyMatcher::fuzzy_match` on a `SkimMatcherV2::default()`.
/// Claimed is that the score depends on the choice and the pattern alone.
#[verifier::external_body]
fn fuzzy_match(choice: &str, pattern: &str) -> (score: Option<i64>)
    ensures
        score == skim_score(choice@, pattern@),
{
    SkimMatcherV2::default().fuzzy_match(choice, pattern)
}

/// A recipe is listed for a search when nothing is searched for, or when
/// its name was given a score above zero.
pub open spec fn is_listed(search_is_empty: bool, score: Option<i64>) -> bool {
    search_is_empty || (score matches Some(points) && points > 0)
}

/// Whether a recipe is listed, given whether anything is searched for and
/// the score that its name was given for the search.
pub fn keeps_recipe(search_is_empty: bool, score: Option<i64>) -> (r: bool)
    ensures
        r == is_listed(search_is_empty, score),
{
    if search_is_empty {
        true
    } else {
        match score {
            Some(points) => points > 0,
            None => false,
        }
    }
}

/// The text searched for: nothing is the same as the empty text.
pub open spec fn searched(search: Option<Seq<char>>) -> Seq<char> {
    match search {
        Some(text) => text,
        None => Seq::empty(),
    }
}

/// Whether the recipe with the given name is listed for a search.
pub open spec fn recipe_passes(search: Seq<char>) -> spec_fn(Seq<char>) -> bool {
    |name: Seq<char>| is_listed(search.len() == 0, skim_score(name, search))
}

/// The names, of the given names of recipes, that match the search: all
/// of them where nothing is searched for, else those that the skim matcher
/// gives a score above zero.
pub fn get_recipe_list(names: Vec<String>, search: Option<String>) -> (items: Vec<String>)
    ensures
        items.deep_view() == names.deep_view().filter(recipe_passes(searched(search.deep_view()))),
{
    let search = match search {
        Some(text) => text,
        None => String::new(),
    };
    let nothing = search.as_str().unicode_len() == 0;
    let ghost all = names.deep_view();
    let ghost p = recipe_passes(search@);
    let mut items: Vec<String> = Vec::new();
    proof {
        reveal(Seq::filter);
    }
    assert(items.deep_view() =~= all.take(0).filter(p));
    for name in it: names
        invariant
            all == names.deep_view(),
            it.seq() == names@,
            nothing == (search@.len() == 0),
            p == recipe_passes(search@),
            items.deep_view() == all.take(it.index() as int).filter(p),
    {
        proof {
            crate::database::lemma_filter_step(all, p, it.index() as int);
        }
        let score = if nothing {
            None
        } else {
            fuzzy_match(name.as_str(), search.as_str())
        };
        if nothing || keeps_recipe(nothing, score) {
            let ghost before = items.deep_view();
            let ghost view = name@;
            items.push(name);
            assert(items.deep_view() =~= before.push(view));
        }
    }
    assert(all.take(names@.len() as int) =~= all);
    items
}

} // verus!
