//! What holds of the population of a codebase as a whole.

use vstd::prelude::*;

use crate::codebase::CodebaseView;
use crate::collections::lemma_with_item;
use crate::metadata::ClassLikeView;
use crate::populator_model::is_invalidated;
use crate::populator_model::is_outdated;
use crate::populator_model::next_stage;
use crate::populator_model::reset_class_like;
use crate::populator_model::select_invalidated;
use crate::populator_model::select_outdated;
use crate::populator_model::selected_class_likes;
use crate::populator_model::symbol_names;
use crate::populator_model::with_reset;
use crate::populator_model::PopulationView;
use crate::populator_model::Stage;

verus! {

pub proof fn lemma_last_or_before<A>(items: Seq<A>, item: A)
    requires
        items.len() > 0,
    ensures
        items.contains(item) <==> items.drop_last().contains(item) || item == items.last(),
{
    let rest = items.drop_last();
    if items.contains(item) {
        let i = choose|i: int| 0 <= i < items.len() && items[i] == item;
        if i < rest.len() {
            assert(rest[i] == item);
        }
    }
    if rest.contains(item) {
        let i = choose|i: int| 0 <= i < rest.len() && rest[i] == item;
        assert(items[i] == item);
    }
    if item == items.last() {
        assert(items[items.len() - 1] == item);
    }
}

proof fn lemma_outdated(c: CodebaseView, names: Seq<Seq<u8>>, safe_symbols: Seq<Seq<u8>>, name: Seq<u8>)
    ensures
        select_outdated(c, names, safe_symbols).contains(name) <==> {
            &&& names.contains(name)
            &&& c.class_likes.contains_key(name)
            &&& is_outdated(c.class_likes[name].flags, name, safe_symbols)
        },
        select_outdated(c, names, safe_symbols).no_duplicates(),
    decreases names.len(),
{
    if names.len() > 0 {
        lemma_outdated(c, names.drop_last(), safe_symbols, name);
        lemma_last_or_before(names, name);
        lemma_with_item(select_outdated(c, names.drop_last(), safe_symbols), names.last(), name);
    }
}

proof fn lemma_invalidated(
    c: CodebaseView,
    selected: Seq<Seq<u8>>,
    names: Seq<Seq<u8>>,
    safe_symbols: Seq<Seq<u8>>,
    name: Seq<u8>,
)
    ensures
        select_invalidated(c, selected, names, safe_symbols).contains(name) <==> selected.contains(name) || {
            &&& names.contains(name)
            &&& c.class_likes.contains_key(name)
            &&& is_invalidated(c.class_likes[name].flags, name, safe_symbols)
        },
        selected.no_duplicates() ==> select_invalidated(c, selected, names, safe_symbols).no_duplicates(),
    decreases names.len(),
{
    if names.len() > 0 {
        lemma_invalidated(c, selected, names.drop_last(), safe_symbols, name);
        lemma_last_or_before(names, name);
        lemma_with_item(select_invalidated(c, selected, names.drop_last(), safe_symbols), names.last(), name);
    }
}

/// A class-like is populated anew exactly where it is outdated. Where only some symbols are said to
/// have changed, one that is not invalidated has to be among these too.
pub proof fn outdated_class_likes_are_selected(
    c: CodebaseView,
    safe_symbols: Seq<Seq<u8>>,
    dirty: Option<Seq<(Seq<u8>, Seq<u8>)>>,
    name: Seq<u8>,
)
    requires
        c.class_like_names.contains(name),
        c.class_likes.contains_key(name),
    ensures
        selected_class_likes(c, safe_symbols, dirty).contains(name) <==> {
            ||| is_invalidated(c.class_likes[name].flags, name, safe_symbols)
            ||| !c.class_likes[name].flags.is_populated && match dirty {
                Some(symbols) => symbol_names(symbols).contains(name),
                None => true,
            }
        },
{
    match dirty {
        Some(symbols) => {
            let selected = select_outdated(c, symbol_names(symbols), safe_symbols);
            lemma_outdated(c, symbol_names(symbols), safe_symbols, name);
            lemma_invalidated(c, selected, c.class_like_names, safe_symbols, name);
        },
        None => {
            lemma_outdated(c, c.class_like_names, safe_symbols, name);
        },
    }
}

/// No class-like is selected twice.
pub proof fn selected_class_likes_are_distinct(
    c: CodebaseView,
    safe_symbols: Seq<Seq<u8>>,
    dirty: Option<Seq<(Seq<u8>, Seq<u8>)>>,
)
    ensures
        selected_class_likes(c, safe_symbols, dirty).no_duplicates(),
{
    let name = Seq::<u8>::empty();
    match dirty {
        Some(symbols) => {
            let selected = select_outdated(c, symbol_names(symbols), safe_symbols);
            lemma_outdated(c, symbol_names(symbols), safe_symbols, name);
            lemma_invalidated(c, selected, c.class_like_names, safe_symbols, name);
        },
        None => {
            lemma_outdated(c, c.class_like_names, safe_symbols, name);
        },
    }
}

/// To reset a class-like twice is to reset it once.
pub proof fn reset_is_idempotent(m: ClassLikeView)
    ensures
        reset_class_like(reset_class_like(m)) == reset_class_like(m),
{
    let once = reset_class_like(m);
    assert(once.flags == reset_class_like(once).flags);
    assert(is_same(reset_class_like(once), once));
}

spec fn is_same(a: ClassLikeView, b: ClassLikeView) -> bool {
    a == b
}

/// The class-likes that are selected lose what their population gave them; all others, and all
/// other symbols, stay as they are.
pub proof fn only_selected_class_likes_are_reset(c: CodebaseView, names: Seq<Seq<u8>>, name: Seq<u8>)
    ensures
        with_reset(c, names).class_likes.contains_key(name) == c.class_likes.contains_key(name),
        c.class_likes.contains_key(name) ==> with_reset(c, names).class_likes[name] == if names.contains(name) {
            reset_class_like(c.class_likes[name])
        } else {
            c.class_likes[name]
        },
        with_reset(c, names) == (CodebaseView { class_likes: with_reset(c, names).class_likes, ..c }),
    decreases names.len(),
{
    if names.len() > 0 {
        only_selected_class_likes_are_reset(c, names.drop_last(), name);
        lemma_last_or_before(names, name);
        if c.class_likes.contains_key(name) {
            reset_is_idempotent(c.class_likes[name]);
        }
    }
}

/// The stage after some further steps.
pub open spec fn stage_after(p: PopulationView, steps: nat) -> Stage
    decreases steps,
{
    if steps == 0 {
        p.stage
    } else {
        stage_after(PopulationView { stage: next_stage(p), ..p }, (steps - 1) as nat)
    }
}

/// A population comes to its end after six steps at most.
pub proof fn population_ends(p: PopulationView)
    ensures
        stage_after(p, 6) == Stage::Finished,
{
    reveal_with_fuel(stage_after, 7);
}

} // verus!
