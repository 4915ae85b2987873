//! What a population does and in which order, told by the symbols themselves.

use vstd::prelude::*;

use crate::codebase::CodebaseView;
use crate::metadata::ClassLikeView;
use crate::metadata::FunctionLikeKind;
use crate::metadata::FunctionLikeView;
use crate::metadata::MetadataFlags;
use crate::populator_laws::lemma_last_or_before;
use crate::populator_laws::only_selected_class_likes_are_reset;
use crate::populator_laws::outdated_class_likes_are_selected;
use crate::populator_model::class_type_steps;
use crate::populator_model::clean_keys;
use crate::populator_model::constant_steps;
use crate::populator_model::descendants_mirror_parents;
use crate::populator_model::dirty_constant_steps;
use crate::populator_model::dirty_function_like_steps;
use crate::populator_model::forced_type_steps;
use crate::populator_model::function_like_steps;
use crate::populator_model::next_action;
use crate::populator_model::next_codebase;
use crate::populator_model::next_stage;
use crate::populator_model::reset_class_like;
use crate::populator_model::selected_class_likes;
use crate::populator_model::symbol_names;
use crate::populator_model::with_reset;
use crate::populator_model::ActionView;
use crate::populator_model::FunctionLikeStepView;
use crate::populator_model::PopulationView;
use crate::populator_model::SourceView;
use crate::populator_model::Stage;
use crate::populator_model::SymbolStepView;
use crate::return_hints_laws::is_declared_call;
use crate::return_hints_laws::is_inferred;
use crate::return_hints_laws::only_returns_calls;
use crate::return_hints_laws::open_calls_give_nothing;
use crate::return_hints_laws::returned_calls_give_the_return_type;
use crate::return_hints_model::hint_return;
use crate::return_hints_model::hints_resolved;
use crate::return_hints_model::open_keys;
use crate::return_hints_model::resolving_hints_keeps_known_types;
use crate::ttype::UnionView;

verus! {

/// Something is known to be safe, so that only what is not has to be looked at again.
pub open spec fn something_is_safe(p: PopulationView) -> bool {
    p.safe_symbols.len() > 0 || exists|m: (Seq<u8>, Seq<u8>)| #[trigger] p.safe_members.contains(m)
}

proof fn lemma_incremental(p: PopulationView)
    ensures
        p.incremental() == something_is_safe(p),
{
    if p.safe_members != Set::<(Seq<u8>, Seq<u8>)>::empty() {
        if forall|m: (Seq<u8>, Seq<u8>)| !p.safe_members.contains(m) {
            assert(p.safe_members =~= Set::empty());
        }
    }
}

// ---- the stages ----

/// The hierarchy is populated first, then the signatures, then the types of class-likes, then the
/// constants; then docblocks are inherited, unless something is safe and no class-like was selected;
/// and then the population is at its end.
pub proof fn stages_come_in_order(p: PopulationView, c: CodebaseView)
    ensures
        match p.stage {
            Stage::Selected => next_stage(p) == Stage::HierarchyPopulated && next_action(p, c)
                == ActionView::PopulateHierarchy(p.selected),
            Stage::HierarchyPopulated => next_stage(p) == Stage::FunctionLikesPopulated && next_action(
                p,
                c,
            ) is PopulateFunctionLikes,
            Stage::FunctionLikesPopulated => next_stage(p) == Stage::ClassTypesPopulated && next_action(
                p,
                c,
            ) is PopulateClassTypes,
            Stage::ClassTypesPopulated => next_stage(p) == Stage::ConstantsPopulated && next_action(
                p,
                c,
            ) is PopulateConstants,
            Stage::ConstantsPopulated => if something_is_safe(p) && p.selected.len() == 0 {
                next_stage(p) == Stage::Finished && next_action(p, c) is Nothing
            } else {
                next_stage(p) == Stage::DocblocksInherited && next_action(p, c) == ActionView::InheritDocblocks(
                    if p.dirty is Some {
                        Some(p.selected)
                    } else {
                        None
                    },
                )
            },
            Stage::DocblocksInherited | Stage::Finished => next_stage(p) == Stage::Finished && next_action(
                p,
                c,
            ) is Nothing,
        },
{
    lemma_incremental(p);
}

/// Once the signatures are populated, return types are inferred: a function-like that only returns
/// calls has what these are declared to return.
pub proof fn populations_infer_return_types(
    p: PopulationView,
    c: CodebaseView,
    key: (Seq<u8>, Seq<u8>),
    types: Seq<UnionView>,
)
    requires
        p.stage == Stage::FunctionLikesPopulated,
        only_returns_calls(c, key),
        types.len() == c.function_likes[key].return_expression_hints.len(),
        forall|i: int|
            0 <= i < types.len() ==> is_declared_call(
                c,
                #[trigger] c.function_likes[key].return_expression_hints[i],
                types[i],
            ),
        exists|i: int| 0 <= i < types.len() && (#[trigger] types[i]).types.len() > 0,
    ensures
        is_inferred(next_codebase(p, c), key, types),
{
    returned_calls_give_the_return_type(c, key, types);
}

/// Once the signatures are populated, no return type is left that could still be inferred.
pub proof fn populations_leave_no_hint(p: PopulationView, c: CodebaseView, key: (Seq<u8>, Seq<u8>), i: int)
    requires
        p.stage == Stage::FunctionLikesPopulated,
        only_returns_calls(next_codebase(p, c), key),
        0 <= i < next_codebase(p, c).function_likes[key].return_expression_hints.len(),
    ensures
        ({
            let after = next_codebase(p, c);
            hint_return(
                after,
                after.function_likes[key].return_expression_hints[i],
                Set::empty().insert(key),
            ) matches Some(t) ==> t.types.len() == 0
        }),
{
    open_calls_give_nothing(c, key, i);
}

/// A step changes only what belongs to it: return types once the signatures are populated, the
/// descendants once the constants are, and at the end what is known to be safe.
pub proof fn steps_change_what_belongs_to_them(p: PopulationView, c: CodebaseView)
    ensures
        ({
            let after = next_codebase(p, c);
            let ends = p.stage != Stage::Finished && next_stage(p) == Stage::Finished;
            &&& p.stage != Stage::FunctionLikesPopulated ==> after.function_likes == c.function_likes
            &&& p.stage != Stage::ConstantsPopulated || (something_is_safe(p) && p.selected.len() == 0) ==> {
                &&& after.class_likes == c.class_likes
                &&& after.all_class_like_descendants == c.all_class_like_descendants
                &&& after.direct_classlike_descendants == c.direct_classlike_descendants
            }
            &&& ends ==> after.safe_symbols == p.safe_symbols && after.safe_symbol_members == p.safe_members
            &&& !ends ==> after.safe_symbols == c.safe_symbols && after.safe_symbol_members == c.safe_symbol_members
            &&& after.class_like_names == c.class_like_names
            &&& after.function_like_keys == c.function_like_keys
            &&& after.constants == c.constants
            &&& after.constant_names == c.constant_names
            &&& after.symbols == c.symbols
        }),
{
    lemma_incremental(p);
    resolving_hints_keeps_known_types(c, open_keys(c));
    let resolved = hints_resolved(c, open_keys(c));
    assert(resolved == (CodebaseView { function_likes: resolved.function_likes, ..c }));
}

// ---- signatures ----

/// A signature that has to be populated again: that of a user-defined function-like that is neither
/// a closure nor known to be safe, itself or with its class-like.
pub open spec fn has_changed(p: PopulationView, key: (Seq<u8>, Seq<u8>), f: FunctionLikeView) -> bool {
    &&& f.flags.is_user_defined
    &&& f.kind != FunctionLikeKind::Closure
    &&& f.kind != FunctionLikeKind::ArrowFunction
    &&& !p.safe_symbols.contains(key.0)
    &&& key.1.len() == 0 || !p.safe_members.contains(key)
}

/// The step that populates this signature, on behalf of the function, or of the member of its
/// class-like.
pub open spec fn is_step_of(
    step: FunctionLikeStepView,
    key: (Seq<u8>, Seq<u8>),
    f: FunctionLikeView,
    force: bool,
) -> bool {
    &&& step.key == key
    &&& step.force == force
    &&& step.source == if key.1.len() == 0 || f.kind == FunctionLikeKind::Closure {
        SourceView::Symbol(true, key.0)
    } else {
        SourceView::ClassLikeMember(true, key.0, key.1)
    }
}

/// A signature is populated, and in which way.
pub open spec fn is_populated_by(
    steps: Seq<FunctionLikeStepView>,
    key: (Seq<u8>, Seq<u8>),
    f: FunctionLikeView,
    force: bool,
) -> bool {
    exists|i: int| 0 <= i < steps.len() && is_step_of(#[trigger] steps[i], key, f, force)
}

pub open spec fn is_mentioned(steps: Seq<FunctionLikeStepView>, key: (Seq<u8>, Seq<u8>)) -> bool {
    exists|i: int| 0 <= i < steps.len() && (#[trigger] steps[i]).key == key
}

proof fn lemma_pushed(steps: Seq<FunctionLikeStepView>, step: FunctionLikeStepView, key: (Seq<u8>, Seq<u8>), f: FunctionLikeView, force: bool)
    ensures
        is_populated_by(steps.push(step), key, f, force) <==> is_populated_by(steps, key, f, force) || is_step_of(
            step,
            key,
            f,
            force,
        ),
        is_mentioned(steps.push(step), key) <==> is_mentioned(steps, key) || step.key == key,
{
    let all = steps.push(step);
    if is_populated_by(steps, key, f, force) {
        let i = choose|i: int| 0 <= i < steps.len() && is_step_of(#[trigger] steps[i], key, f, force);
        assert(is_step_of(all[i], key, f, force));
    }
    if is_mentioned(steps, key) {
        let i = choose|i: int| 0 <= i < steps.len() && (#[trigger] steps[i]).key == key;
        assert(all[i].key == key);
    }
    if is_step_of(step, key, f, force) {
        assert(is_step_of(all[steps.len() as int], key, f, force));
    }
    if step.key == key {
        assert(all[steps.len() as int].key == key);
    }
    if is_populated_by(all, key, f, force) {
        let i = choose|i: int| 0 <= i < all.len() && is_step_of(#[trigger] all[i], key, f, force);
        if i < steps.len() {
            assert(is_step_of(steps[i], key, f, force));
        }
    }
    if is_mentioned(all, key) {
        let i = choose|i: int| 0 <= i < all.len() && (#[trigger] all[i]).key == key;
        if i < steps.len() {
            assert(steps[i].key == key);
        }
    }
}

proof fn lemma_function_like_steps(
    p: PopulationView,
    c: CodebaseView,
    keys: Seq<(Seq<u8>, Seq<u8>)>,
    spare: bool,
    key: (Seq<u8>, Seq<u8>),
)
    ensures
        ({
            let steps = function_like_steps(p, c, keys, spare);
            let f = c.function_likes[key];
            let wanted = keys.contains(key) && c.function_likes.contains_key(key) && (!spare || !f.flags.is_populated
                || has_changed(p, key, f));
            &&& is_mentioned(steps, key) <==> wanted
            &&& wanted ==> is_populated_by(steps, key, f, has_changed(p, key, f))
        }),
    decreases keys.len(),
{
    if keys.len() > 0 {
        let rest = keys.drop_last();
        lemma_function_like_steps(p, c, rest, spare, key);
        lemma_last_or_before(keys, key);
        let before = function_like_steps(p, c, rest, spare);
        let last = keys.last();
        if c.function_likes.contains_key(last) {
            let f = c.function_likes[last];
            let step = FunctionLikeStepView {
                key: last,
                source: crate::populator_model::signature_source(last, f),
                force: f.flags.is_user_defined && !crate::populator_model::is_safe_function_like(
                    last,
                    f,
                    p.safe_symbols,
                    p.safe_members,
                ),
            };
            assert(step.force == has_changed(p, last, f));
            lemma_pushed(before, step, key, c.function_likes[key], has_changed(p, key, c.function_likes[key]));
        }
    }
}

proof fn lemma_dirty_steps(c: CodebaseView, keys: Seq<(Seq<u8>, Seq<u8>)>, key: (Seq<u8>, Seq<u8>))
    ensures
        ({
            let steps = dirty_function_like_steps(c, keys);
            let f = c.function_likes[key];
            let wanted = keys.contains(key) && c.function_likes.contains_key(key) && (!f.flags.is_populated
                || f.flags.is_user_defined);
            &&& is_mentioned(steps, key) <==> wanted
            &&& wanted ==> is_populated_by(steps, key, f, f.flags.is_user_defined)
        }),
    decreases keys.len(),
{
    if keys.len() > 0 {
        let rest = keys.drop_last();
        lemma_dirty_steps(c, rest, key);
        lemma_last_or_before(keys, key);
        let before = dirty_function_like_steps(c, rest);
        let last = keys.last();
        if c.function_likes.contains_key(last) {
            let f = c.function_likes[last];
            let step = FunctionLikeStepView {
                key: last,
                source: crate::populator_model::signature_source(last, f),
                force: f.flags.is_user_defined,
            };
            lemma_pushed(before, step, key, c.function_likes[key], c.function_likes[key].flags.is_user_defined);
        }
    }
}

proof fn lemma_joined(
    a: Seq<FunctionLikeStepView>,
    b: Seq<FunctionLikeStepView>,
    key: (Seq<u8>, Seq<u8>),
    f: FunctionLikeView,
    force: bool,
)
    ensures
        is_populated_by(a + b, key, f, force) <==> is_populated_by(a, key, f, force) || is_populated_by(b, key, f, force),
        is_mentioned(a + b, key) <==> is_mentioned(a, key) || is_mentioned(b, key),
{
    let all = a + b;
    if is_populated_by(a, key, f, force) {
        let i = choose|i: int| 0 <= i < a.len() && is_step_of(#[trigger] a[i], key, f, force);
        assert(is_step_of(all[i], key, f, force));
    }
    if is_populated_by(b, key, f, force) {
        let i = choose|i: int| 0 <= i < b.len() && is_step_of(#[trigger] b[i], key, f, force);
        assert(is_step_of(all[a.len() + i], key, f, force));
    }
    if is_mentioned(a, key) {
        let i = choose|i: int| 0 <= i < a.len() && (#[trigger] a[i]).key == key;
        assert(all[i].key == key);
    }
    if is_mentioned(b, key) {
        let i = choose|i: int| 0 <= i < b.len() && (#[trigger] b[i]).key == key;
        assert(all[a.len() + i].key == key);
    }
    if is_populated_by(all, key, f, force) {
        let i = choose|i: int| 0 <= i < all.len() && is_step_of(#[trigger] all[i], key, f, force);
        if i < a.len() {
            assert(is_step_of(a[i], key, f, force));
        } else {
            assert(is_step_of(b[i - a.len()], key, f, force));
        }
    }
    if is_mentioned(all, key) {
        let i = choose|i: int| 0 <= i < all.len() && (#[trigger] all[i]).key == key;
        if i < a.len() {
            assert(a[i].key == key);
        } else {
            assert(b[i - a.len()].key == key);
        }
    }
}

proof fn lemma_clean(keys: Seq<(Seq<u8>, Seq<u8>)>, dirty: Seq<(Seq<u8>, Seq<u8>)>, key: (Seq<u8>, Seq<u8>))
    ensures
        clean_keys(keys, dirty).contains(key) <==> keys.contains(key) && !dirty.contains(key),
    decreases keys.len(),
{
    reveal(Seq::filter);
    let all = clean_keys(keys, dirty);
    if keys.len() > 0 {
        let rest = keys.drop_last();
        lemma_clean(rest, dirty, key);
        lemma_last_or_before(keys, key);
        if !dirty.contains(keys.last()) {
            assert(all == clean_keys(rest, dirty).push(keys.last()));
            lemma_last_or_before(all, key);
            assert(all.drop_last() =~= clean_keys(rest, dirty));
        } else {
            assert(all == clean_keys(rest, dirty));
        }
    } else {
        assert(all =~= Seq::empty());
    }
}

/// The signatures that are populated. Where nothing is said of what changed: all of them, and where
/// something is safe only those that were never populated or that may have changed. Where some
/// symbols are said to have changed: those of these that are user-defined or were never populated,
/// and of all others the same as before. A signature that may have changed is populated in any case.
pub proof fn signatures_are_populated(p: PopulationView, c: CodebaseView, key: (Seq<u8>, Seq<u8>))
    requires
        p.stage == Stage::HierarchyPopulated,
    ensures
        match next_action(p, c) {
            ActionView::PopulateFunctionLikes(steps) => {
                let f = c.function_likes[key];
                let is_dirty = p.dirty is Some && p.dirty->0.contains(key);
                let force = if is_dirty {
                    f.flags.is_user_defined
                } else {
                    has_changed(p, key, f)
                };
                let wanted = c.function_likes.contains_key(key) && (is_dirty || c.function_like_keys.contains(key)) && (
                !f.flags.is_populated || force || (p.dirty is None && !something_is_safe(p)));
                &&& is_mentioned(steps, key) <==> wanted
                &&& wanted ==> is_populated_by(steps, key, f, force)
            },
            _ => false,
        },
{
    lemma_incremental(p);
    let f = c.function_likes[key];
    match p.dirty {
        Some(dirty) => {
            let clean = clean_keys(c.function_like_keys, dirty);
            let a = dirty_function_like_steps(c, dirty);
            let b = function_like_steps(p, c, clean, true);
            lemma_dirty_steps(c, dirty, key);
            lemma_function_like_steps(p, c, clean, true, key);
            lemma_clean(c.function_like_keys, dirty, key);
            lemma_joined(a, b, key, f, f.flags.is_user_defined);
            lemma_joined(a, b, key, f, has_changed(p, key, f));
        },
        None => {
            lemma_function_like_steps(p, c, c.function_like_keys, p.incremental(), key);
        },
    }
}

// ---- types of class-likes, and constants ----

/// A symbol is populated, and whether in any case.
pub open spec fn is_done_by(steps: Seq<SymbolStepView>, name: Seq<u8>, force: bool) -> bool {
    exists|i: int| 0 <= i < steps.len() && #[trigger] steps[i] == (SymbolStepView { name, force })
}

pub open spec fn is_named(steps: Seq<SymbolStepView>, name: Seq<u8>) -> bool {
    exists|i: int| 0 <= i < steps.len() && (#[trigger] steps[i]).name == name
}

proof fn lemma_pushed_symbol(steps: Seq<SymbolStepView>, step: SymbolStepView, name: Seq<u8>, force: bool)
    ensures
        is_done_by(steps.push(step), name, force) <==> is_done_by(steps, name, force) || step == (SymbolStepView {
            name,
            force,
        }),
        is_named(steps.push(step), name) <==> is_named(steps, name) || step.name == name,
{
    let all = steps.push(step);
    if is_done_by(steps, name, force) {
        let i = choose|i: int| 0 <= i < steps.len() && #[trigger] steps[i] == (SymbolStepView { name, force });
        assert(all[i] == steps[i]);
    }
    if is_named(steps, name) {
        let i = choose|i: int| 0 <= i < steps.len() && (#[trigger] steps[i]).name == name;
        assert(all[i].name == name);
    }
    assert(all[steps.len() as int] == step);
    if is_done_by(all, name, force) {
        let i = choose|i: int| 0 <= i < all.len() && #[trigger] all[i] == (SymbolStepView { name, force });
        if i < steps.len() {
            assert(steps[i] == all[i]);
        }
    }
    if is_named(all, name) {
        let i = choose|i: int| 0 <= i < all.len() && (#[trigger] all[i]).name == name;
        if i < steps.len() {
            assert(steps[i].name == name);
        }
    }
}

proof fn lemma_class_type_steps(p: PopulationView, c: CodebaseView, names: Seq<Seq<u8>>, name: Seq<u8>)
    ensures
        ({
            let steps = class_type_steps(p, c, names);
            let flags = c.class_likes[name].flags;
            let force = flags.is_user_defined && !p.safe_symbols.contains(name);
            let wanted = names.contains(name) && c.class_likes.contains_key(name) && (!p.incremental()
                || !flags.is_populated || force);
            &&& is_named(steps, name) <==> wanted
            &&& wanted ==> is_done_by(steps, name, force)
        }),
    decreases names.len(),
{
    if names.len() > 0 {
        let rest = names.drop_last();
        lemma_class_type_steps(p, c, rest, name);
        lemma_last_or_before(names, name);
        let last = names.last();
        let flags = c.class_likes[name].flags;
        let force = flags.is_user_defined && !p.safe_symbols.contains(name);
        let last_flags = c.class_likes[last].flags;
        lemma_pushed_symbol(
            class_type_steps(p, c, rest),
            SymbolStepView { name: last, force: last_flags.is_user_defined && !p.safe_symbols.contains(last) },
            name,
            force,
        );
    }
}

proof fn lemma_forced_steps(c: CodebaseView, names: Seq<Seq<u8>>, name: Seq<u8>)
    ensures
        ({
            let steps = forced_type_steps(c, names);
            let wanted = names.contains(name) && c.class_likes.contains_key(name);
            &&& is_named(steps, name) <==> wanted
            &&& wanted ==> is_done_by(steps, name, true)
        }),
    decreases names.len(),
{
    if names.len() > 0 {
        let rest = names.drop_last();
        lemma_forced_steps(c, rest, name);
        lemma_last_or_before(names, name);
        lemma_pushed_symbol(
            forced_type_steps(c, rest),
            SymbolStepView { name: names.last(), force: true },
            name,
            true,
        );
    }
}

proof fn lemma_constant_steps(p: PopulationView, c: CodebaseView, names: Seq<Seq<u8>>, name: Seq<u8>)
    ensures
        ({
            let steps = constant_steps(p, c, names);
            let flags = c.constants[name].flags;
            let force = flags.is_user_defined && !p.safe_symbols.contains(name);
            let wanted = names.contains(name) && c.constants.contains_key(name) && (!p.incremental()
                || !flags.is_populated || force);
            &&& is_named(steps, name) <==> wanted
            &&& wanted ==> is_done_by(steps, name, force)
        }),
    decreases names.len(),
{
    if names.len() > 0 {
        let rest = names.drop_last();
        lemma_constant_steps(p, c, rest, name);
        lemma_last_or_before(names, name);
        let last = names.last();
        let flags = c.constants[name].flags;
        let force = flags.is_user_defined && !p.safe_symbols.contains(name);
        let last_flags = c.constants[last].flags;
        lemma_pushed_symbol(
            constant_steps(p, c, rest),
            SymbolStepView { name: last, force: last_flags.is_user_defined && !p.safe_symbols.contains(last) },
            name,
            force,
        );
    }
}

proof fn lemma_dirty_constants(c: CodebaseView, symbols: Seq<(Seq<u8>, Seq<u8>)>, name: Seq<u8>)
    ensures
        ({
            let steps = dirty_constant_steps(c, symbols);
            let flags = c.constants[name].flags;
            let wanted = symbols.contains((name, Seq::empty())) && c.constants.contains_key(name) && (
            !flags.is_populated || flags.is_user_defined);
            &&& is_named(steps, name) <==> wanted
            &&& wanted ==> is_done_by(steps, name, flags.is_user_defined)
        }),
    decreases symbols.len(),
{
    if symbols.len() > 0 {
        let rest = symbols.drop_last();
        lemma_dirty_constants(c, rest, name);
        lemma_last_or_before(symbols, (name, Seq::empty()));
        let last = symbols.last();
        if last.1.len() == 0 {
            assert(last.1 =~= Seq::empty());
            lemma_pushed_symbol(
                dirty_constant_steps(c, rest),
                SymbolStepView { name: last.0, force: c.constants[last.0].flags.is_user_defined },
                name,
                c.constants[name].flags.is_user_defined,
            );
        }
    }
}

/// The class-likes whose types are populated. Where some symbols are said to have changed: those
/// that were selected, in any case. Otherwise all of them, and where something is safe only those
/// that were never populated or that are user-defined and not safe.
pub proof fn class_types_are_populated(p: PopulationView, c: CodebaseView, name: Seq<u8>)
    requires
        p.stage == Stage::FunctionLikesPopulated,
    ensures
        match next_action(p, c) {
            ActionView::PopulateClassTypes(steps) => {
                let flags = c.class_likes[name].flags;
                let force = p.dirty is Some || (flags.is_user_defined && !p.safe_symbols.contains(name));
                let wanted = c.class_likes.contains_key(name) && if p.dirty is Some {
                    p.selected.contains(name)
                } else {
                    c.class_like_names.contains(name) && (!something_is_safe(p) || !flags.is_populated || force)
                };
                &&& is_named(steps, name) <==> wanted
                &&& wanted ==> is_done_by(steps, name, force)
            },
            _ => false,
        },
{
    lemma_incremental(p);
    resolving_hints_keeps_known_types(c, open_keys(c));
    let resolved = hints_resolved(c, open_keys(c));
    assert(resolved.class_likes == c.class_likes && resolved.class_like_names == c.class_like_names);
    if p.dirty is Some {
        lemma_forced_steps(resolved, p.selected, name);
    } else {
        lemma_class_type_steps(p, resolved, resolved.class_like_names, name);
    }
}

/// The constants that are populated. Where some symbols are said to have changed: those of these
/// that are user-defined or were never populated. Otherwise all of them, and where something is
/// safe only those that were never populated or that are user-defined and not safe.
pub proof fn constants_are_populated(p: PopulationView, c: CodebaseView, name: Seq<u8>)
    requires
        p.stage == Stage::ClassTypesPopulated,
    ensures
        match next_action(p, c) {
            ActionView::PopulateConstants(steps) => {
                let flags = c.constants[name].flags;
                let force = flags.is_user_defined && (p.dirty is Some || !p.safe_symbols.contains(name));
                let wanted = c.constants.contains_key(name) && (!flags.is_populated || force || (p.dirty is None
                    && !something_is_safe(p))) && if p.dirty is Some {
                    p.dirty->0.contains((name, Seq::empty()))
                } else {
                    c.constant_names.contains(name)
                };
                &&& is_named(steps, name) <==> wanted
                &&& wanted ==> is_done_by(steps, name, force)
            },
            _ => false,
        },
{
    lemma_incremental(p);
    match p.dirty {
        Some(dirty) => {
            lemma_dirty_constants(c, dirty, name);
        },
        None => {
            lemma_constant_steps(p, c, c.constant_names, name);
        },
    }
}

// ---- descendants ----

/// Where the descendants are found anew, a class-like is one of another exactly where it lists that
/// one among its parent classes, its interfaces or its traits; it is a child exactly where it extends
/// or implements that one itself. Each class-like knows its children.
pub proof fn descendants_are_found(p: PopulationView, c: CodebaseView, parent: Seq<u8>, child: Seq<u8>)
    requires
        p.stage == Stage::ConstantsPopulated,
        !something_is_safe(p) || p.selected.len() > 0,
        c.class_like_names.contains(child),
        c.class_likes.contains_key(child),
    ensures
        ({
            let after = next_codebase(p, c);
            let m = c.class_likes[child];
            let all = after.all_class_like_descendants;
            let direct = after.direct_classlike_descendants;
            &&& (all.contains_key(parent) && all[parent].contains(child)) <==> (m.all_parent_interfaces.contains(parent)
                || m.all_parent_classes.contains(parent) || m.used_traits.contains(parent))
            &&& (direct.contains_key(parent) && direct[parent].contains(child)) <==> (
            m.direct_parent_interfaces.contains(parent) || m.direct_parent_class == Some(parent))
            &&& c.class_likes.contains_key(parent) && direct.contains_key(parent) ==> (after.class_likes.contains_key(
                parent,
            ) && after.class_likes[parent].child_class_likes == Some(direct[parent]))
        }),
{
    lemma_incremental(p);
    let m = c.class_likes[child];
    descendants_mirror_parents(c, c.class_like_names, false, parent, child);
    descendants_mirror_parents(c, c.class_like_names, true, parent, child);
    lemma_concat_contains(m.all_parent_interfaces, m.all_parent_classes, parent);
    lemma_concat_contains(m.all_parent_interfaces + m.all_parent_classes, m.used_traits, parent);
    match m.direct_parent_class {
        Some(class) => {
            lemma_concat_contains(m.direct_parent_interfaces, seq![class], parent);
            assert(seq![class].contains(parent) <==> class == parent) by {
                assert(seq![class][0] == class);
            }
        },
        None => {
            lemma_concat_contains(m.direct_parent_interfaces, Seq::empty(), parent);
        },
    }
}

proof fn lemma_concat_contains<A>(a: Seq<A>, b: Seq<A>, item: A)
    ensures
        (a + b).contains(item) <==> a.contains(item) || b.contains(item),
{
    let all = a + b;
    if a.contains(item) {
        let i = choose|i: int| 0 <= i < a.len() && a[i] == item;
        assert(all[i] == item);
    }
    if b.contains(item) {
        let i = choose|i: int| 0 <= i < b.len() && b[i] == item;
        assert(all[a.len() + i] == item);
    }
    if all.contains(item) {
        let i = choose|i: int| 0 <= i < all.len() && all[i] == item;
        if i < a.len() {
            assert(a[i] == item);
        } else {
            assert(b[i - a.len()] == item);
        }
    }
}

// ---- selection ----

/// The class-likes that are populated anew: those that are user-defined and not safe, and those
/// that were never populated, where some symbols are said to have changed only if they are among
/// these.
pub proof fn changed_class_likes_are_selected(
    c: CodebaseView,
    safe_symbols: Seq<Seq<u8>>,
    dirty: Option<Seq<(Seq<u8>, Seq<u8>)>>,
    name: Seq<u8>,
)
    requires
        c.class_like_names.contains(name),
        c.class_likes.contains_key(name),
    ensures
        selected_class_likes(c, safe_symbols, dirty).contains(name) <==> {
            let flags = c.class_likes[name].flags;
            ||| flags.is_user_defined && !safe_symbols.contains(name)
            ||| !flags.is_populated && (dirty matches Some(symbols) ==> exists|i: int|
                0 <= i < symbols.len() && (#[trigger] symbols[i]).0 == name)
        },
{
    outdated_class_likes_are_selected(c, safe_symbols, dirty, name);
    if let Some(symbols) = dirty {
        let names = symbol_names(symbols);
        if names.contains(name) {
            let i = choose|i: int| 0 <= i < names.len() && names[i] == name;
            assert(symbols[i].0 == name);
        }
        if exists|i: int| 0 <= i < symbols.len() && (#[trigger] symbols[i]).0 == name {
            let i = choose|i: int| 0 <= i < symbols.len() && (#[trigger] symbols[i]).0 == name;
            assert(names[i] == name);
        }
    }
}

/// What its parents gave a class-like is gone, and it counts as not populated.
pub open spec fn is_emptied(m: ClassLikeView, before: ClassLikeView) -> bool {
    &&& m.flags == (MetadataFlags { is_populated: false, ..before.flags })
    &&& forall|n: Seq<u8>| #![trigger m.declaring_property_ids.contains_key(n)] !m.declaring_property_ids.contains_key(n)
    &&& forall|n: Seq<u8>| #![trigger m.appearing_property_ids.contains_key(n)] !m.appearing_property_ids.contains_key(n)
    &&& forall|n: Seq<u8>| #![trigger m.declaring_method_ids.contains_key(n)] !m.declaring_method_ids.contains_key(n)
    &&& forall|n: Seq<u8>| #![trigger m.appearing_method_ids.contains_key(n)] !m.appearing_method_ids.contains_key(n)
    &&& forall|n: Seq<u8>| #![trigger m.overridden_method_ids.contains_key(n)] !m.overridden_method_ids.contains_key(n)
    &&& forall|n: Seq<u8>|
        #![trigger m.overridden_property_ids.contains_key(n)]
        !m.overridden_property_ids.contains_key(n)
    &&& m.declaring_property_names.len() == 0
    &&& m.invalid_dependencies.len() == 0
}

/// What the declaration of a class-like says of it is still there.
pub open spec fn keeps_declaration(m: ClassLikeView, before: ClassLikeView) -> bool {
    &&& m.name == before.name
    &&& m.original_name == before.original_name
    &&& m.kind == before.kind
    &&& m.direct_parent_class == before.direct_parent_class
    &&& m.all_parent_classes == before.all_parent_classes
    &&& m.direct_parent_interfaces == before.direct_parent_interfaces
    &&& m.all_parent_interfaces == before.all_parent_interfaces
    &&& m.used_traits == before.used_traits
    &&& m.methods == before.methods
    &&& m.inheritable_method_ids == before.inheritable_method_ids
    &&& m.properties == before.properties
    &&& m.constants == before.constants
    &&& m.enum_cases == before.enum_cases
    &&& m.template_types == before.template_types
    &&& m.issues == before.issues
}

/// A class-like that is populated anew loses what its parents gave it and keeps what its declaration
/// says; any other one stays as it is.
pub proof fn selected_class_likes_start_anew(c: CodebaseView, names: Seq<Seq<u8>>, name: Seq<u8>)
    requires
        c.class_likes.contains_key(name),
    ensures
        with_reset(c, names).class_likes.contains_key(name),
        names.contains(name) ==> is_emptied(with_reset(c, names).class_likes[name], c.class_likes[name])
            && keeps_declaration(with_reset(c, names).class_likes[name], c.class_likes[name]),
        !names.contains(name) ==> with_reset(c, names).class_likes[name] == c.class_likes[name],
        with_reset(c, names).function_likes == c.function_likes,
        with_reset(c, names).constants == c.constants,
        with_reset(c, names).symbols == c.symbols,
{
    only_selected_class_likes_are_reset(c, names, name);
    let m = reset_class_like(c.class_likes[name]);
    assert(is_emptied(m, c.class_likes[name]));
    assert(keeps_declaration(m, c.class_likes[name]));
}

} // verus!
