//! What calls return: the mathematical account.

use vstd::prelude::*;

use crate::codebase::CodebaseView;
use crate::collections::with_item;
use crate::initialization_model::lemma_unseen_insert;
use crate::initialization_model::unseen;
use crate::metadata::FunctionLikeView;
use crate::metadata::HintView;
use crate::metadata::TypeView;
use crate::ttype::AtomicView;
use crate::ttype::NamedObjectView;
use crate::ttype::ObjectView;
use crate::ttype::ReferenceView;
use crate::ttype::UnionView;
use crate::word::last_separator;
use crate::word::lowercase;
use crate::word::lowercase_is_idempotent;
use crate::word::short_name;

verus! {

/// A type as it is returned: the name of a class stands for an object of it.
pub open spec fn returned_atomic(t: AtomicView) -> AtomicView {
    match t {
        AtomicView::Reference(ReferenceView::Symbol(s)) => AtomicView::Object(
            ObjectView::Named(
                NamedObjectView {
                    name: s.name,
                    type_parameters: s.parameters,
                    is_this: false,
                    intersection_types: match s.intersection_types {
                        Some(types) => if types.len() > 0 {
                            Some(types)
                        } else {
                            None
                        },
                        None => None,
                    },
                },
            ),
        ),
        _ => t,
    }
}

/// The types of `collected` and those of `types`, none of them twice.
pub open spec fn collect(collected: Seq<AtomicView>, types: Seq<AtomicView>) -> Seq<AtomicView>
    decreases types.len(),
{
    if types.len() == 0 {
        collected
    } else {
        with_item(collect(collected, types.drop_last()), returned_atomic(types.last()))
    }
}

/// The class of an object of this type, on which the next method of a chain is called; `current` is
/// the class of the object on which the last one was called.
pub open spec fn class_of_type(types: Seq<AtomicView>, current: Seq<u8>) -> Option<Seq<u8>>
    decreases types.len(),
{
    if types.len() == 0 {
        None
    } else {
        match types[0] {
            AtomicView::Object(ObjectView::Named(named)) => Some(
                if named.is_this {
                    current
                } else {
                    lowercase(named.name)
                },
            ),
            AtomicView::Reference(ReferenceView::Symbol(s)) if s.intersection_types is None => Some(
                lowercase(s.name),
            ),
            _ => class_of_type(types.skip(1), current),
        }
    }
}

/// The function-like of this key, where there is one.
pub open spec fn function_like(c: CodebaseView, key: (Seq<u8>, Seq<u8>)) -> Option<FunctionLikeView> {
    if c.function_likes.contains_key(key) && c.function_like_keys.contains(key) {
        Some(c.function_likes[key])
    } else {
        None
    }
}

/// Nothing but the function-like of this key decides what a call returns: it is being resolved, or
/// it has a return type, or it returns calls itself.
pub open spec fn settles(c: CodebaseView, key: (Seq<u8>, Seq<u8>), resolving: Set<(Seq<u8>, Seq<u8>)>) -> bool {
    ||| resolving.contains(key)
    ||| match function_like(c, key) {
        Some(f) => f.return_type_metadata is Some || f.return_expression_hints.len() > 0,
        None => false,
    }
}

/// What the function-like of this key returns, unless it is being resolved already.
pub open spec fn direct_return(
    c: CodebaseView,
    key: (Seq<u8>, Seq<u8>),
    resolving: Set<(Seq<u8>, Seq<u8>)>,
) -> Option<UnionView>
    decreases unseen(c.function_like_keys, resolving), 0nat, 0nat,
{
    if resolving.contains(key) {
        None
    } else {
        match function_like(c, key) {
            Some(f) => match f.return_type_metadata {
                Some(t) => Some(t.type_union),
                None => {
                    proof {
                        lemma_unseen_insert(c.function_like_keys, resolving, key);
                    }
                    resolved_hints(c, f.return_expression_hints, resolving.insert(key))
                },
            },
            None => None,
        }
    }
}

/// What the first of these class-likes whose method returns something known returns.
pub open spec fn first_return(
    c: CodebaseView,
    classes: Seq<Seq<u8>>,
    method: Seq<u8>,
    resolving: Set<(Seq<u8>, Seq<u8>)>,
) -> Option<UnionView>
    decreases unseen(c.function_like_keys, resolving), 1nat, classes.len(),
{
    if classes.len() == 0 {
        None
    } else {
        let earlier = first_return(c, classes.drop_last(), method, resolving);
        if earlier is Some {
            earlier
        } else {
            direct_return(c, (lowercase(classes.last()), method), resolving)
        }
    }
}

/// What a method of a class returns: that of the class itself, else that of a parent, else that of
/// a trait.
pub open spec fn method_return(
    c: CodebaseView,
    class: Seq<u8>,
    method: Seq<u8>,
    resolving: Set<(Seq<u8>, Seq<u8>)>,
) -> Option<UnionView>
    decreases unseen(c.function_like_keys, resolving), 2nat, 0nat,
{
    let key = (lowercase(class), method);
    if settles(c, key, resolving) {
        direct_return(c, key, resolving)
    } else {
        match c.class_like(class) {
            Some(meta) => first_return(c, meta.all_parent_classes + meta.used_traits, method, resolving),
            None => None,
        }
    }
}

/// What a function returns: that of the name itself, else that of the global function of the same
/// short name.
pub open spec fn function_return(
    c: CodebaseView,
    function: Seq<u8>,
    resolving: Set<(Seq<u8>, Seq<u8>)>,
) -> Option<UnionView>
    decreases unseen(c.function_like_keys, resolving), 2nat, 0nat,
{
    let key = (Seq::empty(), function);
    if settles(c, key, resolving) {
        direct_return(c, key, resolving)
    } else if last_separator(function, function.len() as int) >= 0 {
        direct_return(c, (Seq::empty(), lowercase(short_name(function))), resolving)
    } else {
        None
    }
}

/// What a chain of methods returns, each called on what the one before it returns.
pub open spec fn chain_return(
    c: CodebaseView,
    class: Seq<u8>,
    methods: Seq<Seq<u8>>,
    resolving: Set<(Seq<u8>, Seq<u8>)>,
) -> Option<UnionView>
    decreases unseen(c.function_like_keys, resolving), 3nat, methods.len(),
{
    if methods.len() == 0 {
        None
    } else {
        match method_return(c, class, methods[0], resolving) {
            Some(t) => if methods.len() == 1 {
                Some(t)
            } else {
                match class_of_type(t.types, class) {
                    Some(next) => chain_return(c, next, methods.skip(1), resolving),
                    None => None,
                }
            },
            None => None,
        }
    }
}

/// What the call of a hint returns.
pub open spec fn hint_return(
    c: CodebaseView,
    hint: HintView,
    resolving: Set<(Seq<u8>, Seq<u8>)>,
) -> Option<UnionView>
    decreases unseen(c.function_like_keys, resolving), 4nat, 0nat,
{
    match hint {
        HintView::InstanceMethodCall { class, method } => method_return(c, class, method, resolving),
        HintView::StaticMethodCall { class, method } => method_return(c, class, method, resolving),
        HintView::FunctionCall { function } => function_return(c, function, resolving),
        HintView::MethodChain { receiver_class, methods } => chain_return(c, receiver_class, methods, resolving),
    }
}

/// The types that the calls of these hints return.
pub open spec fn hinted_types(
    c: CodebaseView,
    hints: Seq<HintView>,
    resolving: Set<(Seq<u8>, Seq<u8>)>,
) -> Seq<AtomicView>
    decreases unseen(c.function_like_keys, resolving), 5nat, hints.len(),
{
    if hints.len() == 0 {
        Seq::empty()
    } else {
        let rest = hinted_types(c, hints.drop_last(), resolving);
        match hint_return(c, hints.last(), resolving) {
            Some(t) => collect(rest, t.types),
            None => rest,
        }
    }
}

/// What a function-like with these hints returns, where anything of it is known.
pub open spec fn resolved_hints(
    c: CodebaseView,
    hints: Seq<HintView>,
    resolving: Set<(Seq<u8>, Seq<u8>)>,
) -> Option<UnionView>
    decreases unseen(c.function_like_keys, resolving), 6nat, 0nat,
{
    let types = hinted_types(c, hints, resolving);
    if types.len() == 0 {
        None
    } else {
        Some(UnionView { types })
    }
}

/// A function-like of which the hints are looked at: it has some, and no return type.
pub open spec fn is_open(c: CodebaseView, key: (Seq<u8>, Seq<u8>)) -> bool {
    &&& c.function_likes.contains_key(key)
    &&& c.function_likes[key].return_type_metadata is None
    &&& c.function_likes[key].return_expression_hints.len() > 0
}

/// The codebase with a return type for one function-like.
pub open spec fn with_return_type(c: CodebaseView, key: (Seq<u8>, Seq<u8>), t: UnionView) -> CodebaseView {
    let f = c.function_likes[key];
    CodebaseView {
        function_likes: c.function_likes.insert(
            key,
            FunctionLikeView {
                return_type_metadata: Some(
                    TypeView { type_union: t, span: f.span, from_docblock: false, inferred: true },
                ),
                ..f
            },
        ),
        ..c
    }
}

/// What the hints of one function-like give, as things stand.
pub open spec fn hinted_return(c: CodebaseView, key: (Seq<u8>, Seq<u8>)) -> Option<UnionView> {
    if is_open(c, key) {
        resolved_hints(c, c.function_likes[key].return_expression_hints, Set::empty().insert(key))
    } else {
        None
    }
}

/// The codebase once the hints of one function-like have been looked at.
pub open spec fn with_hints_of(c: CodebaseView, key: (Seq<u8>, Seq<u8>)) -> CodebaseView {
    match hinted_return(c, key) {
        Some(t) => with_return_type(c, key, t),
        None => c,
    }
}

/// The codebase once the hints of these function-likes have been looked at, one after the other.
pub open spec fn hint_pass(c: CodebaseView, keys: Seq<(Seq<u8>, Seq<u8>)>) -> CodebaseView
    decreases keys.len(),
{
    if keys.len() == 0 {
        c
    } else {
        with_hints_of(hint_pass(c, keys.drop_last()), keys.last())
    }
}

/// The function-likes without a return type, each place counted.
pub open spec fn untyped(c: CodebaseView, keys: Seq<(Seq<u8>, Seq<u8>)>) -> nat
    decreases keys.len(),
{
    if keys.len() == 0 {
        0
    } else {
        untyped(c, keys.drop_last()) + if is_open(c, keys.last()) {
            1nat
        } else {
            0nat
        }
    }
}

/// The codebase once the hints have been looked at again and again, until nothing changes.
pub open spec fn hints_resolved(c: CodebaseView, keys: Seq<(Seq<u8>, Seq<u8>)>) -> CodebaseView
    decreases untyped(c, keys),
{
    let after = hint_pass(c, keys);
    if untyped(after, keys) < untyped(c, keys) {
        hints_resolved(after, keys)
    } else {
        after
    }
}

/// The function-likes whose hints are looked at.
pub open spec fn open_keys(c: CodebaseView) -> Seq<(Seq<u8>, Seq<u8>)> {
    c.function_like_keys.filter(|key: (Seq<u8>, Seq<u8>)| is_open(c, key))
}

/// Looking at the hints of one function-like changes nothing but its return type, and that only
/// where it had none.
pub open spec fn only_opens_changed(before: CodebaseView, after: CodebaseView) -> bool {
    &&& after == (CodebaseView { function_likes: after.function_likes, ..before })
    &&& after.function_likes.dom() == before.function_likes.dom()
    &&& forall|key: (Seq<u8>, Seq<u8>)|
        #![trigger after.function_likes[key]]
        before.function_likes.contains_key(key) ==> {
            &&& after.function_likes[key] == (FunctionLikeView {
                return_type_metadata: after.function_likes[key].return_type_metadata,
                ..before.function_likes[key]
            })
            &&& !is_open(before, key) ==> after.function_likes[key] == before.function_likes[key]
        }
}

proof fn lemma_only_opens_changed_transitive(a: CodebaseView, b: CodebaseView, c: CodebaseView)
    requires
        only_opens_changed(a, b),
        only_opens_changed(b, c),
    ensures
        only_opens_changed(a, c),
{
    assert forall|key: (Seq<u8>, Seq<u8>)|
        #![trigger c.function_likes[key]]
        a.function_likes.contains_key(key) implies {
        &&& c.function_likes[key] == (FunctionLikeView {
            return_type_metadata: c.function_likes[key].return_type_metadata,
            ..a.function_likes[key]
        })
        &&& !is_open(a, key) ==> c.function_likes[key] == a.function_likes[key]
    } by {
        assert(b.function_likes.dom().contains(key));
        let between = b.function_likes[key];
        assert(b.function_likes.contains_key(key));
    }
}

pub proof fn lemma_pass_changes(c: CodebaseView, keys: Seq<(Seq<u8>, Seq<u8>)>)
    ensures
        only_opens_changed(c, hint_pass(c, keys)),
    decreases keys.len(),
{
    if keys.len() > 0 {
        let between = hint_pass(c, keys.drop_last());
        lemma_pass_changes(c, keys.drop_last());
        let after = with_hints_of(between, keys.last());
        assert(after.function_likes.dom() =~= between.function_likes.dom());
        assert(only_opens_changed(between, after));
        lemma_only_opens_changed_transitive(c, between, after);
    } else {
        assert(only_opens_changed(c, c));
    }
}

/// Resolving hints changes nothing but return types, and only those of function-likes that have
/// hints and no return type.
pub proof fn resolving_hints_keeps_known_types(c: CodebaseView, keys: Seq<(Seq<u8>, Seq<u8>)>)
    ensures
        only_opens_changed(c, hints_resolved(c, keys)),
    decreases untyped(c, keys),
{
    lemma_pass_changes(c, keys);
    let after = hint_pass(c, keys);
    if untyped(after, keys) < untyped(c, keys) {
        resolving_hints_keeps_known_types(after, keys);
        lemma_only_opens_changed_transitive(c, after, hints_resolved(after, keys));
    }
}

/// What is open after a change was open before it.
proof fn lemma_untyped_shrinks(before: CodebaseView, after: CodebaseView, keys: Seq<(Seq<u8>, Seq<u8>)>)
    requires
        only_opens_changed(before, after),
    ensures
        untyped(after, keys) <= untyped(before, keys),
        forall|key: (Seq<u8>, Seq<u8>)|
            keys.contains(key) && is_open(before, key) && !is_open(after, key) ==> untyped(after, keys) < untyped(
                before,
                keys,
            ),
    decreases keys.len(),
{
    if keys.len() > 0 {
        lemma_untyped_shrinks(before, after, keys.drop_last());
        let last = keys.last();
        assert(after.function_likes.dom().contains(last) == before.function_likes.dom().contains(last));
        let changed = after.function_likes[last];
        assert(is_open(after, last) ==> is_open(before, last));
        assert forall|key: (Seq<u8>, Seq<u8>)|
            keys.contains(key) && is_open(before, key) && !is_open(after, key) implies untyped(after, keys)
            < untyped(before, keys) by {
            if key != last {
                let i = choose|i: int| 0 <= i < keys.len() && keys[i] == key;
                assert(keys.drop_last()[i] == key);
            }
        }
    }
}

/// A pass that resolves nothing leaves the codebase as it is, and finds no hint that could be
/// resolved.
proof fn lemma_idle_pass(c: CodebaseView, keys: Seq<(Seq<u8>, Seq<u8>)>, all: Seq<(Seq<u8>, Seq<u8>)>)
    requires
        forall|i: int| 0 <= i < keys.len() ==> all.contains(#[trigger] keys[i]),
        untyped(hint_pass(c, keys), all) >= untyped(c, all),
    ensures
        hint_pass(c, keys) == c,
        forall|key: (Seq<u8>, Seq<u8>)| keys.contains(key) ==> #[trigger] hinted_return(c, key) is None,
    decreases keys.len(),
{
    if keys.len() > 0 {
        let rest = keys.drop_last();
        let between = hint_pass(c, rest);
        lemma_pass_changes(c, rest);
        lemma_untyped_shrinks(c, between, all);
        let after = with_hints_of(between, keys.last());
        assert(after.function_likes.dom() =~= between.function_likes.dom());
        assert(only_opens_changed(between, after));
        lemma_untyped_shrinks(between, after, all);
        assert forall|i: int| 0 <= i < rest.len() implies all.contains(#[trigger] rest[i]) by {
            assert(all.contains(keys[i]));
        }
        lemma_idle_pass(c, rest, all);
        assert(all.contains(keys[keys.len() - 1]));
        if hinted_return(c, keys.last()) is Some {
            assert(is_open(between, keys.last()));
            assert(!is_open(after, keys.last()));
            assert(false);
        }
        assert forall|key: (Seq<u8>, Seq<u8>)| keys.contains(key) implies #[trigger] hinted_return(c, key) is None by {
            if key != keys.last() {
                let i = choose|i: int| 0 <= i < keys.len() && keys[i] == key;
                assert(rest[i] == key);
            }
        }
    }
}

/// When the hints are resolved, no progress is left: looking at them once more changes nothing,
/// and no function-like that is still open could be resolved.
pub proof fn no_hint_is_left(c: CodebaseView, keys: Seq<(Seq<u8>, Seq<u8>)>)
    ensures
        hint_pass(hints_resolved(c, keys), keys) == hints_resolved(c, keys),
        forall|key: (Seq<u8>, Seq<u8>)|
            keys.contains(key) ==> #[trigger] hinted_return(hints_resolved(c, keys), key) is None,
    decreases untyped(c, keys),
{
    let after = hint_pass(c, keys);
    if untyped(after, keys) < untyped(c, keys) {
        no_hint_is_left(after, keys);
    } else {
        assert forall|i: int| 0 <= i < keys.len() implies keys.contains(#[trigger] keys[i]) by {
        }
        lemma_idle_pass(c, keys, keys);
    }
}

/// A step that gives a return type leaves fewer open.
pub proof fn lemma_step_untyped(c: CodebaseView, key: (Seq<u8>, Seq<u8>), all: Seq<(Seq<u8>, Seq<u8>)>)
    requires
        all.contains(key),
    ensures
        untyped(with_hints_of(c, key), all) <= untyped(c, all),
        hinted_return(c, key) is Some ==> untyped(with_hints_of(c, key), all) < untyped(c, all),
{
    let after = with_hints_of(c, key);
    assert(after.function_likes.dom() =~= c.function_likes.dom());
    assert(only_opens_changed(c, after));
    lemma_untyped_shrinks(c, after, all);
}

proof fn lemma_collect_has_no_reference(collected: Seq<AtomicView>, types: Seq<AtomicView>)
    requires
        forall|i: int| 0 <= i < collected.len() ==> !is_symbol_reference(#[trigger] collected[i]),
    ensures
        forall|i: int|
            0 <= i < collect(collected, types).len() ==> !is_symbol_reference(#[trigger] collect(collected, types)[i]),
    decreases types.len(),
{
    if types.len() > 0 {
        lemma_collect_has_no_reference(collected, types.drop_last());
        let rest = collect(collected, types.drop_last());
        let last = returned_atomic(types.last());
        assert(!is_symbol_reference(last));
        assert forall|i: int| 0 <= i < collect(collected, types).len() implies !is_symbol_reference(
            #[trigger] collect(collected, types)[i],
        ) by {
            if i < rest.len() {
                assert(collect(collected, types)[i] == rest[i]);
            }
        }
    }
}

/// A name of a class that has not been looked up.
pub open spec fn is_symbol_reference(t: AtomicView) -> bool {
    t matches AtomicView::Reference(ReferenceView::Symbol(_))
}

/// What hints give holds objects, never names of classes that have not been looked up.
pub proof fn hinted_types_are_objects(
    c: CodebaseView,
    hints: Seq<HintView>,
    resolving: Set<(Seq<u8>, Seq<u8>)>,
)
    ensures
        forall|i: int|
            0 <= i < hinted_types(c, hints, resolving).len() ==> !is_symbol_reference(
                #[trigger] hinted_types(c, hints, resolving)[i],
            ),
    decreases hints.len(),
{
    if hints.len() > 0 {
        hinted_types_are_objects(c, hints.drop_last(), resolving);
        if let Some(t) = hint_return(c, hints.last(), resolving) {
            lemma_collect_has_no_reference(hinted_types(c, hints.drop_last(), resolving), t.types);
        }
    }
}

/// The case of the letters of a class name makes no difference to what its methods return.
pub proof fn class_names_in_any_case(
    c: CodebaseView,
    class: Seq<u8>,
    method: Seq<u8>,
    resolving: Set<(Seq<u8>, Seq<u8>)>,
)
    ensures
        method_return(c, lowercase(class), method, resolving) == method_return(c, class, method, resolving),
{
    lowercase_is_idempotent(class);
}

/// What is declared is returned: hints are looked at only where no return type is known.
pub proof fn declared_types_are_returned(
    c: CodebaseView,
    class: Seq<u8>,
    method: Seq<u8>,
    resolving: Set<(Seq<u8>, Seq<u8>)>,
)
    requires
        !resolving.contains((lowercase(class), method)),
        function_like(c, (lowercase(class), method)) is Some,
        function_like(c, (lowercase(class), method))->0.return_type_metadata is Some,
    ensures
        method_return(c, class, method, resolving) == Some(
            function_like(c, (lowercase(class), method))->0.return_type_metadata->0.type_union,
        ),
{
}

/// A call that leads back to a function-like that is being resolved gives nothing.
pub proof fn circular_calls_give_nothing(
    c: CodebaseView,
    class: Seq<u8>,
    method: Seq<u8>,
    resolving: Set<(Seq<u8>, Seq<u8>)>,
)
    requires
        resolving.contains((lowercase(class), method)),
    ensures
        method_return(c, class, method, resolving) is None,
{
}

} // verus!
