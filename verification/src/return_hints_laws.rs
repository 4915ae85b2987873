//! What calls return, told by the calls themselves.

use vstd::prelude::*;

use crate::codebase::CodebaseView;
use crate::collections::lemma_with_item;
use crate::metadata::FunctionLikeView;
use crate::metadata::HintView;
use crate::return_hints_model::chain_return;
use crate::return_hints_model::collect;
use crate::return_hints_model::direct_return;
use crate::return_hints_model::first_return;
use crate::return_hints_model::hint_pass;
use crate::return_hints_model::hint_return;
use crate::return_hints_model::hinted_return;
use crate::return_hints_model::hinted_types;
use crate::return_hints_model::hints_resolved;
use crate::return_hints_model::is_open;
use crate::return_hints_model::method_return;
use crate::return_hints_model::no_hint_is_left;
use crate::return_hints_model::only_opens_changed;
use crate::return_hints_model::open_keys;
use crate::return_hints_model::resolving_hints_keeps_known_types;
use crate::return_hints_model::returned_atomic;
use crate::return_hints_model::untyped;
use crate::return_hints_model::with_hints_of;
use crate::ttype::AtomicView;
use crate::ttype::ObjectView;
use crate::ttype::ReferenceView;
use crate::ttype::UnionView;
use crate::word::last_separator;
use crate::word::lowercase;
use crate::word::short_name;

verus! {

/// The function-like of this key is known, and this is its return type.
pub open spec fn is_declared(c: CodebaseView, key: (Seq<u8>, Seq<u8>), t: UnionView) -> bool {
    &&& c.function_like_keys.contains(key)
    &&& c.function_likes.contains_key(key)
    &&& c.function_likes[key].return_type_metadata matches Some(m) && m.type_union == t
}

/// A call of a method, on an object or on its class, and a call of a function give the type that
/// they are declared to return.
pub proof fn calls_return_what_is_declared(
    c: CodebaseView,
    class: Seq<u8>,
    name: Seq<u8>,
    resolving: Set<(Seq<u8>, Seq<u8>)>,
    t: UnionView,
)
    ensures
        is_declared(c, (lowercase(class), name), t) && !resolving.contains((lowercase(class), name)) ==> {
            &&& hint_return(c, HintView::InstanceMethodCall { class, method: name }, resolving) == Some(t)
            &&& hint_return(c, HintView::StaticMethodCall { class, method: name }, resolving) == Some(t)
        },
        is_declared(c, (Seq::empty(), name), t) && !resolving.contains((Seq::empty(), name)) ==> hint_return(
            c,
            HintView::FunctionCall { function: name },
            resolving,
        ) == Some(t),
{
}

/// A function that is not known in its namespace is the global one of that name.
pub proof fn unknown_functions_are_global(
    c: CodebaseView,
    namespace: Seq<u8>,
    name: Seq<u8>,
    resolving: Set<(Seq<u8>, Seq<u8>)>,
    t: UnionView,
)
    requires
        !name.contains(92u8),
        !c.function_likes.contains_key((Seq::empty(), namespace + seq![92u8] + name)),
        !resolving.contains((Seq::empty(), namespace + seq![92u8] + name)),
        is_declared(c, (Seq::empty(), lowercase(name)), t),
        !resolving.contains((Seq::empty(), lowercase(name))),
    ensures
        hint_return(c, HintView::FunctionCall { function: namespace + seq![92u8] + name }, resolving) == Some(t),
{
    let function = namespace + seq![92u8] + name;
    lemma_last_separator(function, namespace.len() as int, function.len() as int);
    assert(short_name(function) =~= name);
}

proof fn lemma_last_separator(w: Seq<u8>, at: int, end: int)
    requires
        0 <= at < end <= w.len(),
        w[at] == 92,
        forall|i: int| at < i < end ==> #[trigger] w[i] != 92,
    ensures
        last_separator(w, end) == at,
    decreases end,
{
    if end - 1 > at {
        lemma_last_separator(w, at, end - 1);
    }
}

/// A method that a class does not declare itself is that of its first parent that declares it, or
/// else of the first of its traits that does.
pub proof fn methods_come_from_parents_and_traits(
    c: CodebaseView,
    class: Seq<u8>,
    method: Seq<u8>,
    resolving: Set<(Seq<u8>, Seq<u8>)>,
    k: int,
    t: UnionView,
)
    requires
        !c.function_likes.contains_key((lowercase(class), method)),
        !resolving.contains((lowercase(class), method)),
        c.class_likes.contains_key(lowercase(class)),
        ({
            let meta = c.class_likes[lowercase(class)];
            let above = meta.all_parent_classes + meta.used_traits;
            &&& 0 <= k < above.len()
            &&& is_declared(c, (lowercase(above[k]), method), t)
            &&& !resolving.contains((lowercase(above[k]), method))
            &&& forall|j: int| 0 <= j < k ==> !c.function_likes.contains_key((lowercase(#[trigger] above[j]), method))
        }),
    ensures
        hint_return(c, HintView::InstanceMethodCall { class, method }, resolving) == Some(t),
        hint_return(c, HintView::StaticMethodCall { class, method }, resolving) == Some(t),
{
    let meta = c.class_likes[lowercase(class)];
    let above = meta.all_parent_classes + meta.used_traits;
    lemma_first_return(c, above, method, resolving, k, t);
}

proof fn lemma_first_return(
    c: CodebaseView,
    classes: Seq<Seq<u8>>,
    method: Seq<u8>,
    resolving: Set<(Seq<u8>, Seq<u8>)>,
    k: int,
    t: UnionView,
)
    requires
        0 <= k < classes.len(),
        is_declared(c, (lowercase(classes[k]), method), t),
        !resolving.contains((lowercase(classes[k]), method)),
        forall|j: int| 0 <= j < k ==> !c.function_likes.contains_key((lowercase(#[trigger] classes[j]), method)),
    ensures
        first_return(c, classes, method, resolving) == Some(t),
    decreases classes.len(),
{
    let rest = classes.drop_last();
    if k < classes.len() - 1 {
        assert forall|j: int| 0 <= j < k implies !c.function_likes.contains_key((lowercase(#[trigger] rest[j]), method)) by {
            assert(rest[j] == classes[j]);
        }
        lemma_first_return(c, rest, method, resolving, k, t);
    } else {
        assert forall|j: int| 0 <= j < rest.len() implies !c.function_likes.contains_key(
            (lowercase(#[trigger] rest[j]), method),
        ) by {
            assert(rest[j] == classes[j]);
        }
        lemma_no_return(c, rest, method, resolving);
        assert(direct_return(c, (lowercase(classes.last()), method), resolving) == Some(t));
    }
}

proof fn lemma_no_return(
    c: CodebaseView,
    classes: Seq<Seq<u8>>,
    method: Seq<u8>,
    resolving: Set<(Seq<u8>, Seq<u8>)>,
)
    requires
        forall|j: int| 0 <= j < classes.len() ==> !c.function_likes.contains_key((lowercase(#[trigger] classes[j]), method)),
    ensures
        first_return(c, classes, method, resolving) is None,
    decreases classes.len(),
{
    if classes.len() > 0 {
        let rest = classes.drop_last();
        assert forall|j: int| 0 <= j < rest.len() implies !c.function_likes.contains_key(
            (lowercase(#[trigger] rest[j]), method),
        ) by {
            assert(rest[j] == classes[j]);
        }
        lemma_no_return(c, rest, method, resolving);
        assert(!c.function_likes.contains_key((lowercase(classes[classes.len() - 1]), method)));
        assert(direct_return(c, (lowercase(classes.last()), method), resolving) is None);
    }
}

/// A call of what nobody declares gives nothing.
pub proof fn unknown_calls_give_nothing(
    c: CodebaseView,
    class: Seq<u8>,
    name: Seq<u8>,
    resolving: Set<(Seq<u8>, Seq<u8>)>,
)
    ensures
        !c.function_likes.contains_key((lowercase(class), name)) && (c.class_likes.contains_key(lowercase(class)) ==> {
            let meta = c.class_likes[lowercase(class)];
            forall|j: int|
                0 <= j < (meta.all_parent_classes + meta.used_traits).len() ==> !c.function_likes.contains_key(
                    (lowercase(#[trigger] (meta.all_parent_classes + meta.used_traits)[j]), name),
                )
        }) ==> {
            &&& hint_return(c, HintView::InstanceMethodCall { class, method: name }, resolving) is None
            &&& hint_return(c, HintView::StaticMethodCall { class, method: name }, resolving) is None
        },
        !c.function_likes.contains_key((Seq::empty(), name)) && !name.contains(92u8) ==> hint_return(
            c,
            HintView::FunctionCall { function: name },
            resolving,
        ) is None,
{
    if !name.contains(92u8) {
        lemma_no_separator(name, name.len() as int);
    }
    if c.class_likes.contains_key(lowercase(class)) {
        let meta = c.class_likes[lowercase(class)];
        let above = meta.all_parent_classes + meta.used_traits;
        if forall|j: int| 0 <= j < above.len() ==> !c.function_likes.contains_key((lowercase(#[trigger] above[j]), name)) {
            lemma_no_return(c, above, name, resolving);
        }
    }
}

proof fn lemma_no_separator(w: Seq<u8>, end: int)
    requires
        0 <= end <= w.len(),
        !w.contains(92u8),
    ensures
        last_separator(w, end) < 0,
    decreases end,
{
    if end > 0 {
        assert(w.contains(w[end - 1]));
        lemma_no_separator(w, end - 1);
    }
}

/// A type whose first part is an object of this class, or the name of this class, or the object
/// itself where the class is that of the object on which the method was called.
pub open spec fn leads_to_class(t: UnionView, current: Seq<u8>, next: Seq<u8>) -> bool {
    &&& t.types.len() > 0
    &&& match t.types[0] {
        AtomicView::Object(ObjectView::Named(named)) => if named.is_this {
            next == current
        } else {
            next == lowercase(named.name)
        },
        AtomicView::Reference(ReferenceView::Symbol(s)) => s.intersection_types is None && next == lowercase(s.name),
        _ => false,
    }
}

/// A chain of methods gives what its last method is declared to return, each of them looked up on
/// the class that the one before it leads to.
pub proof fn chains_end_with_their_last_method(
    c: CodebaseView,
    classes: Seq<Seq<u8>>,
    methods: Seq<Seq<u8>>,
    types: Seq<UnionView>,
    resolving: Set<(Seq<u8>, Seq<u8>)>,
)
    requires
        methods.len() > 0,
        classes.len() == methods.len(),
        types.len() == methods.len(),
        forall|i: int|
            0 <= i < methods.len() ==> is_declared(c, (lowercase(classes[i]), #[trigger] methods[i]), types[i])
                && !resolving.contains((lowercase(classes[i]), methods[i])),
        forall|i: int| 0 < i < methods.len() ==> leads_to_class(types[i - 1], classes[i - 1], #[trigger] classes[i]),
    ensures
        hint_return(c, HintView::MethodChain { receiver_class: classes[0], methods }, resolving) == Some(types.last()),
{
    lemma_chain(c, classes, methods, types, resolving);
}

proof fn lemma_chain(
    c: CodebaseView,
    classes: Seq<Seq<u8>>,
    methods: Seq<Seq<u8>>,
    types: Seq<UnionView>,
    resolving: Set<(Seq<u8>, Seq<u8>)>,
)
    requires
        methods.len() > 0,
        classes.len() == methods.len(),
        types.len() == methods.len(),
        forall|i: int|
            0 <= i < methods.len() ==> is_declared(c, (lowercase(classes[i]), #[trigger] methods[i]), types[i])
                && !resolving.contains((lowercase(classes[i]), methods[i])),
        forall|i: int| 0 < i < methods.len() ==> leads_to_class(types[i - 1], classes[i - 1], #[trigger] classes[i]),
    ensures
        chain_return(c, classes[0], methods, resolving) == Some(types.last()),
    decreases methods.len(),
{
    assert(is_declared(c, (lowercase(classes[0]), methods[0]), types[0]));
    assert(method_return(c, classes[0], methods[0], resolving) == Some(types[0]));
    if methods.len() > 1 {
        let next_classes = classes.skip(1);
        let next_methods = methods.skip(1);
        let next_types = types.skip(1);
        assert(leads_to_class(types[0], classes[0], classes[1]));
        assert forall|i: int| 0 <= i < next_methods.len() implies is_declared(
            c,
            (lowercase(next_classes[i]), #[trigger] next_methods[i]),
            next_types[i],
        ) && !resolving.contains((lowercase(next_classes[i]), next_methods[i])) by {
            assert(is_declared(c, (lowercase(classes[i + 1]), methods[i + 1]), types[i + 1]));
        }
        assert forall|i: int| 0 < i < next_methods.len() implies leads_to_class(
            next_types[i - 1],
            next_classes[i - 1],
            #[trigger] next_classes[i],
        ) by {
            assert(leads_to_class(types[i], classes[i], classes[i + 1]));
        }
        lemma_chain(c, next_classes, next_methods, next_types, resolving);
        assert(next_types.last() == types.last());
    }
}

/// A chain of one method is a call of it, and an empty one gives nothing.
pub proof fn short_chains_are_calls(
    c: CodebaseView,
    class: Seq<u8>,
    method: Seq<u8>,
    resolving: Set<(Seq<u8>, Seq<u8>)>,
)
    ensures
        hint_return(c, HintView::MethodChain { receiver_class: class, methods: seq![method] }, resolving) == hint_return(
            c,
            HintView::InstanceMethodCall { class, method },
            resolving,
        ),
        hint_return(c, HintView::MethodChain { receiver_class: class, methods: Seq::empty() }, resolving) is None,
{
}

// ---- what becomes of the codebase ----

/// A type as the analysed program returns it: the name of a class stands for an object of it, with
/// the same arguments and intersections.
pub open spec fn is_returned_as(t: AtomicView, returned: AtomicView) -> bool {
    match t {
        AtomicView::Reference(ReferenceView::Symbol(s)) => match returned {
            AtomicView::Object(ObjectView::Named(named)) => {
                &&& named.name == s.name
                &&& named.type_parameters == s.parameters
                &&& !named.is_this
                &&& s.intersection_types is Some && s.intersection_types->0.len() > 0 ==> named.intersection_types
                    == s.intersection_types
                &&& s.intersection_types is None || s.intersection_types->0.len() == 0 ==> named.intersection_types is None
            },
            _ => false,
        },
        _ => returned == t,
    }
}

/// The call of this hint is declared to return this type.
pub open spec fn is_declared_call(c: CodebaseView, hint: HintView, t: UnionView) -> bool {
    match hint {
        HintView::InstanceMethodCall { class, method } => is_declared(c, (lowercase(class), method), t),
        HintView::StaticMethodCall { class, method } => is_declared(c, (lowercase(class), method), t),
        HintView::FunctionCall { function } => is_declared(c, (Seq::empty(), function), t),
        HintView::MethodChain { .. } => false,
    }
}

/// A function-like that returns calls, and of which no return type is known.
pub open spec fn only_returns_calls(c: CodebaseView, key: (Seq<u8>, Seq<u8>)) -> bool {
    &&& c.function_like_keys.contains(key)
    &&& c.function_likes.contains_key(key)
    &&& c.function_likes[key].return_type_metadata is None
    &&& c.function_likes[key].return_expression_hints.len() > 0
}

/// One of the calls returns this type.
pub open spec fn is_returned_by(
    types: Seq<UnionView>,
    returned: AtomicView,
) -> bool {
    exists|i: int, j: int|
        0 <= i < types.len() && 0 <= j < types[i].types.len() && is_returned_as(
            #[trigger] types[i].types[j],
            returned,
        )
}

/// The function-like has a return type that was inferred, which holds what its calls return and
/// nothing else, none of it twice.
pub open spec fn is_inferred(c: CodebaseView, key: (Seq<u8>, Seq<u8>), types: Seq<UnionView>) -> bool {
    &&& c.function_likes.contains_key(key)
    &&& c.function_likes[key].return_type_metadata matches Some(m) && {
        &&& m.inferred
        &&& !m.from_docblock
        &&& m.span == c.function_likes[key].span
        &&& m.type_union.types.no_duplicates()
        &&& forall|t: AtomicView| #[trigger] m.type_union.types.contains(t) <==> is_returned_by(types, t)
    }
}

proof fn lemma_returned_as(t: AtomicView, returned: AtomicView)
    ensures
        is_returned_as(t, returned) <==> returned == returned_atomic(t),
{
    if is_returned_as(t, returned) {
        match (t, returned) {
            (
                AtomicView::Reference(ReferenceView::Symbol(s)),
                AtomicView::Object(ObjectView::Named(named)),
            ) => {
                let expected = returned_atomic(t);
                if let AtomicView::Object(ObjectView::Named(other)) = expected {
                    assert(named.intersection_types == other.intersection_types);
                    assert(named == other);
                }
            },
            _ => {},
        }
    }
}

proof fn lemma_collect(collected: Seq<AtomicView>, types: Seq<AtomicView>)
    ensures
        collected.no_duplicates() ==> collect(collected, types).no_duplicates(),
        forall|t: AtomicView| #[trigger]
            collect(collected, types).contains(t) <==> collected.contains(t) || exists|j: int|
                0 <= j < types.len() && is_returned_as(#[trigger] types[j], t),
    decreases types.len(),
{
    if types.len() > 0 {
        let rest = types.drop_last();
        lemma_collect(collected, rest);
        let before = collect(collected, rest);
        let added = returned_atomic(types.last());
        lemma_with_item(before, added, added);
        assert forall|t: AtomicView| #[trigger] collect(collected, types).contains(t) <==> collected.contains(t)
            || exists|j: int| 0 <= j < types.len() && is_returned_as(#[trigger] types[j], t) by {
            lemma_with_item(before, added, t);
            lemma_returned_as(types.last(), t);
            if exists|j: int| 0 <= j < rest.len() && is_returned_as(#[trigger] rest[j], t) {
                let j = choose|j: int| 0 <= j < rest.len() && is_returned_as(#[trigger] rest[j], t);
                assert(is_returned_as(types[j], t));
            }
            if exists|j: int| 0 <= j < types.len() && is_returned_as(#[trigger] types[j], t) {
                let j = choose|j: int| 0 <= j < types.len() && is_returned_as(#[trigger] types[j], t);
                if j < rest.len() {
                    assert(is_returned_as(rest[j], t));
                }
            }
            if t == added {
                assert(is_returned_as(types[types.len() - 1], t));
            }
        }
    }
}

proof fn lemma_hinted_types(
    c: CodebaseView,
    hints: Seq<HintView>,
    types: Seq<UnionView>,
    resolving: Set<(Seq<u8>, Seq<u8>)>,
)
    requires
        hints.len() == types.len(),
        forall|i: int| 0 <= i < hints.len() ==> hint_return(c, #[trigger] hints[i], resolving) == Some(types[i]),
    ensures
        hinted_types(c, hints, resolving).no_duplicates(),
        forall|t: AtomicView| #[trigger]
            hinted_types(c, hints, resolving).contains(t) <==> is_returned_by(types, t),
    decreases hints.len(),
{
    if hints.len() > 0 {
        let rest = hints.drop_last();
        let rest_types = types.drop_last();
        assert forall|i: int| 0 <= i < rest.len() implies hint_return(c, #[trigger] rest[i], resolving) == Some(
            rest_types[i],
        ) by {
            assert(hint_return(c, hints[i], resolving) == Some(types[i]));
        }
        lemma_hinted_types(c, rest, rest_types, resolving);
        let before = hinted_types(c, rest, resolving);
        assert(hint_return(c, hints[hints.len() - 1], resolving) == Some(types.last()));
        lemma_collect(before, types.last().types);
        assert forall|t: AtomicView| #[trigger] hinted_types(c, hints, resolving).contains(t) <==> is_returned_by(
            types,
            t,
        ) by {
            assert(before.contains(t) <==> is_returned_by(rest_types, t));
            if is_returned_by(rest_types, t) {
                let (i, j) = choose|i: int, j: int|
                    0 <= i < rest_types.len() && 0 <= j < rest_types[i].types.len() && is_returned_as(
                        #[trigger] rest_types[i].types[j],
                        t,
                    );
                assert(is_returned_as(types[i].types[j], t));
            }
            if is_returned_by(types, t) {
                let (i, j) = choose|i: int, j: int|
                    0 <= i < types.len() && 0 <= j < types[i].types.len() && is_returned_as(
                        #[trigger] types[i].types[j],
                        t,
                    );
                if i < rest_types.len() {
                    assert(is_returned_as(rest_types[i].types[j], t));
                } else {
                    assert(is_returned_as(types.last().types[j], t));
                }
            }
            let last = types.last().types;
            if exists|j: int| 0 <= j < last.len() && is_returned_as(#[trigger] last[j], t) {
                let j = choose|j: int| 0 <= j < last.len() && is_returned_as(#[trigger] last[j], t);
                assert(is_returned_as(types[types.len() - 1].types[j], t));
            }
        }
    }
}

proof fn lemma_step(start: CodebaseView, b: CodebaseView, key: (Seq<u8>, Seq<u8>), types: Seq<UnionView>)
    requires
        only_opens_changed(start, b),
        only_returns_calls(start, key),
        is_open(b, key),
        types.len() == start.function_likes[key].return_expression_hints.len(),
        forall|i: int|
            0 <= i < types.len() ==> is_declared_call(
                start,
                #[trigger] start.function_likes[key].return_expression_hints[i],
                types[i],
            ),
        exists|i: int| 0 <= i < types.len() && (#[trigger] types[i]).types.len() > 0,
    ensures
        is_inferred(with_hints_of(b, key), key, types),
        !is_open(with_hints_of(b, key), key),
{
    let hints = start.function_likes[key].return_expression_hints;
    let f = b.function_likes[key];
    assert(f.return_expression_hints == hints);
    let resolving = Set::<(Seq<u8>, Seq<u8>)>::empty().insert(key);
    assert forall|i: int| 0 <= i < hints.len() implies hint_return(b, #[trigger] hints[i], resolving) == Some(types[i]) by {
        assert(is_declared_call(start, hints[i], types[i]));
        match hints[i] {
            HintView::InstanceMethodCall { class, method } => {
                lemma_declared_stays(start, b, (lowercase(class), method), types[i]);
                calls_return_what_is_declared(b, class, method, resolving, types[i]);
            },
            HintView::StaticMethodCall { class, method } => {
                lemma_declared_stays(start, b, (lowercase(class), method), types[i]);
                calls_return_what_is_declared(b, class, method, resolving, types[i]);
            },
            HintView::FunctionCall { function } => {
                lemma_declared_stays(start, b, (Seq::empty(), function), types[i]);
                calls_return_what_is_declared(b, Seq::empty(), function, resolving, types[i]);
            },
            HintView::MethodChain { .. } => {},
        }
    }
    lemma_hinted_types(b, hints, types, resolving);
    let found = hinted_types(b, hints, resolving);
    let k = choose|i: int| 0 <= i < types.len() && (#[trigger] types[i]).types.len() > 0;
    let first = returned_atomic(types[k].types[0]);
    lemma_returned_as(types[k].types[0], first);
    assert(is_returned_by(types, first));
    assert(found.contains(first));
    assert(found.len() > 0);
    assert(hinted_return(b, key) == Some(UnionView { types: found }));
}

proof fn lemma_declared_stays(start: CodebaseView, b: CodebaseView, key: (Seq<u8>, Seq<u8>), t: UnionView)
    requires
        only_opens_changed(start, b),
        is_declared(start, key, t),
    ensures
        is_declared(b, key, t),
{
    assert(b.function_likes.dom().contains(key));
    let f = b.function_likes[key];
    assert(f == start.function_likes[key]);
    assert(b.function_like_keys == start.function_like_keys);
}

proof fn lemma_pass(
    start: CodebaseView,
    keys: Seq<(Seq<u8>, Seq<u8>)>,
    key: (Seq<u8>, Seq<u8>),
    types: Seq<UnionView>,
)
    requires
        only_returns_calls(start, key),
        types.len() == start.function_likes[key].return_expression_hints.len(),
        forall|i: int|
            0 <= i < types.len() ==> is_declared_call(
                start,
                #[trigger] start.function_likes[key].return_expression_hints[i],
                types[i],
            ),
        exists|i: int| 0 <= i < types.len() && (#[trigger] types[i]).types.len() > 0,
    ensures
        is_open(hint_pass(start, keys), key) || is_inferred(hint_pass(start, keys), key, types),
        keys.contains(key) ==> is_inferred(hint_pass(start, keys), key, types),
    decreases keys.len(),
{
    if keys.len() > 0 {
        let rest = keys.drop_last();
        let b = hint_pass(start, rest);
        crate::return_hints_model::lemma_pass_changes(start, rest);
        lemma_pass(start, rest, key, types);
        let last = keys.last();
        if last == key && is_open(b, key) {
            lemma_step(start, b, key, types);
        } else {
            assert(with_hints_of(b, last).function_likes[key] == b.function_likes[key]);
        }
        if keys.contains(key) && last != key {
            let i = choose|i: int| 0 <= i < keys.len() && keys[i] == key;
            assert(rest[i] == key);
        }
    }
}

proof fn lemma_in_open_keys(c: CodebaseView, key: (Seq<u8>, Seq<u8>))
    requires
        only_returns_calls(c, key),
    ensures
        open_keys(c).contains(key),
{
    let keys = c.function_like_keys;
    let keep = |k: (Seq<u8>, Seq<u8>)| is_open(c, k);
    lemma_filter_contains(keys, keep, key);
}

proof fn lemma_filter_contains<A>(items: Seq<A>, keep: spec_fn(A) -> bool, item: A)
    requires
        items.contains(item),
        keep(item),
    ensures
        items.filter(keep).contains(item),
    decreases items.len(),
{
    reveal(Seq::filter);
    let rest = items.drop_last();
    let i = choose|i: int| 0 <= i < items.len() && items[i] == item;
    if i < rest.len() {
        assert(rest[i] == item);
        lemma_filter_contains(rest, keep, item);
        let k = choose|k: int| 0 <= k < rest.filter(keep).len() && rest.filter(keep)[k] == item;
        assert(items.filter(keep)[k] == item);
    } else {
        assert(items.filter(keep)[items.filter(keep).len() - 1] == item);
    }
}

/// A function-like without a return type that returns calls, each of which is declared to return
/// something, has what these return for its return type once the hints are resolved.
pub proof fn returned_calls_give_the_return_type(
    c: CodebaseView,
    key: (Seq<u8>, Seq<u8>),
    types: Seq<UnionView>,
)
    requires
        only_returns_calls(c, key),
        types.len() == c.function_likes[key].return_expression_hints.len(),
        forall|i: int|
            0 <= i < types.len() ==> is_declared_call(
                c,
                #[trigger] c.function_likes[key].return_expression_hints[i],
                types[i],
            ),
        exists|i: int| 0 <= i < types.len() && (#[trigger] types[i]).types.len() > 0,
    ensures
        is_inferred(hints_resolved(c, open_keys(c)), key, types),
{
    let keys = open_keys(c);
    lemma_in_open_keys(c, key);
    lemma_pass(c, keys, key, types);
    let after = hint_pass(c, keys);
    if untyped(after, keys) < untyped(c, keys) {
        let end = hints_resolved(after, keys);
        resolving_hints_keeps_known_types(after, keys);
        assert(!is_open(after, key));
        assert(end.function_likes[key] == after.function_likes[key]);
        assert(end.function_likes.dom().contains(key));
    }
}

/// Resolving hints gives return types to function-likes that had none, and changes nothing else.
pub proof fn only_missing_return_types_are_given(c: CodebaseView, key: (Seq<u8>, Seq<u8>))
    ensures
        ({
            let after = hints_resolved(c, open_keys(c));
            &&& after == (CodebaseView { function_likes: after.function_likes, ..c })
            &&& after.function_likes.contains_key(key) == c.function_likes.contains_key(key)
            &&& c.function_likes.contains_key(key) ==> after.function_likes[key] == (FunctionLikeView {
                return_type_metadata: after.function_likes[key].return_type_metadata,
                ..c.function_likes[key]
            })
            &&& c.function_likes.contains_key(key) && (c.function_likes[key].return_type_metadata is Some
                || c.function_likes[key].return_expression_hints.len() == 0) ==> after.function_likes[key]
                == c.function_likes[key]
        }),
{
    let after = hints_resolved(c, open_keys(c));
    resolving_hints_keeps_known_types(c, open_keys(c));
    assert(after.function_likes.dom().contains(key) == c.function_likes.dom().contains(key));
    if c.function_likes.contains_key(key) {
        let f = after.function_likes[key];
    }
}

/// Once the hints are resolved, no call could tell more: a function-like that is still without a
/// return type returns only calls that give nothing.
pub proof fn open_calls_give_nothing(c: CodebaseView, key: (Seq<u8>, Seq<u8>), i: int)
    requires
        only_returns_calls(hints_resolved(c, open_keys(c)), key),
        0 <= i < hints_resolved(c, open_keys(c)).function_likes[key].return_expression_hints.len(),
    ensures
        ({
            let after = hints_resolved(c, open_keys(c));
            hint_return(
                after,
                after.function_likes[key].return_expression_hints[i],
                Set::empty().insert(key),
            ) matches Some(t) ==> t.types.len() == 0
        }),
{
    let after = hints_resolved(c, open_keys(c));
    resolving_hints_keeps_known_types(c, open_keys(c));
    no_hint_is_left(c, open_keys(c));
    assert(c.function_likes.dom().contains(key)) by {
        assert(after.function_likes.dom().contains(key));
    }
    let f = after.function_likes[key];
    assert(only_returns_calls(c, key));
    lemma_in_open_keys(c, key);
    assert(hinted_return(after, key) is None);
    let hints = f.return_expression_hints;
    assert(hinted_types(after, hints, Set::empty().insert(key)).len() == 0);
    lemma_nothing_hinted(after, hints, Set::empty().insert(key), i);
}

proof fn lemma_nothing_hinted(c: CodebaseView, hints: Seq<HintView>, resolving: Set<(Seq<u8>, Seq<u8>)>, i: int)
    requires
        hinted_types(c, hints, resolving).len() == 0,
        0 <= i < hints.len(),
    ensures
        hint_return(c, hints[i], resolving) matches Some(t) ==> t.types.len() == 0,
    decreases hints.len(),
{
    let rest = hinted_types(c, hints.drop_last(), resolving);
    if let Some(t) = hint_return(c, hints.last(), resolving) {
        lemma_collect(rest, t.types);
        if t.types.len() > 0 {
            let first = returned_atomic(t.types[0]);
            lemma_returned_as(t.types[0], first);
            assert(collect(rest, t.types).contains(first));
        }
        if rest.len() > 0 {
            assert(rest.contains(rest[0]));
            assert(collect(rest, t.types).contains(rest[0]));
        }
    }
    if i < hints.len() - 1 {
        lemma_nothing_hinted(c, hints.drop_last(), resolving, i);
    }
}

} // verus!
