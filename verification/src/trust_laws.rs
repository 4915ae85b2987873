//! Which methods are trusted to give a property its value, and which properties have one through
//! them.

use vstd::prelude::*;

use crate::initialization_model::ancestors_of;
use crate::initialization_model::further_work;
use crate::initialization_model::initialized_by_initializers;
use crate::initialization_model::initialized_by_stack;
use crate::initialization_model::initialized_by_work;
use crate::initialization_model::initializes;
use crate::initialization_model::is_call_path;
use crate::initialization_model::leads_to;
use crate::initialization_model::lemma_further_work;
use crate::initialization_model::lemma_unseen_insert;
use crate::initialization_model::parent_constructor_work;
use crate::initialization_model::parent_initializer_work;
use crate::initialization_model::reaches;
use crate::initialization_model::transitively_initialized;
use crate::initialization_model::unseen;
use crate::initialization_model::upward_callers;
use crate::initialization_model::WorkView;
use crate::initialization_model::World;
use crate::metadata::ClassLikeView;
use crate::metadata::Visibility;
use crate::word::lowercase;
use crate::word::text;

verus! {

/// No subclass can put another method in the place of this one: it is private or final.
pub open spec fn is_settled(w: World, class: Seq<u8>, method: Seq<u8>) -> bool {
    let known = w.codebase.class_likes[lowercase(class)];
    let id = known.declaring_method_ids[lowercase(method)];
    &&& w.codebase.class_likes.contains_key(lowercase(class))
    &&& known.declaring_method_ids.contains_key(lowercase(method))
    &&& w.codebase.function_likes.contains_key(id)
    &&& w.codebase.function_likes[id].method_metadata matches Some(known_method) && (known_method.visibility
        == Visibility::Private || known_method.is_final)
}

/// The body of one method calls another on the same object, and it is certain which method this is.
pub open spec fn calls_for_certain(
    w: World,
    class: Seq<u8>,
    is_final: bool,
    trust_all: bool,
    method: Seq<u8>,
    called: Seq<u8>,
) -> bool {
    &&& w.artifacts.calls.contains_key((class, method))
    &&& w.artifacts.calls[(class, method)].contains(called)
    &&& trust_all || is_final || w.class_initializers.contains(called) || is_settled(w, class, called)
}

/// Each of these methods calls the next.
pub open spec fn is_chain_of_calls(
    w: World,
    class: Seq<u8>,
    is_final: bool,
    trust_all: bool,
    path: Seq<Seq<u8>>,
) -> bool {
    forall|i: int|
        0 <= i < path.len() - 1 ==> calls_for_certain(w, class, is_final, trust_all, #[trigger] path[i], path[i + 1])
}

/// The body of a method gives the property a value.
pub open spec fn sets(w: World, class: Seq<u8>, method: Seq<u8>, property: Seq<u8>) -> bool {
    w.artifacts.initialized.contains_key((class, method)) && w.artifacts.initialized[(class, method)].contains(property)
}

proof fn lemma_path(w: World, work: WorkView, path: Seq<Seq<u8>>)
    requires
        path.len() > 0,
        path[0] == work.method,
    ensures
        is_call_path(w, work, path) <==> is_chain_of_calls(w, work.class, work.is_final, work.trust_all, path),
{
    assert forall|i: int| 0 <= i < path.len() - 1 implies leads_to(w, work, #[trigger] path[i], path[i + 1])
        == calls_for_certain(w, work.class, work.is_final, work.trust_all, path[i], path[i + 1]) by {}
    if is_chain_of_calls(w, work.class, work.is_final, work.trust_all, path) {
        assert forall|i: int| 0 <= i < path.len() - 1 implies leads_to(w, work, #[trigger] path[i], path[i + 1]) by {
            assert(calls_for_certain(w, work.class, work.is_final, work.trust_all, path[i], path[i + 1]));
        }
    }
    if is_call_path(w, work, path) {
        assert forall|i: int| 0 <= i < path.len() - 1 implies calls_for_certain(
            w,
            work.class,
            work.is_final,
            work.trust_all,
            #[trigger] path[i],
            path[i + 1],
        ) by {
            assert(leads_to(w, work, path[i], path[i + 1]));
        }
    }
}

proof fn lemma_work_sets(w: World, work: WorkView, path: Seq<Seq<u8>>, property: Seq<u8>)
    requires
        path.len() > 0,
        path[0] == work.method,
        is_chain_of_calls(w, work.class, work.is_final, work.trust_all, path),
        initializes(w, work, path.last(), property),
    ensures
        initialized_by_work(w, work).contains(property),
{
    lemma_path(w, work, path);
    assert(is_call_path(w, work, path) && path.last() == path.last());
    assert(reaches(w, work, path.last()));
}

/// What a method sets counts for another one from which certain calls lead to it, however many.
pub proof fn chains_of_calls_count(
    w: World,
    class: Seq<u8>,
    is_final: bool,
    trust_all: bool,
    path: Seq<Seq<u8>>,
    property: Seq<u8>,
)
    requires
        path.len() > 0,
        is_chain_of_calls(w, class, is_final, trust_all, path),
        sets(w, class, path.last(), property),
    ensures
        transitively_initialized(w, class, path[0], is_final, trust_all).contains(property),
{
    let work = WorkView { class, method: path[0], is_final, trust_all, origin: class };
    lemma_work_sets(w, work, path, property);
    assert(seq![work].last() == work);
    reveal_with_fuel(initialized_by_stack, 2);
}

/// The class-like above `class`.
pub open spec fn is_above(w: World, class: Seq<u8>, parent: Seq<u8>, above: ClassLikeView) -> bool {
    &&& w.codebase.class_likes.contains_key(lowercase(class))
    &&& w.codebase.class_likes[lowercase(class)].direct_parent_class == Some(parent)
    &&& w.codebase.class_likes.contains_key(lowercase(parent))
    &&& w.codebase.class_likes[lowercase(parent)] == above
}

/// A property is one of those that a class-like did not declare itself.
pub open spec fn is_inherited(w: World, class: Seq<u8>, property: Seq<u8>) -> bool {
    let known = w.codebase.class_likes[lowercase(class)];
    &&& w.codebase.class_likes.contains_key(lowercase(class))
    &&& known.declaring_property_ids.contains_key(property) ==> known.declaring_property_ids[property] != class
}

/// The body of a method calls the constructor of the parent.
pub open spec fn calls_parent_constructor(w: World, class: Seq<u8>, method: Seq<u8>) -> bool {
    &&& w.artifacts.parent_constructor_callers.contains((class, method))
    &&& w.artifacts.parent_constructor.contains_key((class, method))
    &&& w.artifacts.parent_constructor[(class, method)]
}

/// The body of a method calls an initializer of the parent.
pub open spec fn calls_parent_initializer(w: World, class: Seq<u8>, method: Seq<u8>, initializer: Seq<u8>) -> bool {
    &&& w.artifacts.parent_initializer_callers.contains((class, method))
    &&& w.artifacts.parent_initializer.contains_key((class, method))
    &&& w.artifacts.parent_initializer[(class, method)] == initializer
}

/// A method that calls the constructor of the parent gives a value to the inherited properties that
/// this constructor sets, itself or by certain calls.
pub proof fn parent_constructors_count(
    w: World,
    class: Seq<u8>,
    method: Seq<u8>,
    is_final: bool,
    trust_all: bool,
    parent: Seq<u8>,
    above: ClassLikeView,
    path: Seq<Seq<u8>>,
    property: Seq<u8>,
)
    requires
        is_above(w, class, parent, above),
        parent != class,
        above.declaring_method_ids.contains_key(text("__construct")),
        calls_parent_constructor(w, class, method),
        !w.artifacts.parent_initializer.contains_key((class, method)),
        path.len() > 0,
        path[0] == text("__construct"),
        is_chain_of_calls(w, parent, above.flags.is_final, false, path),
        sets(w, parent, path.last(), property),
        is_inherited(w, class, property),
    ensures
        transitively_initialized(w, class, method, is_final, trust_all).contains(property),
{
    let work = WorkView { class, method, is_final, trust_all, origin: class };
    let up = WorkView {
        class: parent,
        method: text("__construct"),
        is_final: above.flags.is_final,
        trust_all: false,
        origin: class,
    };
    assert(parent_constructor_work(w, work) == seq![up]);
    assert(parent_initializer_work(w, work) =~= Seq::empty());
    assert(seq![work].drop_last() + further_work(w, work) =~= seq![up]);
    lemma_work_sets(w, up, path, property);
    lemma_two_steps(w, work, up);
}

/// A method that calls an initializer of the parent gives a value to the inherited properties that
/// this initializer sets, itself or by any calls.
pub proof fn parent_initializers_count(
    w: World,
    class: Seq<u8>,
    method: Seq<u8>,
    is_final: bool,
    trust_all: bool,
    parent: Seq<u8>,
    above: ClassLikeView,
    initializer: Seq<u8>,
    path: Seq<Seq<u8>>,
    property: Seq<u8>,
)
    requires
        is_above(w, class, parent, above),
        above.declaring_method_ids.contains_key(initializer),
        above.declaring_method_ids[initializer].0 != class,
        calls_parent_initializer(w, class, method, initializer),
        path.len() > 0,
        path[0] == initializer,
        is_chain_of_calls(w, above.declaring_method_ids[initializer].0, above.flags.is_final, true, path),
        sets(w, above.declaring_method_ids[initializer].0, path.last(), property),
        is_inherited(w, class, property),
    ensures
        transitively_initialized(w, class, method, is_final, trust_all).contains(property),
{
    let work = WorkView { class, method, is_final, trust_all, origin: class };
    let up = WorkView {
        class: above.declaring_method_ids[initializer].0,
        method: initializer,
        is_final: above.flags.is_final,
        trust_all: true,
        origin: class,
    };
    assert(parent_initializer_work(w, work) == seq![up]);
    lemma_work_sets(w, up, path, property);
    lemma_two_steps(w, work, up);
}

proof fn lemma_two_steps(w: World, work: WorkView, up: WorkView)
    requires
        further_work(w, work).len() > 0,
        further_work(w, work).last() == up,
        (up.class, up.method) != (work.class, work.method),
    ensures
        initialized_by_work(w, up).subset_of(initialized_by_stack(w, seq![work], Set::empty())),
{
    let key = (work.class, work.method);
    let none = Set::<(Seq<u8>, Seq<u8>)>::empty();
    let stack = seq![work];
    let next = stack.drop_last() + further_work(w, work);
    assert(stack.last() == work);
    assert(next.last() == up);
    assert(!none.contains(key));
    assert(!none.insert(key).contains((up.class, up.method)));
    assert(initialized_by_stack(w, stack, none) == initialized_by_work(w, work).union(
        initialized_by_stack(w, next, none.insert(key)),
    )) by {
        reveal_with_fuel(initialized_by_stack, 1);
    }
    let later = next.drop_last() + further_work(w, up);
    assert(initialized_by_stack(w, next, none.insert(key)) == initialized_by_work(w, up).union(
        initialized_by_stack(w, later, none.insert(key).insert((up.class, up.method))),
    )) by {
        reveal_with_fuel(initialized_by_stack, 1);
    }
}

/// A rule that says which methods may run is closed under calls to parents.
pub open spec fn is_closed_upwards(w: World, runs: spec_fn(WorkView) -> bool) -> bool {
    forall|work: WorkView, parent: Seq<u8>, above: ClassLikeView|
        #![trigger runs(work), is_above(w, work.class, parent, above)]
        runs(work) && is_above(w, work.class, parent, above) ==> {
            &&& calls_parent_constructor(w, work.class, work.method) && above.declaring_method_ids.contains_key(
                text("__construct"),
            ) ==> runs(
                WorkView {
                    class: parent,
                    method: text("__construct"),
                    is_final: above.flags.is_final,
                    trust_all: false,
                    origin: work.origin,
                },
            )
            &&& forall|initializer: Seq<u8>| #[trigger]
                calls_parent_initializer(w, work.class, work.method, initializer)
                    && above.declaring_method_ids.contains_key(initializer) ==> runs(
                    WorkView {
                        class: above.declaring_method_ids[initializer].0,
                        method: initializer,
                        is_final: above.flags.is_final,
                        trust_all: true,
                        origin: work.origin,
                    },
                )
        }
}

/// A method that may run sets the property, itself or by certain calls: in its own class-like any
/// property, in one above only what the class-like below did not declare.
pub open spec fn is_set_by(w: World, work: WorkView, property: Seq<u8>) -> bool {
    exists|path: Seq<Seq<u8>>|
        #![trigger path.last()]
        path.len() > 0 && path[0] == work.method && is_chain_of_calls(
            w,
            work.class,
            work.is_final,
            work.trust_all,
            path,
        ) && sets(w, work.class, path.last(), property) && (work.class == work.origin || is_inherited(
            w,
            work.origin,
            property,
        ))
}

/// Nothing has a value but what a method sets that may run: the method itself, or a constructor or
/// an initializer that the calls to parents lead to.
pub proof fn nothing_else_has_a_value(
    w: World,
    class: Seq<u8>,
    method: Seq<u8>,
    is_final: bool,
    trust_all: bool,
    runs: spec_fn(WorkView) -> bool,
    property: Seq<u8>,
)
    requires
        runs(WorkView { class, method, is_final, trust_all, origin: class }),
        is_closed_upwards(w, runs),
        transitively_initialized(w, class, method, is_final, trust_all).contains(property),
    ensures
        exists|work: WorkView| #[trigger] runs(work) && is_set_by(w, work, property),
{
    let work = WorkView { class, method, is_final, trust_all, origin: class };
    assert forall|i: int| 0 <= i < seq![work].len() implies runs(#[trigger] seq![work][i]) by {}
    lemma_stack(w, seq![work], Set::empty(), runs, property);
}

proof fn lemma_stack(
    w: World,
    stack: Seq<WorkView>,
    done: Set<(Seq<u8>, Seq<u8>)>,
    runs: spec_fn(WorkView) -> bool,
    property: Seq<u8>,
)
    requires
        forall|i: int| 0 <= i < stack.len() ==> runs(#[trigger] stack[i]),
        is_closed_upwards(w, runs),
        initialized_by_stack(w, stack, done).contains(property),
    ensures
        exists|work: WorkView| #[trigger] runs(work) && is_set_by(w, work, property),
    decreases unseen(upward_callers(w), done), stack.len(),
{
    if stack.len() > 0 {
        let work = stack.last();
        let key = (work.class, work.method);
        let rest = stack.drop_last();
        assert(runs(stack[stack.len() - 1]));
        assert forall|i: int| 0 <= i < rest.len() implies runs(#[trigger] rest[i]) by {
            assert(runs(stack[i]));
        }
        if done.contains(key) {
            lemma_stack(w, rest, done, runs, property);
        } else if initialized_by_work(w, work).contains(property) {
            let m = choose|m: Seq<u8>| #[trigger] reaches(w, work, m) && initializes(w, work, m, property);
            let path = choose|path: Seq<Seq<u8>>| is_call_path(w, work, path) && #[trigger] path.last() == m;
            lemma_path(w, work, path);
            assert(path.last() == m);
            assert(is_set_by(w, work, property));
        } else {
            lemma_unseen_insert(upward_callers(w), done, key);
            lemma_further_work(w, work);
            let next = rest + further_work(w, work);
            assert forall|i: int| 0 <= i < next.len() implies runs(#[trigger] next[i]) by {
                if i >= rest.len() {
                    lemma_further_runs(w, work, runs, i - rest.len());
                } else {
                    assert(next[i] == rest[i]);
                }
            }
            lemma_stack(w, next, done.insert(key), runs, property);
        }
    }
}

proof fn lemma_further_runs(w: World, work: WorkView, runs: spec_fn(WorkView) -> bool, i: int)
    requires
        runs(work),
        is_closed_upwards(w, runs),
        0 <= i < further_work(w, work).len(),
    ensures
        runs(further_work(w, work)[i]),
{
    let parent = w.codebase.class_likes[lowercase(work.class)].direct_parent_class->0;
    let above = w.codebase.class_likes[lowercase(parent)];
    let key = (work.class, work.method);
    let constructors = parent_constructor_work(w, work);
    assert(is_above(w, work.class, parent, above));
    if i < constructors.len() {
        assert(further_work(w, work)[i] == constructors[0]);
        assert(calls_parent_constructor(w, work.class, work.method));
    } else {
        assert(further_work(w, work)[i] == parent_initializer_work(w, work)[0]);
        assert(calls_parent_initializer(w, work.class, work.method, w.artifacts.parent_initializer[key]));
    }
}

// ---- class initializers ----

/// The class-like has this class initializer, and it sets the property.
pub open spec fn initializer_sets(w: World, known: ClassLikeView, initializer: Seq<u8>, property: Seq<u8>) -> bool {
    &&& w.class_initializers.contains(initializer)
    &&& known.declaring_method_ids.contains_key(initializer)
    &&& transitively_initialized(
        w,
        known.declaring_method_ids[initializer].0,
        initializer,
        known.flags.is_final,
        true,
    ).contains(property)
}

/// What a class initializer of the class-like sets has a value.
pub proof fn class_initializers_count(w: World, class: ClassLikeView, initializer: Seq<u8>, property: Seq<u8>)
    requires
        initializer_sets(w, class, initializer, property),
    ensures
        initialized_by_initializers(w, class).contains(property),
{
    let i = choose|i: int| 0 <= i < w.class_initializers.len() && w.class_initializers[i] == initializer;
    assert(w.class_initializers[i] == initializer);
}

/// What a class initializer of an ancestor sets has a value, where the class-like did not declare it
/// itself; and so has what an ancestor declares that has a class initializer.
pub proof fn ancestral_initializers_count(
    w: World,
    class: ClassLikeView,
    k: int,
    initializer: Seq<u8>,
    property: Seq<u8>,
)
    requires
        0 <= k < ancestors_of(w, class).len(),
        w.class_initializers.contains(initializer),
        ancestors_of(w, class)[k].1.declaring_method_ids.contains_key(initializer),
        ({
            let (name, ancestor) = ancestors_of(w, class)[k];
            let ids = ancestor.declaring_property_ids;
            let own = class.declaring_property_ids.contains_key(property) && class.declaring_property_ids[property]
                == class.name;
            (initializer_sets(w, ancestor, initializer, property) && !own) || (ids.contains_key(property)
                && ids[property] == name)
        }),
    ensures
        initialized_by_initializers(w, class).contains(property),
{
    let i = choose|i: int| 0 <= i < w.class_initializers.len() && w.class_initializers[i] == initializer;
    assert(w.class_initializers[i] == initializer);
    assert(0 <= k < ancestors_of(w, class).len() && ancestors_of(w, class)[k] == ancestors_of(w, class)[k]);
}

/// Without a class initializer, of its own or above it, a class-like has nothing from one.
pub proof fn other_methods_do_not_count(w: World, class: ClassLikeView, property: Seq<u8>)
    requires
        forall|initializer: Seq<u8>| #[trigger]
            w.class_initializers.contains(initializer) ==> !class.declaring_method_ids.contains_key(initializer) || !(
            initializer_sets(w, class, initializer, property)),
        forall|k: int, initializer: Seq<u8>|
            0 <= k < ancestors_of(w, class).len() && #[trigger] w.class_initializers.contains(initializer) ==> !(
            #[trigger] ancestors_of(w, class)[k]).1.declaring_method_ids.contains_key(initializer),
    ensures
        !initialized_by_initializers(w, class).contains(property),
{
    assert forall|i: int| 0 <= i < w.class_initializers.len() implies w.class_initializers.contains(
        #[trigger] w.class_initializers[i],
    ) by {}
}

} // verus!
