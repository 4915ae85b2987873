//! Whether the typed properties of a class are initialized.

use itertools::Itertools;
use vstd::prelude::*;
use vstd::seq_lib::lemma_sorted_unique;

use crate::codebase::CodebaseMetadata;
use crate::collections::lemma_take_members;
use crate::collections::lemma_views_push;
use crate::collections::lemma_with_item_members;
use crate::collections::option_view;
use crate::collections::views;
use crate::collections::SymbolIdentifier;
use crate::collections::SymbolMap;
use crate::collections::SymbolSet;
use crate::collections::WordSet;
use crate::initialization_issues::report_missing_constructor;
use crate::initialization_issues::report_uninitialized_properties;
use crate::initialization_issues::NamedProperty;
use crate::initialization_model::ancestors;
use crate::initialization_model::ancestors_of;
use crate::initialization_model::constructor;
use crate::initialization_model::check_ends;
use crate::initialization_model::constructor_initializes;
use crate::initialization_model::constructor_search_ends;
use crate::initialization_model::declares;
use crate::initialization_model::first_with_constructor;
use crate::initialization_model::further_work;
use crate::initialization_model::has_initializer;
use crate::initialization_model::hierarchy_ends;
use crate::initialization_model::initialized_by_initializer;
use crate::initialization_model::initialized_by_initializers;
use crate::initialization_model::initialized_by_stack;
use crate::initialization_model::inherited_of;
use crate::initialization_model::initialization_issues;
use crate::initialization_model::initialized_by_work;
use crate::initialization_model::is_trait;
use crate::initialization_model::issues_with_inherited_constructor;
use crate::initialization_model::issues_without_constructor;
use crate::initialization_model::not_from_trait;
use crate::initialization_model::not_in;
use crate::initialization_model::own_of;
use crate::initialization_model::required_of;
use crate::initialization_model::required_property;
use crate::initialization_model::sorted_property_names;
use crate::initialization_model::initializer_search_ends;
use crate::initialization_model::initializes;
use crate::initialization_model::is_call_path;
use crate::initialization_model::leads_to;
use crate::initialization_model::lemma_further_work;
use crate::initialization_model::lemma_unseen_insert;
use crate::initialization_model::not_own;
use crate::initialization_model::parent_constructor_initializes;
use crate::initialization_model::parent_constructor_work;
use crate::initialization_model::parent_initializer_work;
use crate::initialization_model::reaches;
use crate::initialization_model::requires_initialization;
use crate::initialization_model::some_initializer_initializes;
use crate::initialization_model::transitively_initialized;
use crate::initialization_model::trustworthy;
use crate::initialization_model::unseen;
use crate::initialization_model::upward_callers;
use crate::initialization_model::ArtifactsView;
use crate::initialization_model::WorkView;
use crate::initialization_model::World;
use crate::issue::Issue;
use crate::issue::IssueView;
use crate::issue::Span;
use crate::metadata::ClassLikeMetadata;
use crate::metadata::PropertyMetadata;
use crate::metadata::PropertyView;
use crate::metadata::SymbolKind;
use crate::metadata::Visibility;
use crate::word::copy_word;
use crate::word::same_word;
use crate::word::word;
use crate::word::word_le;
use crate::word::word_le_is_total_order;
use crate::word::Word;

verus! {

/// What is known of the bodies of methods, by class-like and name.
pub struct AnalysisArtifacts {
    pub method_initialized_properties: SymbolMap<WordSet>,
    pub method_calls_this_methods: SymbolMap<WordSet>,
    pub method_calls_parent_constructor: SymbolMap<bool>,
    pub method_calls_parent_initializer: SymbolMap<Word>,
}

impl View for AnalysisArtifacts {
    type V = ArtifactsView;

    open spec fn view(&self) -> ArtifactsView {
        ArtifactsView {
            initialized: self.method_initialized_properties@,
            calls: self.method_calls_this_methods@,
            callers: self.method_calls_this_methods.keys(),
            parent_constructor: self.method_calls_parent_constructor@,
            parent_constructor_callers: self.method_calls_parent_constructor.keys(),
            parent_initializer: self.method_calls_parent_initializer@,
            parent_initializer_callers: self.method_calls_parent_initializer.keys(),
        }
    }
}

pub struct AnalysisSettings {
    pub check_property_initialization: bool,
    /// Methods that a framework calls on each new object.
    pub class_initializers: WordSet,
}

/// Where an analysis finds what it needs, and where it reports what it finds.
pub struct Context<'a> {
    pub codebase: &'a CodebaseMetadata,
    pub settings: &'a AnalysisSettings,
    /// The properties, by class-like and name, that a plugin initializes.
    pub plugin_initialized: &'a SymbolSet,
    pub issues: Vec<Issue>,
}

/// What an analysis rests on.
pub open spec fn world(artifacts: AnalysisArtifacts, context: Context<'_>) -> World {
    World {
        codebase: context.codebase@,
        artifacts: artifacts@,
        class_initializers: context.settings.class_initializers@,
        plugin_initialized: context.plugin_initialized@,
    }
}

/// A method whose body is to be looked at.
struct Work {
    class: Word,
    method: Word,
    is_final: bool,
    trust_all: bool,
    origin: Word,
}

impl View for Work {
    type V = WorkView;

    closed spec fn view(&self) -> WorkView {
        WorkView {
            class: self.class@,
            method: self.method@,
            is_final: self.is_final,
            trust_all: self.trust_all,
            origin: self.origin@,
        }
    }
}

/// A method is trustworthy if it cannot be overridden by subclasses, or if it is explicitly listed
/// as a class initializer.
pub fn is_method_trustworthy(
    context: &Context<'_>,
    artifacts: &AnalysisArtifacts,
    class_name: &Word,
    method_name: &Word,
    class_is_final: bool,
) -> (trusted: bool)
    ensures
        trusted == trustworthy(world(*artifacts, *context), class_name@, method_name@, class_is_final),
{
    if class_is_final {
        return true;
    }
    if context.settings.class_initializers.contains(method_name) {
        return true;
    }
    if let Some(visibility) = context.codebase.get_method_visibility(class_name, method_name) {
        if visibility == Visibility::Private {
            return true;
        }
    }
    context.codebase.method_is_final(class_name, method_name)
}

/// A method that leads on from one that is reached is reached too.
proof fn lemma_reaches_step(w: World, work: WorkView, a: Seq<u8>, b: Seq<u8>)
    requires
        reaches(w, work, a),
        leads_to(w, work, a, b),
    ensures
        reaches(w, work, b),
{
    let path = choose|path: Seq<Seq<u8>>| is_call_path(w, work, path) && #[trigger] path.last() == a;
    let longer = path.push(b);
    assert forall|i: int| 0 <= i < longer.len() - 1 implies leads_to(w, work, #[trigger] longer[i], longer[i + 1]) by {
        if i < path.len() - 1 {
            assert(leads_to(w, work, path[i], path[i + 1]));
        }
    }
    assert(is_call_path(w, work, longer));
    assert(longer.last() == b);
}

proof fn lemma_reaches_start(w: World, work: WorkView)
    ensures
        reaches(w, work, work.method),
{
    let path = seq![work.method];
    assert(is_call_path(w, work, path));
    assert(path.last() == work.method);
}

/// What holds the first method and all that its methods lead to holds all that is reached.
proof fn lemma_closed_holds_reached(w: World, work: WorkView, seen: Set<Seq<u8>>, path: Seq<Seq<u8>>)
    requires
        seen.contains(work.method),
        forall|a: Seq<u8>, b: Seq<u8>| seen.contains(a) && #[trigger] leads_to(w, work, a, b) ==> seen.contains(b),
        is_call_path(w, work, path),
    ensures
        seen.contains(path.last()),
    decreases path.len(),
{
    if path.len() > 1 {
        let shorter = path.drop_last();
        assert forall|i: int| 0 <= i < shorter.len() - 1 implies leads_to(w, work, #[trigger] shorter[i], shorter[i + 1]) by {
            assert(leads_to(w, work, path[i], path[i + 1]));
        }
        assert(is_call_path(w, work, shorter));
        lemma_closed_holds_reached(w, work, seen, shorter);
        assert(leads_to(w, work, path[path.len() - 2], path[path.len() - 2 + 1]));
        assert(leads_to(w, work, shorter.last(), path.last()));
    }
}

/// The names of the methods of `keys`.
spec fn second_names(keys: Seq<(Seq<u8>, Seq<u8>)>) -> Seq<Seq<u8>> {
    keys.map_values(|k: (Seq<u8>, Seq<u8>)| k.1)
}

/// The name waits in the list.
spec fn waits(pending: Seq<Word>, name: Seq<u8>) -> bool {
    exists|i: int| 0 <= i < pending.len() && #[trigger] pending[i]@ == name
}

/// Names that wait in the beginning of a list wait in the list.
proof fn lemma_waits_longer(shorter: Seq<Word>, longer: Seq<Word>)
    requires
        shorter.len() <= longer.len(),
        forall|i: int| 0 <= i < shorter.len() ==> #[trigger] longer[i] == shorter[i],
    ensures
        forall|name: Seq<u8>| #[trigger] waits(shorter, name) ==> waits(longer, name),
{
    assert forall|name: Seq<u8>| #[trigger] waits(shorter, name) implies waits(longer, name) by {
        let i = choose|i: int| 0 <= i < shorter.len() && #[trigger] shorter[i]@ == name;
        assert(longer[i]@ == name);
    }
}

/// What the body of one method initializes for the work is added to `all`.
fn collect_initialized(
    artifacts: &AnalysisArtifacts,
    context: &Context<'_>,
    work: &Work,
    method: &Word,
    all: &mut WordSet,
)
    ensures
        forall|p: Seq<u8>|
            #![trigger final(all).members().contains(p)]
            final(all).members().contains(p) <==> old(all).members().contains(p) || initializes(
                world(*artifacts, *context),
                work@,
                method@,
                p,
            ),
{
    let ghost w = world(*artifacts, *context);
    let ghost before = all.members();
    let key: SymbolIdentifier = (copy_word(work.class.as_slice()), copy_word(method.as_slice()));
    let Some(properties) = artifacts.method_initialized_properties.get(&key) else {
        return;
    };
    let own: bool = same_word(work.class.as_slice(), work.origin.as_slice());
    let origin_meta: Option<&ClassLikeMetadata> = context.codebase.get_class_like(&work.origin);
    let mut i: usize = 0;
    while i < properties.len()
        invariant
            i <= properties@.len(),
            w == world(*artifacts, *context),
            w.artifacts.initialized.contains_key((work@.class, method@)),
            w.artifacts.initialized[(work@.class, method@)] == properties@,
            own == (work@.class == work@.origin),
            match origin_meta {
                Some(m) => w.codebase.class_like(work@.origin) == Some(m@),
                None => w.codebase.class_like(work@.origin) is None,
            },
            forall|p: Seq<u8>|
                #![trigger all.members().contains(p)]
                all.members().contains(p) <==> before.contains(p) || (properties@.take(i as int).contains(p)
                    && initializes(w, work@, method@, p)),
        decreases properties@.len() - i,
    {
        let property = properties.at(i);
        let counts: bool = if own {
            true
        } else {
            match origin_meta {
                Some(meta) => match meta.declaring_property_ids.get(property) {
                    Some(declaring) => !same_word(declaring.as_slice(), work.origin.as_slice()),
                    None => true,
                },
                None => false,
            }
        };
        assert(properties@.contains(properties@[i as int]));
        assert(counts == initializes(w, work@, method@, property@));
        let ghost earlier = all.members();
        proof {
            lemma_with_item_members(all@, property@);
        }
        if counts {
            let _ = all.insert(copy_word(property.as_slice()));
        }
        assert forall|p: Seq<u8>|
            #![trigger all.members().contains(p)]
            all.members().contains(p) <==> before.contains(p) || (properties@.take(i + 1).contains(p) && initializes(
                w,
                work@,
                method@,
                p,
            )) by {
            lemma_take_members(properties@, i as int);
            assert(properties@.take(i + 1).to_set().contains(p) <==> properties@.take(i as int).to_set().insert(
                property@,
            ).contains(p));
            assert(earlier.contains(p) <==> before.contains(p) || (properties@.take(i as int).contains(p)
                && initializes(w, work@, method@, p)));
        }
        i = i + 1;
    }
    assert(properties@.take(i as int) =~= properties@);
}

/// What one method calls is added to the list, where the call is trusted and leads to a method
/// that was not seen yet.
fn collect_called(
    artifacts: &AnalysisArtifacts,
    context: &Context<'_>,
    work: &Work,
    method: &Word,
    seen: &WordSet,
    pending: &mut Vec<Word>,
)
    requires
        reaches(world(*artifacts, *context), work@, method@),
        forall|i: int| 0 <= i < old(pending)@.len() ==> reaches(world(*artifacts, *context), work@, #[trigger] old(pending)@[i]@),
    ensures
        forall|i: int| 0 <= i < final(pending)@.len() ==> reaches(world(*artifacts, *context), work@, #[trigger] final(pending)@[i]@),
        forall|name: Seq<u8>| #[trigger] waits(old(pending)@, name) ==> waits(final(pending)@, name),
        forall|name: Seq<u8>| #[trigger]
            leads_to(world(*artifacts, *context), work@, method@, name) ==> seen.members().contains(name) || waits(
                final(pending)@,
                name,
            ),
        !world(*artifacts, *context).artifacts.calls.contains_key((work@.class, method@)) ==> final(pending)@ == old(
            pending,
        )@,
{
    let ghost w = world(*artifacts, *context);
    let ghost before = pending@;
    let key: SymbolIdentifier = (copy_word(work.class.as_slice()), copy_word(method.as_slice()));
    let Some(called) = artifacts.method_calls_this_methods.get(&key) else {
        return;
    };
    let mut i: usize = 0;
    while i < called.len()
        invariant
            i <= called@.len(),
            w == world(*artifacts, *context),
            w.artifacts.calls.contains_key((work@.class, method@)),
            w.artifacts.calls[(work@.class, method@)] == called@,
            reaches(w, work@, method@),
            forall|j: int| 0 <= j < pending@.len() ==> reaches(w, work@, #[trigger] pending@[j]@),
            forall|name: Seq<u8>| #[trigger] waits(before, name) ==> waits(pending@, name),
            forall|j: int|
                0 <= j < i && leads_to(w, work@, method@, #[trigger] called@[j]) ==> seen.members().contains(called@[j])
                    || waits(pending@, called@[j]),
        decreases called@.len() - i,
    {
        let callee = called.at(i);
        assert(called@.contains(called@[i as int]));
        if !seen.contains(callee) {
            if work.trust_all || is_method_trustworthy(context, artifacts, &work.class, callee, work.is_final) {
                assert(leads_to(w, work@, method@, callee@));
                proof {
                    lemma_reaches_step(w, work@, method@, callee@);
                }
                let ghost shorter = pending@;
                pending.push(copy_word(callee.as_slice()));
                proof {
                    lemma_waits_longer(shorter, pending@);
                    assert(pending@[pending@.len() - 1]@ == callee@);
                    assert(waits(pending@, callee@));
                }
            }
        }
        i = i + 1;
    }
    assert forall|name: Seq<u8>| #[trigger] leads_to(w, work@, method@, name) implies seen.members().contains(name)
        || waits(pending@, name) by {
        let j = choose|j: int| 0 <= j < called@.len() && called@[j] == name;
        assert(leads_to(w, work@, method@, called@[j]));
    }
}

/// The properties that the method of the work initializes, itself and through the methods that it
/// leads to, are added to `all`.
fn do_work(artifacts: &AnalysisArtifacts, context: &Context<'_>, work: &Work, all: &mut WordSet)
    ensures
        final(all).members() == old(all).members().union(initialized_by_work(world(*artifacts, *context), work@)),
{
    let ghost w = world(*artifacts, *context);
    let ghost before = all.members();
    let ghost callers = second_names(w.artifacts.callers);
    let mut pending: Vec<Word> = Vec::new();
    pending.push(copy_word(work.method.as_slice()));
    let mut seen: WordSet = WordSet::new();
    proof {
        lemma_reaches_start(w, work@);
        assert(pending@[0]@ == work@.method);
        assert(waits(pending@, work@.method));
    }
    while pending.len() > 0
        invariant
            w == world(*artifacts, *context),
            callers == second_names(w.artifacts.callers),
            forall|i: int| 0 <= i < pending@.len() ==> reaches(w, work@, #[trigger] pending@[i]@),
            forall|m: Seq<u8>| #[trigger] seen.members().contains(m) ==> reaches(w, work@, m),
            seen.members().contains(work@.method) || waits(pending@, work@.method),
            forall|a: Seq<u8>, b: Seq<u8>|
                seen.members().contains(a) && #[trigger] leads_to(w, work@, a, b) ==> seen.members().contains(b)
                    || waits(pending@, b),
            forall|p: Seq<u8>|
                #![trigger all.members().contains(p)]
                all.members().contains(p) <==> before.contains(p) || exists|m: Seq<u8>| #[trigger]
                    seen.members().contains(m) && initializes(w, work@, m, p),
        decreases unseen(callers, seen.members()), pending@.len(),
    {
        let ghost waiting = pending@;
        let ghost seen_before = seen.members();
        let ghost all_before = all.members();
        let method: Word = pending.pop().unwrap();
        assert(reaches(w, work@, waiting[waiting.len() - 1]@));
        assert forall|name: Seq<u8>| #[trigger] waits(waiting, name) implies name == method@ || waits(
            pending@,
            name,
        ) by {
            let i = choose|i: int| 0 <= i < waiting.len() && #[trigger] waiting[i]@ == name;
            if i < waiting.len() - 1 {
                assert(pending@[i]@ == name);
            }
        }
        if seen.contains(&method) {
            continue;
        }
        proof {
            lemma_with_item_members(seen@, method@);
            lemma_unseen_insert(callers, seen.members(), method@);
        }
        let _ = seen.insert(copy_word(method.as_slice()));
        collect_initialized(artifacts, context, work, &method, all);
        assert forall|p: Seq<u8>|
            #![trigger all.members().contains(p)]
            all.members().contains(p) <==> before.contains(p) || exists|m: Seq<u8>| #[trigger]
                seen.members().contains(m) && initializes(w, work@, m, p) by {
            if all.members().contains(p) {
                if initializes(w, work@, method@, p) {
                    assert(seen.members().contains(method@));
                } else {
                    assert(all_before.contains(p));
                    if !before.contains(p) {
                        let m = choose|m: Seq<u8>| #[trigger]
                            seen_before.contains(m) && initializes(w, work@, m, p);
                        assert(seen.members().contains(m));
                    }
                }
            }
            if exists|m: Seq<u8>| #[trigger] seen.members().contains(m) && initializes(w, work@, m, p) {
                let m = choose|m: Seq<u8>| #[trigger] seen.members().contains(m) && initializes(w, work@, m, p);
                if m != method@ {
                    assert(seen_before.contains(m));
                    assert(all_before.contains(p));
                }
            }
        }
        assert forall|i: int| 0 <= i < pending@.len() implies reaches(w, work@, #[trigger] pending@[i]@) by {
            assert(pending@[i] == waiting[i]);
        }
        let ghost queue = pending@;
        collect_called(artifacts, context, work, &method, &seen, &mut pending);
        assert forall|a: Seq<u8>, b: Seq<u8>|
            seen.members().contains(a) && #[trigger] leads_to(w, work@, a, b) implies seen.members().contains(b)
            || waits(pending@, b) by {
            if a != method@ {
                assert(seen_before.contains(a));
                assert(seen_before.contains(b) || waits(waiting, b));
                if waits(waiting, b) && b != method@ {
                    assert(waits(queue, b));
                }
            }
        }
        proof {
            if w.artifacts.calls.contains_key((work@.class, method@)) {
                artifacts.method_calls_this_methods.lemma_keys();
                let keys = w.artifacts.callers;
                assert(keys.contains((work@.class, method@)));
                let k = choose|k: int| 0 <= k < keys.len() && keys[k] == (work@.class, method@);
                assert(callers[k] == method@);
                assert(callers.contains(method@));
            }
            if waits(waiting, work@.method) && work@.method != method@ {
                assert(waits(queue, work@.method));
            }
        }
    }
    proof {
        assert forall|p: Seq<u8>| #[trigger] all.members().contains(p) == before.union(
            initialized_by_work(w, work@),
        ).contains(p) by {
            if initialized_by_work(w, work@).contains(p) {
                let m = choose|m: Seq<u8>| #[trigger] reaches(w, work@, m) && initializes(w, work@, m, p);
                let path = choose|path: Seq<Seq<u8>>| is_call_path(w, work@, path) && #[trigger] path.last() == m;
                lemma_closed_holds_reached(w, work@, seen.members(), path);
                assert(seen.members().contains(m));
            }
        }
        assert(all.members() =~= before.union(initialized_by_work(w, work@)));
    }
}

/// The constructor of the parent, where the method of the work calls it, is put on the stack.
fn push_parent_constructor(artifacts: &AnalysisArtifacts, context: &Context<'_>, work: &Work, stack: &mut Vec<Work>)
    ensures
        views(final(stack)@) == views(old(stack)@) + parent_constructor_work(world(*artifacts, *context), work@),
{
    broadcast use lemma_views_push;

    let ghost before = views(stack@);
    proof {
        artifacts.method_calls_parent_constructor.lemma_keys();
        assert(before =~= before + Seq::<WorkView>::empty());
    }
    let key: SymbolIdentifier = (copy_word(work.class.as_slice()), copy_word(work.method.as_slice()));
    let Some(calls) = artifacts.method_calls_parent_constructor.get(&key) else {
        return;
    };
    if !*calls {
        return;
    }
    let Some(meta) = context.codebase.get_class_like(&work.class) else {
        return;
    };
    let Some(parent) = &meta.direct_parent_class else {
        return;
    };
    let Some(parent_meta) = context.codebase.get_class_like(parent) else {
        return;
    };
    if parent_meta.declaring_method_ids.contains_key(&word("__construct")) {
        let further: Work = Work {
            class: copy_word(parent.as_slice()),
            method: word("__construct"),
            is_final: parent_meta.flags.is_final,
            trust_all: false,
            origin: copy_word(work.origin.as_slice()),
        };
        stack.push(further);
        assert(views(stack@) =~= before + parent_constructor_work(world(*artifacts, *context), work@));
    }
}

/// The initializer of the parent, where the method of the work calls it, is put on the stack.
fn push_parent_initializer(artifacts: &AnalysisArtifacts, context: &Context<'_>, work: &Work, stack: &mut Vec<Work>)
    ensures
        views(final(stack)@) == views(old(stack)@) + parent_initializer_work(world(*artifacts, *context), work@),
{
    broadcast use lemma_views_push;

    let ghost before = views(stack@);
    proof {
        artifacts.method_calls_parent_initializer.lemma_keys();
        assert(before =~= before + Seq::<WorkView>::empty());
    }
    let key: SymbolIdentifier = (copy_word(work.class.as_slice()), copy_word(work.method.as_slice()));
    let Some(initializer) = artifacts.method_calls_parent_initializer.get(&key) else {
        return;
    };
    let Some(meta) = context.codebase.get_class_like(&work.class) else {
        return;
    };
    let Some(parent) = &meta.direct_parent_class else {
        return;
    };
    let Some(parent_meta) = context.codebase.get_class_like(parent) else {
        return;
    };
    if let Some(id) = parent_meta.declaring_method_ids.get(initializer) {
        let further: Work = Work {
            class: copy_word(id.class_name.as_slice()),
            method: copy_word(initializer.as_slice()),
            is_final: parent_meta.flags.is_final,
            trust_all: true,
            origin: copy_word(work.origin.as_slice()),
        };
        stack.push(further);
        assert(views(stack@) =~= before + parent_initializer_work(world(*artifacts, *context), work@));
    }
}

/// The properties that a method of a class-like initializes, itself, through the methods that it
/// calls, and through the constructor or initializer of a parent that it calls.
///
/// With `trust_all_methods` each called method counts; without, only a trustworthy one.
pub fn compute_transitive_initializations(
    artifacts: &AnalysisArtifacts,
    context: &Context<'_>,
    class_name: &Word,
    method_name: &Word,
    class_is_final: bool,
    trust_all_methods: bool,
) -> (all: WordSet)
    ensures
        all.members() == transitively_initialized(
            world(*artifacts, *context),
            class_name@,
            method_name@,
            class_is_final,
            trust_all_methods,
        ),
{
    broadcast use lemma_views_push;

    let ghost w = world(*artifacts, *context);
    let ghost target = transitively_initialized(w, class_name@, method_name@, class_is_final, trust_all_methods);
    let mut all: WordSet = WordSet::new();
    let mut done: SymbolSet = SymbolSet::new();
    let mut stack: Vec<Work> = Vec::new();
    let first: Work = Work {
        class: copy_word(class_name.as_slice()),
        method: copy_word(method_name.as_slice()),
        is_final: class_is_final,
        trust_all: trust_all_methods,
        origin: copy_word(class_name.as_slice()),
    };
    let ghost first_view = first@;
    stack.push(first);
    proof {
        assert(views(stack@) =~= seq![first_view]);
        assert(done.members() =~= Set::empty());
        assert(all.members() =~= Set::empty());
        assert(target =~= all.members().union(initialized_by_stack(w, views(stack@), done.members())));
    }
    while stack.len() > 0
        invariant
            w == world(*artifacts, *context),
            target == all.members().union(initialized_by_stack(w, views(stack@), done.members())),
        decreases unseen(upward_callers(w), done.members()), stack@.len(),
    {
        let ghost waiting = views(stack@);
        let ghost done_before = done.members();
        let ghost all_before = all.members();
        let work: Work = stack.pop().unwrap();
        assert(views(stack@) =~= waiting.drop_last());
        assert(waiting.last() == work@);
        let key: SymbolIdentifier = (copy_word(work.class.as_slice()), copy_word(work.method.as_slice()));
        assert(key@ == (work@.class, work@.method));
        if done.contains(&key) {
            assert(done_before.contains(key@));
            continue;
        }
        proof {
            lemma_with_item_members(done@, key@);
            lemma_unseen_insert(upward_callers(w), done.members(), key@);
            lemma_further_work(w, work@);
        }
        let _ = done.insert(key);
        do_work(artifacts, context, &work, &mut all);
        push_parent_constructor(artifacts, context, &work, &mut stack);
        push_parent_initializer(artifacts, context, &work, &mut stack);
        assert(views(stack@) =~= waiting.drop_last() + further_work(w, work@));
        assert(target =~= all.members().union(initialized_by_stack(w, views(stack@), done.members())));
    }
    assert(views(stack@).len() == 0);
    assert(target =~= all.members());
    all
}

/// The class-likes above one with this parent, nearest first, as far as they are known.
fn parent_chain<'a>(codebase: &'a CodebaseMetadata, parent: &'a Option<Word>) -> (chain: Vec<(&'a Word, &'a ClassLikeMetadata)>)
    requires
        hierarchy_ends(codebase@, option_view(*parent), codebase@.class_like_names.len()),
    ensures
        views(chain@) == ancestors(codebase@, option_view(*parent), codebase@.class_like_names.len()),
{
    broadcast use lemma_views_push;

    let ghost start = option_view(*parent);
    let ghost whole = ancestors(codebase@, start, codebase@.class_like_names.len());
    let ghost mut limit: nat = codebase@.class_like_names.len();
    let mut chain: Vec<(&'a Word, &'a ClassLikeMetadata)> = Vec::new();
    let mut current: Option<&'a Word> = parent.as_ref();
    assert(views(chain@) + ancestors(codebase@, option_view(current), limit) =~= whole);
    loop
        invariant_except_break
            hierarchy_ends(codebase@, option_view(current), limit),
            views(chain@) + ancestors(codebase@, option_view(current), limit) == whole,
        ensures
            views(chain@) == whole,
        decreases limit,
    {
        let Some(name) = current else {
            assert(views(chain@) =~= whole);
            break;
        };
        let Some(meta) = codebase.get_class_like(name) else {
            assert(views(chain@) =~= whole);
            break;
        };
        let ghost before = views(chain@);
        let ghost rest = ancestors(codebase@, meta@.direct_parent_class, (limit - 1) as nat);
        assert(ancestors(codebase@, option_view(current), limit) == seq![(name@, meta@)] + rest);
        chain.push((name, meta));
        assert(views(chain@) == before.push((name@, meta@)));
        assert(before.push((name@, meta@)) + rest =~= before + (seq![(name@, meta@)] + rest));
        current = meta.direct_parent_class.as_ref();
        proof {
            limit = (limit - 1) as nat;
        }
    }
    chain
}

/// Whether a class-like has one of the class initializers.
fn class_has_initializer(context: &Context<'_>, artifacts: &AnalysisArtifacts, meta: &ClassLikeMetadata) -> (has: bool)
    ensures
        has == has_initializer(world(*artifacts, *context), meta@),
{
    let ghost w = world(*artifacts, *context);
    let initializers = &context.settings.class_initializers;
    let mut i: usize = 0;
    while i < initializers.len()
        invariant
            i <= initializers@.len(),
            w == world(*artifacts, *context),
            initializers@ == w.class_initializers,
            forall|j: int| 0 <= j < i ==> !meta@.declaring_method_ids.contains_key(#[trigger] w.class_initializers[j]),
        decreases initializers@.len() - i,
    {
        if meta.declaring_method_ids.contains_key(initializers.at(i)) {
            assert(meta@.declaring_method_ids.contains_key(w.class_initializers[i as int]));
            return true;
        }
        i = i + 1;
    }
    false
}

/// The properties that the class initializers of one class-like initialize.
fn initializations_of(artifacts: &AnalysisArtifacts, context: &Context<'_>, meta: &ClassLikeMetadata) -> (all: WordSet)
    ensures
        forall|p: Seq<u8>| #[trigger]
            all.members().contains(p) <==> some_initializer_initializes(world(*artifacts, *context), meta@, p),
{
    let ghost w = world(*artifacts, *context);
    let initializers = &context.settings.class_initializers;
    let mut all: WordSet = WordSet::new();
    let mut i: usize = 0;
    while i < initializers.len()
        invariant
            i <= initializers@.len(),
            initializers == context.settings.class_initializers,
            w == world(*artifacts, *context),
            initializers@ == w.class_initializers,
            forall|p: Seq<u8>| #[trigger]
                all.members().contains(p) <==> exists|j: int|
                    0 <= j < i && initialized_by_initializer(w, meta@, #[trigger] w.class_initializers[j]).contains(p),
        decreases initializers@.len() - i,
    {
        let ghost before = all.members();
        let initializer = initializers.at(i);
        if let Some(id) = meta.declaring_method_ids.get(initializer) {
            let initialized = compute_transitive_initializations(
                artifacts,
                context,
                &id.class_name,
                initializer,
                meta.flags.is_final,
                true,
            );
            all.extend(&initialized);
        }
        assert forall|p: Seq<u8>| #[trigger] all.members().contains(p) <==> exists|j: int|
            0 <= j < i + 1 && initialized_by_initializer(w, meta@, #[trigger] w.class_initializers[j]).contains(p) by {
            let now = initialized_by_initializer(w, meta@, w.class_initializers[i as int]);
            assert(all.members().contains(p) <==> before.contains(p) || now.contains(p));
        }
        i = i + 1;
    }
    all
}

/// Adds what the class initializers of a class-like above `meta` initialize for `meta`.
fn extend_inherited(all: &mut WordSet, initialized: &WordSet, meta: &ClassLikeMetadata)
    ensures
        forall|p: Seq<u8>| #[trigger]
            final(all).members().contains(p) <==> old(all).members().contains(p) || (initialized.members().contains(p)
                && not_own(meta@, meta@.name, p)),
{
    let ghost before = all.members();
    let mut i: usize = 0;
    while i < initialized.len()
        invariant
            i <= initialized@.len(),
            forall|p: Seq<u8>| #[trigger]
                all.members().contains(p) <==> before.contains(p) || (initialized@.take(i as int).to_set().contains(p)
                    && not_own(meta@, meta@.name, p)),
        decreases initialized@.len() - i,
    {
        let property = initialized.at(i);
        let inherited: bool = match meta.declaring_property_ids.get(property) {
            Some(declaring) => !same_word(declaring.as_slice(), meta.name.as_slice()),
            None => true,
        };
        let ghost earlier = all.members();
        proof {
            lemma_with_item_members(all@, property@);
            lemma_take_members(initialized@, i as int);
        }
        if inherited {
            let _ = all.insert(copy_word(property.as_slice()));
        }
        assert forall|p: Seq<u8>| #[trigger] all.members().contains(p) <==> before.contains(p) || (initialized@.take(
            i + 1,
        ).to_set().contains(p) && not_own(meta@, meta@.name, p)) by {
            assert(all.members().contains(p) <==> earlier.contains(p) || (inherited && p == property@));
        }
        i = i + 1;
    }
    assert(initialized@.take(i as int) =~= initialized@);
}

/// Adds the properties that a class-like declares under the name by which it was found.
fn extend_declared(all: &mut WordSet, name: &Word, meta: &ClassLikeMetadata)
    ensures
        forall|p: Seq<u8>| #[trigger]
            final(all).members().contains(p) <==> old(all).members().contains(p) || declares((name@, meta@), p),
{
    let ghost before = all.members();
    let ghost names = meta.declaring_property_ids.keys();
    let mut i: usize = 0;
    while i < meta.declaring_property_ids.len()
        invariant
            i <= names.len(),
            names == meta.declaring_property_ids.keys(),
            forall|p: Seq<u8>| #[trigger]
                all.members().contains(p) <==> before.contains(p) || (names.take(i as int).to_set().contains(p)
                    && declares((name@, meta@), p)),
        decreases names.len() - i,
    {
        let property = meta.declaring_property_ids.key_at(i);
        proof {
            lemma_with_item_members(all@, property@);
            lemma_take_members(names, i as int);
        }
        let declared: bool = match meta.declaring_property_ids.get(property) {
            Some(declaring) => same_word(declaring.as_slice(), name.as_slice()),
            None => false,
        };
        let ghost earlier = all.members();
        if declared {
            let _ = all.insert(copy_word(property.as_slice()));
        }
        assert forall|p: Seq<u8>| #[trigger] all.members().contains(p) <==> before.contains(p) || (names.take(
            i + 1,
        ).to_set().contains(p) && declares((name@, meta@), p)) by {
            assert(all.members().contains(p) <==> earlier.contains(p) || (declared && p == property@));
        }
        i = i + 1;
    }
    proof {
        assert(names.take(i as int) =~= names);
        meta.declaring_property_ids.lemma_keys();
        assert forall|p: Seq<u8>| declares((name@, meta@), p) implies #[trigger] names.to_set().contains(p) by {
            assert(meta.declaring_property_ids@.contains_key(p));
        }
    }
}

/// The properties that the class initializers of a class-like, and of those above it, initialize.
pub fn compute_class_initializer_initializations(
    artifacts: &AnalysisArtifacts,
    context: &Context<'_>,
    class_like_metadata: &ClassLikeMetadata,
) -> (all: WordSet)
    requires
        initializer_search_ends(world(*artifacts, *context), class_like_metadata@),
    ensures
        all.members() == initialized_by_initializers(world(*artifacts, *context), class_like_metadata@),
{
    let ghost w = world(*artifacts, *context);
    let ghost class = class_like_metadata@;
    if context.settings.class_initializers.is_empty() {
        let none: WordSet = WordSet::new();
        assert(none.members() =~= initialized_by_initializers(w, class));
        return none;
    }
    let mut all: WordSet = initializations_of(artifacts, context, class_like_metadata);
    let chain = parent_chain(context.codebase, &class_like_metadata.direct_parent_class);
    let ghost above = ancestors_of(w, class);
    let mut i: usize = 0;
    while i < chain.len()
        invariant
            i <= chain@.len(),
            w == world(*artifacts, *context),
            class == class_like_metadata@,
            above == ancestors_of(w, class),
            views(chain@) == above,
            forall|p: Seq<u8>| #[trigger]
                all.members().contains(p) <==> {
                    ||| some_initializer_initializes(w, class, p)
                    ||| not_own(class, class.name, p) && exists|k: int|
                        0 <= k < i && some_initializer_initializes(w, (#[trigger] above[k]).1, p)
                    ||| exists|k: int|
                        0 <= k < i && has_initializer(w, (#[trigger] above[k]).1) && declares(above[k], p)
                },
        decreases chain@.len() - i,
    {
        let (name, meta) = chain[i];
        assert(above[i as int] == (name@, meta@));
        let ghost before = all.members();
        let initialized = initializations_of(artifacts, context, meta);
        extend_inherited(&mut all, &initialized, class_like_metadata);
        let ghost between = all.members();
        if class_has_initializer(context, artifacts, meta) {
            extend_declared(&mut all, name, meta);
        }
        assert forall|p: Seq<u8>| #[trigger] all.members().contains(p) <==> {
            ||| some_initializer_initializes(w, class, p)
            ||| not_own(class, class.name, p) && exists|k: int|
                0 <= k < i + 1 && some_initializer_initializes(w, (#[trigger] above[k]).1, p)
            ||| exists|k: int| 0 <= k < i + 1 && has_initializer(w, (#[trigger] above[k]).1) && declares(above[k], p)
        } by {
            assert(all.members().contains(p) <==> between.contains(p) || (has_initializer(w, above[i as int].1)
                && declares(above[i as int], p)));
            assert(between.contains(p) <==> before.contains(p) || (initialized.members().contains(p) && not_own(
                class,
                class.name,
                p,
            )));
        }
        i = i + 1;
    }
    assert(all.members() =~= initialized_by_initializers(w, class));
    all
}

/// Whether the constructor of `entry` counts as initializing the property of `class_like_metadata`.
fn constructor_covers(
    artifacts: &AnalysisArtifacts,
    context: &Context<'_>,
    class_like_metadata: &ClassLikeMetadata,
    parent_name: &Word,
    parent_meta: &ClassLikeMetadata,
    declaring: &Word,
    property: &Word,
) -> (covered: bool)
    requires
        parent_meta@.declaring_method_ids.contains_key(constructor()),
        parent_meta@.declaring_method_ids[constructor()].0 == declaring@,
    ensures
        covered == constructor_initializes(
            world(*artifacts, *context),
            class_like_metadata@,
            (parent_name@, parent_meta@),
            property@,
        ),
{
    if parent_meta.initialized_properties.contains(property) {
        return true;
    }
    let key: SymbolIdentifier = (copy_word(declaring.as_slice()), word("__construct"));
    match artifacts.method_initialized_properties.get(&key) {
        Some(initialized) => initialized.contains(property),
        None => match class_like_metadata.declaring_property_ids.get(property) {
            Some(owner) => same_word(owner.as_slice(), parent_name.as_slice()) || same_word(
                owner.as_slice(),
                declaring.as_slice(),
            ),
            None => false,
        },
    }
}

/// The nearest class-like above one with this parent that has a constructor.
fn find_constructor_above<'a>(
    context: &Context<'a>,
    artifacts: &AnalysisArtifacts,
    class_like_metadata: &'a ClassLikeMetadata,
) -> (found: Option<(&'a Word, &'a ClassLikeMetadata)>)
    requires
        constructor_search_ends(world(*artifacts, *context), class_like_metadata@),
    ensures
        ({
            let above = ancestors_of(world(*artifacts, *context), class_like_metadata@);
            match (first_with_constructor(above, 0), found) {
                (Some(k), Some((name, meta))) => {
                    &&& 0 <= k < above.len()
                    &&& (name@, meta@) == above[k]
                    &&& meta@.declaring_method_ids.contains_key(constructor())
                },
                (None, None) => true,
                _ => false,
            }
        }),
{
    let codebase: &'a CodebaseMetadata = context.codebase;
    let ghost above = ancestors_of(world(*artifacts, *context), class_like_metadata@);
    let ghost mut limit: nat = codebase@.class_like_names.len();
    let ghost mut k: int = 0;
    let mut current: Option<&'a Word> = class_like_metadata.direct_parent_class.as_ref();
    assert(above.skip(0) =~= above);
    loop
        invariant
            above == ancestors_of(world(*artifacts, *context), class_like_metadata@),
            codebase == context.codebase,
            0 <= k <= above.len(),
            above.skip(k) == ancestors(codebase@, option_view(current), limit),
            first_with_constructor(above, 0) == first_with_constructor(above, k),
            first_with_constructor(above, k) is Some || hierarchy_ends(codebase@, option_view(current), limit),
        decreases limit,
    {
        let ghost rest = above.skip(k);
        assert(rest.len() == above.len() - k);
        let Some(name) = current else {
            return None;
        };
        let Some(meta) = codebase.get_class_like(name) else {
            return None;
        };
        assert(limit > 0) by {
            if limit == 0 {
                assert(first_with_constructor(above, k) is None);
            }
        }
        let ghost further = ancestors(codebase@, meta@.direct_parent_class, (limit - 1) as nat);
        assert(rest == seq![(name@, meta@)] + further);
        assert(above[k] == rest[0]);
        assert forall|j: int| 0 <= j < further.len() implies above.skip(k + 1)[j] == further[j] by {
            assert(rest[j + 1] == above[k + 1 + j]);
        }
        assert(above.skip(k + 1) =~= further);
        if meta.declaring_method_ids.contains_key(&word("__construct")) {
            return Some((name, meta));
        }
        current = meta.direct_parent_class.as_ref();
        proof {
            limit = (limit - 1) as nat;
            k = k + 1;
        }
    }
}

/// Whether the nearest constructor above a class-like initializes all of these properties.
pub fn check_parent_constructor_initializes(
    context: &Context<'_>,
    artifacts: &AnalysisArtifacts,
    class_like_metadata: &ClassLikeMetadata,
    uninitialized_properties: &Vec<NamedProperty<'_>>,
) -> (initializes: bool)
    requires
        constructor_search_ends(world(*artifacts, *context), class_like_metadata@),
    ensures
        initializes == parent_constructor_initializes(
            world(*artifacts, *context),
            class_like_metadata@,
            views(uninitialized_properties@),
        ),
{
    let ghost w = world(*artifacts, *context);
    let ghost class = class_like_metadata@;
    let ghost properties = views(uninitialized_properties@);
    let Some((name, meta)) = find_constructor_above(context, artifacts, class_like_metadata) else {
        return false;
    };
    let ghost entry = (name@, meta@);
    let Some(id) = meta.declaring_method_ids.get(&word("__construct")) else {
        return false;
    };
    let mut i: usize = 0;
    while i < uninitialized_properties.len()
        invariant
            i <= uninitialized_properties@.len(),
            properties == views(uninitialized_properties@),
            w == world(*artifacts, *context),
            class == class_like_metadata@,
            entry == (name@, meta@),
            first_with_constructor(ancestors_of(w, class), 0) is Some,
            entry == ancestors_of(w, class)[first_with_constructor(ancestors_of(w, class), 0)->0],
            meta@.declaring_method_ids.contains_key(constructor()),
            meta@.declaring_method_ids[constructor()] == id@,
            forall|n: int| 0 <= n < i ==> constructor_initializes(w, class, entry, (#[trigger] properties[n]).0),
        decreases uninitialized_properties@.len() - i,
    {
        assert(properties[i as int].0 == uninitialized_properties@[i as int].0@);
        if !constructor_covers(
            artifacts,
            context,
            class_like_metadata,
            name,
            meta,
            &id.class_name,
            &uninitialized_properties[i].0,
        ) {
            return false;
        }
        i = i + 1;
    }
    true
}

/// Whether a property has to be initialized by the constructor of a class-like.
pub fn property_requires_initialization(
    property: &PropertyMetadata,
    class_like_metadata: &ClassLikeMetadata,
    declaring_class_metadata: &ClassLikeMetadata,
    artifacts: &AnalysisArtifacts,
    context: &Context<'_>,
) -> (required: bool)
    ensures
        required == requires_initialization(
            world(*artifacts, *context),
            property@,
            class_like_metadata@,
            declaring_class_metadata@,
        ),
{
    if property.flags.has_default || property.flags.is_promoted_property || property.flags.is_static
        || property.flags.is_virtual_property {
        return false;
    }
    if property.type_declaration_metadata.is_none() {
        return false;
    }
    let key: SymbolIdentifier = (
        copy_word(declaring_class_metadata.name.as_slice()),
        copy_word(property.name.as_slice()),
    );
    if context.plugin_initialized.contains(&key) {
        return false;
    }
    if !same_word(declaring_class_metadata.name.as_slice(), class_like_metadata.name.as_slice()) {
        if !declaring_class_metadata.flags.is_abstract && declaring_class_metadata.kind != SymbolKind::Trait {
            return false;
        }
        if declaring_class_metadata.flags.is_abstract && declaring_class_metadata.declaring_method_ids.contains_key(
            &word("__construct"),
        ) && !class_like_metadata.declaring_method_ids.contains_key(&word("__construct")) {
            return false;
        }
    }
    true
}

/// Calls `sorted_by_key` of `itertools`: the same words, in alphabetical order of their bytes.
#[verifier::external_body]
fn sorted_by_name(names: Vec<Word>) -> (sorted: Vec<Word>)
    ensures
        views(sorted@).to_multiset() == views(names@).to_multiset(),
        forall|i: int, j: int| 0 <= i < j < sorted@.len() ==> word_le(#[trigger] sorted@[i]@, #[trigger] sorted@[j]@),
{
    names.into_iter().sorted_by_key(|name| copy_word(name)).collect()
}

/// The names of the properties of a class-like in alphabetical order.
fn sorted_names(meta: &ClassLikeMetadata) -> (names: Vec<Word>)
    ensures
        views(names@) == sorted_property_names(meta@),
{
    broadcast use lemma_views_push;

    let ghost keys = meta.declaring_property_ids.keys();
    let mut names: Vec<Word> = Vec::new();
    let mut i: usize = 0;
    assert(views(names@) =~= keys.take(0));
    while i < meta.declaring_property_ids.len()
        invariant
            i <= keys.len(),
            keys == meta.declaring_property_ids.keys(),
            views(names@) == keys.take(i as int),
        decreases keys.len() - i,
    {
        let ghost before = views(names@);
        let name: Word = copy_word(meta.declaring_property_ids.key_at(i).as_slice());
        names.push(name);
        assert(views(names@) == before.push(keys[i as int]));
        i = i + 1;
        assert(views(names@) =~= keys.take(i as int));
    }
    assert(keys.take(i as int) =~= keys);
    let sorted = sorted_by_name(names);
    proof {
        let le = |a: Seq<u8>, b: Seq<u8>| word_le(a, b);
        word_le_is_total_order();
        keys.lemma_sort_by_ensures(le);
        assert forall|a: int, b: int| 0 <= a < b < views(sorted@).len() implies #[trigger] le(
            views(sorted@)[a],
            views(sorted@)[b],
        ) by {
            assert(word_le(sorted@[a]@, sorted@[b]@));
        }
        lemma_sorted_unique(views(sorted@), keys.sort_by(le), le);
    }
    sorted
}

/// The properties of a class-like that its constructor has to initialize, by name.
fn collect_required<'a>(
    context: &Context<'a>,
    artifacts: &AnalysisArtifacts,
    class_like_metadata: &ClassLikeMetadata,
) -> (required: Vec<NamedProperty<'a>>)
    ensures
        views(required@) == required_of(
            world(*artifacts, *context),
            class_like_metadata@,
            sorted_property_names(class_like_metadata@),
        ),
{
    broadcast use lemma_views_push;

    let ghost w = world(*artifacts, *context);
    let ghost class = class_like_metadata@;
    let names = sorted_names(class_like_metadata);
    let ghost all = views(names@);
    let codebase: &'a CodebaseMetadata = context.codebase;
    let mut required: Vec<NamedProperty<'a>> = Vec::new();
    let mut i: usize = 0;
    assert(views(required@) =~= required_of(w, class, all.take(0)));
    while i < names.len()
        invariant
            i <= names@.len(),
            all == views(names@),
            w == world(*artifacts, *context),
            class == class_like_metadata@,
            codebase == context.codebase,
            views(required@) == required_of(w, class, all.take(i as int)),
        decreases names@.len() - i,
    {
        let ghost before = views(required@);
        let mut property: Option<&'a PropertyMetadata> = None;
        if let Some(declaring) = class_like_metadata.declaring_property_ids.get(&names[i]) {
            if let Some(meta) = codebase.get_class_like(declaring) {
                if let Some(found) = meta.properties.get(&names[i]) {
                    if property_requires_initialization(found, class_like_metadata, meta, artifacts, context) {
                        property = Some(found);
                    }
                }
            }
        }
        assert(match property {
            Some(found) => required_property(w, class, all[i as int]) == Some((all[i as int], found@)),
            None => required_property(w, class, all[i as int]) is None,
        });
        if let Some(found) = property {
            required.push((copy_word(names[i].as_slice()), found));
            assert(views(required@) =~= before + seq![(all[i as int], found@)]);
        }
        assert(all.take(i + 1).drop_last() =~= all.take(i as int));
        assert(all.take(i + 1).last() == all[i as int]);
        i = i + 1;
    }
    assert(all.take(i as int) =~= all);
    required
}

/// Which properties are left of a list, and the proof that a loop over the list keeps them.
proof fn lemma_filter_step(
    properties: Seq<(Seq<u8>, PropertyView)>,
    i: int,
    pred: spec_fn((Seq<u8>, PropertyView)) -> bool,
)
    requires
        0 <= i < properties.len(),
    ensures
        properties.take(0).filter(pred) == Seq::<(Seq<u8>, PropertyView)>::empty(),
        properties.take(i + 1).filter(pred) == if pred(properties[i]) {
            properties.take(i).filter(pred).push(properties[i])
        } else {
            properties.take(i).filter(pred)
        },
{
    reveal(Seq::filter);
    assert(properties.take(i + 1).drop_last() =~= properties.take(i));
    assert(properties.take(i + 1).last() == properties[i]);
    assert(properties.take(0).filter(pred) =~= Seq::<(Seq<u8>, PropertyView)>::empty());
}

/// The properties without those that are in `initialized`.
fn without<'a>(properties: &Vec<NamedProperty<'a>>, initialized: &WordSet) -> (rest: Vec<NamedProperty<'a>>)
    ensures
        views(rest@) == not_in(views(properties@), initialized.members()),
{
    broadcast use lemma_views_push;

    let ghost all = views(properties@);
    let ghost pred = |p: (Seq<u8>, PropertyView)| !initialized.members().contains(p.0);
    let mut rest: Vec<NamedProperty<'a>> = Vec::new();
    let mut i: usize = 0;
    proof {
        reveal(Seq::filter);
        assert(views(rest@) =~= all.take(0).filter(pred));
    }
    while i < properties.len()
        invariant
            i <= properties@.len(),
            all == views(properties@),
            pred == (|p: (Seq<u8>, PropertyView)| !initialized.members().contains(p.0)),
            views(rest@) == all.take(i as int).filter(pred),
        decreases properties@.len() - i,
    {
        proof {
            lemma_filter_step(all, i as int, pred);
        }
        assert(all[i as int] == (properties@[i as int].0@, properties@[i as int].1@));
        if !initialized.contains(&properties[i].0) {
            rest.push((copy_word(properties[i].0.as_slice()), properties[i].1));
        }
        i = i + 1;
    }
    assert(all.take(i as int) =~= all);
    rest
}

/// The properties that a class-like declares itself, or those that another one declares for it.
fn declared_here<'a>(
    properties: &Vec<NamedProperty<'a>>,
    class_like_metadata: &ClassLikeMetadata,
    here: bool,
) -> (rest: Vec<NamedProperty<'a>>)
    ensures
        views(rest@) == if here {
            own_of(class_like_metadata@, views(properties@))
        } else {
            inherited_of(class_like_metadata@, views(properties@))
        },
{
    broadcast use lemma_views_push;

    let ghost all = views(properties@);
    let ghost class = class_like_metadata@;
    let ghost own = |p: (Seq<u8>, PropertyView)| !not_own(class, class.name, p.0);
    let ghost inherited = |p: (Seq<u8>, PropertyView)|
        class.declaring_property_ids.contains_key(p.0) && class.declaring_property_ids[p.0] != class.name;
    let ghost pred = if here {
        own
    } else {
        inherited
    };
    let mut rest: Vec<NamedProperty<'a>> = Vec::new();
    let mut i: usize = 0;
    proof {
        reveal(Seq::filter);
        assert(views(rest@) =~= all.take(0).filter(pred));
    }
    while i < properties.len()
        invariant
            i <= properties@.len(),
            all == views(properties@),
            class == class_like_metadata@,
            own == (|p: (Seq<u8>, PropertyView)| !not_own(class, class.name, p.0)),
            inherited == (|p: (Seq<u8>, PropertyView)|
                class.declaring_property_ids.contains_key(p.0) && class.declaring_property_ids[p.0] != class.name),
            pred == if here {
                own
            } else {
                inherited
            },
            views(rest@) == all.take(i as int).filter(pred),
        decreases properties@.len() - i,
    {
        proof {
            lemma_filter_step(all, i as int, pred);
        }
        assert(all[i as int] == (properties@[i as int].0@, properties@[i as int].1@));
        let keep: bool = match class_like_metadata.declaring_property_ids.get(&properties[i].0) {
            Some(declaring) => same_word(declaring.as_slice(), class_like_metadata.name.as_slice()) == here,
            None => false,
        };
        if keep {
            rest.push((copy_word(properties[i].0.as_slice()), properties[i].1));
        }
        i = i + 1;
    }
    assert(all.take(i as int) =~= all);
    rest
}

fn declared_by_trait(context: &Context<'_>, artifacts: &AnalysisArtifacts, name: &Word) -> (by_trait: bool)
    ensures
        by_trait == is_trait(world(*artifacts, *context), name@),
{
    match context.codebase.get_class_like(name) {
        Some(meta) => meta.kind == SymbolKind::Trait,
        None => false,
    }
}

/// The properties without those that a trait declares for the class-like.
fn without_trait_properties<'a>(
    context: &Context<'_>,
    artifacts: &AnalysisArtifacts,
    properties: &Vec<NamedProperty<'a>>,
    class_like_metadata: &ClassLikeMetadata,
) -> (rest: Vec<NamedProperty<'a>>)
    ensures
        views(rest@) == not_from_trait(world(*artifacts, *context), class_like_metadata@, views(properties@)),
{
    broadcast use lemma_views_push;

    let ghost all = views(properties@);
    let ghost w = world(*artifacts, *context);
    let ghost class = class_like_metadata@;
    let ghost pred = |p: (Seq<u8>, PropertyView)|
        !(class.declaring_property_ids.contains_key(p.0) && is_trait(w, class.declaring_property_ids[p.0]));
    let mut rest: Vec<NamedProperty<'a>> = Vec::new();
    let mut i: usize = 0;
    proof {
        reveal(Seq::filter);
        assert(views(rest@) =~= all.take(0).filter(pred));
    }
    while i < properties.len()
        invariant
            i <= properties@.len(),
            all == views(properties@),
            w == world(*artifacts, *context),
            class == class_like_metadata@,
            pred == (|p: (Seq<u8>, PropertyView)|
                !(class.declaring_property_ids.contains_key(p.0) && is_trait(w, class.declaring_property_ids[p.0]))),
            views(rest@) == all.take(i as int).filter(pred),
        decreases properties@.len() - i,
    {
        proof {
            lemma_filter_step(all, i as int, pred);
        }
        assert(all[i as int] == (properties@[i as int].0@, properties@[i as int].1@));
        let from_trait: bool = match class_like_metadata.declaring_property_ids.get(&properties[i].0) {
            Some(declaring) => declared_by_trait(context, artifacts, declaring),
            None => false,
        };
        if !from_trait {
            rest.push((copy_word(properties[i].0.as_slice()), properties[i].1));
        }
        i = i + 1;
    }
    assert(all.take(i as int) =~= all);
    rest
}

/// Reports the typed properties of a class that nothing initializes.
///
/// Where the class-likes above the class are searched, the search must come to an end: one among
/// classes that are their own ancestors does not.
pub fn check_property_initialization<'a>(
    context: &mut Context<'a>,
    artifacts: &AnalysisArtifacts,
    class_like_metadata: &ClassLikeMetadata,
    declaration_span: Span,
    name_span: Option<Span>,
)
    requires
        old(context).settings.check_property_initialization ==> check_ends(
            world(*artifacts, *old(context)),
            class_like_metadata@,
        ),
    ensures
        final(context).codebase == old(context).codebase,
        final(context).settings == old(context).settings,
        final(context).plugin_initialized == old(context).plugin_initialized,
        views(final(context).issues@) == views(old(context).issues@) + if old(
            context,
        ).settings.check_property_initialization {
            initialization_issues(
                world(*artifacts, *old(context)),
                class_like_metadata@,
                declaration_span,
                name_span,
            )
        } else {
            Seq::empty()
        },
{
    let ghost w = world(*artifacts, *context);
    let ghost class = class_like_metadata@;
    let ghost before = views(context.issues@);
    assert(before =~= before + Seq::<IssueView>::empty());
    if !context.settings.check_property_initialization {
        return;
    }
    if class_like_metadata.flags.is_abstract || class_like_metadata.kind == SymbolKind::Interface
        || class_like_metadata.kind == SymbolKind::Trait || class_like_metadata.kind == SymbolKind::Enum {
        return;
    }
    let class_span: Span = match name_span {
        Some(span) => span,
        None => declaration_span,
    };
    let required: Vec<NamedProperty<'a>> = collect_required(context, artifacts, class_like_metadata);
    let ghost all = views(required@);
    if required.len() == 0 {
        return;
    }
    let Some(constructor_id) = class_like_metadata.declaring_method_ids.get(&word("__construct")) else {
        if check_parent_constructor_initializes(context, artifacts, class_like_metadata, &required) {
            return;
        }
        let by_initializers = compute_class_initializer_initializations(artifacts, context, class_like_metadata);
        let missing = without(&required, &by_initializers);
        if missing.len() > 0 {
            report_missing_constructor(&mut context.issues, class_like_metadata, class_span, &missing);
            assert(views(context.issues@) =~= before + issues_without_constructor(w, class, class_span, all));
        }
        return;
    };
    let declaring: &Word = &constructor_id.class_name;
    let by_initializers = compute_class_initializer_initializations(artifacts, context, class_like_metadata);
    let by_constructor = compute_transitive_initializations(
        artifacts,
        context,
        declaring,
        &word("__construct"),
        class_like_metadata.flags.is_final,
        false,
    );
    if !same_word(declaring.as_slice(), class_like_metadata.name.as_slice()) {
        let own = declared_here(&required, class_like_metadata, true);
        let inherited = declared_here(&required, class_like_metadata, false);
        if inherited.len() > 0 {
            let parent_initializes: bool = check_parent_constructor_initializes(
                context,
                artifacts,
                class_like_metadata,
                &inherited,
            );
            let mut missing = without(&without(&inherited, &by_initializers), &by_constructor);
            if declared_by_trait(context, artifacts, declaring) {
                missing = without_trait_properties(context, artifacts, &missing, class_like_metadata);
            }
            if !parent_initializes && missing.len() > 0 {
                report_missing_constructor(&mut context.issues, class_like_metadata, class_span, &missing);
            }
        } else {
            proof {
                reveal(Seq::filter);
            }
        }
        let ghost middle = views(context.issues@);
        let missing_own = without(&own, &by_initializers);
        report_uninitialized_properties(
            &mut context.issues,
            context.codebase,
            class_like_metadata,
            class_span,
            &missing_own,
        );
        assert(views(context.issues@) =~= before + issues_with_inherited_constructor(
            w,
            class,
            class_span,
            all,
            declaring@,
        ));
        return;
    }
    let mut initialized = by_constructor;
    initialized.extend(&by_initializers);
    let missing = without(&required, &initialized);
    report_uninitialized_properties(
        &mut context.issues,
        context.codebase,
        class_like_metadata,
        class_span,
        &missing,
    );
}

} // verus!
