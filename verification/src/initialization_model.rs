//! Which properties a class-like initializes: the mathematical account.

use vstd::prelude::*;

use crate::codebase::CodebaseView;
use crate::metadata::ClassLikeView;
use crate::metadata::PropertyView;
use crate::metadata::SymbolKind;
use crate::metadata::Visibility;
use crate::initialization_issues::missing_constructor_issue;
use crate::initialization_issues::property_issues;
use crate::issue::IssueView;
use crate::issue::Span;
use crate::word::text;
use crate::word::word_le;

verus! {

/// What is known of the bodies of methods.
#[verifier::ext_equal]
pub struct ArtifactsView {
    pub initialized: Map<(Seq<u8>, Seq<u8>), Seq<Seq<u8>>>,
    pub calls: Map<(Seq<u8>, Seq<u8>), Seq<Seq<u8>>>,
    pub callers: Seq<(Seq<u8>, Seq<u8>)>,
    pub parent_constructor: Map<(Seq<u8>, Seq<u8>), bool>,
    pub parent_constructor_callers: Seq<(Seq<u8>, Seq<u8>)>,
    pub parent_initializer: Map<(Seq<u8>, Seq<u8>), Seq<u8>>,
    pub parent_initializer_callers: Seq<(Seq<u8>, Seq<u8>)>,
}

/// All that the account rests on.
pub struct World {
    pub codebase: CodebaseView,
    pub artifacts: ArtifactsView,
    pub class_initializers: Seq<Seq<u8>>,
    /// The properties, by class-like and name, that a plugin initializes.
    pub plugin_initialized: Seq<(Seq<u8>, Seq<u8>)>,
}

pub open spec fn constructor() -> Seq<u8> {
    text("__construct")
}

/// The number of items that are not in `seen`, each place counted.
pub open spec fn unseen<A>(items: Seq<A>, seen: Set<A>) -> nat
    decreases items.len(),
{
    if items.len() == 0 {
        0
    } else {
        unseen(items.drop_last(), seen) + if seen.contains(items.last()) {
            0nat
        } else {
            1nat
        }
    }
}

/// Seeing an item that was not seen before leaves fewer unseen.
pub proof fn lemma_unseen_insert<A>(items: Seq<A>, seen: Set<A>, item: A)
    ensures
        unseen(items, seen.insert(item)) <= unseen(items, seen),
        items.contains(item) && !seen.contains(item) ==> unseen(items, seen.insert(item)) < unseen(items, seen),
    decreases items.len(),
{
    if items.len() > 0 {
        let rest = items.drop_last();
        lemma_unseen_insert(rest, seen, item);
        if items.contains(item) && items.last() != item {
            let i = choose|i: int| 0 <= i < items.len() && items[i] == item;
            assert(rest[i] == item);
        }
    }
}

/// A method whose body is to be looked at: in which class-like, whether that class-like is final,
/// whether each method that it calls is trusted, and for which class-like this is done.
#[verifier::ext_equal]
pub struct WorkView {
    pub class: Seq<u8>,
    pub method: Seq<u8>,
    pub is_final: bool,
    pub trust_all: bool,
    pub origin: Seq<u8>,
}

/// A method is trustworthy if no subclass can override it, or if it is a class initializer.
pub open spec fn trustworthy(w: World, class: Seq<u8>, method: Seq<u8>, class_is_final: bool) -> bool {
    ||| class_is_final
    ||| w.class_initializers.contains(method)
    ||| w.codebase.method(class, method) is Some && (w.codebase.method(class, method)->0.visibility
        == Visibility::Private || w.codebase.method(class, method)->0.is_final)
}

/// In this work, the body of `a` leads to that of `b`.
pub open spec fn leads_to(w: World, work: WorkView, a: Seq<u8>, b: Seq<u8>) -> bool {
    &&& w.artifacts.calls.contains_key((work.class, a))
    &&& w.artifacts.calls[(work.class, a)].contains(b)
    &&& work.trust_all || trustworthy(w, work.class, b, work.is_final)
}

/// Methods, each of which leads to the next, beginning with the method of the work.
pub open spec fn is_call_path(w: World, work: WorkView, path: Seq<Seq<u8>>) -> bool {
    &&& path.len() > 0
    &&& path[0] == work.method
    &&& forall|i: int| 0 <= i < path.len() - 1 ==> leads_to(w, work, #[trigger] path[i], path[i + 1])
}

/// Trusted calls on the same object lead from the method of the work to `method`.
pub open spec fn reaches(w: World, work: WorkView, method: Seq<u8>) -> bool {
    exists|path: Seq<Seq<u8>>| is_call_path(w, work, path) && #[trigger] path.last() == method
}

/// The class-like `meta`, which is `owner`, does not declare the property itself.
pub open spec fn not_own(meta: ClassLikeView, owner: Seq<u8>, property: Seq<u8>) -> bool {
    !(meta.declaring_property_ids.contains_key(property) && meta.declaring_property_ids[property] == owner)
}

/// The body of `method` initializes a property of the class-like for which the work is done: in
/// that class-like any property, in another one only what it did not declare itself.
pub open spec fn initializes(w: World, work: WorkView, method: Seq<u8>, property: Seq<u8>) -> bool {
    &&& w.artifacts.initialized.contains_key((work.class, method))
    &&& w.artifacts.initialized[(work.class, method)].contains(property)
    &&& work.class == work.origin || match w.codebase.class_like(work.origin) {
        Some(meta) => not_own(meta, work.origin, property),
        None => false,
    }
}

/// The properties that a method initializes, itself and through the methods that it leads to.
pub open spec fn initialized_by_work(w: World, work: WorkView) -> Set<Seq<u8>> {
    Set::new(|p: Seq<u8>| exists|m: Seq<u8>| #[trigger] reaches(w, work, m) && initializes(w, work, m, p))
}

/// The parent of a class-like, by its name, where both are known.
pub open spec fn known_parent(w: World, class: Seq<u8>) -> Option<(Seq<u8>, ClassLikeView)> {
    match w.codebase.class_like(class) {
        Some(meta) => match meta.direct_parent_class {
            Some(parent) => match w.codebase.class_like(parent) {
                Some(parent_meta) => Some((parent, parent_meta)),
                None => None,
            },
            None => None,
        },
        None => None,
    }
}

/// The constructor of the parent, where the method of the work calls it.
pub open spec fn parent_constructor_work(w: World, work: WorkView) -> Seq<WorkView> {
    let key = (work.class, work.method);
    let calls = w.artifacts.parent_constructor_callers.contains(key) && w.artifacts.parent_constructor.contains_key(key)
        && w.artifacts.parent_constructor[key];
    match known_parent(w, work.class) {
        Some((parent, meta)) => if calls && meta.declaring_method_ids.contains_key(constructor()) {
            seq![
                WorkView {
                    class: parent,
                    method: constructor(),
                    is_final: meta.flags.is_final,
                    trust_all: false,
                    origin: work.origin,
                },
            ]
        } else {
            Seq::empty()
        },
        None => Seq::empty(),
    }
}

/// The initializer of the parent, where the method of the work calls it.
pub open spec fn parent_initializer_work(w: World, work: WorkView) -> Seq<WorkView> {
    let key = (work.class, work.method);
    let calls = w.artifacts.parent_initializer_callers.contains(key) && w.artifacts.parent_initializer.contains_key(
        key,
    );
    match known_parent(w, work.class) {
        Some((_, meta)) => if calls && meta.declaring_method_ids.contains_key(w.artifacts.parent_initializer[key]) {
            seq![
                WorkView {
                    class: meta.declaring_method_ids[w.artifacts.parent_initializer[key]].0,
                    method: w.artifacts.parent_initializer[key],
                    is_final: meta.flags.is_final,
                    trust_all: true,
                    origin: work.origin,
                },
            ]
        } else {
            Seq::empty()
        },
        None => Seq::empty(),
    }
}

pub open spec fn further_work(w: World, work: WorkView) -> Seq<WorkView> {
    parent_constructor_work(w, work) + parent_initializer_work(w, work)
}

/// The methods that are known to call up, each place counted.
pub open spec fn upward_callers(w: World) -> Seq<(Seq<u8>, Seq<u8>)> {
    w.artifacts.parent_constructor_callers + w.artifacts.parent_initializer_callers
}

/// A method that does not call up makes no further work.
pub proof fn lemma_further_work(w: World, work: WorkView)
    ensures
        !upward_callers(w).contains((work.class, work.method)) ==> further_work(w, work).len() == 0,
{
    let key = (work.class, work.method);
    let a = w.artifacts.parent_constructor_callers;
    let b = w.artifacts.parent_initializer_callers;
    if a.contains(key) {
        let i = choose|i: int| 0 <= i < a.len() && a[i] == key;
        assert(upward_callers(w)[i] == key);
    }
    if b.contains(key) {
        let i = choose|i: int| 0 <= i < b.len() && b[i] == key;
        assert(upward_callers(w)[a.len() + i] == key);
    }
}

/// The properties that are initialized when the work of a stack is done from its top, each method
/// of a class-like at most once.
pub open spec fn initialized_by_stack(
    w: World,
    stack: Seq<WorkView>,
    done: Set<(Seq<u8>, Seq<u8>)>,
) -> Set<Seq<u8>>
    decreases unseen(upward_callers(w), done), stack.len(),
{
    if stack.len() == 0 {
        Set::empty()
    } else {
        let work = stack.last();
        let key = (work.class, work.method);
        if done.contains(key) {
            initialized_by_stack(w, stack.drop_last(), done)
        } else {
            proof {
                lemma_unseen_insert(upward_callers(w), done, key);
                lemma_further_work(w, work);
            }
            initialized_by_work(w, work).union(
                initialized_by_stack(w, stack.drop_last() + further_work(w, work), done.insert(key)),
            )
        }
    }
}

/// The properties that a method of a class-like initializes.
pub open spec fn transitively_initialized(
    w: World,
    class: Seq<u8>,
    method: Seq<u8>,
    is_final: bool,
    trust_all: bool,
) -> Set<Seq<u8>> {
    initialized_by_stack(w, seq![WorkView { class, method, is_final, trust_all, origin: class }], Set::empty())
}

/// The class-likes above one with this parent, nearest first, as far as they are known, and at
/// most `limit` of them.
pub open spec fn ancestors(
    codebase: CodebaseView,
    parent: Option<Seq<u8>>,
    limit: nat,
) -> Seq<(Seq<u8>, ClassLikeView)>
    decreases limit,
{
    if limit == 0 {
        Seq::empty()
    } else {
        match parent {
            Some(name) => match codebase.class_like(name) {
                Some(meta) => seq![(name, meta)] + ancestors(
                    codebase,
                    meta.direct_parent_class,
                    (limit - 1) as nat,
                ),
                None => Seq::empty(),
            },
            None => Seq::empty(),
        }
    }
}

/// Following parents from here comes to an end within `limit` steps.
pub open spec fn hierarchy_ends(codebase: CodebaseView, parent: Option<Seq<u8>>, limit: nat) -> bool
    decreases limit,
{
    match parent {
        Some(name) => match codebase.class_like(name) {
            Some(meta) => limit > 0 && hierarchy_ends(codebase, meta.direct_parent_class, (limit - 1) as nat),
            None => true,
        },
        None => true,
    }
}

/// No class-like above this one is its own ancestor: there are no more steps than class-likes.
pub open spec fn has_finite_hierarchy(codebase: CodebaseView, meta: ClassLikeView) -> bool {
    hierarchy_ends(codebase, meta.direct_parent_class, codebase.class_like_names.len())
}

pub open spec fn ancestors_of(w: World, meta: ClassLikeView) -> Seq<(Seq<u8>, ClassLikeView)> {
    ancestors(w.codebase, meta.direct_parent_class, w.codebase.class_like_names.len())
}

/// What the class initializer `initializer` of `meta` initializes.
pub open spec fn initialized_by_initializer(w: World, meta: ClassLikeView, initializer: Seq<u8>) -> Set<Seq<u8>> {
    if meta.declaring_method_ids.contains_key(initializer) {
        transitively_initialized(
            w,
            meta.declaring_method_ids[initializer].0,
            initializer,
            meta.flags.is_final,
            true,
        )
    } else {
        Set::empty()
    }
}

pub open spec fn has_initializer(w: World, meta: ClassLikeView) -> bool {
    exists|i: int|
        0 <= i < w.class_initializers.len() && meta.declaring_method_ids.contains_key(
            #[trigger] w.class_initializers[i],
        )
}

/// A class initializer of `meta` initializes the property.
pub open spec fn some_initializer_initializes(w: World, meta: ClassLikeView, property: Seq<u8>) -> bool {
    exists|i: int|
        0 <= i < w.class_initializers.len() && initialized_by_initializer(
            w,
            meta,
            #[trigger] w.class_initializers[i],
        ).contains(property)
}

/// The class-like itself declares the property, under the name by which it was found.
pub open spec fn declares(entry: (Seq<u8>, ClassLikeView), property: Seq<u8>) -> bool {
    entry.1.declaring_property_ids.contains_key(property) && entry.1.declaring_property_ids[property] == entry.0
}

/// The properties that the class initializers of a class-like, and of those above it, initialize.
/// One above it counts only for what the class-like did not declare itself; and a class-like above
/// that has a class initializer is trusted with the properties that it declares.
pub open spec fn initialized_by_initializers(w: World, meta: ClassLikeView) -> Set<Seq<u8>> {
    Set::new(
        |p: Seq<u8>|
            {
                ||| some_initializer_initializes(w, meta, p)
                ||| not_own(meta, meta.name, p) && exists|k: int|
                    0 <= k < ancestors_of(w, meta).len() && some_initializer_initializes(
                        w,
                        (#[trigger] ancestors_of(w, meta)[k]).1,
                        p,
                    )
                ||| exists|k: int|
                    0 <= k < ancestors_of(w, meta).len() && has_initializer(
                        w,
                        (#[trigger] ancestors_of(w, meta)[k]).1,
                    ) && declares(ancestors_of(w, meta)[k], p)
            },
    )
}

/// Whether a property has to be initialized by the constructor of `class`.
pub open spec fn requires_initialization(
    w: World,
    property: PropertyView,
    class: ClassLikeView,
    declaring: ClassLikeView,
) -> bool {
    &&& !property.flags.has_default
    &&& !property.flags.is_promoted_property
    &&& !property.flags.is_static
    &&& !property.flags.is_virtual_property
    &&& property.type_declaration_metadata is Some
    &&& !w.plugin_initialized.contains((declaring.name, property.name))
    &&& declaring.name != class.name ==> {
        // Only an abstract class or a trait leaves this to the class that extends or uses it; and
        // an abstract class with a constructor does so only where that constructor is overridden.
        &&& declaring.flags.is_abstract || declaring.kind == SymbolKind::Trait
        &&& !(declaring.flags.is_abstract && declaring.declaring_method_ids.contains_key(constructor())
            && !class.declaring_method_ids.contains_key(constructor()))
    }
}

/// The constructor that `entry` has counts as initializing the property of `class`.
pub open spec fn constructor_initializes(
    w: World,
    class: ClassLikeView,
    entry: (Seq<u8>, ClassLikeView),
    property: Seq<u8>,
) -> bool {
    let declaring = entry.1.declaring_method_ids[constructor()].0;
    let key = (declaring, constructor());
    ||| entry.1.initialized_properties.contains(property)
    ||| if w.artifacts.initialized.contains_key(key) {
        w.artifacts.initialized[key].contains(property)
    } else {
        // Nothing is known of the constructor: it is trusted with what its own class-like declares.
        &&& class.declaring_property_ids.contains_key(property)
        &&& class.declaring_property_ids[property] == entry.0 || class.declaring_property_ids[property] == declaring
    }
}

/// The first class-like from `k` on that has a constructor.
pub open spec fn first_with_constructor(chain: Seq<(Seq<u8>, ClassLikeView)>, k: int) -> Option<int>
    decreases chain.len() - k,
{
    if k >= chain.len() {
        None
    } else if chain[k].1.declaring_method_ids.contains_key(constructor()) {
        Some(k)
    } else {
        first_with_constructor(chain, k + 1)
    }
}

/// The nearest constructor above `class` initializes all of these properties.
pub open spec fn parent_constructor_initializes(
    w: World,
    class: ClassLikeView,
    properties: Seq<(Seq<u8>, PropertyView)>,
) -> bool {
    match first_with_constructor(ancestors_of(w, class), 0) {
        Some(k) => forall|i: int|
            0 <= i < properties.len() ==> constructor_initializes(
                w,
                class,
                ancestors_of(w, class)[k],
                (#[trigger] properties[i]).0,
            ),
        None => false,
    }
}

/// The search for class initializers above a class-like comes to an end: there is nothing to search
/// for, or the parents come to an end.
pub open spec fn initializer_search_ends(w: World, class: ClassLikeView) -> bool {
    w.class_initializers.len() == 0 || has_finite_hierarchy(w.codebase, class)
}

/// The search for a constructor above a class-like comes to an end: there is one, or the parents
/// come to an end.
pub open spec fn constructor_search_ends(w: World, class: ClassLikeView) -> bool {
    first_with_constructor(ancestors_of(w, class), 0) is Some || has_finite_hierarchy(w.codebase, class)
}

/// The property that `class` has under a name, where its constructor has to initialize it.
pub open spec fn required_property(w: World, class: ClassLikeView, name: Seq<u8>) -> Option<(Seq<u8>, PropertyView)> {
    if class.declaring_property_ids.contains_key(name) {
        match w.codebase.class_like(class.declaring_property_ids[name]) {
            Some(declaring) => if declaring.properties.contains_key(name) && requires_initialization(
                w,
                declaring.properties[name],
                class,
                declaring,
            ) {
                Some((name, declaring.properties[name]))
            } else {
                None
            },
            None => None,
        }
    } else {
        None
    }
}

/// The names of a class-like's properties in alphabetical order.
pub open spec fn sorted_property_names(class: ClassLikeView) -> Seq<Seq<u8>> {
    class.declaring_property_names.sort_by(|a: Seq<u8>, b: Seq<u8>| word_le(a, b))
}

/// The properties of these names that the constructor of `class` has to initialize.
pub open spec fn required_of(w: World, class: ClassLikeView, names: Seq<Seq<u8>>) -> Seq<(Seq<u8>, PropertyView)> {
    names.filter_map(|name: Seq<u8>| required_property(w, class, name))
}

/// The properties without those that are in `initialized`.
pub open spec fn not_in(
    properties: Seq<(Seq<u8>, PropertyView)>,
    initialized: Set<Seq<u8>>,
) -> Seq<(Seq<u8>, PropertyView)> {
    properties.filter(|p: (Seq<u8>, PropertyView)| !initialized.contains(p.0))
}

/// The properties that `class` declares itself.
pub open spec fn own_of(
    class: ClassLikeView,
    properties: Seq<(Seq<u8>, PropertyView)>,
) -> Seq<(Seq<u8>, PropertyView)> {
    properties.filter(|p: (Seq<u8>, PropertyView)| !not_own(class, class.name, p.0))
}

/// The properties that another class-like declares for `class`.
pub open spec fn inherited_of(
    class: ClassLikeView,
    properties: Seq<(Seq<u8>, PropertyView)>,
) -> Seq<(Seq<u8>, PropertyView)> {
    properties.filter(
        |p: (Seq<u8>, PropertyView)|
            class.declaring_property_ids.contains_key(p.0) && class.declaring_property_ids[p.0] != class.name,
    )
}

pub open spec fn is_trait(w: World, name: Seq<u8>) -> bool {
    match w.codebase.class_like(name) {
        Some(meta) => meta.kind == SymbolKind::Trait,
        None => false,
    }
}

/// The properties without those that a trait declares for `class`.
pub open spec fn not_from_trait(
    w: World,
    class: ClassLikeView,
    properties: Seq<(Seq<u8>, PropertyView)>,
) -> Seq<(Seq<u8>, PropertyView)> {
    properties.filter(
        |p: (Seq<u8>, PropertyView)|
            !(class.declaring_property_ids.contains_key(p.0) && is_trait(w, class.declaring_property_ids[p.0])),
    )
}

/// The reports on a class-like that has no constructor.
pub open spec fn issues_without_constructor(
    w: World,
    class: ClassLikeView,
    class_span: Span,
    required: Seq<(Seq<u8>, PropertyView)>,
) -> Seq<IssueView> {
    let missing = not_in(required, initialized_by_initializers(w, class));
    if parent_constructor_initializes(w, class, required) || missing.len() == 0 {
        Seq::empty()
    } else {
        seq![missing_constructor_issue(class, class_span, missing)]
    }
}

/// The properties of other class-likes that the constructor of `declaring`, which `class` has from
/// elsewhere, leaves open. The constructor of a trait is trusted with the properties of traits.
pub open spec fn open_inherited_properties(
    w: World,
    class: ClassLikeView,
    declaring: Seq<u8>,
    inherited: Seq<(Seq<u8>, PropertyView)>,
) -> Seq<(Seq<u8>, PropertyView)> {
    let missing = not_in(
        not_in(inherited, initialized_by_initializers(w, class)),
        transitively_initialized(w, declaring, constructor(), class.flags.is_final, false),
    );
    if is_trait(w, declaring) {
        not_from_trait(w, class, missing)
    } else {
        missing
    }
}

/// The reports on a class-like whose constructor is that of `declaring`.
pub open spec fn issues_with_inherited_constructor(
    w: World,
    class: ClassLikeView,
    class_span: Span,
    required: Seq<(Seq<u8>, PropertyView)>,
    declaring: Seq<u8>,
) -> Seq<IssueView> {
    let inherited = inherited_of(class, required);
    let missing = open_inherited_properties(w, class, declaring, inherited);
    let of_the_class = if parent_constructor_initializes(w, class, inherited) || missing.len() == 0 {
        Seq::empty()
    } else {
        seq![missing_constructor_issue(class, class_span, missing)]
    };
    of_the_class + property_issues(
        w.codebase,
        class,
        class_span,
        not_in(own_of(class, required), initialized_by_initializers(w, class)),
    )
}

/// The reports on a class-like that has a constructor of its own.
pub open spec fn issues_with_own_constructor(
    w: World,
    class: ClassLikeView,
    class_span: Span,
    required: Seq<(Seq<u8>, PropertyView)>,
) -> Seq<IssueView> {
    let by_constructor = transitively_initialized(
        w,
        class.declaring_method_ids[constructor()].0,
        constructor(),
        class.flags.is_final,
        false,
    );
    property_issues(
        w.codebase,
        class,
        class_span,
        not_in(required, by_constructor.union(initialized_by_initializers(w, class))),
    )
}

/// What is reported on the properties of a class-like.
pub open spec fn initialization_issues(
    w: World,
    class: ClassLikeView,
    declaration_span: Span,
    name_span: Option<Span>,
) -> Seq<IssueView> {
    let class_span = match name_span {
        Some(span) => span,
        None => declaration_span,
    };
    let required = required_of(w, class, sorted_property_names(class));
    if class.flags.is_abstract || class.kind != SymbolKind::Class || required.len() == 0 {
        Seq::empty()
    } else if !class.declaring_method_ids.contains_key(constructor()) {
        issues_without_constructor(w, class, class_span, required)
    } else {
        let declaring = class.declaring_method_ids[constructor()].0;
        if declaring != class.name {
            issues_with_inherited_constructor(w, class, class_span, required, declaring)
        } else {
            issues_with_own_constructor(w, class, class_span, required)
        }
    }
}

/// The searches that the check of a class-like needs come to an end.
pub open spec fn check_ends(w: World, class: ClassLikeView) -> bool {
    let required = required_of(w, class, sorted_property_names(class));
    if class.flags.is_abstract || class.kind != SymbolKind::Class || required.len() == 0 {
        true
    } else if !class.declaring_method_ids.contains_key(constructor()) {
        &&& constructor_search_ends(w, class)
        &&& parent_constructor_initializes(w, class, required) || initializer_search_ends(w, class)
    } else {
        let declaring = class.declaring_method_ids[constructor()].0;
        &&& initializer_search_ends(w, class)
        &&& declaring != class.name && inherited_of(class, required).len() > 0 ==> constructor_search_ends(w, class)
    }
}

} // verus!
