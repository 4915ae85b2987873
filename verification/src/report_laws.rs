//! What is reported on the properties of a class, told by the properties themselves.

use vstd::prelude::*;
use vstd::relations::sorted_by;

use crate::codebase::CodebaseView;
use crate::initialization_issues::missing_constructor_issue;
use crate::initialization_issues::property_issue;
use crate::initialization_issues::property_issues;
use crate::initialization_issues::property_names;
use crate::initialization_issues::with_property_annotations;
use crate::initialization_model::ancestors;
use crate::initialization_model::ancestors_of;
use crate::initialization_model::constructor_initializes;
use crate::initialization_model::first_with_constructor;
use crate::initialization_model::hierarchy_ends;
use crate::initialization_model::inherited_of;
use crate::initialization_model::initialization_issues;
use crate::initialization_model::initialized_by_initializers;
use crate::initialization_model::is_trait;
use crate::initialization_model::not_in;
use crate::initialization_model::not_own;
use crate::initialization_model::open_inherited_properties;
use crate::initialization_model::own_of;
use crate::initialization_model::parent_constructor_initializes;
use crate::initialization_model::required_of;
use crate::initialization_model::required_property;
use crate::initialization_model::sorted_property_names;
use crate::initialization_model::transitively_initialized;
use crate::initialization_model::World;
use crate::issue::IssueCode;
use crate::issue::IssueView;
use crate::issue::Level;
use crate::issue::Span;
use crate::metadata::ClassLikeView;
use crate::metadata::PropertyView;
use crate::metadata::SymbolKind;
use crate::word::joined;
use crate::word::lowercase;
use crate::word::text;
use crate::word::word_le;
use crate::word::word_le_is_total_order;

verus! {

/// The names of the properties of a class-like are the keys under which they are known, each once.
pub open spec fn has_proper_names(class: ClassLikeView) -> bool {
    &&& class.declaring_property_names.no_duplicates()
    &&& forall|n: Seq<u8>| #[trigger]
        class.declaring_property_names.contains(n) <==> class.declaring_property_ids.contains_key(n)
}

/// The class has a typed property of this name that has no value unless a constructor or an
/// initializer gives it one, and nothing else looks after it.
pub open spec fn needs_value(w: World, class: ClassLikeView, name: Seq<u8>) -> bool {
    &&& class.declaring_property_ids.contains_key(name)
    &&& w.codebase.class_likes.contains_key(lowercase(class.declaring_property_ids[name]))
    &&& {
        let declaring = w.codebase.class_likes[lowercase(class.declaring_property_ids[name])];
        let property = declaring.properties[name];
        &&& declaring.properties.contains_key(name)
        &&& property.type_declaration_metadata is Some
        &&& !property.flags.has_default
        &&& !property.flags.is_promoted_property
        &&& !property.flags.is_static
        &&& !property.flags.is_virtual_property
        &&& !w.plugin_initialized.contains((declaring.name, property.name))
        &&& declaring.name == class.name || declaring.kind == SymbolKind::Trait || declaring.flags.is_abstract
        &&& declaring.name == class.name || !declaring.flags.is_abstract || !declaring.declaring_method_ids.contains_key(
            text("__construct"),
        ) || class.declaring_method_ids.contains_key(text("__construct"))
    }
}

/// These are the names with a property, each once and in alphabetical order.
pub open spec fn lists(names: Seq<Seq<u8>>, has: spec_fn(Seq<u8>) -> bool) -> bool {
    &&& forall|i: int, j: int|
        0 <= i < j < names.len() ==> word_le(#[trigger] names[i], #[trigger] names[j]) && names[i] != names[j]
    &&& forall|n: Seq<u8>| #[trigger] names.contains(n) <==> has(n)
}

pub open spec fn is_one(has: spec_fn(Seq<u8>) -> bool, name: Seq<u8>) -> bool {
    has(name)
}

/// There is a name with this property.
pub open spec fn is_any(has: spec_fn(Seq<u8>) -> bool) -> bool {
    exists|n: Seq<u8>| #[trigger] is_one(has, n)
}

/// A report that a property of the class has no value.
pub open spec fn reports_property(issue: IssueView, class: ClassLikeView, name: Seq<u8>) -> bool {
    &&& issue.level == Level::Error
    &&& issue.code == Some(IssueCode::UninitializedProperty)
    &&& issue.message == text("Property `") + name + text("` is not initialized in the constructor of class `")
        + class.original_name + text("`.")
}

/// A report that the class needs a constructor for these properties.
pub open spec fn reports_constructor(
    issue: IssueView,
    class: ClassLikeView,
    class_span: Span,
    names: Seq<Seq<u8>>,
) -> bool {
    &&& issue.level == Level::Error
    &&& issue.code == Some(IssueCode::MissingConstructor)
    &&& issue.message == text("Class `") + class.original_name + text(
        "` has typed properties without default values but no constructor to initialize them.",
    )
    &&& issue.notes == seq![text("Properties requiring initialization: ") + joined(names, text(", "))]
    &&& issue.annotations.len() > 0
    &&& issue.annotations[0].is_primary
    &&& issue.annotations[0].span == class_span
}

/// The constructor that `entry` has, an ancestor of `class`, gives the property a value: it is known
/// to, or nothing is known of it and the property is one of its own class-like.
pub open spec fn gives_value(
    w: World,
    class: ClassLikeView,
    entry: (Seq<u8>, ClassLikeView),
    name: Seq<u8>,
) -> bool {
    let declaring = entry.1.declaring_method_ids[text("__construct")].0;
    let key = (declaring, text("__construct"));
    ||| entry.1.initialized_properties.contains(name)
    ||| w.artifacts.initialized.contains_key(key) && w.artifacts.initialized[key].contains(name)
    ||| {
        &&& !w.artifacts.initialized.contains_key(key)
        &&& class.declaring_property_ids.contains_key(name)
        &&& class.declaring_property_ids[name] == entry.0 || class.declaring_property_ids[name] == declaring
    }
}

/// The nearest constructor above `class` gives each of these properties a value.
pub open spec fn parent_gives_values(w: World, class: ClassLikeView, has: spec_fn(Seq<u8>) -> bool) -> bool {
    exists|k: int|
        0 <= k < ancestors_of(w, class).len() && (#[trigger] ancestors_of(w, class)[k]).1.declaring_method_ids.contains_key(
            text("__construct"),
        ) && (forall|j: int|
            0 <= j < k ==> !(#[trigger] ancestors_of(w, class)[j]).1.declaring_method_ids.contains_key(
                text("__construct"),
            )) && (forall|n: Seq<u8>| #[trigger] has(n) ==> gives_value(w, class, ancestors_of(w, class)[k], n))
}

// ---- lists of properties ----

/// Properties in the order of their names, none of them twice.
spec fn increasing(properties: Seq<(Seq<u8>, PropertyView)>) -> bool {
    forall|i: int, j: int|
        0 <= i < j < properties.len() ==> word_le((#[trigger] properties[i]).0, (#[trigger] properties[j]).0)
            && properties[i].0 != properties[j].0
}

spec fn has_name(properties: Seq<(Seq<u8>, PropertyView)>, n: Seq<u8>) -> bool {
    exists|i: int| 0 <= i < properties.len() && (#[trigger] properties[i]).0 == n
}

proof fn lemma_sorted_names(class: ClassLikeView)
    requires
        has_proper_names(class),
    ensures
        forall|i: int, j: int|
            0 <= i < j < sorted_property_names(class).len() ==> word_le(
                #[trigger] sorted_property_names(class)[i],
                #[trigger] sorted_property_names(class)[j],
            ) && sorted_property_names(class)[i] != sorted_property_names(class)[j],
        forall|n: Seq<u8>| #[trigger]
            sorted_property_names(class).contains(n) <==> class.declaring_property_ids.contains_key(n),
{
    let le = |a: Seq<u8>, b: Seq<u8>| word_le(a, b);
    let keys = class.declaring_property_names;
    let sorted = sorted_property_names(class);
    word_le_is_total_order();
    keys.lemma_sort_by_ensures(le);
    keys.to_multiset_ensures();
    sorted.to_multiset_ensures();
    keys.lemma_multiset_has_no_duplicates();
    sorted.lemma_multiset_has_no_duplicates_conv();
    assert forall|n: Seq<u8>| #[trigger] sorted.contains(n) <==> class.declaring_property_ids.contains_key(n) by {
        assert(sorted.contains(n) <==> sorted.to_multiset().count(n) > 0);
        assert(keys.contains(n) <==> keys.to_multiset().count(n) > 0);
    }
    assert forall|i: int, j: int| 0 <= i < j < sorted.len() implies word_le(#[trigger] sorted[i], #[trigger] sorted[j])
        && sorted[i] != sorted[j] by {
        assert(sorted_by(sorted, le));
        assert(le(sorted[i], sorted[j]));
    }
}

proof fn lemma_needs_value(w: World, class: ClassLikeView, n: Seq<u8>)
    ensures
        required_property(w, class, n) is Some <==> needs_value(w, class, n),
        required_property(w, class, n) matches Some(found) ==> found.0 == n,
{
}

proof fn lemma_required(w: World, class: ClassLikeView, names: Seq<Seq<u8>>)
    requires
        forall|i: int, j: int|
            0 <= i < j < names.len() ==> word_le(#[trigger] names[i], #[trigger] names[j]) && names[i] != names[j],
    ensures
        increasing(required_of(w, class, names)),
        forall|n: Seq<u8>| #[trigger]
            has_name(required_of(w, class, names), n) <==> names.contains(n) && needs_value(w, class, n),
    decreases names.len(),
{
    let all = required_of(w, class, names);
    reveal(Seq::filter_map);
    if names.len() > 0 {
        let before = names.drop_last();
        let last = names.last();
        assert forall|i: int, j: int| 0 <= i < j < before.len() implies word_le(
            #[trigger] before[i],
            #[trigger] before[j],
        ) && before[i] != before[j] by {
            assert(word_le(names[i], names[j]));
        }
        lemma_required(w, class, before);
        lemma_needs_value(w, class, last);
        let rest = required_of(w, class, before);
        assert forall|n: Seq<u8>| names.contains(n) <==> #[trigger] before.contains(n) || n == last by {
            if names.contains(n) {
                let i = choose|i: int| 0 <= i < names.len() && names[i] == n;
                if i < before.len() {
                    assert(before[i] == n);
                }
            }
            if before.contains(n) {
                let i = choose|i: int| 0 <= i < before.len() && before[i] == n;
                assert(names[i] == n);
            }
            if n == last {
                assert(names[names.len() - 1] == n);
            }
        }
        if needs_value(w, class, last) {
            let added = required_property(w, class, last)->0;
            assert(all == rest + seq![added]);
            lemma_added(rest, added);
            assert forall|i: int| 0 <= i < rest.len() implies word_le((#[trigger] rest[i]).0, last) && rest[i].0
                != last by {
                assert(has_name(rest, rest[i].0));
                assert(before.contains(rest[i].0));
                let k = choose|k: int| 0 <= k < before.len() && before[k] == rest[i].0;
                assert(word_le(names[k], names[names.len() - 1]));
            }
            assert(increasing(all)) by {
                assert forall|i: int, j: int| 0 <= i < j < all.len() implies word_le(
                    (#[trigger] all[i]).0,
                    (#[trigger] all[j]).0,
                ) && all[i].0 != all[j].0 by {
                    assert(all[i] == rest[i]);
                    if j < rest.len() {
                        assert(all[j] == rest[j]);
                    }
                }
            }
            assert forall|n: Seq<u8>| #[trigger] has_name(all, n) <==> names.contains(n) && needs_value(w, class, n) by {
                assert(has_name(all, n) <==> has_name(rest, n) || n == last);
                assert(before.contains(n) || true);
            }
        } else {
            assert(all == rest);
            assert forall|n: Seq<u8>| #[trigger] has_name(all, n) <==> names.contains(n) && needs_value(w, class, n) by {
                assert(has_name(rest, n) <==> before.contains(n) && needs_value(w, class, n));
            }
        }
    } else {
        assert(all =~= Seq::empty());
    }
}

proof fn lemma_added(rest: Seq<(Seq<u8>, PropertyView)>, added: (Seq<u8>, PropertyView))
    ensures
        forall|n: Seq<u8>| #[trigger] has_name(rest + seq![added], n) <==> has_name(rest, n) || n == added.0,
{
    let all = rest + seq![added];
    assert forall|n: Seq<u8>| #[trigger] has_name(all, n) <==> has_name(rest, n) || n == added.0 by {
        if has_name(all, n) {
            let i = choose|i: int| 0 <= i < all.len() && (#[trigger] all[i]).0 == n;
            if i < rest.len() {
                assert(rest[i].0 == n);
            }
        }
        if has_name(rest, n) {
            let i = choose|i: int| 0 <= i < rest.len() && (#[trigger] rest[i]).0 == n;
            assert(all[i].0 == n);
        }
        if n == added.0 {
            assert(all[rest.len() as int].0 == n);
        }
    }
}

/// Of properties in order, those that are kept are in order, and they are those that were to be kept.
proof fn lemma_kept(
    properties: Seq<(Seq<u8>, PropertyView)>,
    keep: spec_fn((Seq<u8>, PropertyView)) -> bool,
    kept: spec_fn(Seq<u8>) -> bool,
)
    requires
        increasing(properties),
        forall|p: (Seq<u8>, PropertyView)| #[trigger] keep(p) == kept(p.0),
    ensures
        increasing(properties.filter(keep)),
        forall|n: Seq<u8>| #[trigger] has_name(properties.filter(keep), n) <==> has_name(properties, n) && kept(n),
    decreases properties.len(),
{
    reveal(Seq::filter);
    let all = properties.filter(keep);
    if properties.len() > 0 {
        let before = properties.drop_last();
        let last = properties.last();
        assert(increasing(before)) by {
            assert forall|i: int, j: int| 0 <= i < j < before.len() implies word_le(
                (#[trigger] before[i]).0,
                (#[trigger] before[j]).0,
            ) && before[i].0 != before[j].0 by {
                assert(word_le(properties[i].0, properties[j].0));
            }
        }
        lemma_kept(before, keep, kept);
        let rest = before.filter(keep);
        assert(properties =~= before + seq![last]);
        lemma_added(before, last);
        if keep(last) {
            assert(all =~= rest + seq![last]);
            lemma_added(rest, last);
            assert(increasing(all)) by {
                assert forall|i: int, j: int| 0 <= i < j < all.len() implies word_le(
                    (#[trigger] all[i]).0,
                    (#[trigger] all[j]).0,
                ) && all[i].0 != all[j].0 by {
                    assert(all[i] == rest[i]);
                    if j < rest.len() {
                        assert(all[j] == rest[j]);
                    } else {
                        assert(has_name(rest, rest[i].0));
                        assert(has_name(before, rest[i].0));
                        let k = choose|k: int| 0 <= k < before.len() && (#[trigger] before[k]).0 == rest[i].0;
                        assert(word_le(properties[k].0, properties[properties.len() - 1].0));
                    }
                }
            }
        } else {
            assert(all == rest);
        }
        assert forall|n: Seq<u8>| #[trigger] has_name(all, n) <==> has_name(properties, n) && kept(n) by {
            assert(has_name(rest, n) <==> has_name(before, n) && kept(n));
            assert(keep(last) == kept(last.0));
        }
    } else {
        assert(all =~= Seq::empty());
    }
}

/// The names of properties in order.
proof fn lemma_names(properties: Seq<(Seq<u8>, PropertyView)>, has: spec_fn(Seq<u8>) -> bool)
    requires
        increasing(properties),
        forall|n: Seq<u8>| #[trigger] has_name(properties, n) <==> has(n),
    ensures
        lists(property_names(properties), has),
        property_names(properties).len() == properties.len(),
{
    let names = property_names(properties);
    assert forall|n: Seq<u8>| #[trigger] names.contains(n) <==> has(n) by {
        if names.contains(n) {
            let i = choose|i: int| 0 <= i < names.len() && names[i] == n;
            assert(properties[i].0 == n);
            assert(has_name(properties, n));
        }
        if has(n) {
            assert(has_name(properties, n));
            let i = choose|i: int| 0 <= i < properties.len() && (#[trigger] properties[i]).0 == n;
            assert(names[i] == n);
        }
    }
    assert forall|i: int, j: int| 0 <= i < j < names.len() implies word_le(#[trigger] names[i], #[trigger] names[j])
        && names[i] != names[j] by {
        assert(word_le(properties[i].0, properties[j].0));
    }
}

proof fn lemma_all_required(w: World, class: ClassLikeView)
    requires
        has_proper_names(class),
    ensures
        increasing(required_of(w, class, sorted_property_names(class))),
        forall|n: Seq<u8>| #[trigger]
            has_name(required_of(w, class, sorted_property_names(class)), n) <==> needs_value(w, class, n),
{
    lemma_sorted_names(class);
    lemma_required(w, class, sorted_property_names(class));
    let all = required_of(w, class, sorted_property_names(class));
    assert forall|n: Seq<u8>| #[trigger] has_name(all, n) <==> needs_value(w, class, n) by {
        assert(sorted_property_names(class).contains(n) <==> class.declaring_property_ids.contains_key(n));
    }
}

proof fn lemma_not_in(properties: Seq<(Seq<u8>, PropertyView)>, initialized: Set<Seq<u8>>)
    requires
        increasing(properties),
    ensures
        increasing(not_in(properties, initialized)),
        forall|n: Seq<u8>| #[trigger]
            has_name(not_in(properties, initialized), n) <==> has_name(properties, n) && !initialized.contains(n),
{
    lemma_kept(
        properties,
        |p: (Seq<u8>, PropertyView)| !initialized.contains(p.0),
        |n: Seq<u8>| !initialized.contains(n),
    );
}

proof fn lemma_reports(codebase: CodebaseView, class: ClassLikeView, span: Span, properties: Seq<(Seq<u8>, PropertyView)>)
    ensures
        property_issues(codebase, class, span, properties).len() == properties.len(),
        forall|k: int|
            0 <= k < properties.len() ==> reports_property(
                #[trigger] property_issues(codebase, class, span, properties)[k],
                class,
                property_names(properties)[k],
            ),
{
    assert forall|k: int| 0 <= k < properties.len() implies reports_property(
        #[trigger] property_issues(codebase, class, span, properties)[k],
        class,
        property_names(properties)[k],
    ) by {
        assert(property_issues(codebase, class, span, properties)[k] == property_issue(
            codebase,
            class,
            span,
            properties[k],
        ));
        lemma_property_report(codebase, class, span, properties[k]);
    }
}

proof fn lemma_property_report(codebase: CodebaseView, class: ClassLikeView, span: Span, p: (Seq<u8>, PropertyView))
    ensures
        reports_property(property_issue(codebase, class, span, p), class, p.0),
{
}

/// Each property of a class with a constructor of its own that has no value is reported, and no
/// other: the reports name, in alphabetical order, the properties that need a value and that neither
/// the constructor nor a class initializer gives one.
pub proof fn own_constructors_answer_for_each_property(
    w: World,
    class: ClassLikeView,
    declaration_span: Span,
    name_span: Option<Span>,
)
    requires
        has_proper_names(class),
        !class.flags.is_abstract,
        class.kind == SymbolKind::Class,
        class.declaring_method_ids.contains_key(text("__construct")),
        class.declaring_method_ids[text("__construct")].0 == class.name,
    ensures
        ({
            let issues = initialization_issues(w, class, declaration_span, name_span);
            let by_constructor = transitively_initialized(
                w,
                class.name,
                text("__construct"),
                class.flags.is_final,
                false,
            );
            let by_initializers = initialized_by_initializers(w, class);
            let has_none = |n: Seq<u8>|
                needs_value(w, class, n) && !by_constructor.contains(n) && !by_initializers.contains(n);
            exists|names: Seq<Seq<u8>>|
                #[trigger] lists(names, has_none) && issues.len() == names.len() && forall|k: int|
                    0 <= k < issues.len() ==> reports_property(#[trigger] issues[k], class, names[k])
        }),
{
    let issues = initialization_issues(w, class, declaration_span, name_span);
    let by_constructor = transitively_initialized(w, class.name, text("__construct"), class.flags.is_final, false);
    let by_initializers = initialized_by_initializers(w, class);
    let has = |n: Seq<u8>|
        needs_value(w, class, n) && !by_constructor.contains(n) && !by_initializers.contains(n);
    let required = required_of(w, class, sorted_property_names(class));
    let span = match name_span {
        Some(span) => span,
        None => declaration_span,
    };
    lemma_all_required(w, class);
    let initialized = by_constructor.union(by_initializers);
    lemma_not_in(required, initialized);
    let missing = not_in(required, initialized);
    assert forall|n: Seq<u8>| #[trigger] has_name(missing, n) <==> has(n) by {
        assert(has_name(required, n) <==> needs_value(w, class, n));
    }
    lemma_names(missing, has);
    lemma_reports(w.codebase, class, span, missing);
    if required.len() == 0 {
        reveal(Seq::filter);
        assert(missing =~= Seq::empty());
        assert(issues.len() == 0);
    } else {
        assert(issues == property_issues(w.codebase, class, span, missing));
    }
    let names = property_names(missing);
    assert(lists(names, has));
}

proof fn lemma_first_with_constructor(chain: Seq<(Seq<u8>, ClassLikeView)>, k: int)
    requires
        0 <= k <= chain.len(),
    ensures
        match first_with_constructor(chain, k) {
            Some(i) => {
                &&& k <= i < chain.len()
                &&& chain[i].1.declaring_method_ids.contains_key(text("__construct"))
                &&& forall|j: int|
                    k <= j < i ==> !(#[trigger] chain[j]).1.declaring_method_ids.contains_key(text("__construct"))
            },
            None => forall|j: int|
                k <= j < chain.len() ==> !(#[trigger] chain[j]).1.declaring_method_ids.contains_key(
                    text("__construct"),
                ),
        },
    decreases chain.len() - k,
{
    if k < chain.len() && !chain[k].1.declaring_method_ids.contains_key(text("__construct")) {
        lemma_first_with_constructor(chain, k + 1);
    }
}

proof fn lemma_parent_gives_values(
    w: World,
    class: ClassLikeView,
    properties: Seq<(Seq<u8>, PropertyView)>,
    has: spec_fn(Seq<u8>) -> bool,
)
    requires
        forall|n: Seq<u8>| #[trigger] has_name(properties, n) <==> has(n),
    ensures
        parent_constructor_initializes(w, class, properties) == parent_gives_values(w, class, has),
{
    let chain = ancestors_of(w, class);
    lemma_first_with_constructor(chain, 0);
    match first_with_constructor(chain, 0) {
        Some(k) => {
            let entry = chain[k];
            if parent_constructor_initializes(w, class, properties) {
                assert forall|n: Seq<u8>| #[trigger] has(n) implies gives_value(w, class, entry, n) by {
                    assert(has_name(properties, n));
                    let i = choose|i: int| 0 <= i < properties.len() && (#[trigger] properties[i]).0 == n;
                    assert(constructor_initializes(w, class, entry, properties[i].0));
                }
                assert(chain[k].1.declaring_method_ids.contains_key(text("__construct")));
            }
            if parent_gives_values(w, class, has) {
                let m = choose|m: int|
                    0 <= m < chain.len() && (#[trigger] chain[m]).1.declaring_method_ids.contains_key(
                        text("__construct"),
                    ) && (forall|j: int|
                        0 <= j < m ==> !(#[trigger] chain[j]).1.declaring_method_ids.contains_key(
                            text("__construct"),
                        )) && (forall|n: Seq<u8>| #[trigger] has(n) ==> gives_value(w, class, chain[m], n));
                assert(m == k);
                assert forall|i: int| 0 <= i < properties.len() implies constructor_initializes(
                    w,
                    class,
                    entry,
                    (#[trigger] properties[i]).0,
                ) by {
                    assert(has_name(properties, properties[i].0));
                    assert(has(properties[i].0));
                    assert(gives_value(w, class, entry, properties[i].0));
                }
            }
        },
        None => {},
    }
}

proof fn lemma_annotations(issue: IssueView, properties: Seq<(Seq<u8>, PropertyView)>)
    requires
        issue.annotations.len() > 0,
    ensures
        ({
            let noted = with_property_annotations(issue, properties);
            &&& noted.level == issue.level
            &&& noted.code == issue.code
            &&& noted.message == issue.message
            &&& noted.notes == issue.notes
            &&& noted.help == issue.help
            &&& noted.annotations.len() > 0
            &&& noted.annotations[0] == issue.annotations[0]
        }),
    decreases properties.len(),
{
    if properties.len() > 0 {
        lemma_annotations(issue, properties.drop_last());
    }
}

proof fn lemma_constructor_report(class: ClassLikeView, span: Span, properties: Seq<(Seq<u8>, PropertyView)>)
    ensures
        reports_constructor(missing_constructor_issue(class, span, properties), class, span, property_names(properties)),
{
    let issue = IssueView::new(
        Level::Error,
        crate::word::phrase(
            "Class `",
            class.original_name,
            "` has typed properties without default values but no constructor to initialize them.",
        ),
    ).with_annotation(crate::issue::primary_annotation(span, text("This class needs a constructor")));
    lemma_annotations(issue, properties);
    let report = missing_constructor_issue(class, span, properties);
    assert(report.notes =~= seq![
        text("Properties requiring initialization: ") + joined(property_names(properties), text(", ")),
    ]);
}

/// A class without a constructor is reported where one of its properties has no value: one that
/// needs a value and that no class initializer gives one. It is not where the nearest constructor
/// above the class gives a value to all that need one. The report names the properties in order.
pub proof fn constructors_are_missed(
    w: World,
    class: ClassLikeView,
    declaration_span: Span,
    name_span: Option<Span>,
)
    requires
        has_proper_names(class),
        !class.flags.is_abstract,
        class.kind == SymbolKind::Class,
        !class.declaring_method_ids.contains_key(text("__construct")),
    ensures
        ({
            let issues = initialization_issues(w, class, declaration_span, name_span);
            let span = match name_span {
                Some(span) => span,
                None => declaration_span,
            };
            let by_initializers = initialized_by_initializers(w, class);
            let has_none = |n: Seq<u8>| needs_value(w, class, n) && !by_initializers.contains(n);
            let needs = |n: Seq<u8>| needs_value(w, class, n);
            &&& issues.len() <= 1
            &&& issues.len() == 1 <==> is_any(has_none) && !parent_gives_values(w, class, needs)
            &&& issues.len() == 1 ==> exists|names: Seq<Seq<u8>>|
                #[trigger] lists(names, has_none) && reports_constructor(issues[0], class, span, names)
        }),
{
    let issues = initialization_issues(w, class, declaration_span, name_span);
    let by_initializers = initialized_by_initializers(w, class);
    let has_none = |n: Seq<u8>| needs_value(w, class, n) && !by_initializers.contains(n);
    let needs = |n: Seq<u8>| needs_value(w, class, n);
    let required = required_of(w, class, sorted_property_names(class));
    let span = match name_span {
        Some(span) => span,
        None => declaration_span,
    };
    lemma_all_required(w, class);
    assert forall|n: Seq<u8>| #[trigger] has_name(required, n) <==> needs(n) by {}
    lemma_parent_gives_values(w, class, required, needs);
    lemma_not_in(required, by_initializers);
    let missing = not_in(required, by_initializers);
    assert forall|n: Seq<u8>| #[trigger] has_name(missing, n) <==> has_none(n) by {
        assert(has_name(required, n) <==> needs_value(w, class, n));
    }
    lemma_names(missing, has_none);
    lemma_constructor_report(class, span, missing);
    if missing.len() > 0 {
        assert(has_name(missing, missing[0].0));
        assert(is_one(has_none, missing[0].0));
    }
    if is_any(has_none) {
        let n = choose|n: Seq<u8>| #[trigger] is_one(has_none, n);
        assert(has_name(missing, n));
    }
    if required.len() == 0 {
        reveal(Seq::filter);
        assert(missing =~= Seq::empty());
    }
    assert(lists(property_names(missing), has_none));
}

/// A name is that of a known trait.
pub open spec fn names_trait(w: World, name: Seq<u8>) -> bool {
    w.codebase.class_likes.contains_key(lowercase(name)) && w.codebase.class_likes[lowercase(name)].kind
        == SymbolKind::Trait
}

/// A class whose constructor is that of another class-like answers itself for the properties that
/// it declares: each of them that no class initializer gives a value is reported, by name. For the
/// others there is one report, unless all of them have a value from the constructor, from a class
/// initializer or from the nearest constructor above; a trait's constructor is trusted with the
/// properties of traits.
pub proof fn inherited_constructors_answer_for_the_rest(
    w: World,
    class: ClassLikeView,
    declaration_span: Span,
    name_span: Option<Span>,
)
    requires
        has_proper_names(class),
        !class.flags.is_abstract,
        class.kind == SymbolKind::Class,
        class.declaring_method_ids.contains_key(text("__construct")),
        class.declaring_method_ids[text("__construct")].0 != class.name,
    ensures
        ({
            let issues = initialization_issues(w, class, declaration_span, name_span);
            let span = match name_span {
                Some(span) => span,
                None => declaration_span,
            };
            let declaring = class.declaring_method_ids[text("__construct")].0;
            let by_constructor = transitively_initialized(
                w,
                declaring,
                text("__construct"),
                class.flags.is_final,
                false,
            );
            let by_initializers = initialized_by_initializers(w, class);
            let own = |n: Seq<u8>|
                needs_value(w, class, n) && class.declaring_property_ids[n] == class.name
                    && !by_initializers.contains(n);
            let inherited = |n: Seq<u8>| needs_value(w, class, n) && class.declaring_property_ids[n] != class.name;
            let open = |n: Seq<u8>|
                needs_value(w, class, n) && class.declaring_property_ids[n] != class.name
                    && !by_initializers.contains(n) && !by_constructor.contains(n) && !(names_trait(w, declaring)
                    && names_trait(w, class.declaring_property_ids[n]));
            let first: int = if is_any(open) && !parent_gives_values(w, class, inherited) {
                1
            } else {
                0
            };
            &&& first == 1 ==> issues.len() > 0 && exists|names: Seq<Seq<u8>>|
                #[trigger] lists(names, open) && reports_constructor(issues[0], class, span, names)
            &&& exists|names: Seq<Seq<u8>>|
                #[trigger] lists(names, own) && issues.len() == first + names.len() && forall|k: int|
                    first <= k < issues.len() ==> reports_property(#[trigger] issues[k], class, names[k - first])
        }),
{
    let issues = initialization_issues(w, class, declaration_span, name_span);
    let span = match name_span {
        Some(span) => span,
        None => declaration_span,
    };
    let declaring = class.declaring_method_ids[text("__construct")].0;
    let by_constructor = transitively_initialized(w, declaring, text("__construct"), class.flags.is_final, false);
    let by_initializers = initialized_by_initializers(w, class);
    let own = |n: Seq<u8>|
        needs_value(w, class, n) && class.declaring_property_ids[n] == class.name && !by_initializers.contains(n);
    let inherited = |n: Seq<u8>| needs_value(w, class, n) && class.declaring_property_ids[n] != class.name;
    let open = |n: Seq<u8>|
        needs_value(w, class, n) && class.declaring_property_ids[n] != class.name && !by_initializers.contains(n)
            && !by_constructor.contains(n) && !(names_trait(w, declaring) && names_trait(
            w,
            class.declaring_property_ids[n],
        ));
    let required = required_of(w, class, sorted_property_names(class));
    lemma_all_required(w, class);
    // the properties of the class itself
    lemma_kept(
        required,
        |p: (Seq<u8>, PropertyView)| !not_own(class, class.name, p.0),
        |n: Seq<u8>| !not_own(class, class.name, n),
    );
    let all_own = own_of(class, required);
    lemma_not_in(all_own, by_initializers);
    let missing_own = not_in(all_own, by_initializers);
    assert forall|n: Seq<u8>| #[trigger] has_name(missing_own, n) <==> own(n) by {
        assert(has_name(all_own, n) <==> has_name(required, n) && !not_own(class, class.name, n));
        assert(has_name(required, n) <==> needs_value(w, class, n));
    }
    lemma_names(missing_own, own);
    lemma_reports(w.codebase, class, span, missing_own);
    // those of others
    lemma_kept(
        required,
        |p: (Seq<u8>, PropertyView)|
            class.declaring_property_ids.contains_key(p.0) && class.declaring_property_ids[p.0] != class.name,
        |n: Seq<u8>| class.declaring_property_ids.contains_key(n) && class.declaring_property_ids[n] != class.name,
    );
    let all_inherited = inherited_of(class, required);
    assert forall|n: Seq<u8>| #[trigger] has_name(all_inherited, n) <==> inherited(n) by {
        assert(has_name(required, n) <==> needs_value(w, class, n));
    }
    lemma_parent_gives_values(w, class, all_inherited, inherited);
    lemma_not_in(all_inherited, by_initializers);
    let some = not_in(all_inherited, by_initializers);
    lemma_not_in(some, by_constructor);
    let left = not_in(some, by_constructor);
    lemma_kept(
        left,
        |p: (Seq<u8>, PropertyView)|
            !(class.declaring_property_ids.contains_key(p.0) && is_trait(w, class.declaring_property_ids[p.0])),
        |n: Seq<u8>| !(class.declaring_property_ids.contains_key(n) && is_trait(w, class.declaring_property_ids[n])),
    );
    let missing = open_inherited_properties(w, class, declaring, all_inherited);
    assert forall|n: Seq<u8>| #[trigger] has_name(missing, n) <==> open(n) by {
        assert(has_name(left, n) <==> has_name(some, n) && !by_constructor.contains(n));
        assert(has_name(some, n) <==> has_name(all_inherited, n) && !by_initializers.contains(n));
        assert(has_name(all_inherited, n) <==> inherited(n));
        assert(is_trait(w, declaring) == names_trait(w, declaring));
    }
    assert(increasing(missing));
    lemma_names(missing, open);
    lemma_constructor_report(class, span, missing);
    if missing.len() > 0 {
        assert(has_name(missing, missing[0].0));
        assert(is_one(open, missing[0].0));
    }
    if is_any(open) {
        let n = choose|n: Seq<u8>| #[trigger] is_one(open, n);
        assert(has_name(missing, n));
    }
    if required.len() == 0 {
        reveal(Seq::filter);
        assert(missing_own.len() == 0) by {
            if missing_own.len() > 0 {
                assert(has_name(missing_own, missing_own[0].0));
                assert(own(missing_own[0].0));
                assert(has_name(required, missing_own[0].0));
            }
        }
        assert(missing.len() == 0) by {
            if missing.len() > 0 {
                assert(has_name(required, missing[0].0));
            }
        }
    }
    assert(lists(property_names(missing_own), own));
    assert(lists(property_names(missing), open));
}

/// What stands beside a name is what is known of the class-like of that name.
pub open spec fn is_known(c: CodebaseView, entry: (Seq<u8>, ClassLikeView)) -> bool {
    c.class_likes.contains_key(lowercase(entry.0)) && entry.1 == c.class_likes[lowercase(entry.0)]
}

/// The class-likes above another one are its parent, the parent of that one and so on, as they are
/// known; where the hierarchy has an end, up to one without a known parent.
pub proof fn ancestors_follow_parents(w: World, class: ClassLikeView)
    ensures
        ({
            let chain = ancestors_of(w, class);
            &&& chain.len() > 0 ==> class.direct_parent_class == Some(chain[0].0)
            &&& forall|k: int|
                0 <= k < chain.len() ==> is_known(w.codebase, #[trigger] chain[k])
            &&& forall|k: int|
                0 < k < chain.len() ==> chain[k - 1].1.direct_parent_class == Some((#[trigger] chain[k]).0)
            &&& hierarchy_ends(w.codebase, class.direct_parent_class, w.codebase.class_like_names.len()) ==> {
                let top = if chain.len() > 0 {
                    chain.last().1.direct_parent_class
                } else {
                    class.direct_parent_class
                };
                top matches Some(parent) ==> !w.codebase.class_likes.contains_key(lowercase(parent))
            }
        }),
{
    lemma_ancestors(w.codebase, class.direct_parent_class, w.codebase.class_like_names.len());
}

proof fn lemma_ancestors(c: CodebaseView, parent: Option<Seq<u8>>, limit: nat)
    ensures
        ({
            let chain = ancestors(c, parent, limit);
            &&& chain.len() > 0 ==> parent == Some(chain[0].0)
            &&& forall|k: int|
                0 <= k < chain.len() ==> is_known(c, #[trigger] chain[k])
            &&& forall|k: int|
                0 < k < chain.len() ==> chain[k - 1].1.direct_parent_class == Some((#[trigger] chain[k]).0)
            &&& hierarchy_ends(c, parent, limit) ==> {
                let top = if chain.len() > 0 {
                    chain.last().1.direct_parent_class
                } else {
                    parent
                };
                top matches Some(name) ==> !c.class_likes.contains_key(lowercase(name))
            }
        }),
    decreases limit,
{
    if limit > 0 {
        if let Some(name) = parent {
            if let Some(meta) = c.class_like(name) {
                let rest = ancestors(c, meta.direct_parent_class, (limit - 1) as nat);
                lemma_ancestors(c, meta.direct_parent_class, (limit - 1) as nat);
                let chain = ancestors(c, parent, limit);
                assert(chain == seq![(name, meta)] + rest);
                assert forall|k: int| 0 <= k < chain.len() implies is_known(c, #[trigger] chain[k]) by {
                    if k > 0 {
                        assert(chain[k] == rest[k - 1]);
                    }
                }
                assert forall|k: int| 0 < k < chain.len() implies chain[k - 1].1.direct_parent_class == Some(
                    (#[trigger] chain[k]).0,
                ) by {
                    assert(chain[k] == rest[k - 1]);
                    if k > 1 {
                        assert(chain[k - 1] == rest[k - 2]);
                    }
                }
                if rest.len() > 0 {
                    assert(chain.last() == rest.last());
                }
            }
        }
    }
}

} // verus!
