//! What holds of the check of initialized properties as a whole.

use vstd::prelude::*;

use crate::initialization_issues::property_issues;
use crate::initialization_model::constructor;
use crate::initialization_model::constructor_initializes;
use crate::initialization_model::further_work;
use crate::initialization_model::initialization_issues;
use crate::initialization_model::initialized_by_initializers;
use crate::initialization_model::initialized_by_stack;
use crate::initialization_model::initialized_by_work;
use crate::initialization_model::initializes;
use crate::initialization_model::is_call_path;
use crate::initialization_model::is_trait;
use crate::initialization_model::leads_to;
use crate::initialization_model::not_from_trait;
use crate::initialization_model::not_in;
use crate::initialization_model::open_inherited_properties;
use crate::initialization_model::reaches;
use crate::initialization_model::required_of;
use crate::initialization_model::requires_initialization;
use crate::initialization_model::sorted_property_names;
use crate::initialization_model::transitively_initialized;
use crate::initialization_model::trustworthy;
use crate::initialization_model::WorkView;
use crate::initialization_model::World;
use crate::issue::IssueView;
use crate::issue::Span;
use crate::metadata::ClassLikeView;
use crate::metadata::PropertyView;
use crate::metadata::SymbolKind;

verus! {

/// Nothing is reported on what cannot be instantiated: abstract classes, interfaces, traits and
/// enums.
pub proof fn only_concrete_classes_are_reported(
    w: World,
    class: ClassLikeView,
    declaration_span: Span,
    name_span: Option<Span>,
)
    requires
        class.flags.is_abstract || class.kind != SymbolKind::Class,
    ensures
        initialization_issues(w, class, declaration_span, name_span) == Seq::<IssueView>::empty(),
{
}

/// A property that has a default value, is promoted, static or virtual, or has no declared type
/// never has to be initialized.
pub proof fn some_properties_are_exempt(w: World, property: PropertyView, class: ClassLikeView, declaring: ClassLikeView)
    requires
        property.flags.has_default || property.flags.is_promoted_property || property.flags.is_static
            || property.flags.is_virtual_property || property.type_declaration_metadata is None,
    ensures
        !requires_initialization(w, property, class, declaring),
{
}

/// Which type a property is declared with makes no difference: one that allows null has to be
/// initialized like any other.
pub proof fn declared_type_does_not_matter(
    w: World,
    property: PropertyView,
    other: PropertyView,
    class: ClassLikeView,
    declaring: ClassLikeView,
)
    requires
        property.type_declaration_metadata is Some,
        other == (PropertyView { type_declaration_metadata: other.type_declaration_metadata, ..property }),
        other.type_declaration_metadata is Some,
    ensures
        requires_initialization(w, property, class, declaring) == requires_initialization(w, other, class, declaring),
{
}

/// A concrete parent looks after the properties that it declares.
pub proof fn concrete_parents_initialize_their_own(
    w: World,
    property: PropertyView,
    class: ClassLikeView,
    declaring: ClassLikeView,
)
    requires
        declaring.name != class.name,
        !declaring.flags.is_abstract,
        declaring.kind != SymbolKind::Trait,
    ensures
        !requires_initialization(w, property, class, declaring),
{
}

/// What the body of a method initializes counts for the method.
pub proof fn own_body_counts(
    w: World,
    class: Seq<u8>,
    method: Seq<u8>,
    is_final: bool,
    trust_all: bool,
    property: Seq<u8>,
)
    requires
        w.artifacts.initialized.contains_key((class, method)),
        w.artifacts.initialized[(class, method)].contains(property),
    ensures
        transitively_initialized(w, class, method, is_final, trust_all).contains(property),
{
    let work = WorkView { class, method, is_final, trust_all, origin: class };
    let path = seq![method];
    assert(is_call_path(w, work, path) && path.last() == method);
    assert(reaches(w, work, method) && initializes(w, work, method, property));
    assert(seq![work].last() == work);
    reveal_with_fuel(initialized_by_stack, 2);
}

/// What a trusted method initializes that the body of a method calls on the same object counts for
/// the method too.
pub proof fn called_bodies_count(
    w: World,
    class: Seq<u8>,
    method: Seq<u8>,
    called: Seq<u8>,
    is_final: bool,
    trust_all: bool,
    property: Seq<u8>,
)
    requires
        w.artifacts.calls.contains_key((class, method)),
        w.artifacts.calls[(class, method)].contains(called),
        trust_all || trustworthy(w, class, called, is_final),
        w.artifacts.initialized.contains_key((class, called)),
        w.artifacts.initialized[(class, called)].contains(property),
    ensures
        transitively_initialized(w, class, method, is_final, trust_all).contains(property),
{
    let work = WorkView { class, method, is_final, trust_all, origin: class };
    let path = seq![method, called];
    assert(leads_to(w, work, path[0], path[1]));
    assert(is_call_path(w, work, path) && path.last() == called);
    assert(reaches(w, work, called) && initializes(w, work, called, property));
    assert(seq![work].last() == work);
    reveal_with_fuel(initialized_by_stack, 2);
}

/// Trusting each method that is called initializes at least as much as trusting some.
pub proof fn trust_initializes_no_less(w: World, class: Seq<u8>, method: Seq<u8>, is_final: bool)
    ensures
        transitively_initialized(w, class, method, is_final, false).subset_of(
            transitively_initialized(w, class, method, is_final, true),
        ),
{
    let cautious = WorkView { class, method, is_final, trust_all: false, origin: class };
    let trusting = WorkView { trust_all: true, ..cautious };
    assert forall|p: Seq<u8>| initialized_by_work(w, cautious).contains(p) implies initialized_by_work(
        w,
        trusting,
    ).contains(p) by {
        let m = choose|m: Seq<u8>| #[trigger] reaches(w, cautious, m) && initializes(w, cautious, m, p);
        let path = choose|path: Seq<Seq<u8>>| is_call_path(w, cautious, path) && #[trigger] path.last() == m;
        assert forall|i: int| 0 <= i < path.len() - 1 implies leads_to(w, trusting, #[trigger] path[i], path[i + 1]) by {
            assert(leads_to(w, cautious, path[i], path[i + 1]));
        }
        assert(is_call_path(w, trusting, path) && path.last() == m);
        assert(reaches(w, trusting, m) && initializes(w, trusting, m, p));
    }
    assert(further_work(w, cautious) == further_work(w, trusting));
    assert(seq![cautious].drop_last() =~= seq![trusting].drop_last());
    assert(seq![cautious].last() == cautious && seq![trusting].last() == trusting);
    reveal_with_fuel(initialized_by_stack, 2);
}

/// A class whose constructor or class initializers initialize all that has to be initialized is
/// not reported.
pub proof fn complete_constructors_are_not_reported(
    w: World,
    class: ClassLikeView,
    declaration_span: Span,
    name_span: Option<Span>,
)
    requires
        class.declaring_method_ids.contains_key(constructor()),
        class.declaring_method_ids[constructor()].0 == class.name,
        forall|i: int|
            #![trigger required_of(w, class, sorted_property_names(class))[i]]
            0 <= i < required_of(w, class, sorted_property_names(class)).len() ==> {
                let name = required_of(w, class, sorted_property_names(class))[i].0;
                ||| transitively_initialized(w, class.name, constructor(), class.flags.is_final, false).contains(name)
                ||| initialized_by_initializers(w, class).contains(name)
            },
    ensures
        initialization_issues(w, class, declaration_span, name_span) == Seq::<IssueView>::empty(),
{
    let required = required_of(w, class, sorted_property_names(class));
    let initialized = transitively_initialized(w, class.name, constructor(), class.flags.is_final, false).union(
        initialized_by_initializers(w, class),
    );
    lemma_nothing_left(required, initialized);
    let span = match name_span {
        Some(span) => span,
        None => declaration_span,
    };
    assert(property_issues(w.codebase, class, span, Seq::empty()) =~= Seq::<IssueView>::empty());
}

/// A constructor of which nothing is known is trusted with the properties that its own class-like
/// declares.
pub proof fn unknown_constructors_are_trusted_with_their_own(
    w: World,
    class: ClassLikeView,
    ancestor: (Seq<u8>, ClassLikeView),
    property: Seq<u8>,
)
    requires
        ancestor.1.declaring_method_ids.contains_key(constructor()),
        !w.artifacts.initialized.contains_key((ancestor.1.declaring_method_ids[constructor()].0, constructor())),
        class.declaring_property_ids.contains_key(property),
        class.declaring_property_ids[property] == ancestor.0 || class.declaring_property_ids[property]
            == ancestor.1.declaring_method_ids[constructor()].0,
    ensures
        constructor_initializes(w, class, ancestor, property),
{
}

/// The constructor of a trait is trusted with the properties of all traits.
pub proof fn trait_constructors_are_trusted_with_traits(
    w: World,
    class: ClassLikeView,
    declaring: Seq<u8>,
    inherited: Seq<(Seq<u8>, PropertyView)>,
)
    requires
        is_trait(w, declaring),
    ensures
        forall|i: int|
            0 <= i < open_inherited_properties(w, class, declaring, inherited).len() ==> {
                let name = (#[trigger] open_inherited_properties(w, class, declaring, inherited)[i]).0;
                !(class.declaring_property_ids.contains_key(name) && is_trait(w, class.declaring_property_ids[name]))
            },
{
    let missing = not_in(
        not_in(inherited, initialized_by_initializers(w, class)),
        transitively_initialized(w, declaring, constructor(), class.flags.is_final, false),
    );
    lemma_none_from_trait(w, class, missing);
}

proof fn lemma_none_from_trait(w: World, class: ClassLikeView, properties: Seq<(Seq<u8>, PropertyView)>)
    ensures
        forall|i: int|
            0 <= i < not_from_trait(w, class, properties).len() ==> {
                let name = (#[trigger] not_from_trait(w, class, properties)[i]).0;
                !(class.declaring_property_ids.contains_key(name) && is_trait(w, class.declaring_property_ids[name]))
            },
    decreases properties.len(),
{
    reveal(Seq::filter);
    if properties.len() > 0 {
        lemma_none_from_trait(w, class, properties.drop_last());
    }
}

proof fn lemma_nothing_left(properties: Seq<(Seq<u8>, PropertyView)>, initialized: Set<Seq<u8>>)
    requires
        forall|i: int| 0 <= i < properties.len() ==> initialized.contains((#[trigger] properties[i]).0),
    ensures
        not_in(properties, initialized) == Seq::<(Seq<u8>, PropertyView)>::empty(),
    decreases properties.len(),
{
    reveal(Seq::filter);
    if properties.len() > 0 {
        let rest = properties.drop_last();
        assert forall|i: int| 0 <= i < rest.len() implies initialized.contains((#[trigger] rest[i]).0) by {
            assert(rest[i] == properties[i]);
        }
        lemma_nothing_left(rest, initialized);
        assert(initialized.contains(properties[properties.len() - 1].0));
    }
    assert(not_in(properties, initialized) =~= Seq::<(Seq<u8>, PropertyView)>::empty());
}

} // verus!
