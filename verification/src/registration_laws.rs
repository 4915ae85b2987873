//! What is known of a class-like once its declaration is registered, told by the declaration.

use vstd::prelude::*;

use crate::class_docblock::with_tag_methods;
use crate::class_like::anonymous_class_header;
use crate::class_like::bare_class_like;
use crate::class_like::class_header;
use crate::class_like::codebase_with_enum_methods;
use crate::class_like::docblock;
use crate::class_like::enum_header;
use crate::class_like::enum_interface;
use crate::class_like::has_deprecated_attribute;
use crate::class_like::interface_header;
use crate::class_like::is_registered;
use crate::class_like::scanned_class_like;
use crate::class_like::scanned_codebase;
use crate::class_like::trait_header;
use crate::class_like::with_body;
use crate::class_like::with_docblock;
use crate::class_like::with_enum_method;
use crate::class_like::with_header;
use crate::class_like::with_interfaces;
use crate::class_like::AnonymousClass;
use crate::class_like::BackingType;
use crate::class_like::Class;
use crate::class_like::Declaration;
use crate::class_like::Enum;
use crate::class_like::HeaderView;
use crate::class_like::Interface;
use crate::class_like::RegistrationView;
use crate::class_like::ScanSettings;
use crate::class_like::Trait;
use crate::class_like_laws::declarations_keep_their_name;
use crate::class_members::with_case_members;
use crate::class_members::with_constant_members;
use crate::class_members::with_enum_properties;
use crate::class_members::with_members;
use crate::class_members::ClassLikeMember;
use crate::class_members::Modifier;
use crate::codebase::CodebaseView;
use crate::collections::lemma_with_item;
use crate::collections::views;
use crate::collections::with_item;
use crate::declaration_laws::has_flags_of;
use crate::declaration_laws::is_written;
use crate::declaration_laws::lemma_case_members;
use crate::declaration_laws::lemma_constant_members;
use crate::declaration_laws::lemma_document;
use crate::declaration_laws::lemma_enum_properties;
use crate::declaration_laws::lemma_flag_tags;
use crate::declaration_laws::lemma_interfaces;
use crate::declaration_laws::lemma_members;
use crate::declaration_laws::says_abstract;
use crate::declaration_laws::says_consistent_constructor;
use crate::declaration_laws::says_consistent_templates;
use crate::declaration_laws::says_deprecated;
use crate::declaration_laws::says_enum_interface;
use crate::declaration_laws::says_final;
use crate::declaration_laws::says_internal;
use crate::declaration_laws::says_readonly;
use crate::declaration_laws::some_tag;
use crate::declaration_laws::tags_of;
use crate::declaration_laws::up_to;
use crate::declaration_laws::Part;
use crate::docblock::Tag;
use crate::metadata::flags_union;
use crate::metadata::no_flags;
use crate::metadata::ClassLikeView;
use crate::metadata::MetadataFlags;
use crate::metadata::SymbolKind;
use crate::word::lowercase;
use crate::word::text;
use crate::word::Word;

verus! {

/// What the first line of a declaration leaves as it is.
spec fn keeps_rest(d: ClassLikeView, m: ClassLikeView) -> bool {
    &&& d.flags.is_deprecated == m.flags.is_deprecated
    &&& d.flags.is_internal == m.flags.is_internal
    &&& d.flags.is_user_defined == m.flags.is_user_defined
    &&& d.flags.is_built_in == m.flags.is_built_in
    &&& d.flags.is_consistent_constructor == m.flags.is_consistent_constructor
    &&& d.flags.is_consistent_templates == m.flags.is_consistent_templates
    &&& d.flags.is_enum_interface == m.flags.is_enum_interface
    &&& d.name == m.name
    &&& d.kind == m.kind
    &&& d.attributes == m.attributes
    &&& d.enum_type == m.enum_type
    &&& d.name_span == m.name_span
    &&& d.span == m.span
    &&& d.original_name == m.original_name
    &&& d.version_constraint == m.version_constraint
    &&& d.attribute_flags == m.attribute_flags
    &&& d.template_types == m.template_types
    &&& d.imported_type_aliases == m.imported_type_aliases
    &&& d.type_aliases == m.type_aliases
    &&& d.mixins == m.mixins
    &&& d.permitted_inheritors == m.permitted_inheritors
    &&& d.require_extends == m.require_extends
    &&& d.magic_properties == m.magic_properties
    &&& d.pseudo_methods == m.pseudo_methods
    &&& d.constants == m.constants
    &&& d.enum_cases == m.enum_cases
    &&& d.properties == m.properties
    &&& d.declaring_property_ids == m.declaring_property_ids
    &&& d.initialized_properties == m.initialized_properties
    &&& d.used_traits == m.used_traits
    &&& d.issues == m.issues
}

/// What the first line of a declaration says, but for the interfaces that it names.
spec fn begins(d: ClassLikeView, m: ClassLikeView, h: HeaderView) -> bool {
    &&& keeps_rest(d, m)
    &&& d.flags.is_abstract == (m.flags.is_abstract || (h.kind == SymbolKind::Class && h.is_abstract) || h.kind
        == SymbolKind::Interface)
    &&& d.flags.is_final == (m.flags.is_final || (h.kind == SymbolKind::Class && h.is_final) || h.kind
        == SymbolKind::Enum)
    &&& d.flags.is_readonly == (m.flags.is_readonly || (h.kind == SymbolKind::Class && h.is_readonly))
    &&& h.kind == SymbolKind::Class && h.extends.len() > 0 ==> d.direct_parent_class == Some(lowercase(h.extends[0]))
        && (forall|n: Seq<u8>| #[trigger]
        d.all_parent_classes.contains(n) <==> m.all_parent_classes.contains(n) || n == lowercase(h.extends[0]))
    &&& h.kind != SymbolKind::Class || h.extends.len() == 0 ==> d.direct_parent_class == m.direct_parent_class
        && d.all_parent_classes == m.all_parent_classes
    &&& forall|n: Seq<u8>| #[trigger]
        d.direct_parent_interfaces.contains(n) <==> m.direct_parent_interfaces.contains(n) || is_interface_of_kind(h, n)
    &&& forall|n: Seq<u8>| #[trigger]
        d.all_parent_interfaces.contains(n) <==> m.all_parent_interfaces.contains(n) || is_interface_of_kind(h, n)
}

/// The interface that every enum of a kind has.
pub open spec fn is_interface_of_kind(h: HeaderView, name: Seq<u8>) -> bool {
    h.kind == SymbolKind::Enum && name == match h.backing_type {
        Some(BackingType::String) => text("__internal_do_not_use__stringbackedenum"),
        Some(BackingType::Integer) => text("__internal_do_not_use__intbackedenum"),
        Some(BackingType::Other) => text("backedenum"),
        None => text("unitenum"),
    }
}

/// The names of the interfaces that a declaration writes: a class and an enum implement them, an
/// interface extends them.
pub open spec fn interfaces_of(h: HeaderView) -> Seq<Seq<u8>> {
    match h.kind {
        SymbolKind::Class => h.implements,
        SymbolKind::Interface => h.extends,
        SymbolKind::Trait => Seq::empty(),
        SymbolKind::Enum => h.implements,
    }
}

#[verifier::opaque]
spec fn class_flagged(m: ClassLikeView, h: HeaderView) -> ClassLikeView {
    m.add_flags(
        MetadataFlags { is_final: h.is_final, is_abstract: h.is_abstract, is_readonly: h.is_readonly, ..no_flags() },
    )
}

#[verifier::opaque]
spec fn class_extending(m: ClassLikeView, name: Seq<u8>) -> ClassLikeView {
    m.set_parent_class(name)
}

spec fn class_begun(m: ClassLikeView, h: HeaderView) -> ClassLikeView {
    if h.extends.len() > 0 {
        class_extending(class_flagged(m, h), lowercase(h.extends[0]))
    } else {
        class_flagged(m, h)
    }
}

#[verifier::opaque]
spec fn enum_begun(m: ClassLikeView, h: HeaderView) -> ClassLikeView {
    m.add_flags(MetadataFlags { is_final: true, ..no_flags() }).add_direct_parent_interface(
        enum_interface(h.backing_type),
    )
}

#[verifier::opaque]
spec fn enum_with_method(m: ClassLikeView, name: Seq<u8>) -> ClassLikeView {
    with_enum_method(m, name)
}

spec fn enum_with_methods(m: ClassLikeView) -> ClassLikeView {
    let backed = match m.enum_type {
        Some(_) => enum_with_method(enum_with_method(m, lowercase(text("from"))), lowercase(text("tryFrom"))),
        None => m,
    };
    enum_with_method(backed, lowercase(text("cases")))
}

#[verifier::opaque]
spec fn interface_begun(m: ClassLikeView) -> ClassLikeView {
    m.add_flags(MetadataFlags { is_abstract: true, ..no_flags() })
}

spec fn begun(m: ClassLikeView, h: HeaderView) -> ClassLikeView {
    match h.kind {
        SymbolKind::Class => class_begun(m, h),
        SymbolKind::Enum => enum_with_methods(enum_begun(m, h)),
        SymbolKind::Trait => m,
        SymbolKind::Interface => interface_begun(m),
    }
}

proof fn lemma_begun(m: ClassLikeView, h: HeaderView)
    ensures
        begins(begun(m, h), m, h),
{
    match h.kind {
        SymbolKind::Class => lemma_class_begun(m, h),
        SymbolKind::Enum => {
            lemma_enum_begun(m, h);
            lemma_enum_methods(enum_begun(m, h));
        },
        SymbolKind::Trait => {},
        SymbolKind::Interface => lemma_interface_begun(m, h),
    }
}

/// The flags of a class with the modifiers of its first line.
#[verifier::opaque]
spec fn header_flags(a: MetadataFlags, h: HeaderView) -> MetadataFlags {
    flags_union(
        a,
        MetadataFlags { is_final: h.is_final, is_abstract: h.is_abstract, is_readonly: h.is_readonly, ..no_flags() },
    )
}

proof fn lemma_header_flags(a: MetadataFlags, h: HeaderView)
    ensures
        ({
            let d = header_flags(a, h);
            &&& d.is_final == (a.is_final || h.is_final)
            &&& d.is_abstract == (a.is_abstract || h.is_abstract)
            &&& d.is_readonly == (a.is_readonly || h.is_readonly)
            &&& d.is_deprecated == a.is_deprecated
            &&& d.is_internal == a.is_internal
            &&& d.is_user_defined == a.is_user_defined
            &&& d.is_built_in == a.is_built_in
            &&& d.is_consistent_constructor == a.is_consistent_constructor
            &&& d.is_consistent_templates == a.is_consistent_templates
            &&& d.is_enum_interface == a.is_enum_interface
        }),
{
    reveal(header_flags);
}

proof fn lemma_added_flags(m: ClassLikeView, h: HeaderView)
    ensures
        class_flagged(m, h) == (ClassLikeView { flags: header_flags(m.flags, h), ..m }),
{
    reveal(class_flagged);
    reveal(header_flags);
}

proof fn lemma_class_flagged(m: ClassLikeView, h: HeaderView)
    ensures
        keeps_rest(class_flagged(m, h), m),
        class_flagged(m, h).flags.is_final == (m.flags.is_final || h.is_final),
        class_flagged(m, h).flags.is_abstract == (m.flags.is_abstract || h.is_abstract),
        class_flagged(m, h).flags.is_readonly == (m.flags.is_readonly || h.is_readonly),
        class_flagged(m, h).direct_parent_class == m.direct_parent_class,
        class_flagged(m, h).all_parent_classes == m.all_parent_classes,
        class_flagged(m, h).direct_parent_interfaces == m.direct_parent_interfaces,
        class_flagged(m, h).all_parent_interfaces == m.all_parent_interfaces,
{
    lemma_added_flags(m, h);
    lemma_header_flags(m.flags, h);
}

proof fn lemma_class_extending(m: ClassLikeView, name: Seq<u8>)
    ensures
        keeps_rest(class_extending(m, name), m),
        class_extending(m, name).flags == m.flags,
        class_extending(m, name).direct_parent_class == Some(name),
        class_extending(m, name).all_parent_classes == with_item(m.all_parent_classes, name),
        class_extending(m, name).direct_parent_interfaces == m.direct_parent_interfaces,
        class_extending(m, name).all_parent_interfaces == m.all_parent_interfaces,
{
    reveal(class_extending);
}

proof fn lemma_class_begun(m: ClassLikeView, h: HeaderView)
    requires
        h.kind == SymbolKind::Class,
    ensures
        begins(class_begun(m, h), m, h),
{
    lemma_class_flagged(m, h);
    if h.extends.len() > 0 {
        let name = lowercase(h.extends[0]);
        lemma_class_extending(class_flagged(m, h), name);
        assert forall|n: Seq<u8>| #[trigger] class_begun(m, h).all_parent_classes.contains(n)
            <==> m.all_parent_classes.contains(n) || n == name by {
            lemma_with_item(m.all_parent_classes, name, n);
        }
    }
}

proof fn lemma_interface_begun(m: ClassLikeView, h: HeaderView)
    requires
        h.kind == SymbolKind::Interface,
    ensures
        begins(interface_begun(m), m, h),
{
    reveal(interface_begun);
}

/// Two accounts of a class-like differ in its methods alone.
spec fn keeps_parents(d: ClassLikeView, m: ClassLikeView) -> bool {
    &&& keeps_rest(d, m)
    &&& d.flags == m.flags
    &&& d.direct_parent_class == m.direct_parent_class
    &&& d.all_parent_classes == m.all_parent_classes
    &&& d.direct_parent_interfaces == m.direct_parent_interfaces
    &&& d.all_parent_interfaces == m.all_parent_interfaces
}

proof fn lemma_enum_method(m: ClassLikeView, name: Seq<u8>)
    ensures
        keeps_parents(enum_with_method(m, name), m),
{
    reveal(enum_with_method);
}

proof fn lemma_enum_methods(m: ClassLikeView)
    ensures
        keeps_parents(enum_with_methods(m), m),
{
    let from = enum_with_method(m, lowercase(text("from")));
    let try_from = enum_with_method(from, lowercase(text("tryFrom")));
    lemma_enum_method(m, lowercase(text("from")));
    lemma_enum_method(from, lowercase(text("tryFrom")));
    lemma_enum_method(try_from, lowercase(text("cases")));
    lemma_enum_method(m, lowercase(text("cases")));
}

proof fn lemma_enum_begun(m: ClassLikeView, h: HeaderView)
    requires
        h.kind == SymbolKind::Enum,
    ensures
        begins(enum_begun(m, h), m, h),
{
    let kind = enum_interface(h.backing_type);
    let d = enum_begun(m, h);
    assert(keeps_rest(d, m) && d.flags.is_final && d.flags.is_abstract == m.flags.is_abstract && d.flags.is_readonly
        == m.flags.is_readonly && d.direct_parent_class == m.direct_parent_class && d.all_parent_classes
        == m.all_parent_classes && d.direct_parent_interfaces == with_item(m.direct_parent_interfaces, kind)
        && d.all_parent_interfaces == with_item(m.all_parent_interfaces, kind)) by {
        reveal(enum_begun);
    }
    assert forall|n: Seq<u8>| #[trigger] d.direct_parent_interfaces.contains(n)
        <==> m.direct_parent_interfaces.contains(n) || is_interface_of_kind(h, n) by {
        lemma_with_item(m.direct_parent_interfaces, kind, n);
    }
    assert forall|n: Seq<u8>| #[trigger] d.all_parent_interfaces.contains(n)
        <==> m.all_parent_interfaces.contains(n) || is_interface_of_kind(h, n) by {
        lemma_with_item(m.all_parent_interfaces, kind, n);
    }
}

proof fn lemma_header_begins(m: ClassLikeView, h: HeaderView)
    ensures
        with_header(m, h) == with_interfaces(begun(m, h), interfaces_of(h)),
{
    reveal(class_flagged);
    reveal(class_extending);
    reveal(enum_begun);
    reveal(enum_with_method);
    reveal(interface_begun);
    reveal(with_header);
}

spec fn is_headed(d: ClassLikeView, m: ClassLikeView, h: HeaderView) -> bool {
    &&& keeps_rest(d, m)
    &&& d.flags.is_abstract == (m.flags.is_abstract || (h.kind == SymbolKind::Class && h.is_abstract) || h.kind
        == SymbolKind::Interface)
    &&& d.flags.is_final == (m.flags.is_final || (h.kind == SymbolKind::Class && h.is_final) || h.kind
        == SymbolKind::Enum)
    &&& d.flags.is_readonly == (m.flags.is_readonly || (h.kind == SymbolKind::Class && h.is_readonly))
    &&& h.kind == SymbolKind::Class && h.extends.len() > 0 ==> d.direct_parent_class == Some(lowercase(h.extends[0]))
        && (forall|n: Seq<u8>| #[trigger]
        d.all_parent_classes.contains(n) <==> m.all_parent_classes.contains(n) || n == lowercase(h.extends[0]))
    &&& h.kind != SymbolKind::Class || h.extends.len() == 0 ==> d.direct_parent_class == m.direct_parent_class
        && d.all_parent_classes == m.all_parent_classes
    &&& forall|n: Seq<u8>| #[trigger]
        d.direct_parent_interfaces.contains(n) <==> m.direct_parent_interfaces.contains(n) || is_interface_of_kind(h, n)
            || is_written(interfaces_of(h), n)
    &&& forall|n: Seq<u8>| #[trigger]
        d.all_parent_interfaces.contains(n) <==> m.all_parent_interfaces.contains(n) || is_interface_of_kind(h, n)
            || is_written(interfaces_of(h), n)
}

proof fn lemma_header(m: ClassLikeView, h: HeaderView)
    ensures
        is_headed(with_header(m, h), m, h),
{
    lemma_begun(m, h);
    lemma_header_begins(m, h);
    lemma_interfaces(begun(m, h), interfaces_of(h));
    lemma_interface_issues(begun(m, h), interfaces_of(h));
}

proof fn lemma_interface_issues(m: ClassLikeView, names: Seq<Seq<u8>>)
    ensures
        with_interfaces(m, names).issues == m.issues,
    decreases names.len(),
{
    if names.len() > 0 {
        lemma_interface_issues(m, names.drop_last());
    }
}

/// The first line says nothing of members.
pub proof fn lemma_headed(m: ClassLikeView, h: HeaderView)
    ensures
        with_header(m, h).name == m.name,
        with_header(m, h).kind == m.kind,
        with_header(m, h).constants == m.constants,
        with_header(m, h).enum_cases == m.enum_cases,
        with_header(m, h).used_traits == m.used_traits,
        with_header(m, h).initialized_properties == m.initialized_properties,
        with_header(m, h).template_types == m.template_types,
        with_header(m, h).type_aliases == m.type_aliases,
        with_header(m, h).imported_type_aliases == m.imported_type_aliases,
        with_header(m, h).mixins == m.mixins,
        with_header(m, h).require_extends == m.require_extends,
        with_header(m, h).permitted_inheritors == m.permitted_inheritors,
        with_header(m, h).pseudo_methods == m.pseudo_methods,
        with_header(m, h).magic_properties == m.magic_properties,
{
    lemma_header(m, h);
}

/// The first line names the parents.
pub proof fn lemma_headed_parents(m: ClassLikeView, h: HeaderView)
    requires
        m.all_parent_classes.len() == 0,
        m.all_parent_interfaces.len() == 0,
    ensures
        with_header(m, h).name == m.name,
        with_header(m, h).kind == m.kind,
        with_header(m, h).issues == m.issues,
        forall|n: Seq<u8>| #[trigger]
            with_header(m, h).all_parent_classes.contains(n) <==> h.kind == SymbolKind::Class && h.extends.len() > 0 && n
                == lowercase(h.extends[0]),
        forall|n: Seq<u8>| #[trigger]
            with_header(m, h).all_parent_interfaces.contains(n) <==> is_interface_of_kind(h, n) || is_written(
                interfaces_of(h),
                n,
            ),
{
    lemma_header(m, h);
}

/// What a body leaves of a class-like as it is.
pub open spec fn same_head(a: ClassLikeView, b: ClassLikeView) -> bool {
    &&& a.name == b.name
    &&& a.original_name == b.original_name
    &&& a.kind == b.kind
    &&& a.span == b.span
    &&& a.name_span == b.name_span
    &&& a.version_constraint == b.version_constraint
    &&& a.attributes == b.attributes
    &&& a.attribute_flags == b.attribute_flags
    &&& a.direct_parent_class == b.direct_parent_class
    &&& a.all_parent_classes == b.all_parent_classes
    &&& a.direct_parent_interfaces == b.direct_parent_interfaces
    &&& a.all_parent_interfaces == b.all_parent_interfaces
    &&& a.template_types == b.template_types
    &&& a.imported_type_aliases == b.imported_type_aliases
    &&& a.type_aliases == b.type_aliases
    &&& a.mixins == b.mixins
    &&& a.permitted_inheritors == b.permitted_inheritors
    &&& a.require_extends == b.require_extends
    &&& a.methods == b.methods
    &&& a.pseudo_methods == b.pseudo_methods
    &&& a.inheritable_method_ids == b.inheritable_method_ids
    &&& a.magic_properties == b.magic_properties
    &&& a.declaring_method_ids == b.declaring_method_ids
    &&& a.enum_type == b.enum_type
}

#[verifier::opaque]
pub open spec fn members_before(m: ClassLikeView, members: Seq<ClassLikeMember>, max_enum_cases: int) -> ClassLikeView {
    with_enum_properties(with_case_members(with_constant_members(m, members), members), max_enum_cases)
}

pub proof fn lemma_body(m: ClassLikeView, members: Seq<ClassLikeMember>, max_enum_cases: int)
    ensures
        ({
            let d = with_body(m, members, max_enum_cases);
            let deprecated = has_deprecated_attribute(m.attributes);
            let start = members_before(m, members, max_enum_cases);
            &&& same_head(d, m)
            &&& d.flags.is_deprecated == (m.flags.is_deprecated || deprecated)
            &&& d.flags.is_abstract == m.flags.is_abstract
            &&& d.flags.is_final == m.flags.is_final
            &&& d.flags.is_readonly == m.flags.is_readonly
            &&& d.flags.is_internal == m.flags.is_internal
            &&& d.flags.is_user_defined == m.flags.is_user_defined
            &&& d.flags.is_built_in == m.flags.is_built_in
            &&& d.flags.is_enum_interface == m.flags.is_enum_interface
            &&& d.flags.is_consistent_constructor == m.flags.is_consistent_constructor
            &&& d.flags.is_consistent_templates == m.flags.is_consistent_templates
            &&& d.constants == with_constant_members(m, members).constants
            &&& d.enum_cases == with_case_members(with_constant_members(m, members), members).enum_cases
            &&& with_constant_members(m, members).enum_cases == m.enum_cases
            &&& d.properties == with_members(start, members).properties
            &&& d.declaring_property_ids == with_members(start, members).declaring_property_ids
            &&& d.initialized_properties == with_members(start, members).initialized_properties
            &&& d.used_traits == with_members(start, members).used_traits
            &&& start.used_traits == m.used_traits
            &&& start.name == m.name
            &&& start.kind == m.kind
            &&& start.properties == with_enum_properties(
                with_case_members(with_constant_members(m, members), members),
                max_enum_cases,
            ).properties
            &&& m.kind != SymbolKind::Enum ==> start.properties == m.properties && start.initialized_properties
                == m.initialized_properties && start.declaring_property_ids == m.declaring_property_ids
        }),
{
    reveal(with_body);
    reveal(members_before);
    lemma_constant_members(m, members);
    let a = with_constant_members(m, members);
    lemma_case_members(a, members);
    let b = with_case_members(a, members);
    lemma_enum_properties(b, max_enum_cases);
    let c = with_enum_properties(b, max_enum_cases);
    lemma_members(c, members);
}

/// One of the attributes says that the class-like is deprecated.
pub open spec fn is_marked_deprecated(d: Declaration) -> bool {
    exists|i: int|
        0 <= i < d.attributes@.len() && lowercase((#[trigger] d.attributes@[i]).name@) == lowercase(text("Deprecated"))
}

/// What is known of a class-like by its first line, its attributes and the flags of its docblock.
pub open spec fn is_headed_by(m: ClassLikeView, h: HeaderView, settings: ScanSettings) -> bool {
    let origin = settings.origin_flags;
    let tags = tags_of(h.declaration);
    &&& m.name == lowercase(h.name)
    &&& m.original_name == h.name
    &&& m.kind == h.kind
    &&& m.span == h.declaration.span
    &&& m.name_span == h.name_span
    &&& m.version_constraint == h.declaration.version_constraint
    &&& m.attributes.len() == h.declaration.attributes@.len()
    &&& forall|i: int|
        0 <= i < m.attributes.len() ==> (#[trigger] m.attributes[i]).name == h.declaration.attributes@[i].name@
            && m.attributes[i].span == h.declaration.attributes@[i].span
    &&& h.kind == SymbolKind::Class ==> m.attribute_flags == h.attribute_flags
    &&& h.kind != SymbolKind::Class ==> m.attribute_flags is None
    &&& m.flags.is_abstract <==> (h.kind == SymbolKind::Class && h.is_abstract) || h.kind == SymbolKind::Interface
        || origin.is_abstract || some_tag(tags, says_abstract())
    &&& m.flags.is_final <==> (h.kind == SymbolKind::Class && h.is_final) || h.kind == SymbolKind::Enum
        || origin.is_final || some_tag(tags, says_final())
    &&& m.flags.is_readonly <==> (h.kind == SymbolKind::Class && h.is_readonly) || origin.is_readonly || some_tag(
        tags,
        says_readonly(),
    )
    &&& m.flags.is_deprecated <==> origin.is_deprecated || some_tag(tags, says_deprecated()) || is_marked_deprecated(
        h.declaration,
    )
    &&& m.flags.is_internal <==> origin.is_internal || some_tag(tags, says_internal())
    &&& m.flags.is_enum_interface <==> origin.is_enum_interface || some_tag(tags, says_enum_interface(h.kind))
    &&& m.flags.is_consistent_constructor <==> origin.is_consistent_constructor || some_tag(
        tags,
        says_consistent_constructor(),
    )
    &&& m.flags.is_consistent_templates <==> origin.is_consistent_templates || some_tag(
        tags,
        says_consistent_templates(),
    )
    &&& origin.is_user_defined ==> m.flags.is_user_defined
    &&& origin.is_built_in ==> m.flags.is_built_in
    &&& h.kind == SymbolKind::Class && h.extends.len() > 0 ==> m.direct_parent_class == Some(lowercase(h.extends[0]))
        && (forall|n: Seq<u8>| #[trigger] m.all_parent_classes.contains(n) <==> n == lowercase(h.extends[0]))
    &&& h.kind != SymbolKind::Class || h.extends.len() == 0 ==> m.direct_parent_class is None
        && m.all_parent_classes.len() == 0
    &&& forall|n: Seq<u8>| #[trigger]
        m.direct_parent_interfaces.contains(n) <==> is_interface_of_kind(h, n) || is_written(interfaces_of(h), n)
    &&& forall|n: Seq<u8>| #[trigger]
        m.all_parent_interfaces.contains(n) <==> is_interface_of_kind(h, n) || is_written(interfaces_of(h), n)
}

/// The docblock adds its flags and keeps the first line.
pub proof fn lemma_docblock(m: ClassLikeView, d: Declaration)
    ensures
        has_flags_of(with_docblock(m, d), m, tags_of(d)),
        with_docblock(m, d).name == m.name,
        with_docblock(m, d).original_name == m.original_name,
        with_docblock(m, d).kind == m.kind,
        with_docblock(m, d).span == m.span,
        with_docblock(m, d).name_span == m.name_span,
        with_docblock(m, d).version_constraint == m.version_constraint,
        with_docblock(m, d).attributes == m.attributes,
        with_docblock(m, d).attribute_flags == m.attribute_flags,
        with_docblock(m, d).direct_parent_class == m.direct_parent_class,
        with_docblock(m, d).all_parent_classes == m.all_parent_classes,
        with_docblock(m, d).direct_parent_interfaces == m.direct_parent_interfaces,
        with_docblock(m, d).all_parent_interfaces == m.all_parent_interfaces,
        with_docblock(m, d).constants == m.constants,
        with_docblock(m, d).enum_cases == m.enum_cases,
        with_docblock(m, d).properties == m.properties,
        with_docblock(m, d).declaring_property_ids == m.declaring_property_ids,
        with_docblock(m, d).initialized_properties == m.initialized_properties,
        with_docblock(m, d).used_traits == m.used_traits,
{
    match docblock(d) {
        Some(document) => {
            lemma_document(m, document);
            lemma_flag_tags(up_to(m, document, Part::Flags), document.tags@);
        },
        None => {},
    }
}

pub proof fn lemma_bare(h: HeaderView, origin_flags: MetadataFlags)
    ensures
        ({
            let m = bare_class_like(h, origin_flags);
            &&& m.name == lowercase(h.name)
            &&& m.original_name == h.name
            &&& m.kind == h.kind
            &&& m.span == h.declaration.span
            &&& m.name_span == h.name_span
            &&& m.version_constraint == h.declaration.version_constraint
            &&& m.attributes == views(h.declaration.attributes@)
            &&& h.kind == SymbolKind::Class ==> m.attribute_flags == h.attribute_flags
            &&& h.kind != SymbolKind::Class ==> m.attribute_flags is None
            &&& m.flags == origin_flags
            &&& m.direct_parent_class is None
            &&& m.all_parent_classes.len() == 0
            &&& m.direct_parent_interfaces.len() == 0
            &&& m.all_parent_interfaces.len() == 0
            &&& forall|n: Seq<u8>| !#[trigger] m.constants.contains_key(n)
            &&& m.used_traits.len() == 0
            &&& m.issues.len() == 0
            &&& m.initialized_properties.len() == 0
        }),
{
}

proof fn lemma_scanned(h: HeaderView, settings: ScanSettings)
    ensures
        is_headed_by(scanned_class_like(h, settings), h, settings),
{
    reveal(scanned_class_like);
    let bare = bare_class_like(h, settings.origin_flags);
    lemma_bare(h, settings.origin_flags);
    lemma_header(bare, h);
    let headed = with_header(bare, h);
    lemma_docblock(headed, h.declaration);
    let described = with_docblock(headed, h.declaration);
    lemma_body(described, h.declaration.members@, settings.max_enum_cases as int);
    lemma_deprecated(h.declaration);
}

proof fn lemma_deprecated(d: Declaration)
    ensures
        has_deprecated_attribute(views(d.attributes@)) <==> is_marked_deprecated(d),
{
    let all = views(d.attributes@);
    if has_deprecated_attribute(all) {
        let i = choose|i: int|
            0 <= i < all.len() && lowercase((#[trigger] all[i]).name) == lowercase(text("Deprecated"));
        assert(lowercase(d.attributes@[i].name@) == lowercase(text("Deprecated")));
    }
    if is_marked_deprecated(d) {
        let i = choose|i: int|
            0 <= i < d.attributes@.len() && lowercase((#[trigger] d.attributes@[i]).name@) == lowercase(
                text("Deprecated"),
            );
        assert(lowercase(all[i].name) == lowercase(text("Deprecated")));
    }
}

/// A class that is registered is known under its name, as what its first line says: a class with
/// its modifiers, its parent and its interfaces, each of them under its name in lower case.
pub proof fn classes_are_what_they_say(
    before: CodebaseView,
    class: Class,
    settings: ScanSettings,
    result: Option<RegistrationView>,
    after: CodebaseView,
)
    requires
        is_registered(before, class_header(class), settings, result, after),
        result is Some,
    ensures
        ({
            let name = lowercase(class.name@);
            let m = after.class_likes[name];
            let origin = settings.origin_flags;
            let tags = tags_of(class.declaration);
            &&& after.class_likes.contains_key(name)
            &&& after.symbols.contains_key(name) && after.symbols[name] == SymbolKind::Class
            &&& m.kind == SymbolKind::Class
            &&& m.original_name == class.name@
            &&& m.name_span == Some(class.name_span)
            &&& m.attribute_flags == class.attribute_flags
            &&& m.flags.is_abstract <==> class.modifiers@.contains(Modifier::Abstract) || origin.is_abstract || some_tag(
                tags,
                says_abstract(),
            )
            &&& m.flags.is_final <==> class.modifiers@.contains(Modifier::Final) || origin.is_final || some_tag(
                tags,
                says_final(),
            )
            &&& m.flags.is_readonly <==> class.modifiers@.contains(Modifier::Readonly) || origin.is_readonly || some_tag(
                tags,
                says_readonly(),
            )
            &&& class.extends@.len() == 0 ==> m.direct_parent_class is None
            &&& class.extends@.len() > 0 ==> m.direct_parent_class == Some(lowercase(class.extends@[0]@))
            &&& forall|n: Seq<u8>| #[trigger]
                m.direct_parent_interfaces.contains(n) <==> is_listed(class.implements@, n)
            &&& is_headed_by(m, class_header(class), settings)
        }),
{
    let h = class_header(class);
    lemma_scanned(h, settings);
    lemma_registered(before, h, settings, result, after);
    lemma_listed(class.implements@);
}

/// A class without a name is known, under the name that is made up for it, as what it says.
pub proof fn anonymous_classes_are_what_they_say(
    before: CodebaseView,
    class: AnonymousClass,
    settings: ScanSettings,
    result: Option<RegistrationView>,
    after: CodebaseView,
)
    requires
        is_registered(before, anonymous_class_header(class), settings, result, after),
        result is Some,
    ensures
        ({
            let name = lowercase(class.name@);
            let m = after.class_likes[name];
            let origin = settings.origin_flags;
            let tags = tags_of(class.declaration);
            &&& after.class_likes.contains_key(name)
            &&& after.symbols.contains_key(name) && after.symbols[name] == SymbolKind::Class
            &&& m.kind == SymbolKind::Class
            &&& m.name_span is None
            &&& m.attribute_flags == class.attribute_flags
            &&& m.flags.is_abstract <==> class.modifiers@.contains(Modifier::Abstract) || origin.is_abstract || some_tag(
                tags,
                says_abstract(),
            )
            &&& m.flags.is_final <==> class.modifiers@.contains(Modifier::Final) || origin.is_final || some_tag(
                tags,
                says_final(),
            )
            &&& m.flags.is_readonly <==> class.modifiers@.contains(Modifier::Readonly) || origin.is_readonly || some_tag(
                tags,
                says_readonly(),
            )
            &&& class.extends@.len() == 0 ==> m.direct_parent_class is None
            &&& class.extends@.len() > 0 ==> m.direct_parent_class == Some(lowercase(class.extends@[0]@))
            &&& forall|n: Seq<u8>| #[trigger]
                m.direct_parent_interfaces.contains(n) <==> is_listed(class.implements@, n)
            &&& is_headed_by(m, anonymous_class_header(class), settings)
        }),
{
    let h = anonymous_class_header(class);
    lemma_scanned(h, settings);
    lemma_registered(before, h, settings, result, after);
    lemma_listed(class.implements@);
}

/// An interface is known as one that cannot be instantiated and that extends others.
pub proof fn interfaces_are_what_they_say(
    before: CodebaseView,
    interface: Interface,
    settings: ScanSettings,
    result: Option<RegistrationView>,
    after: CodebaseView,
)
    requires
        is_registered(before, interface_header(interface), settings, result, after),
        result is Some,
    ensures
        ({
            let name = lowercase(interface.name@);
            let m = after.class_likes[name];
            &&& after.class_likes.contains_key(name)
            &&& after.symbols.contains_key(name) && after.symbols[name] == SymbolKind::Interface
            &&& m.kind == SymbolKind::Interface
            &&& m.flags.is_abstract
            &&& m.direct_parent_class is None
            &&& forall|n: Seq<u8>| #[trigger]
                m.direct_parent_interfaces.contains(n) <==> is_listed(interface.extends@, n)
            &&& is_headed_by(m, interface_header(interface), settings)
        }),
{
    let h = interface_header(interface);
    lemma_scanned(h, settings);
    lemma_registered(before, h, settings, result, after);
    lemma_listed(interface.extends@);
}

/// A trait is known as one, without parents.
pub proof fn traits_are_what_they_say(
    before: CodebaseView,
    declared: Trait,
    settings: ScanSettings,
    result: Option<RegistrationView>,
    after: CodebaseView,
)
    requires
        is_registered(before, trait_header(declared), settings, result, after),
        result is Some,
    ensures
        ({
            let name = lowercase(declared.name@);
            let m = after.class_likes[name];
            &&& after.class_likes.contains_key(name)
            &&& after.symbols.contains_key(name) && after.symbols[name] == SymbolKind::Trait
            &&& m.kind == SymbolKind::Trait
            &&& m.direct_parent_class is None
            &&& m.direct_parent_interfaces.len() == 0
            &&& is_headed_by(m, trait_header(declared), settings)
        }),
{
    let h = trait_header(declared);
    lemma_scanned(h, settings);
    lemma_registered(before, h, settings, result, after);
    let m = after.class_likes[lowercase(declared.name@)];
    if m.direct_parent_interfaces.len() > 0 {
        assert(m.direct_parent_interfaces.contains(m.direct_parent_interfaces[0]));
    }
}

/// An enum is final, is backed by what it says, and has its interfaces and the one of its kind.
pub proof fn enums_are_what_they_say(
    before: CodebaseView,
    declared: Enum,
    settings: ScanSettings,
    result: Option<RegistrationView>,
    after: CodebaseView,
)
    requires
        is_registered(before, enum_header(declared), settings, result, after),
        result is Some,
    ensures
        ({
            let name = lowercase(declared.name@);
            let m = after.class_likes[name];
            &&& after.class_likes.contains_key(name)
            &&& after.symbols.contains_key(name) && after.symbols[name] == SymbolKind::Enum
            &&& m.kind == SymbolKind::Enum
            &&& m.flags.is_final
            &&& m.direct_parent_class is None
            &&& forall|n: Seq<u8>| #[trigger]
                m.direct_parent_interfaces.contains(n) <==> is_listed(declared.implements@, n) || n
                    == match declared.backing_type {
                    Some(BackingType::String) => text("__internal_do_not_use__stringbackedenum"),
                    Some(BackingType::Integer) => text("__internal_do_not_use__intbackedenum"),
                    Some(BackingType::Other) => text("backedenum"),
                    None => text("unitenum"),
                }
            &&& is_headed_by(m, enum_header(declared), settings)
        }),
{
    let h = enum_header(declared);
    lemma_scanned(h, settings);
    lemma_registered(before, h, settings, result, after);
    lemma_listed(declared.implements@);
}

/// A name is one of these words, in lower case.
pub open spec fn is_listed(names: Seq<Word>, name: Seq<u8>) -> bool {
    exists|i: int| 0 <= i < names.len() && lowercase((#[trigger] names[i])@) == name
}

proof fn lemma_listed(names: Seq<Word>)
    ensures
        forall|n: Seq<u8>| #[trigger] is_written(views(names), n) <==> is_listed(names, n),
{
    let all = views(names);
    assert forall|n: Seq<u8>| #[trigger] is_written(all, n) <==> is_listed(names, n) by {
        if is_written(all, n) {
            let i = choose|i: int| 0 <= i < all.len() && lowercase(#[trigger] all[i]) == n;
            assert(lowercase(names[i]@) == n);
        }
        if is_listed(names, n) {
            let i = choose|i: int| 0 <= i < names.len() && lowercase((#[trigger] names[i])@) == n;
            assert(lowercase(all[i]) == n);
        }
    }
}

pub proof fn lemma_registered(
    before: CodebaseView,
    h: HeaderView,
    settings: ScanSettings,
    result: Option<RegistrationView>,
    after: CodebaseView,
)
    requires
        is_registered(before, h, settings, result, after),
        result is Some,
    ensures
        after.class_likes.contains_key(lowercase(h.name)),
        after.class_likes[lowercase(h.name)] == scanned_class_like(h, settings),
        after.symbols.contains_key(lowercase(h.name)),
        after.symbols[lowercase(h.name)] == h.kind,
{
    declarations_keep_their_name(h, settings);
    lemma_symbol(before, h, settings);
}

proof fn lemma_symbol(before: CodebaseView, h: HeaderView, settings: ScanSettings)
    ensures
        scanned_codebase(before, h, settings).symbols == before.symbols.insert(
            lowercase(h.name),
            h.kind,
        ),
{
    reveal(scanned_codebase);
    let name = lowercase(h.name);
    let named = before.add_symbol_name(name, h.kind);
    let with_methods = if h.kind == SymbolKind::Enum {
        codebase_with_enum_methods(
            named,
            bare_class_like(h, settings.origin_flags),
            h.declaration.span,
        )
    } else {
        named
    };
    if let Some(document) = docblock(h.declaration) {
        lemma_tag_methods_symbols(with_methods, name, document.tags@);
    }
}

proof fn lemma_tag_methods_symbols(c: CodebaseView, class_like: Seq<u8>, tags: Seq<Tag>)
    ensures
        with_tag_methods(c, class_like, tags).symbols == c.symbols,
    decreases tags.len(),
{
    if tags.len() > 0 {
        lemma_tag_methods_symbols(c, class_like, tags.drop_last());
    }
}

} // verus!
