//! What becomes known of a class-like when its declaration is registered, told by the declaration
//! itself.

use vstd::prelude::*;

use crate::class_docblock::with_document;
use crate::class_docblock::with_method_tags;
use crate::class_docblock::with_parse_errors;
use crate::class_docblock::with_tag;
use crate::class_docblock::with_tags;
use crate::class_docblock::TagKind;
use crate::class_like::docblock;
use crate::class_like::with_interfaces;
use crate::class_like::Declaration;
use crate::class_like::Enum;
use crate::class_like::Interface;
use crate::class_members::with_adaptations;
use crate::class_members::with_case_members;
use crate::class_members::with_constant_members;
use crate::class_members::with_constants;
use crate::class_members::with_enum_properties;
use crate::class_members::with_issues;
use crate::class_members::with_members;
use crate::class_members::with_properties;
use crate::class_members::with_trait_use;
use crate::class_members::with_use_document;
use crate::class_members::with_use_tags;
use crate::class_members::with_used_traits;
use crate::class_members::ClassLikeMember;
use crate::class_members::TraitUse;
use crate::class_members::TraitUseAdaptation;
use crate::class_members::UseTagKind;
use crate::class_tags::last_inheritors;
use crate::class_tags::with_alias_tag;
use crate::class_tags::with_extends_tag;
use crate::class_tags::with_flag_tag;
use crate::class_tags::with_implements_tag;
use crate::class_tags::with_import_tag;
use crate::class_tags::with_inheritors;
use crate::class_tags::with_inheritors_tags;
use crate::class_tags::with_mixin_tag;
use crate::class_tags::with_property_tag;
use crate::class_tags::with_require_extends_tag;
use crate::class_tags::with_require_implements_tag;
use crate::class_tags::with_template_tag;
use crate::docblock::Document;
use crate::docblock::ParseError;
use crate::docblock::Tag;
use crate::issue::Issue;
use crate::issue::Span;
use crate::metadata::ClassLikeConstantMetadata;
use crate::metadata::ClassLikeView;
use crate::metadata::PropertyMetadata;
use crate::metadata::SymbolKind;
use crate::ttype::AtomicView;
use crate::word::lowercase;
use crate::word::Word;

verus! {

/// The parts of what is known of a class-like, by what tells of them.
pub enum Part {
    Flags,
    Templates,
    Imports,
    Aliases,
    Required,
    Inheritors,
    Mixins,
    Methods,
    MagicProperties,
    Constants,
    Cases,
    Properties,
    Traits,
    Parents,
    Other,
}

/// Two accounts of a class-like say the same of all parts but one.
pub open spec fn same_but(part: Part, a: ClassLikeView, b: ClassLikeView) -> bool {
    &&& a.name == b.name
    &&& a.original_name == b.original_name
    &&& a.kind == b.kind
    &&& a.span == b.span
    &&& a.name_span == b.name_span
    &&& a.enum_type == b.enum_type
    &&& a.attributes == b.attributes
    &&& a.attribute_flags == b.attribute_flags
    &&& a.version_constraint == b.version_constraint
    &&& part is Flags || a.flags == b.flags
    &&& part is Flags || a.has_sealed_properties == b.has_sealed_properties
    &&& part is Flags || a.has_sealed_methods == b.has_sealed_methods
    &&& part is Templates || a.template_types == b.template_types
    &&& part is Templates || a.template_names == b.template_names
    &&& part is Templates || a.template_variance == b.template_variance
    &&& part is Templates || a.template_readonly == b.template_readonly
    &&& part is Imports || a.imported_type_aliases == b.imported_type_aliases
    &&& part is Aliases || a.type_aliases == b.type_aliases
    &&& part is Required || a.require_extends == b.require_extends
    &&& part is Required || a.require_implements == b.require_implements
    &&& part is Inheritors || a.permitted_inheritors == b.permitted_inheritors
    &&& part is Mixins || a.mixins == b.mixins
    &&& part is Methods || a.methods == b.methods
    &&& part is Methods || a.inheritable_method_ids == b.inheritable_method_ids
    &&& part is Methods || a.pseudo_methods == b.pseudo_methods
    &&& part is MagicProperties || a.magic_properties == b.magic_properties
    &&& part is MagicProperties || a.magic_property_ids == b.magic_property_ids
    &&& part is Constants || a.constants == b.constants
    &&& part is Cases || a.enum_cases == b.enum_cases
    &&& part is Cases || a.enum_case_names == b.enum_case_names
    &&& part is Properties || a.properties == b.properties
    &&& part is Properties || a.declaring_property_ids == b.declaring_property_ids
    &&& part is Properties || a.appearing_property_ids == b.appearing_property_ids
    &&& part is Properties || a.initialized_properties == b.initialized_properties
    &&& part is Traits || a.used_traits == b.used_traits
    &&& part is Traits || a.trait_alias_map == b.trait_alias_map
    &&& part is Traits || a.trait_visibility_map == b.trait_visibility_map
    &&& part is Traits || a.trait_final_map == b.trait_final_map
    &&& part is Parents || a.direct_parent_class == b.direct_parent_class
    &&& part is Parents || a.all_parent_classes == b.all_parent_classes
    &&& part is Parents || a.direct_parent_interfaces == b.direct_parent_interfaces
    &&& part is Parents || a.all_parent_interfaces == b.all_parent_interfaces
    &&& part is Parents || part is Methods || a.declaring_method_ids == b.declaring_method_ids
}

pub open spec fn part_of(kind: TagKind) -> Part {
    match kind {
        TagKind::Flag => Part::Flags,
        TagKind::Template => Part::Templates,
        TagKind::Import => Part::Imports,
        TagKind::Alias => Part::Aliases,
        TagKind::Extends => Part::Other,
        TagKind::Implements => Part::Other,
        TagKind::RequireExtends => Part::Required,
        TagKind::RequireImplements => Part::Required,
        TagKind::Mixin => Part::Mixins,
        TagKind::Property => Part::MagicProperties,
    }
}

proof fn lemma_flag_tag(m: ClassLikeView, tag: Tag)
    ensures
        same_but(Part::Flags, with_flag_tag(m, tag), m),
{
}

proof fn lemma_template_tag(m: ClassLikeView, tag: Tag)
    ensures
        same_but(Part::Templates, with_template_tag(m, tag), m),
{
}

proof fn lemma_import_tag(m: ClassLikeView, tag: Tag)
    ensures
        same_but(Part::Imports, with_import_tag(m, tag), m),
{
}

proof fn lemma_alias_tag(m: ClassLikeView, tag: Tag)
    ensures
        same_but(Part::Aliases, with_alias_tag(m, tag), m),
{
}

proof fn lemma_extends_tag(m: ClassLikeView, tag: Tag)
    ensures
        same_but(Part::Other, with_extends_tag(m, tag), m),
{
}

proof fn lemma_implements_tag(m: ClassLikeView, tag: Tag)
    ensures
        same_but(Part::Other, with_implements_tag(m, tag), m),
{
}

proof fn lemma_require_extends_tag(m: ClassLikeView, tag: Tag)
    ensures
        same_but(Part::Required, with_require_extends_tag(m, tag), m),
{
}

proof fn lemma_require_implements_tag(m: ClassLikeView, tag: Tag)
    ensures
        same_but(Part::Required, with_require_implements_tag(m, tag), m),
{
}

proof fn lemma_mixin_tag(m: ClassLikeView, tag: Tag)
    ensures
        same_but(Part::Mixins, with_mixin_tag(m, tag), m),
{
}

proof fn lemma_property_tag(m: ClassLikeView, tag: Tag)
    ensures
        same_but(Part::MagicProperties, with_property_tag(m, tag), m),
{
}

proof fn lemma_tag(kind: TagKind, m: ClassLikeView, tag: Tag)
    ensures
        same_but(part_of(kind), with_tag(kind, m, tag), m),
{
    reveal(with_tag);
    match kind {
        TagKind::Flag => lemma_flag_tag(m, tag),
        TagKind::Template => lemma_template_tag(m, tag),
        TagKind::Import => lemma_import_tag(m, tag),
        TagKind::Alias => lemma_alias_tag(m, tag),
        TagKind::Extends => lemma_extends_tag(m, tag),
        TagKind::Implements => lemma_implements_tag(m, tag),
        TagKind::RequireExtends => lemma_require_extends_tag(m, tag),
        TagKind::RequireImplements => lemma_require_implements_tag(m, tag),
        TagKind::Mixin => lemma_mixin_tag(m, tag),
        TagKind::Property => lemma_property_tag(m, tag),
    }
}

pub proof fn lemma_tags(kind: TagKind, m: ClassLikeView, tags: Seq<Tag>)
    ensures
        same_but(part_of(kind), with_tags(kind, m, tags), m),
    decreases tags.len(),
{
    if tags.len() > 0 {
        lemma_tags(kind, m, tags.drop_last());
        lemma_tag(kind, with_tags(kind, m, tags.drop_last()), tags.last());
    }
}

pub proof fn lemma_parse_errors(m: ClassLikeView, message: &str, errors: Seq<ParseError>)
    ensures
        same_but(Part::Other, with_parse_errors(m, message, errors), m),
    decreases errors.len(),
{
    if errors.len() > 0 {
        lemma_parse_errors(m, message, errors.drop_last());
    }
}

proof fn lemma_inheritors(m: ClassLikeView, span: Span, inheritors: Seq<AtomicView>)
    ensures
        same_but(Part::Inheritors, with_inheritors(m, span, inheritors), m),
    decreases inheritors.len(),
{
    if inheritors.len() > 0 {
        lemma_inheritors(m, span, inheritors.drop_last());
    }
}

pub proof fn lemma_inheritors_tags(m: ClassLikeView, tags: Seq<Tag>)
    ensures
        same_but(Part::Inheritors, with_inheritors_tags(m, tags), m),
{
    if let Some(t) = last_inheritors(tags) {
        if let Ok(u) = t.resolved {
            lemma_inheritors(m, t.type_span, u@.types);
        }
    }
}

pub proof fn lemma_method_tags(m: ClassLikeView, tags: Seq<Tag>)
    ensures
        same_but(Part::Methods, with_method_tags(m, tags), m),
        with_method_tags(m, tags).declaring_method_ids == m.declaring_method_ids,
    decreases tags.len(),
{
    if tags.len() > 0 {
        lemma_method_tags(m, tags.drop_last());
    }
}

pub proof fn lemma_issues(m: ClassLikeView, issues: Seq<Issue>)
    ensures
        same_but(Part::Other, with_issues(m, issues), m),
    decreases issues.len(),
{
    if issues.len() > 0 {
        lemma_issues(m, issues.drop_last());
    }
}

proof fn lemma_constants(m: ClassLikeView, constants: Seq<ClassLikeConstantMetadata>)
    ensures
        same_but(Part::Constants, with_constants(m, constants), m),
    decreases constants.len(),
{
    if constants.len() > 0 {
        lemma_constants(m, constants.drop_last());
    }
}

pub proof fn lemma_constant_members(m: ClassLikeView, members: Seq<ClassLikeMember>)
    ensures
        same_but(Part::Constants, with_constant_members(m, members), m),
    decreases members.len(),
{
    if members.len() > 0 {
        let rest = with_constant_members(m, members.drop_last());
        lemma_constant_members(m, members.drop_last());
        if let ClassLikeMember::Constant(c) = members.last() {
            lemma_issues(rest, c.issues@);
            lemma_constants(with_issues(rest, c.issues@), c.constants@);
        }
    }
}

pub proof fn lemma_case_members(m: ClassLikeView, members: Seq<ClassLikeMember>)
    ensures
        same_but(Part::Cases, with_case_members(m, members), m),
    decreases members.len(),
{
    if members.len() > 0 {
        lemma_case_members(m, members.drop_last());
    }
}

pub proof fn lemma_enum_properties(m: ClassLikeView, max_cases: int)
    ensures
        same_but(Part::Properties, with_enum_properties(m, max_cases), m),
        m.kind != SymbolKind::Enum ==> with_enum_properties(m, max_cases) == m,
{
}

proof fn lemma_used_traits(m: ClassLikeView, names: Seq<Word>)
    ensures
        same_but(Part::Traits, with_used_traits(m, names), m),
    decreases names.len(),
{
    if names.len() > 0 {
        lemma_used_traits(m, names.drop_last());
    }
}

proof fn lemma_adaptations(m: ClassLikeView, adaptations: Seq<TraitUseAdaptation>)
    ensures
        same_but(Part::Traits, with_adaptations(m, adaptations), m),
        with_adaptations(m, adaptations).used_traits == m.used_traits,
    decreases adaptations.len(),
{
    if adaptations.len() > 0 {
        lemma_adaptations(m, adaptations.drop_last());
    }
}

proof fn lemma_use_tags(kind: UseTagKind, m: ClassLikeView, tags: Seq<Tag>)
    ensures
        same_but(Part::Other, with_use_tags(kind, m, tags), m),
    decreases tags.len(),
{
    if tags.len() > 0 {
        lemma_use_tags(kind, m, tags.drop_last());
    }
}

pub proof fn lemma_use_document(m: ClassLikeView, document: Document)
    ensures
        same_but(Part::Other, with_use_document(m, document), m),
{
    let message = "Failed to parse trait use docblock comment.";
    lemma_parse_errors(m, message, document.errors@);
    let a = with_parse_errors(m, message, document.errors@);
    lemma_use_tags(UseTagKind::Use, a, document.tags@);
    let b = with_use_tags(UseTagKind::Use, a, document.tags@);
    lemma_use_tags(UseTagKind::Implements, b, document.tags@);
    let c = with_use_tags(UseTagKind::Implements, b, document.tags@);
    lemma_use_tags(UseTagKind::Extends, c, document.tags@);
}

pub proof fn lemma_trait_use(m: ClassLikeView, trait_use: TraitUse)
    ensures
        same_but(Part::Traits, with_trait_use(m, trait_use), m),
        with_trait_use(m, trait_use).used_traits == with_used_traits(m, trait_use.names@).used_traits,
{
    lemma_used_traits(m, trait_use.names@);
    let using = with_used_traits(m, trait_use.names@);
    lemma_adaptations(using, trait_use.adaptations@);
    if let Some(document) = trait_use.document {
        lemma_use_document(with_adaptations(using, trait_use.adaptations@), document);
    }
}

pub proof fn lemma_properties(m: ClassLikeView, properties: Seq<PropertyMetadata>)
    ensures
        same_but(Part::Properties, with_properties(m, properties), m),
    decreases properties.len(),
{
    if properties.len() > 0 {
        lemma_properties(m, properties.drop_last());
    }
}

/// What the used traits and the properties of a class-like leave as it is.
pub open spec fn same_frame(a: ClassLikeView, b: ClassLikeView) -> bool {
    same_but(
        Part::Other,
        a,
        ClassLikeView {
            properties: a.properties,
            declaring_property_ids: a.declaring_property_ids,
            appearing_property_ids: a.appearing_property_ids,
            initialized_properties: a.initialized_properties,
            used_traits: a.used_traits,
            trait_alias_map: a.trait_alias_map,
            trait_visibility_map: a.trait_visibility_map,
            trait_final_map: a.trait_final_map,
            ..b
        },
    )
}

pub proof fn lemma_members(m: ClassLikeView, members: Seq<ClassLikeMember>)
    ensures
        same_frame(with_members(m, members), m),
    decreases members.len(),
{
    if members.len() > 0 {
        let rest = with_members(m, members.drop_last());
        lemma_members(m, members.drop_last());
        match members.last() {
            ClassLikeMember::TraitUse(trait_use) => {
                lemma_trait_use(rest, trait_use);
            },
            ClassLikeMember::Property(p) => {
                lemma_issues(rest, p.issues@);
                lemma_properties(with_issues(rest, p.issues@), p.properties@);
            },
            _ => {},
        }
    }
}

/// A name is one of those that are written, in lower case.
pub open spec fn is_written(names: Seq<Seq<u8>>, name: Seq<u8>) -> bool {
    exists|i: int| 0 <= i < names.len() && lowercase(#[trigger] names[i]) == name
}

pub proof fn lemma_interfaces(m: ClassLikeView, names: Seq<Seq<u8>>)
    ensures
        same_but(Part::Parents, with_interfaces(m, names), m),
        with_interfaces(m, names).direct_parent_class == m.direct_parent_class,
        with_interfaces(m, names).all_parent_classes == m.all_parent_classes,
        with_interfaces(m, names).declaring_method_ids == m.declaring_method_ids,
        forall|n: Seq<u8>| #[trigger]
            with_interfaces(m, names).direct_parent_interfaces.contains(n) <==> m.direct_parent_interfaces.contains(n)
                || is_written(names, n),
        forall|n: Seq<u8>| #[trigger]
            with_interfaces(m, names).all_parent_interfaces.contains(n) <==> m.all_parent_interfaces.contains(n)
                || is_written(names, n),
    decreases names.len(),
{
    if names.len() > 0 {
        let rest = names.drop_last();
        lemma_interfaces(m, rest);
        let before = with_interfaces(m, rest);
        let added = lowercase(names.last());
        assert forall|n: Seq<u8>| #[trigger] is_written(names, n) <==> is_written(rest, n) || n == added by {
            if is_written(names, n) {
                let i = choose|i: int| 0 <= i < names.len() && lowercase(#[trigger] names[i]) == n;
                if i < rest.len() {
                    assert(lowercase(rest[i]) == n);
                }
            }
            if is_written(rest, n) {
                let i = choose|i: int| 0 <= i < rest.len() && lowercase(#[trigger] rest[i]) == n;
                assert(lowercase(names[i]) == n);
            }
            if n == added {
                assert(lowercase(names[names.len() - 1]) == n);
            }
        }
        assert forall|n: Seq<u8>| #[trigger]
            with_interfaces(m, names).direct_parent_interfaces.contains(n) <==> m.direct_parent_interfaces.contains(n)
                || is_written(names, n) by {
            crate::collections::lemma_with_item(before.direct_parent_interfaces, added, n);
        }
        assert forall|n: Seq<u8>| #[trigger]
            with_interfaces(m, names).all_parent_interfaces.contains(n) <==> m.all_parent_interfaces.contains(n)
                || is_written(names, n) by {
            crate::collections::lemma_with_item(before.all_parent_interfaces, added, n);
        }
    }
}

// ---- docblocks ----

/// One of the tags says this.
pub open spec fn some_tag(tags: Seq<Tag>, says: spec_fn(Tag) -> bool) -> bool {
    exists|i: int| 0 <= i < tags.len() && says(#[trigger] tags[i])
}

pub proof fn lemma_some_tag(tags: Seq<Tag>, says: spec_fn(Tag) -> bool)
    requires
        tags.len() > 0,
    ensures
        some_tag(tags, says) <==> some_tag(tags.drop_last(), says) || says(tags.last()),
{
    let rest = tags.drop_last();
    if some_tag(tags, says) {
        let i = choose|i: int| 0 <= i < tags.len() && says(#[trigger] tags[i]);
        if i < rest.len() {
            assert(says(rest[i]));
        }
    }
    if some_tag(rest, says) {
        let i = choose|i: int| 0 <= i < rest.len() && says(#[trigger] rest[i]);
        assert(says(tags[i]));
    }
    if says(tags.last()) {
        assert(says(tags[tags.len() - 1]));
    }
}

/// The tags of a declaration: those of the docblock inside it or, where there is none, of the one
/// before it.
pub open spec fn tags_of(d: Declaration) -> Seq<Tag> {
    match (d.docblock_inside, d.docblock_before) {
        (Some(document), _) => document.tags@,
        (None, Some(document)) => document.tags@,
        (None, None) => Seq::empty(),
    }
}

pub open spec fn says_abstract() -> spec_fn(Tag) -> bool {
    |t: Tag| t matches Tag::Common(f) && f.is_abstract
}

pub open spec fn says_final() -> spec_fn(Tag) -> bool {
    |t: Tag| t is Final || (t matches Tag::Common(f) && f.is_final)
}

pub open spec fn says_readonly() -> spec_fn(Tag) -> bool {
    |t: Tag| t matches Tag::Common(f) && f.is_readonly
}

pub open spec fn says_deprecated() -> spec_fn(Tag) -> bool {
    |t: Tag| t matches Tag::Common(f) && f.is_deprecated
}

pub open spec fn says_internal() -> spec_fn(Tag) -> bool {
    |t: Tag| t matches Tag::Common(f) && f.is_internal
}

pub open spec fn says_consistent_constructor() -> spec_fn(Tag) -> bool {
    |t: Tag| t is ConsistentConstructor || (t matches Tag::Common(f) && f.is_consistent_constructor)
}

pub open spec fn says_consistent_templates() -> spec_fn(Tag) -> bool {
    |t: Tag| t is ConsistentTemplates || (t matches Tag::Common(f) && f.is_consistent_templates)
}

pub open spec fn says_enum_interface(kind: SymbolKind) -> spec_fn(Tag) -> bool {
    |t: Tag|
        (t is EnumInterface && kind == SymbolKind::Interface) || (t matches Tag::Common(f) && f.is_enum_interface)
}

/// The flags that a docblock adds.
pub open spec fn has_flags_of(m: ClassLikeView, before: ClassLikeView, tags: Seq<Tag>) -> bool {
    &&& m.flags.is_abstract == (before.flags.is_abstract || some_tag(tags, says_abstract()))
    &&& m.flags.is_final == (before.flags.is_final || some_tag(tags, says_final()))
    &&& m.flags.is_readonly == (before.flags.is_readonly || some_tag(tags, says_readonly()))
    &&& m.flags.is_deprecated == (before.flags.is_deprecated || some_tag(tags, says_deprecated()))
    &&& m.flags.is_internal == (before.flags.is_internal || some_tag(tags, says_internal()))
    &&& m.flags.is_consistent_constructor == (before.flags.is_consistent_constructor || some_tag(
        tags,
        says_consistent_constructor(),
    ))
    &&& m.flags.is_consistent_templates == (before.flags.is_consistent_templates || some_tag(
        tags,
        says_consistent_templates(),
    ))
    &&& m.flags.is_enum_interface == (before.flags.is_enum_interface || some_tag(
        tags,
        says_enum_interface(before.kind),
    ))
    &&& before.flags.is_user_defined ==> m.flags.is_user_defined
    &&& before.flags.is_built_in ==> m.flags.is_built_in
}

proof fn lemma_flags_of_flag_tag(m: ClassLikeView, tag: Tag)
    ensures
        ({
            let d = with_flag_tag(m, tag);
            &&& d.kind == m.kind
            &&& d.flags.is_abstract == (m.flags.is_abstract || says_abstract()(tag))
            &&& d.flags.is_final == (m.flags.is_final || says_final()(tag))
            &&& d.flags.is_readonly == (m.flags.is_readonly || says_readonly()(tag))
            &&& d.flags.is_deprecated == (m.flags.is_deprecated || says_deprecated()(tag))
            &&& d.flags.is_internal == (m.flags.is_internal || says_internal()(tag))
            &&& d.flags.is_consistent_constructor == (m.flags.is_consistent_constructor
                || says_consistent_constructor()(tag))
            &&& d.flags.is_consistent_templates == (m.flags.is_consistent_templates || says_consistent_templates()(tag))
            &&& d.flags.is_enum_interface == (m.flags.is_enum_interface || says_enum_interface(m.kind)(tag))
            &&& m.flags.is_user_defined ==> d.flags.is_user_defined
            &&& m.flags.is_built_in ==> d.flags.is_built_in
        }),
{
}

proof fn lemma_flags_of_tag(m: ClassLikeView, tag: Tag)
    ensures
        ({
            let d = with_tag(TagKind::Flag, m, tag);
            &&& d.kind == m.kind
            &&& d.flags.is_abstract == (m.flags.is_abstract || says_abstract()(tag))
            &&& d.flags.is_final == (m.flags.is_final || says_final()(tag))
            &&& d.flags.is_readonly == (m.flags.is_readonly || says_readonly()(tag))
            &&& d.flags.is_deprecated == (m.flags.is_deprecated || says_deprecated()(tag))
            &&& d.flags.is_internal == (m.flags.is_internal || says_internal()(tag))
            &&& d.flags.is_consistent_constructor == (m.flags.is_consistent_constructor
                || says_consistent_constructor()(tag))
            &&& d.flags.is_consistent_templates == (m.flags.is_consistent_templates || says_consistent_templates()(tag))
            &&& d.flags.is_enum_interface == (m.flags.is_enum_interface || says_enum_interface(m.kind)(tag))
            &&& m.flags.is_user_defined ==> d.flags.is_user_defined
            &&& m.flags.is_built_in ==> d.flags.is_built_in
        }),
{
    reveal(with_tag);
    lemma_flags_of_flag_tag(m, tag);
}

pub proof fn lemma_flag_tags(m: ClassLikeView, tags: Seq<Tag>)
    ensures
        has_flags_of(with_tags(TagKind::Flag, m, tags), m, tags),
        with_tags(TagKind::Flag, m, tags).kind == m.kind,
    decreases tags.len(),
{
    if tags.len() > 0 {
        let rest = tags.drop_last();
        lemma_flag_tags(m, rest);
        lemma_flags_of_tag(with_tags(TagKind::Flag, m, rest), tags.last());
        lemma_some_tag(tags, says_abstract());
        lemma_some_tag(tags, says_final());
        lemma_some_tag(tags, says_readonly());
        lemma_some_tag(tags, says_deprecated());
        lemma_some_tag(tags, says_internal());
        lemma_some_tag(tags, says_consistent_constructor());
        lemma_some_tag(tags, says_consistent_templates());
        lemma_some_tag(tags, says_enum_interface(m.kind));
    }
}

/// The class-like as a docblock is read, up to the tags of a part.
#[verifier::opaque]
pub open spec fn up_to(m: ClassLikeView, document: Document, part: Part) -> ClassLikeView {
    let tags = document.tags@;
    let start = with_parse_errors(m, "Failed to parse class-like docblock comment.", document.errors@);
    let flags = with_tags(TagKind::Flag, start, tags);
    let templates = with_tags(TagKind::Template, flags, tags);
    let imports = with_tags(TagKind::Import, templates, tags);
    let aliases = with_tags(TagKind::Alias, imports, tags);
    let extends = with_tags(TagKind::Extends, aliases, tags);
    let implements = with_tags(TagKind::Implements, extends, tags);
    let required = with_tags(TagKind::RequireExtends, implements, tags);
    let both = with_tags(TagKind::RequireImplements, required, tags);
    let inheritors = with_inheritors_tags(both, tags);
    let mixins = with_tags(TagKind::Mixin, inheritors, tags);
    let methods = with_method_tags(mixins, tags);
    match part {
        Part::Flags => start,
        Part::Templates => flags,
        Part::Imports => templates,
        Part::Aliases => imports,
        Part::Required => implements,
        Part::Inheritors => both,
        Part::Mixins => inheritors,
        Part::Methods => mixins,
        Part::MagicProperties => methods,
        _ => m,
    }
}

/// Each part of a docblock is read as if it were alone.
pub proof fn lemma_document(m: ClassLikeView, document: Document)
    ensures
        ({
            let tags = document.tags@;
            let d = with_document(m, document);
            &&& d.flags == with_tags(TagKind::Flag, up_to(m, document, Part::Flags), tags).flags
            &&& up_to(m, document, Part::Flags).flags == m.flags
            &&& up_to(m, document, Part::Flags).kind == m.kind
            &&& d.template_types == with_tags(TagKind::Template, up_to(m, document, Part::Templates), tags).template_types
            &&& up_to(m, document, Part::Templates).template_types == m.template_types
            &&& up_to(m, document, Part::Templates).name == m.name
            &&& d.imported_type_aliases == with_tags(
                TagKind::Import,
                up_to(m, document, Part::Imports),
                tags,
            ).imported_type_aliases
            &&& up_to(m, document, Part::Imports).imported_type_aliases == m.imported_type_aliases
            &&& up_to(m, document, Part::Imports).name == m.name
            &&& d.type_aliases == with_tags(TagKind::Alias, up_to(m, document, Part::Aliases), tags).type_aliases
            &&& up_to(m, document, Part::Aliases).type_aliases == m.type_aliases
            &&& d.mixins == with_tags(TagKind::Mixin, up_to(m, document, Part::Mixins), tags).mixins
            &&& up_to(m, document, Part::Mixins).mixins == m.mixins
            &&& d.permitted_inheritors == with_inheritors_tags(
                up_to(m, document, Part::Inheritors),
                tags,
            ).permitted_inheritors
            &&& up_to(m, document, Part::Inheritors).permitted_inheritors == m.permitted_inheritors
            &&& d.methods == with_method_tags(up_to(m, document, Part::Methods), tags).methods
            &&& d.pseudo_methods == with_method_tags(up_to(m, document, Part::Methods), tags).pseudo_methods
            &&& d.inheritable_method_ids == with_method_tags(
                up_to(m, document, Part::Methods),
                tags,
            ).inheritable_method_ids
            &&& up_to(m, document, Part::Methods).methods == m.methods
            &&& up_to(m, document, Part::Methods).pseudo_methods == m.pseudo_methods
            &&& up_to(m, document, Part::Methods).name == m.name
            &&& d.magic_properties == with_tags(
                TagKind::Property,
                up_to(m, document, Part::MagicProperties),
                tags,
            ).magic_properties
            &&& up_to(m, document, Part::MagicProperties).magic_properties == m.magic_properties
            &&& d.require_extends == with_tags(
                TagKind::RequireExtends,
                up_to(m, document, Part::Required),
                tags,
            ).require_extends
            &&& up_to(m, document, Part::Required).require_extends == m.require_extends
            &&& d.declaring_method_ids == m.declaring_method_ids
            &&& d.constants == m.constants
            &&& d.enum_cases == m.enum_cases
            &&& d.enum_case_names == m.enum_case_names
            &&& d.properties == m.properties
            &&& d.declaring_property_ids == m.declaring_property_ids
            &&& d.initialized_properties == m.initialized_properties
            &&& d.used_traits == m.used_traits
            &&& d.direct_parent_class == m.direct_parent_class
            &&& d.all_parent_classes == m.all_parent_classes
            &&& d.direct_parent_interfaces == m.direct_parent_interfaces
            &&& d.all_parent_interfaces == m.all_parent_interfaces
            &&& d.attributes == m.attributes
            &&& d.kind == m.kind
            &&& d.name == m.name
            &&& d.enum_type == m.enum_type
            &&& d.name_span == m.name_span
            &&& d.span == m.span
            &&& d.original_name == m.original_name
            &&& d.version_constraint == m.version_constraint
            &&& d.attribute_flags == m.attribute_flags
        }),
{
    let tags = document.tags@;
    reveal(with_document);
    reveal(up_to);
    let message = "Failed to parse class-like docblock comment.";
    lemma_parse_errors(m, message, document.errors@);
    let start = with_parse_errors(m, message, document.errors@);
    lemma_tags(TagKind::Flag, start, tags);
    let flags = with_tags(TagKind::Flag, start, tags);
    lemma_tags(TagKind::Template, flags, tags);
    let templates = with_tags(TagKind::Template, flags, tags);
    lemma_tags(TagKind::Import, templates, tags);
    let imports = with_tags(TagKind::Import, templates, tags);
    lemma_tags(TagKind::Alias, imports, tags);
    let aliases = with_tags(TagKind::Alias, imports, tags);
    lemma_tags(TagKind::Extends, aliases, tags);
    let extends = with_tags(TagKind::Extends, aliases, tags);
    lemma_tags(TagKind::Implements, extends, tags);
    let implements = with_tags(TagKind::Implements, extends, tags);
    lemma_tags(TagKind::RequireExtends, implements, tags);
    let required = with_tags(TagKind::RequireExtends, implements, tags);
    lemma_tags(TagKind::RequireImplements, required, tags);
    lemma_require_implements_keeps(required, tags);
    let both = with_tags(TagKind::RequireImplements, required, tags);
    lemma_inheritors_tags(both, tags);
    let inheritors = with_inheritors_tags(both, tags);
    lemma_tags(TagKind::Mixin, inheritors, tags);
    let mixins = with_tags(TagKind::Mixin, inheritors, tags);
    lemma_method_tags(mixins, tags);
    let methods = with_method_tags(mixins, tags);
    lemma_tags(TagKind::Property, methods, tags);
}

proof fn lemma_require_implements_keeps(m: ClassLikeView, tags: Seq<Tag>)
    ensures
        with_tags(TagKind::RequireImplements, m, tags).require_extends == m.require_extends,
    decreases tags.len(),
{
    if tags.len() > 0 {
        reveal(with_tag);
        lemma_require_implements_keeps(m, tags.drop_last());
    }
}

} // verus!
