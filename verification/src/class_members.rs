//! What the members of a class-like say of it.

use vstd::prelude::*;

use crate::class_docblock::report_parse_errors;
use crate::class_docblock::with_parse_errors;
use crate::class_tags::single_symbol;
use crate::docblock::make_tag_issue;
use crate::docblock::make_typing_error_issue;
use crate::docblock::tag_issue;
use crate::docblock::typing_error_issue;
use crate::docblock::Document;
use crate::docblock::Tag;
use crate::issue::Issue;
use crate::issue::IssueCode;
use crate::issue::Span;
use crate::metadata::declared_type;
use crate::metadata::no_flags;
use crate::metadata::ClassLikeConstantMetadata;
use crate::metadata::ClassLikeMetadata;
use crate::metadata::ClassLikeView;
use crate::metadata::EnumCaseMetadata;
use crate::metadata::EnumCaseView;
use crate::metadata::MetadataFlags;
use crate::metadata::PropertyMetadata;
use crate::metadata::PropertyView;
use crate::metadata::SymbolKind;
use crate::metadata::TypeList;
use crate::metadata::TypeMetadata;
use crate::metadata::Visibility;
use crate::ttype::atomics_model;
use crate::ttype::unions_model;
use crate::ttype::AtomicView;
use crate::ttype::SymbolReferenceView;
use crate::ttype::TAtomic;
use crate::ttype::TReference;
use crate::ttype::TScalar;
use crate::ttype::TString;
use crate::ttype::TSymbolReference;
use crate::ttype::TUnion;
use crate::ttype::UnionView;
use crate::type_build::general_string;
use crate::type_build::get_string;
use crate::type_build::literal_string;
use crate::type_build::string_atomic;
use crate::type_build::union_of;
use crate::type_build::wrap_atomic;
use crate::type_copy::copy_unions;
use crate::word::ascii_lowercase_word;
use crate::word::copy_word;
use crate::word::lowercase;
use crate::word::make_phrase;
use crate::word::phrase;
use crate::word::text;
use crate::word::word;
use crate::word::Word;

verus! {

#[derive(Clone, Copy, Debug, PartialEq, Eq, Structural)]
pub enum Modifier {
    Static,
    Final,
    Abstract,
    Readonly,
    Public,
    Protected,
    Private,
    Other,
}

/// Another name or another visibility for a method of a trait.
pub struct AliasAdaptation {
    pub method: Word,
    pub alias: Option<Word>,
    pub modifier: Option<Modifier>,
}

pub enum TraitUseAdaptation {
    Precedence,
    Alias(AliasAdaptation),
}

/// The use of traits, each by its resolved name.
pub struct TraitUse {
    pub names: Vec<Word>,
    pub adaptations: Vec<TraitUseAdaptation>,
    pub document: Option<Document>,
}

/// The constants of one declaration, and what was reported while they were read.
pub struct ConstantMember {
    pub constants: Vec<ClassLikeConstantMetadata>,
    pub issues: Vec<Issue>,
}

/// The properties of one declaration, and what was reported while they were read.
pub struct PropertyMember {
    pub properties: Vec<PropertyMetadata>,
    pub issues: Vec<Issue>,
}

pub enum ClassLikeMember {
    Constant(ConstantMember),
    EnumCase(EnumCaseMetadata),
    TraitUse(TraitUse),
    Property(PropertyMember),
    Other,
}

// ---- constants and cases ----

/// The reports that are made while a member is read.
pub open spec fn with_issues(m: ClassLikeView, issues: Seq<Issue>) -> ClassLikeView
    decreases issues.len(),
{
    if issues.len() == 0 {
        m
    } else {
        with_issues(m, issues.drop_last()).report(issues.last()@)
    }
}

fn report_issues(meta: &mut ClassLikeMetadata, issues: &Vec<Issue>)
    ensures
        final(meta)@ == with_issues(old(meta)@, issues@),
{
    let ghost start = meta@;
    let mut i: usize = 0;
    while i < issues.len()
        invariant
            i <= issues@.len(),
            meta@ == with_issues(start, issues@.take(i as int)),
        decreases issues@.len() - i,
    {
        assert(issues@.take(i + 1).drop_last() =~= issues@.take(i as int));
        assert(issues@.take(i + 1).last() == issues@[i as int]);
        meta.report(issues[i].copy());
        i = i + 1;
    }
    assert(issues@.take(i as int) =~= issues@);
}

/// The constants of one declaration: of two with one name the first counts.
pub open spec fn with_constants(m: ClassLikeView, constants: Seq<ClassLikeConstantMetadata>) -> ClassLikeView
    decreases constants.len(),
{
    if constants.len() == 0 {
        m
    } else {
        let rest = with_constants(m, constants.drop_last());
        if rest.constants.contains_key(constants.last().name@) {
            rest
        } else {
            rest.add_constant(constants.last()@)
        }
    }
}

fn add_constants(meta: &mut ClassLikeMetadata, constants: &Vec<ClassLikeConstantMetadata>)
    ensures
        final(meta)@ == with_constants(old(meta)@, constants@),
{
    let ghost start = meta@;
    let mut i: usize = 0;
    while i < constants.len()
        invariant
            i <= constants@.len(),
            meta@ == with_constants(start, constants@.take(i as int)),
        decreases constants@.len() - i,
    {
        assert(constants@.take(i + 1).drop_last() =~= constants@.take(i as int));
        assert(constants@.take(i + 1).last() == constants@[i as int]);
        if !meta.constants.contains_key(&constants[i].name) {
            meta.add_constant(constants[i].copy());
        }
        i = i + 1;
    }
    assert(constants@.take(i as int) =~= constants@);
}

/// What a member changes when the constants are read.
pub open spec fn with_constant_member(m: ClassLikeView, member: ClassLikeMember) -> ClassLikeView {
    match member {
        ClassLikeMember::Constant(c) => with_constants(with_issues(m, c.issues@), c.constants@),
        _ => m,
    }
}

pub open spec fn with_constant_members(m: ClassLikeView, members: Seq<ClassLikeMember>) -> ClassLikeView
    decreases members.len(),
{
    if members.len() == 0 {
        m
    } else {
        with_constant_member(with_constant_members(m, members.drop_last()), members.last())
    }
}

/// Reads the constants of a class-like. The cases of an enum are read when these are known.
pub fn scan_constants(meta: &mut ClassLikeMetadata, members: &Vec<ClassLikeMember>)
    ensures
        final(meta)@ == with_constant_members(old(meta)@, members@),
{
    let ghost start = meta@;
    let mut i: usize = 0;
    while i < members.len()
        invariant
            i <= members@.len(),
            meta@ == with_constant_members(start, members@.take(i as int)),
        decreases members@.len() - i,
    {
        assert(members@.take(i + 1).drop_last() =~= members@.take(i as int));
        assert(members@.take(i + 1).last() == members@[i as int]);
        if let ClassLikeMember::Constant(c) = &members[i] {
            report_issues(meta, &c.issues);
            add_constants(meta, &c.constants);
        }
        i = i + 1;
    }
    assert(members@.take(i as int) =~= members@);
}

/// The cases of an enum: one with the name of a constant does not count.
pub open spec fn with_case_members(m: ClassLikeView, members: Seq<ClassLikeMember>) -> ClassLikeView
    decreases members.len(),
{
    if members.len() == 0 {
        m
    } else {
        let rest = with_case_members(m, members.drop_last());
        match members.last() {
            ClassLikeMember::EnumCase(case) => if rest.constants.contains_key(case.name@) {
                rest
            } else {
                rest.add_enum_case(case@)
            },
            _ => rest,
        }
    }
}

/// Reads the cases of an enum.
pub fn scan_enum_cases(meta: &mut ClassLikeMetadata, members: &Vec<ClassLikeMember>)
    ensures
        final(meta)@ == with_case_members(old(meta)@, members@),
{
    let ghost start = meta@;
    let mut i: usize = 0;
    while i < members.len()
        invariant
            i <= members@.len(),
            meta@ == with_case_members(start, members@.take(i as int)),
        decreases members@.len() - i,
    {
        assert(members@.take(i + 1).drop_last() =~= members@.take(i as int));
        assert(members@.take(i + 1).last() == members@[i as int]);
        if let ClassLikeMember::EnumCase(case) = &members[i] {
            if !meta.constants.contains_key(&case.name) {
                meta.add_enum_case(case.copy());
            }
        }
        i = i + 1;
    }
    assert(members@.take(i as int) =~= members@);
}

// ---- the properties of an enum ----

/// The types of the names of cases, each known.
pub open spec fn case_name_types(names: Seq<Seq<u8>>) -> Seq<AtomicView> {
    names.map_values(|name: Seq<u8>| string_atomic(literal_string(name)))
}

/// The types of the values of cases; `backing` is that of a value that is not known.
pub open spec fn case_value_types(
    names: Seq<Seq<u8>>,
    cases: Map<Seq<u8>, EnumCaseView>,
    backing: AtomicView,
) -> Seq<AtomicView> {
    names.map_values(
        |name: Seq<u8>|
            match cases[name].value_type {
                Some(t) => t,
                None => backing,
            },
    )
}

/// The cases whose names and values are looked at: all of them, if they are not too many.
pub open spec fn analysed_cases(m: ClassLikeView, max_cases: int) -> Seq<Seq<u8>> {
    if m.enum_case_names.len() <= max_cases {
        m.enum_case_names
    } else {
        Seq::empty()
    }
}

/// The type of the name of a case.
pub open spec fn enum_name_type(m: ClassLikeView, max_cases: int) -> UnionView {
    let names = analysed_cases(m, max_cases);
    if names.len() == 0 {
        union_of(string_atomic(general_string()))
    } else {
        UnionView { types: case_name_types(names) }
    }
}

/// The type of the value of a case of a backed enum.
pub open spec fn enum_value_type(m: ClassLikeView, max_cases: int, backing: AtomicView) -> UnionView {
    let names = analysed_cases(m, max_cases);
    if names.len() == 0 {
        union_of(backing)
    } else {
        UnionView { types: case_value_types(names, m.enum_cases, backing) }
    }
}

/// A property that each case of an enum has.
pub open spec fn enum_property(
    name: Seq<u8>,
    declared: UnionView,
    known: UnionView,
    span: Span,
) -> PropertyView {
    PropertyView {
        type_declaration_metadata: Some(declared_type(declared, span)),
        type_metadata: Some(declared_type(known, span)),
        ..PropertyView::new(name, MetadataFlags { is_readonly: true, has_default: true, ..no_flags() })
    }
}

/// An enum with the properties that each of its cases has: the name and, in a backed enum, the
/// value.
pub open spec fn with_enum_properties(m: ClassLikeView, max_cases: int) -> ClassLikeView {
    match m.name_span {
        Some(span) => if m.kind == SymbolKind::Enum {
            let named = m.add_property_metadata(
                enum_property(
                    text("$name"),
                    union_of(string_atomic(general_string())),
                    enum_name_type(m, max_cases),
                    span,
                ),
            );
            match m.enum_type {
                Some(backing) => named.add_property_metadata(
                    enum_property(text("$value"), union_of(backing), enum_value_type(m, max_cases, backing), span),
                ),
                None => named,
            }
        } else {
            m
        },
        None => m,
    }
}

fn make_enum_property(name: &str, declared: TUnion, known: TUnion, span: Span) -> (property: PropertyMetadata)
    ensures
        property@ == enum_property(text(name), declared@, known@, span),
{
    let mut property: PropertyMetadata = PropertyMetadata::new(
        word(name),
        MetadataFlags { is_readonly: true, has_default: true, ..MetadataFlags::empty() },
    );
    property.type_declaration_metadata = Some(TypeMetadata::new(declared, span));
    property.type_metadata = Some(TypeMetadata::new(known, span));
    property
}

/// The types of the names of the cases.
fn collect_name_types(meta: &ClassLikeMetadata) -> (types: Vec<TAtomic>)
    ensures
        atomics_model(types) == case_name_types(meta@.enum_case_names),
{
    let ghost names = meta@.enum_case_names;
    let mut types: Vec<TAtomic> = Vec::new();
    let mut i: usize = 0;
    while i < meta.enum_cases.len()
        invariant
            i <= names.len(),
            names == meta.enum_cases.keys(),
            types@.len() == i,
            forall|j: int| 0 <= j < i ==> #[trigger] types@[j].model() == string_atomic(literal_string(names[j])),
        decreases names.len() - i,
    {
        let name: Word = copy_word(meta.enum_cases.key_at(i).as_slice());
        types.push(TAtomic::Scalar(TScalar::String(TString::known_literal(name))));
        i = i + 1;
    }
    assert forall|j: int| 0 <= j < names.len() implies atomics_model(types)[j] == case_name_types(names)[j] by {
        assert(types@[j].model() == string_atomic(literal_string(names[j])));
    }
    assert(atomics_model(types) =~= case_name_types(names));
    types
}

/// The types of the values of the cases.
fn collect_value_types(meta: &ClassLikeMetadata, backing: &TAtomic) -> (types: Vec<TAtomic>)
    ensures
        atomics_model(types) == case_value_types(meta@.enum_case_names, meta@.enum_cases, backing@),
{
    let ghost names = meta@.enum_case_names;
    let ghost cases = meta@.enum_cases;
    let ghost all = case_value_types(names, cases, backing@);
    let mut types: Vec<TAtomic> = Vec::new();
    proof {
        meta.enum_cases.lemma_keys();
    }
    let mut i: usize = 0;
    while i < meta.enum_cases.len()
        invariant
            i <= names.len(),
            names == meta.enum_cases.keys(),
            cases == meta.enum_cases@,
            all == case_value_types(names, cases, backing@),
            forall|k: Seq<u8>| #[trigger] cases.contains_key(k) <==> names.contains(k),
            types@.len() == i,
            forall|j: int| 0 <= j < i ==> #[trigger] types@[j].model() == all[j],
        decreases names.len() - i,
    {
        let name = meta.enum_cases.key_at(i);
        assert(names.contains(names[i as int]));
        assert(cases.contains_key(name@));
        let value: Option<TAtomic> = match meta.enum_cases.get(name) {
            Some(case) => match &case.value_type {
                Some(t) => Some(t.copy()),
                None => None,
            },
            None => None,
        };
        match value {
            Some(t) => types.push(t),
            None => types.push(backing.copy()),
        }
        i = i + 1;
    }
    assert forall|j: int| 0 <= j < names.len() implies atomics_model(types)[j] == all[j] by {
        assert(types@[j].model() == all[j]);
    }
    assert(atomics_model(types) =~= all);
    types
}

/// Adds the properties that each case of an enum has.
pub fn add_enum_properties(meta: &mut ClassLikeMetadata, max_cases: usize)
    ensures
        final(meta)@ == with_enum_properties(old(meta)@, max_cases as int),
{
    if meta.kind != SymbolKind::Enum {
        return;
    }
    let Some(span) = meta.name_span else {
        return;
    };
    let ghost start = meta@;
    let few: bool = meta.enum_cases.len() <= max_cases;
    let any: bool = few && meta.enum_cases.len() > 0;
    let name_type: TUnion = if any {
        TUnion { types: collect_name_types(meta) }
    } else {
        get_string()
    };
    assert(name_type@ == enum_name_type(start, max_cases as int));
    let name_property = make_enum_property("$name", get_string(), name_type, span);
    let value_property: Option<PropertyMetadata> = match &meta.enum_type {
        Some(backing) => {
            let value_type: TUnion = if any {
                TUnion { types: collect_value_types(meta, backing) }
            } else {
                wrap_atomic(backing.copy())
            };
            assert(value_type@ == enum_value_type(start, max_cases as int, backing@));
            Some(make_enum_property("$value", wrap_atomic(backing.copy()), value_type, span))
        },
        None => None,
    };
    meta.add_property_metadata(name_property);
    if let Some(property) = value_property {
        meta.add_property_metadata(property);
    }
}

// ---- traits ----

pub open spec fn with_used_traits(m: ClassLikeView, names: Seq<Word>) -> ClassLikeView
    decreases names.len(),
{
    if names.len() == 0 {
        m
    } else {
        with_used_traits(m, names.drop_last()).add_used_trait(lowercase(names.last()@))
    }
}

fn add_used_traits(meta: &mut ClassLikeMetadata, names: &Vec<Word>)
    ensures
        final(meta)@ == with_used_traits(old(meta)@, names@),
{
    let ghost start = meta@;
    let mut i: usize = 0;
    while i < names.len()
        invariant
            i <= names@.len(),
            meta@ == with_used_traits(start, names@.take(i as int)),
        decreases names@.len() - i,
    {
        assert(names@.take(i + 1).drop_last() =~= names@.take(i as int));
        assert(names@.take(i + 1).last() == names@[i as int]);
        meta.add_used_trait(ascii_lowercase_word(names[i].as_slice()));
        i = i + 1;
    }
    assert(names@.take(i as int) =~= names@);
}

/// The visibility that a modifier gives.
pub open spec fn modifier_visibility(modifier: Modifier) -> Option<Visibility> {
    match modifier {
        Modifier::Public => Some(Visibility::Public),
        Modifier::Protected => Some(Visibility::Protected),
        Modifier::Private => Some(Visibility::Private),
        _ => None,
    }
}

/// What an adaptation of a trait changes. A modifier is for the alias, where there is one.
pub open spec fn with_adaptation(m: ClassLikeView, adaptation: TraitUseAdaptation) -> ClassLikeView {
    match adaptation {
        TraitUseAdaptation::Precedence => m,
        TraitUseAdaptation::Alias(a) => {
            let method = lowercase(a.method@);
            let adapted = match a.alias {
                Some(alias) => lowercase(alias@),
                None => method,
            };
            let aliased = if a.alias is Some {
                m.add_trait_alias(method, adapted)
            } else {
                m
            };
            match a.modifier {
                Some(modifier) => match modifier_visibility(modifier) {
                    Some(visibility) => aliased.add_trait_visibility(adapted, visibility),
                    None => if modifier == Modifier::Final {
                        aliased.add_trait_final(adapted)
                    } else {
                        aliased
                    },
                },
                None => aliased,
            }
        },
    }
}

fn apply_adaptation(meta: &mut ClassLikeMetadata, adaptation: &TraitUseAdaptation)
    ensures
        final(meta)@ == with_adaptation(old(meta)@, *adaptation),
{
    let TraitUseAdaptation::Alias(a) = adaptation else {
        return;
    };
    let method: Word = ascii_lowercase_word(a.method.as_slice());
    let adapted: Word = match &a.alias {
        Some(alias) => ascii_lowercase_word(alias.as_slice()),
        None => copy_word(method.as_slice()),
    };
    if a.alias.is_some() {
        meta.add_trait_alias(method, copy_word(adapted.as_slice()));
    }
    let Some(modifier) = a.modifier else {
        return;
    };
    match modifier {
        Modifier::Public => meta.add_trait_visibility(adapted, Visibility::Public),
        Modifier::Protected => meta.add_trait_visibility(adapted, Visibility::Protected),
        Modifier::Private => meta.add_trait_visibility(adapted, Visibility::Private),
        Modifier::Final => meta.add_trait_final(adapted),
        _ => {},
    }
}

pub open spec fn with_adaptations(m: ClassLikeView, adaptations: Seq<TraitUseAdaptation>) -> ClassLikeView
    decreases adaptations.len(),
{
    if adaptations.len() == 0 {
        m
    } else {
        with_adaptation(with_adaptations(m, adaptations.drop_last()), adaptations.last())
    }
}

fn apply_adaptations(meta: &mut ClassLikeMetadata, adaptations: &Vec<TraitUseAdaptation>)
    ensures
        final(meta)@ == with_adaptations(old(meta)@, adaptations@),
{
    let ghost start = meta@;
    let mut i: usize = 0;
    while i < adaptations.len()
        invariant
            i <= adaptations@.len(),
            meta@ == with_adaptations(start, adaptations@.take(i as int)),
        decreases adaptations@.len() - i,
    {
        assert(adaptations@.take(i + 1).drop_last() =~= adaptations@.take(i as int));
        assert(adaptations@.take(i + 1).last() == adaptations@[i as int]);
        apply_adaptation(meta, &adaptations[i]);
        i = i + 1;
    }
    assert(adaptations@.take(i as int) =~= adaptations@);
}

/// What a `@use` tag that names `symbol` changes.
pub open spec fn with_trait_arguments(m: ClassLikeView, span: Span, symbol: SymbolReferenceView) -> ClassLikeView {
    let name = lowercase(symbol.name);
    if !m.used_traits.contains(name) {
        m.report(
            tag_issue(
                "The `@use` tag must refer to a trait that is used.",
                IssueCode::InvalidUseTag,
                span,
                phrase("The trait `", symbol.name, "` is not used in this class."),
                "The `@use` tag is used to provide type information for the trait that is used in this class.",
                phrase("Ensure this class's definition includes `use ", symbol.name, ";`."),
            ),
        )
    } else if symbol.parameters is Some && symbol.parameters->0.len() > 0 {
        m.set_uses_count(name, symbol.parameters->0.len() as usize).add_template_extended_offset(
            name,
            symbol.parameters->0,
        )
    } else {
        m.report(
            tag_issue(
                "The `@use` tag must specify type parameters.",
                IssueCode::InvalidUseTag,
                span,
                text("This tag must provide type parameters for the trait."),
                "The `@use` tag is used to provide type information for the trait that is used in this class.",
                text("Provide type parameters, e.g., `@use MyTrait<string>`."),
            ),
        )
    }
}

fn apply_trait_arguments(meta: &mut ClassLikeMetadata, span: Span, symbol: &TSymbolReference)
    ensures
        final(meta)@ == with_trait_arguments(old(meta)@, span, symbol.model()),
{
    let name: Word = ascii_lowercase_word(symbol.name.as_slice());
    if !meta.used_traits.contains(&name) {
        meta.report(
            make_tag_issue(
                "The `@use` tag must refer to a trait that is used.",
                IssueCode::InvalidUseTag,
                span,
                make_phrase("The trait `", symbol.name.as_slice(), "` is not used in this class."),
                "The `@use` tag is used to provide type information for the trait that is used in this class.",
                make_phrase("Ensure this class's definition includes `use ", symbol.name.as_slice(), ";`."),
            ),
        );
        return;
    }
    if let Some(arguments) = &symbol.parameters {
        assert(unions_model(*arguments).len() == arguments.len());
        if arguments.len() > 0 {
            meta.set_uses_count(copy_word(name.as_slice()), arguments.len());
            meta.add_template_extended_offset(name, TypeList { types: copy_unions(arguments) });
            return;
        }
    }
    meta.report(
        make_tag_issue(
            "The `@use` tag must specify type parameters.",
            IssueCode::InvalidUseTag,
            span,
            word("This tag must provide type parameters for the trait."),
            "The `@use` tag is used to provide type information for the trait that is used in this class.",
            word("Provide type parameters, e.g., `@use MyTrait<string>`."),
        ),
    );
}

/// What a `@use` tag at a use of traits changes.
pub open spec fn with_use_tag(m: ClassLikeView, tag: Tag) -> ClassLikeView {
    match tag {
        Tag::Use(t) => match t.resolved {
            Err(e) => m.report(
                typing_error_issue(
                    "Could not resolve the trait type in the `@use` tag.",
                    IssueCode::InvalidUseTag,
                    e,
                ),
            ),
            Ok(u) => if u@.types.len() != 1 {
                m.report(
                    tag_issue(
                        "The `@use` tag expects a single trait type.",
                        IssueCode::InvalidUseTag,
                        t.type_span,
                        text("Union types are not allowed here."),
                        "The `@use` tag provides concrete types for generics from a trait.",
                        text("Provide a single trait type, e.g., `@use MyTrait<string>`."),
                    ),
                )
            } else if single_symbol(u@) is None || single_symbol(u@)->0.intersection_types is Some {
                m.report(
                    tag_issue(
                        "The `@use` tag expects a single trait type.",
                        IssueCode::InvalidUseTag,
                        t.type_span,
                        text("This must be a trait name, not a primitive or other complex type."),
                        "The `@use` tag provides concrete types for generics from a trait.",
                        text("Provide the single trait type, e.g., `@use MyTrait<string>`."),
                    ),
                )
            } else {
                with_trait_arguments(m, t.type_span, single_symbol(u@)->0)
            },
        },
        _ => m,
    }
}

fn apply_use_tag(meta: &mut ClassLikeMetadata, tag: &Tag)
    ensures
        final(meta)@ == with_use_tag(old(meta)@, *tag),
{
    let Tag::Use(t) = tag else {
        return;
    };
    match &t.resolved {
        Err(e) => meta.report(
            make_typing_error_issue(
                "Could not resolve the trait type in the `@use` tag.",
                IssueCode::InvalidUseTag,
                e,
            ),
        ),
        Ok(u) => {
            assert(u@.types.len() == u.types.len());
            if u.types.len() != 1 {
                meta.report(
                    make_tag_issue(
                        "The `@use` tag expects a single trait type.",
                        IssueCode::InvalidUseTag,
                        t.type_span,
                        word("Union types are not allowed here."),
                        "The `@use` tag provides concrete types for generics from a trait.",
                        word("Provide a single trait type, e.g., `@use MyTrait<string>`."),
                    ),
                );
                return;
            }
            assert(u@.types[0] == u.types@[0].model());
            if let TAtomic::Reference(TReference::Symbol(symbol)) = &u.types[0] {
                if symbol.intersection_types.is_none() {
                    apply_trait_arguments(meta, t.type_span, symbol);
                    return;
                }
            }
            meta.report(
                make_tag_issue(
                    "The `@use` tag expects a single trait type.",
                    IssueCode::InvalidUseTag,
                    t.type_span,
                    word("This must be a trait name, not a primitive or other complex type."),
                    "The `@use` tag provides concrete types for generics from a trait.",
                    word("Provide the single trait type, e.g., `@use MyTrait<string>`."),
                ),
            );
        },
    }
}

/// What an `@implements` tag at a use of traits changes: it has no place there.
pub open spec fn with_misplaced_implements(m: ClassLikeView, tag: Tag) -> ClassLikeView {
    match tag {
        Tag::Implements(t) => m.report(
            tag_issue(
                "The `@implements` tag is not allowed in trait use.",
                IssueCode::InvalidUseTag,
                t.span,
                text("Use `@use` for traits, not `@implements`."),
                "The `@implements` tag is used for interface, not traits.",
                text("Use `@use` to provide type information for traits."),
            ),
        ),
        _ => m,
    }
}

fn report_misplaced_implements(meta: &mut ClassLikeMetadata, tag: &Tag)
    ensures
        final(meta)@ == with_misplaced_implements(old(meta)@, *tag),
{
    if let Tag::Implements(t) = tag {
        meta.report(
            make_tag_issue(
                "The `@implements` tag is not allowed in trait use.",
                IssueCode::InvalidUseTag,
                t.span,
                word("Use `@use` for traits, not `@implements`."),
                "The `@implements` tag is used for interface, not traits.",
                word("Use `@use` to provide type information for traits."),
            ),
        );
    }
}

/// What an `@extends` tag at a use of traits changes: it has no place there.
pub open spec fn with_misplaced_extends(m: ClassLikeView, tag: Tag) -> ClassLikeView {
    match tag {
        Tag::Extends(t) => m.report(
            tag_issue(
                "The `@extends` tag is not allowed in trait use.",
                IssueCode::InvalidUseTag,
                t.span,
                text("Use `@use` for traits, not `@extends`."),
                "The `@extends` tag is used for classes and interfaces, not traits.",
                text("Use `@use` to provide type information for traits."),
            ),
        ),
        _ => m,
    }
}

fn report_misplaced_extends(meta: &mut ClassLikeMetadata, tag: &Tag)
    ensures
        final(meta)@ == with_misplaced_extends(old(meta)@, *tag),
{
    if let Tag::Extends(t) = tag {
        meta.report(
            make_tag_issue(
                "The `@extends` tag is not allowed in trait use.",
                IssueCode::InvalidUseTag,
                t.span,
                word("Use `@use` for traits, not `@extends`."),
                "The `@extends` tag is used for classes and interfaces, not traits.",
                word("Use `@use` to provide type information for traits."),
            ),
        );
    }
}

/// The kinds of tags that are looked at, one after the other, at a use of traits.
#[derive(Clone, Copy, Debug, PartialEq, Eq, Structural)]
pub enum UseTagKind {
    Use,
    Implements,
    Extends,
}

pub open spec fn with_use_tags(kind: UseTagKind, m: ClassLikeView, tags: Seq<Tag>) -> ClassLikeView
    decreases tags.len(),
{
    if tags.len() == 0 {
        m
    } else {
        let rest = with_use_tags(kind, m, tags.drop_last());
        match kind {
            UseTagKind::Use => with_use_tag(rest, tags.last()),
            UseTagKind::Implements => with_misplaced_implements(rest, tags.last()),
            UseTagKind::Extends => with_misplaced_extends(rest, tags.last()),
        }
    }
}

fn apply_use_tags(kind: UseTagKind, meta: &mut ClassLikeMetadata, tags: &Vec<Tag>)
    ensures
        final(meta)@ == with_use_tags(kind, old(meta)@, tags@),
{
    let ghost start = meta@;
    let mut i: usize = 0;
    while i < tags.len()
        invariant
            i <= tags@.len(),
            meta@ == with_use_tags(kind, start, tags@.take(i as int)),
        decreases tags@.len() - i,
    {
        assert(tags@.take(i + 1).drop_last() =~= tags@.take(i as int));
        assert(tags@.take(i + 1).last() == tags@[i as int]);
        match kind {
            UseTagKind::Use => apply_use_tag(meta, &tags[i]),
            UseTagKind::Implements => report_misplaced_implements(meta, &tags[i]),
            UseTagKind::Extends => report_misplaced_extends(meta, &tags[i]),
        }
        i = i + 1;
    }
    assert(tags@.take(i as int) =~= tags@);
}

/// What a docblock at a use of traits changes.
pub open spec fn with_use_document(m: ClassLikeView, document: Document) -> ClassLikeView {
    let m = with_parse_errors(m, "Failed to parse trait use docblock comment.", document.errors@);
    let m = with_use_tags(UseTagKind::Use, m, document.tags@);
    let m = with_use_tags(UseTagKind::Implements, m, document.tags@);
    with_use_tags(UseTagKind::Extends, m, document.tags@)
}

/// What a use of traits changes.
pub open spec fn with_trait_use(m: ClassLikeView, trait_use: TraitUse) -> ClassLikeView {
    let adapted = with_adaptations(with_used_traits(m, trait_use.names@), trait_use.adaptations@);
    match trait_use.document {
        Some(document) => with_use_document(adapted, document),
        None => adapted,
    }
}

fn apply_trait_use(meta: &mut ClassLikeMetadata, trait_use: &TraitUse)
    ensures
        final(meta)@ == with_trait_use(old(meta)@, *trait_use),
{
    add_used_traits(meta, &trait_use.names);
    apply_adaptations(meta, &trait_use.adaptations);
    if let Some(document) = &trait_use.document {
        report_parse_errors(meta, "Failed to parse trait use docblock comment.", &document.errors);
        apply_use_tags(UseTagKind::Use, meta, &document.tags);
        apply_use_tags(UseTagKind::Implements, meta, &document.tags);
        apply_use_tags(UseTagKind::Extends, meta, &document.tags);
    }
}

// ---- properties ----

pub open spec fn with_properties(m: ClassLikeView, properties: Seq<PropertyMetadata>) -> ClassLikeView
    decreases properties.len(),
{
    if properties.len() == 0 {
        m
    } else {
        with_properties(m, properties.drop_last()).add_property_metadata(properties.last()@)
    }
}

fn add_properties(meta: &mut ClassLikeMetadata, properties: &Vec<PropertyMetadata>)
    ensures
        final(meta)@ == with_properties(old(meta)@, properties@),
{
    let ghost start = meta@;
    let mut i: usize = 0;
    while i < properties.len()
        invariant
            i <= properties@.len(),
            meta@ == with_properties(start, properties@.take(i as int)),
        decreases properties@.len() - i,
    {
        assert(properties@.take(i + 1).drop_last() =~= properties@.take(i as int));
        assert(properties@.take(i + 1).last() == properties@[i as int]);
        meta.add_property_metadata(properties[i].copy());
        i = i + 1;
    }
    assert(properties@.take(i as int) =~= properties@);
}

/// What a member changes when traits and properties are read.
pub open spec fn with_member(m: ClassLikeView, member: ClassLikeMember) -> ClassLikeView {
    match member {
        ClassLikeMember::TraitUse(trait_use) => with_trait_use(m, trait_use),
        ClassLikeMember::Property(p) => with_properties(with_issues(m, p.issues@), p.properties@),
        _ => m,
    }
}

pub open spec fn with_members(m: ClassLikeView, members: Seq<ClassLikeMember>) -> ClassLikeView
    decreases members.len(),
{
    if members.len() == 0 {
        m
    } else {
        with_member(with_members(m, members.drop_last()), members.last())
    }
}

fn scan_member(meta: &mut ClassLikeMetadata, member: &ClassLikeMember)
    ensures
        final(meta)@ == with_member(old(meta)@, *member),
{
    match member {
        ClassLikeMember::TraitUse(trait_use) => apply_trait_use(meta, trait_use),
        ClassLikeMember::Property(p) => {
            report_issues(meta, &p.issues);
            add_properties(meta, &p.properties);
        },
        _ => {},
    }
}

/// Reads the used traits and the properties of a class-like.
pub fn scan_members(meta: &mut ClassLikeMetadata, members: &Vec<ClassLikeMember>)
    ensures
        final(meta)@ == with_members(old(meta)@, members@),
{
    let ghost start = meta@;
    let mut i: usize = 0;
    while i < members.len()
        invariant
            i <= members@.len(),
            meta@ == with_members(start, members@.take(i as int)),
        decreases members@.len() - i,
    {
        assert(members@.take(i + 1).drop_last() =~= members@.take(i as int));
        assert(members@.take(i + 1).last() == members@[i as int]);
        scan_member(meta, &members[i]);
        i = i + 1;
    }
    assert(members@.take(i as int) =~= members@);
}

} // verus!
