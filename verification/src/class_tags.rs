//! What the tags of a docblock say of a class-like.

use vstd::prelude::*;

use crate::collections::option_view;
use crate::docblock::make_tag_issue;
use crate::docblock::make_typing_error_issue;
use crate::docblock::tag_issue;
use crate::docblock::typing_error_issue;
use crate::docblock::PropertyTag;
use crate::docblock::Tag;
use crate::docblock::TemplateTag;
use crate::docblock::TypeAliasImportTag;
use crate::docblock::TypeTag;
use crate::docblock::TypingError;
use crate::issue::primary_annotation;
use crate::issue::Annotation;
use crate::issue::Issue;
use crate::issue::IssueCode;
use crate::issue::IssueView;
use crate::issue::Level;
use crate::issue::Span;
use crate::metadata::no_flags;
use crate::metadata::ClassLikeMetadata;
use crate::metadata::ClassLikeView;
use crate::metadata::GenericTemplate;
use crate::metadata::GenericTemplateView;
use crate::metadata::ImportedTypeAlias;
use crate::metadata::ImportedTypeAliasView;
use crate::metadata::MetadataFlags;
use crate::metadata::PropertyMetadata;
use crate::metadata::PropertyView;
use crate::metadata::SymbolKind;
use crate::metadata::TypeList;
use crate::metadata::TypeMetadata;
use crate::metadata::TypeView;
use crate::metadata::Variance;
use crate::metadata::Visibility;
use crate::metadata::copy_type;
use crate::ttype::unions_model;
use crate::ttype::AtomicView;
use crate::ttype::ReferenceView;
use crate::ttype::SymbolReferenceView;
use crate::ttype::TAtomic;
use crate::ttype::TReference;
use crate::ttype::TSymbolReference;
use crate::ttype::TUnion;
use crate::ttype::UnionView;
use crate::type_build::get_mixed;
use crate::type_build::union_of;
use crate::type_copy::copy_unions;
use crate::word::ascii_lowercase_word;
use crate::word::copy_word;
use crate::word::lowercase;
use crate::word::make_phrase;
use crate::word::phrase;
use crate::word::same_word;
use crate::word::text;
use crate::word::word;
use crate::word::Word;

verus! {

// ---- flags ----

/// What a tag that only switches something on or off changes.
pub open spec fn with_flag_tag(m: ClassLikeView, tag: Tag) -> ClassLikeView {
    match tag {
        Tag::Common(flags) => m.add_flags(flags),
        Tag::EnumInterface => if m.kind == SymbolKind::Interface {
            m.add_flags(MetadataFlags { is_enum_interface: true, ..no_flags() })
        } else {
            m
        },
        Tag::Final => m.add_flags(MetadataFlags { is_final: true, ..no_flags() }),
        Tag::ConsistentConstructor => m.add_flags(MetadataFlags { is_consistent_constructor: true, ..no_flags() }),
        Tag::ConsistentTemplates => m.add_flags(MetadataFlags { is_consistent_templates: true, ..no_flags() }),
        Tag::SealProperties => m.seal_properties(true),
        Tag::NoSealProperties => m.seal_properties(false),
        Tag::SealMethods => m.seal_methods(true),
        Tag::NoSealMethods => m.seal_methods(false),
        _ => m,
    }
}

pub fn apply_flag_tag(meta: &mut ClassLikeMetadata, tag: &Tag)
    ensures
        final(meta)@ == with_flag_tag(old(meta)@, *tag),
{
    match tag {
        Tag::Common(flags) => meta.add_flags(*flags),
        Tag::EnumInterface => {
            if meta.kind == SymbolKind::Interface {
                meta.add_flags(MetadataFlags { is_enum_interface: true, ..MetadataFlags::empty() });
            }
        },
        Tag::Final => meta.add_flags(MetadataFlags { is_final: true, ..MetadataFlags::empty() }),
        Tag::ConsistentConstructor => meta.add_flags(
            MetadataFlags { is_consistent_constructor: true, ..MetadataFlags::empty() },
        ),
        Tag::ConsistentTemplates => meta.add_flags(
            MetadataFlags { is_consistent_templates: true, ..MetadataFlags::empty() },
        ),
        Tag::SealProperties => meta.seal_properties(true),
        Tag::NoSealProperties => meta.seal_properties(false),
        Tag::SealMethods => meta.seal_methods(true),
        Tag::NoSealMethods => meta.seal_methods(false),
        _ => {},
    }
}

// ---- templates ----

/// The template parameter that a tag declares for a class-like, where its bound is a type.
pub open spec fn template_definition(class_like: Seq<u8>, tag: TemplateTag) -> Option<GenericTemplateView> {
    let default = match tag.default {
        Some(Ok(t)) => Some(t@),
        _ => None,
    };
    match tag.bound {
        Some(Ok(t)) => Some(GenericTemplateView { class_like, constraint: t@, default }),
        Some(Err(_)) => None,
        None => Some(GenericTemplateView { class_like, constraint: union_of(AtomicView::Mixed), default }),
    }
}

pub fn make_template_definition(class_like: &Word, tag: &TemplateTag) -> (definition: Option<GenericTemplate>)
    ensures
        option_view(definition) == template_definition(class_like@, *tag),
{
    let constraint: TUnion = match &tag.bound {
        Some(Ok(t)) => t.copy(),
        Some(Err(_)) => {
            return None;
        },
        None => get_mixed(),
    };
    let default: Option<TUnion> = match &tag.default {
        Some(Ok(t)) => Some(t.copy()),
        _ => None,
    };
    Some(GenericTemplate { class_like: copy_word(class_like.as_slice()), constraint, default })
}

/// What a `@template` tag changes.
pub open spec fn with_template_tag(m: ClassLikeView, tag: Tag) -> ClassLikeView {
    match tag {
        Tag::Template(t) => match t.bound {
            Some(Err(e)) => m.report(
                typing_error_issue(
                    "Could not resolve the constraint type for the `@template` tag.",
                    IssueCode::InvalidTemplateTag,
                    e,
                ),
            ),
            _ => {
                let reported = match t.default {
                    Some(Err(e)) => m.report(
                        typing_error_issue(
                            "Could not resolve the default type for the `@template` tag.",
                            IssueCode::InvalidTemplateTag,
                            e,
                        ),
                    ),
                    _ => m,
                };
                let defined = reported.add_template_type(t.name@, template_definition(m.name, t)->0);
                let noted = if t.variance == Variance::Covariant {
                    defined.add_template_readonly(t.name@)
                } else {
                    defined
                };
                noted.add_template_variance(t.variance)
            },
        },
        _ => m,
    }
}

pub fn apply_template_tag(meta: &mut ClassLikeMetadata, tag: &Tag)
    ensures
        final(meta)@ == with_template_tag(old(meta)@, *tag),
{
    let Tag::Template(t) = tag else {
        return;
    };
    if let Some(Err(e)) = &t.bound {
        meta.report(
            make_typing_error_issue(
                "Could not resolve the constraint type for the `@template` tag.",
                IssueCode::InvalidTemplateTag,
                e,
            ),
        );
        return;
    }
    if let Some(Err(e)) = &t.default {
        meta.report(
            make_typing_error_issue(
                "Could not resolve the default type for the `@template` tag.",
                IssueCode::InvalidTemplateTag,
                e,
            ),
        );
    }
    if let Some(definition) = make_template_definition(&meta.name, t) {
        meta.add_template_type(copy_word(t.name.as_slice()), definition);
        if t.variance == Variance::Covariant {
            meta.add_template_readonly(copy_word(t.name.as_slice()));
        }
        meta.add_template_variance(t.variance);
    }
}

// ---- type aliases ----

/// The name that an imported alias has in the importing class-like.
pub open spec fn local_alias(tag: TypeAliasImportTag) -> Seq<u8> {
    match tag.local {
        Some(local) => local@,
        None => tag.name@,
    }
}

pub fn local_alias_word(tag: &TypeAliasImportTag) -> (local: Word)
    ensures
        local@ == local_alias(*tag),
{
    match &tag.local {
        Some(local) => copy_word(local.as_slice()),
        None => copy_word(tag.name.as_slice()),
    }
}

/// The report on a class-like that imports an alias from itself.
pub open spec fn self_import_issue(tag: TypeAliasImportTag) -> IssueView {
    IssueView::new(Level::Help, text("Type alias is importing from itself, which is unnecessary.")).with_code(
        IssueCode::CircularTypeImport,
    ).with_annotation(
        primary_annotation(tag.span, phrase("Type alias `", tag.name@, "` is already defined in this class")),
    ).with_help(text("Remove this import statement as the type is already available locally."))
}

/// What a tag that imports a type alias changes.
pub open spec fn with_import_tag(m: ClassLikeView, tag: Tag) -> ClassLikeView {
    match tag {
        Tag::TypeAliasImport(t) => {
            let source = lowercase(t.source_among_templates@);
            if source == m.name {
                m.report(self_import_issue(t))
            } else {
                m.add_imported_alias(
                    local_alias(t),
                    ImportedTypeAliasView { source, name: t.name@, span: t.span },
                )
            }
        },
        _ => m,
    }
}

pub fn apply_import_tag(meta: &mut ClassLikeMetadata, tag: &Tag)
    ensures
        final(meta)@ == with_import_tag(old(meta)@, *tag),
{
    let Tag::TypeAliasImport(t) = tag else {
        return;
    };
    let source: Word = ascii_lowercase_word(t.source_among_templates.as_slice());
    if same_word(source.as_slice(), meta.name.as_slice()) {
        meta.report(
            Issue::new(Level::Help, word("Type alias is importing from itself, which is unnecessary.")).with_code(
                IssueCode::CircularTypeImport,
            ).with_annotation(
                Annotation::primary(
                    t.span,
                    make_phrase("Type alias `", t.name.as_slice(), "` is already defined in this class"),
                ),
            ).with_help(word("Remove this import statement as the type is already available locally.")),
        );
    } else {
        meta.add_imported_alias(
            local_alias_word(t),
            ImportedTypeAlias { source, name: copy_word(t.name.as_slice()), span: t.span },
        );
    }
}

/// What a tag that declares a type alias changes.
pub open spec fn with_alias_tag(m: ClassLikeView, tag: Tag) -> ClassLikeView {
    match tag {
        Tag::TypeAlias(t) => match t.resolved {
            Ok(aliased) => m.add_type_alias(t.alias@, aliased@),
            Err(e) => m.report(
                typing_error_issue("Could not resolve the type in the `@type` tag.", IssueCode::InvalidTypeTag, e),
            ),
        },
        _ => m,
    }
}

pub fn apply_alias_tag(meta: &mut ClassLikeMetadata, tag: &Tag)
    ensures
        final(meta)@ == with_alias_tag(old(meta)@, *tag),
{
    let Tag::TypeAlias(t) = tag else {
        return;
    };
    match &t.resolved {
        Ok(aliased) => meta.add_type_alias(copy_word(t.alias.as_slice()), aliased.copy()),
        Err(e) => meta.report(
            make_typing_error_issue("Could not resolve the type in the `@type` tag.", IssueCode::InvalidTypeTag, e),
        ),
    }
}

// ---- parents ----

/// The symbol that a type names, where it is of one part and names one.
pub open spec fn single_symbol(t: UnionView) -> Option<SymbolReferenceView> {
    match t.types[0] {
        AtomicView::Reference(ReferenceView::Symbol(s)) => Some(s),
        _ => None,
    }
}

fn first_symbol(t: &TUnion) -> (symbol: Option<&TSymbolReference>)
    requires
        t@.types.len() > 0,
    ensures
        match symbol {
            Some(s) => single_symbol(t@) == Some(s.model()),
            None => single_symbol(t@) is None,
        },
{
    assert(t@.types[0] == t.types@[0].model());
    match &t.types[0] {
        TAtomic::Reference(TReference::Symbol(s)) => Some(s),
        _ => None,
    }
}

/// A copy of the arguments of a type.
fn copy_arguments(types: &Vec<TUnion>) -> (list: TypeList)
    ensures
        list@ == unions_model(*types),
{
    TypeList { types: copy_unions(types) }
}

/// What an `@extends` tag changes.
pub open spec fn with_extends_tag(m: ClassLikeView, tag: Tag) -> ClassLikeView {
    match tag {
        Tag::Extends(t) => match t.resolved {
            Err(e) => m.report(
                typing_error_issue(
                    "Could not resolve the generic type in the `@extends` tag.",
                    IssueCode::InvalidExtendsTag,
                    e,
                ),
            ),
            Ok(u) => if u@.types.len() != 1 {
                m.report(
                    tag_issue(
                        "The `@extends` tag must specify a single parent class.",
                        IssueCode::InvalidExtendsTag,
                        t.type_span,
                        text("Union types are not allowed here."),
                        "The `@extends` tag provides concrete types for generics from a direct parent type.",
                        text("Provide a single parent type, e.g., `@extends Box<string>`."),
                    ),
                )
            } else if single_symbol(u@) is None || single_symbol(u@)->0.intersection_types is Some {
                m.report(
                    tag_issue(
                        "The `@extends` tag expects a generic class type.",
                        IssueCode::InvalidExtendsTag,
                        t.type_span,
                        text("This must be a class name, not a primitive or other complex type."),
                        "The `@extends` tag provides concrete types for type parameters from a direct parent class.",
                        text("For example: `@extends Box<string>`."),
                    ),
                )
            } else {
                with_parent_arguments(m, t.type_span, single_symbol(u@)->0)
            },
        },
        _ => m,
    }
}

/// What an `@extends` tag that names `symbol` changes.
pub open spec fn with_parent_arguments(m: ClassLikeView, span: Span, symbol: SymbolReferenceView) -> ClassLikeView {
    let parent = lowercase(symbol.name);
    let has_parent = if m.kind == SymbolKind::Interface {
        m.all_parent_interfaces.contains(parent)
    } else {
        m.all_parent_classes.contains(parent)
    };
    if !has_parent {
        m.report(
            tag_issue(
                "`@extends` tag must refer to a direct parent class or interface.",
                IssueCode::InvalidExtendsTag,
                span,
                phrase("The class `", symbol.name, "` is not a direct parent."),
                "The `@extends` tag is used to provide type information for the class or interface that is directly extended.",
                phrase("Ensure this type's definition includes `extends ", symbol.name, "`."),
            ),
        )
    } else {
        match symbol.parameters {
            Some(arguments) => m.set_extends_count(parent, arguments.len() as usize).add_template_extended_offset(
                parent,
                arguments,
            ),
            None => m,
        }
    }
}

fn apply_parent_arguments(meta: &mut ClassLikeMetadata, span: Span, symbol: &TSymbolReference)
    ensures
        final(meta)@ == with_parent_arguments(old(meta)@, span, symbol.model()),
{
    let parent: Word = ascii_lowercase_word(symbol.name.as_slice());
    let has_parent: bool = if meta.kind == SymbolKind::Interface {
        meta.all_parent_interfaces.contains(&parent)
    } else {
        meta.all_parent_classes.contains(&parent)
    };
    if !has_parent {
        meta.report(
            make_tag_issue(
                "`@extends` tag must refer to a direct parent class or interface.",
                IssueCode::InvalidExtendsTag,
                span,
                make_phrase("The class `", symbol.name.as_slice(), "` is not a direct parent."),
                "The `@extends` tag is used to provide type information for the class or interface that is directly extended.",
                make_phrase("Ensure this type's definition includes `extends ", symbol.name.as_slice(), "`."),
            ),
        );
        return;
    }
    if let Some(arguments) = &symbol.parameters {
        assert(unions_model(*arguments).len() == arguments.len());
        meta.set_extends_count(copy_word(parent.as_slice()), arguments.len());
        meta.add_template_extended_offset(parent, copy_arguments(arguments));
    }
}

pub fn apply_extends_tag(meta: &mut ClassLikeMetadata, tag: &Tag)
    ensures
        final(meta)@ == with_extends_tag(old(meta)@, *tag),
{
    let Tag::Extends(t) = tag else {
        return;
    };
    match &t.resolved {
        Err(e) => meta.report(
            make_typing_error_issue(
                "Could not resolve the generic type in the `@extends` tag.",
                IssueCode::InvalidExtendsTag,
                e,
            ),
        ),
        Ok(u) => {
            assert(u@.types.len() == u.types.len());
            if u.types.len() != 1 {
                meta.report(
                    make_tag_issue(
                        "The `@extends` tag must specify a single parent class.",
                        IssueCode::InvalidExtendsTag,
                        t.type_span,
                        word("Union types are not allowed here."),
                        "The `@extends` tag provides concrete types for generics from a direct parent type.",
                        word("Provide a single parent type, e.g., `@extends Box<string>`."),
                    ),
                );
                return;
            }
            if let Some(symbol) = first_symbol(u) {
                if symbol.intersection_types.is_none() {
                    apply_parent_arguments(meta, t.type_span, symbol);
                    return;
                }
            }
            meta.report(
                make_tag_issue(
                    "The `@extends` tag expects a generic class type.",
                    IssueCode::InvalidExtendsTag,
                    t.type_span,
                    word("This must be a class name, not a primitive or other complex type."),
                    "The `@extends` tag provides concrete types for type parameters from a direct parent class.",
                    word("For example: `@extends Box<string>`."),
                ),
            );
        },
    }
}

/// What an `@implements` tag changes.
pub open spec fn with_implements_tag(m: ClassLikeView, tag: Tag) -> ClassLikeView {
    match tag {
        Tag::Implements(t) => match t.resolved {
            Err(e) => m.report(
                typing_error_issue(
                    "Could not resolve the interface name in the `@implements` tag.",
                    IssueCode::InvalidImplementsTag,
                    e,
                ),
            ),
            Ok(u) => if u@.types.len() != 1 {
                m.report(
                    tag_issue(
                        "The `@implements` tag expects a single interface type.",
                        IssueCode::InvalidImplementsTag,
                        t.type_span,
                        text("Union types are not supported here."),
                        "The `@implements` tag provides concrete types for generics from a direct parent interface.",
                        text("Provide a single parent interface, e.g., `@implements Serializable<string>`."),
                    ),
                )
            } else if single_symbol(u@) is None || single_symbol(u@)->0.intersection_types is Some {
                m.report(
                    tag_issue(
                        "The `@implements` tag expects a single interface type.",
                        IssueCode::InvalidImplementsTag,
                        t.type_span,
                        phrase("This must be an interface, not `", t.shown@, "`."),
                        "The `@implements` tag provides concrete types for type parameters from a direct parent interface.",
                        text("Provide the single, interface name that this class implements."),
                    ),
                )
            } else {
                with_interface_arguments(m, t.type_span, single_symbol(u@)->0)
            },
        },
        _ => m,
    }
}

/// What an `@implements` tag that names `symbol` changes.
pub open spec fn with_interface_arguments(m: ClassLikeView, span: Span, symbol: SymbolReferenceView) -> ClassLikeView {
    let parent = lowercase(symbol.name);
    if !m.all_parent_interfaces.contains(parent) {
        m.report(
            tag_issue(
                "The `@implements` tag must refer to a direct parent interface.",
                IssueCode::InvalidImplementsTag,
                span,
                phrase("The interface `", symbol.name, "` is not a direct parent."),
                "The `@implements` tag is used to provide type information for the interface that is directly implemented.",
                phrase("Ensure this type's definition includes `implements ", symbol.name, "`."),
            ),
        )
    } else {
        match symbol.parameters {
            Some(arguments) => m.set_implements_count(parent, arguments.len() as usize).add_template_extended_offset(
                parent,
                arguments,
            ),
            None => m,
        }
    }
}

fn apply_interface_arguments(meta: &mut ClassLikeMetadata, span: Span, symbol: &TSymbolReference)
    ensures
        final(meta)@ == with_interface_arguments(old(meta)@, span, symbol.model()),
{
    let parent: Word = ascii_lowercase_word(symbol.name.as_slice());
    if !meta.all_parent_interfaces.contains(&parent) {
        meta.report(
            make_tag_issue(
                "The `@implements` tag must refer to a direct parent interface.",
                IssueCode::InvalidImplementsTag,
                span,
                make_phrase("The interface `", symbol.name.as_slice(), "` is not a direct parent."),
                "The `@implements` tag is used to provide type information for the interface that is directly implemented.",
                make_phrase("Ensure this type's definition includes `implements ", symbol.name.as_slice(), "`."),
            ),
        );
        return;
    }
    if let Some(arguments) = &symbol.parameters {
        assert(unions_model(*arguments).len() == arguments.len());
        meta.set_implements_count(copy_word(parent.as_slice()), arguments.len());
        meta.add_template_extended_offset(parent, copy_arguments(arguments));
    }
}

pub fn apply_implements_tag(meta: &mut ClassLikeMetadata, tag: &Tag)
    ensures
        final(meta)@ == with_implements_tag(old(meta)@, *tag),
{
    let Tag::Implements(t) = tag else {
        return;
    };
    match &t.resolved {
        Err(e) => meta.report(
            make_typing_error_issue(
                "Could not resolve the interface name in the `@implements` tag.",
                IssueCode::InvalidImplementsTag,
                e,
            ),
        ),
        Ok(u) => {
            assert(u@.types.len() == u.types.len());
            if u.types.len() != 1 {
                meta.report(
                    make_tag_issue(
                        "The `@implements` tag expects a single interface type.",
                        IssueCode::InvalidImplementsTag,
                        t.type_span,
                        word("Union types are not supported here."),
                        "The `@implements` tag provides concrete types for generics from a direct parent interface.",
                        word("Provide a single parent interface, e.g., `@implements Serializable<string>`."),
                    ),
                );
                return;
            }
            if let Some(symbol) = first_symbol(u) {
                if symbol.intersection_types.is_none() {
                    apply_interface_arguments(meta, t.type_span, symbol);
                    return;
                }
            }
            meta.report(
                make_tag_issue(
                    "The `@implements` tag expects a single interface type.",
                    IssueCode::InvalidImplementsTag,
                    t.type_span,
                    make_phrase("This must be an interface, not `", t.shown.as_slice(), "`."),
                    "The `@implements` tag provides concrete types for type parameters from a direct parent interface.",
                    word("Provide the single, interface name that this class implements."),
                ),
            );
        },
    }
}

// ---- requirements on inheriting class-likes ----

/// The report that a `@require-extends` tag does not hold a class name.
pub open spec fn require_extends_issue(span: Span, remark: &str, help: &str) -> IssueView {
    tag_issue(
        "The `@require-extends` tag expects a single class name.",
        IssueCode::InvalidRequireExtendsTag,
        span,
        text(remark),
        "The `@require-extends` tag forces any type that inherits from this one to also extend a specific base class.",
        text(help),
    )
}

fn make_require_extends_issue(span: Span, remark: &str, help: &str) -> (issue: Issue)
    ensures
        issue@ == require_extends_issue(span, remark, help),
{
    make_tag_issue(
        "The `@require-extends` tag expects a single class name.",
        IssueCode::InvalidRequireExtendsTag,
        span,
        word(remark),
        "The `@require-extends` tag forces any type that inherits from this one to also extend a specific base class.",
        word(help),
    )
}

/// What a `@require-extends` tag changes.
pub open spec fn with_require_extends_tag(m: ClassLikeView, tag: Tag) -> ClassLikeView {
    match tag {
        Tag::RequireExtends(t) => match t.resolved {
            Err(e) => m.report(
                typing_error_issue(
                    "Could not resolve the class name in the `@require-extends` tag.",
                    IssueCode::InvalidRequireExtendsTag,
                    e,
                ),
            ),
            Ok(u) => if u@.types.len() != 1 {
                m.report(
                    require_extends_issue(
                        t.type_span,
                        "Union types are not supported here.",
                        "A class can only extend one other class. Provide a single parent class name.",
                    ),
                )
            } else {
                match single_symbol(u@) {
                    Some(symbol) => if symbol.intersection_types is Some {
                        m.report(
                            require_extends_issue(
                                t.type_span,
                                "Intersection types are not supported here.",
                                "A class can only extend one other class. Provide a single parent class name.",
                            ),
                        )
                    } else {
                        let required = m.add_require_extends(lowercase(symbol.name));
                        match symbol.parameters {
                            Some(arguments) => required.add_template_extended_offset(symbol.name, arguments),
                            None => required,
                        }
                    },
                    None => m.report(
                        require_extends_issue(
                            t.type_span,
                            "This must be a class name, not a primitive or other complex type.",
                            "Provide the single, class name that all inheriting classes must extend.",
                        ),
                    ),
                }
            },
        },
        _ => m,
    }
}

pub fn apply_require_extends_tag(meta: &mut ClassLikeMetadata, tag: &Tag)
    ensures
        final(meta)@ == with_require_extends_tag(old(meta)@, *tag),
{
    let Tag::RequireExtends(t) = tag else {
        return;
    };
    match &t.resolved {
        Err(e) => meta.report(
            make_typing_error_issue(
                "Could not resolve the class name in the `@require-extends` tag.",
                IssueCode::InvalidRequireExtendsTag,
                e,
            ),
        ),
        Ok(u) => {
            assert(u@.types.len() == u.types.len());
            if u.types.len() != 1 {
                meta.report(
                    make_require_extends_issue(
                        t.type_span,
                        "Union types are not supported here.",
                        "A class can only extend one other class. Provide a single parent class name.",
                    ),
                );
                return;
            }
            let Some(symbol) = first_symbol(u) else {
                meta.report(
                    make_require_extends_issue(
                        t.type_span,
                        "This must be a class name, not a primitive or other complex type.",
                        "Provide the single, class name that all inheriting classes must extend.",
                    ),
                );
                return;
            };
            if symbol.intersection_types.is_some() {
                meta.report(
                    make_require_extends_issue(
                        t.type_span,
                        "Intersection types are not supported here.",
                        "A class can only extend one other class. Provide a single parent class name.",
                    ),
                );
                return;
            }
            meta.add_require_extends(ascii_lowercase_word(symbol.name.as_slice()));
            if let Some(arguments) = &symbol.parameters {
                meta.add_template_extended_offset(copy_word(symbol.name.as_slice()), copy_arguments(arguments));
            }
        },
    }
}

/// The report that a `@require-implements` tag does not hold the name of an interface.
pub open spec fn require_implements_issue(span: Span, remark: &str, help: &str) -> IssueView {
    tag_issue(
        "The `@require-implements` tag expects a single interface name.",
        IssueCode::InvalidRequireImplementsTag,
        span,
        text(remark),
        "The `@require-implements` tag forces any type that inherits from this one to also implement a specific interface.",
        text(help),
    )
}

fn make_require_implements_issue(span: Span, remark: &str, help: &str) -> (issue: Issue)
    ensures
        issue@ == require_implements_issue(span, remark, help),
{
    make_tag_issue(
        "The `@require-implements` tag expects a single interface name.",
        IssueCode::InvalidRequireImplementsTag,
        span,
        word(remark),
        "The `@require-implements` tag forces any type that inherits from this one to also implement a specific interface.",
        word(help),
    )
}

/// What a `@require-implements` tag changes.
pub open spec fn with_require_implements_tag(m: ClassLikeView, tag: Tag) -> ClassLikeView {
    match tag {
        Tag::RequireImplements(t) => match t.resolved {
            Err(e) => m.report(
                typing_error_issue(
                    "Could not resolve the interface name in the `@require-implements` tag.",
                    IssueCode::InvalidRequireImplementsTag,
                    e,
                ),
            ),
            Ok(u) => if u@.types.len() != 1 {
                m.report(
                    require_implements_issue(
                        t.type_span,
                        "Union types are not supported here.",
                        "To require that inheriting types implement multiple interfaces, use a separate `@require-implements` tag for each one.",
                    ),
                )
            } else {
                match single_symbol(u@) {
                    Some(symbol) => if symbol.intersection_types is Some {
                        m.report(
                            require_implements_issue(
                                t.type_span,
                                "Intersection types are not supported here.",
                                "To require that inheriting types implement multiple interfaces, use a separate `@require-implements` tag for each one.",
                            ),
                        )
                    } else {
                        let required = m.add_require_implements(lowercase(symbol.name));
                        match symbol.parameters {
                            Some(arguments) => required.add_template_extended_offset(symbol.name, arguments),
                            None => required,
                        }
                    },
                    None => m.report(
                        require_implements_issue(
                            t.type_span,
                            "This must be an interface, not a primitive or other complex type.",
                            "Provide the single, interface name that all inheriting classes must implement.",
                        ),
                    ),
                }
            },
        },
        _ => m,
    }
}

pub fn apply_require_implements_tag(meta: &mut ClassLikeMetadata, tag: &Tag)
    ensures
        final(meta)@ == with_require_implements_tag(old(meta)@, *tag),
{
    let Tag::RequireImplements(t) = tag else {
        return;
    };
    match &t.resolved {
        Err(e) => meta.report(
            make_typing_error_issue(
                "Could not resolve the interface name in the `@require-implements` tag.",
                IssueCode::InvalidRequireImplementsTag,
                e,
            ),
        ),
        Ok(u) => {
            assert(u@.types.len() == u.types.len());
            if u.types.len() != 1 {
                meta.report(
                    make_require_implements_issue(
                        t.type_span,
                        "Union types are not supported here.",
                        "To require that inheriting types implement multiple interfaces, use a separate `@require-implements` tag for each one.",
                    ),
                );
                return;
            }
            let Some(symbol) = first_symbol(u) else {
                meta.report(
                    make_require_implements_issue(
                        t.type_span,
                        "This must be an interface, not a primitive or other complex type.",
                        "Provide the single, interface name that all inheriting classes must implement.",
                    ),
                );
                return;
            };
            if symbol.intersection_types.is_some() {
                meta.report(
                    make_require_implements_issue(
                        t.type_span,
                        "Intersection types are not supported here.",
                        "To require that inheriting types implement multiple interfaces, use a separate `@require-implements` tag for each one.",
                    ),
                );
                return;
            }
            meta.add_require_implements(ascii_lowercase_word(symbol.name.as_slice()));
            if let Some(arguments) = &symbol.parameters {
                meta.add_template_extended_offset(copy_word(symbol.name.as_slice()), copy_arguments(arguments));
            }
        },
    }
}

// ---- inheritors ----

/// The last `@inheritors` tag.
pub open spec fn last_inheritors(tags: Seq<Tag>) -> Option<TypeTag>
    decreases tags.len(),
{
    if tags.len() == 0 {
        None
    } else {
        match tags.last() {
            Tag::Inheritors(t) => Some(t),
            _ => last_inheritors(tags.drop_last()),
        }
    }
}

/// What one of the types of an `@inheritors` tag changes.
pub open spec fn with_inheritor(m: ClassLikeView, span: Span, inheritor: AtomicView) -> ClassLikeView {
    match inheritor {
        AtomicView::Reference(ReferenceView::Symbol(s)) if s.intersection_types is None => m.add_permitted_inheritor(
            lowercase(s.name),
        ),
        _ => m.report(
            IssueView::new(
                Level::Error,
                text("The `@inheritors` tag only accepts class, interface, or enum names."),
            ).with_code(IssueCode::InvalidInheritorsTag).with_annotation(
                primary_annotation(span, text("This type is not a simple class-like name.")),
            ),
        ),
    }
}

pub open spec fn with_inheritors(m: ClassLikeView, span: Span, inheritors: Seq<AtomicView>) -> ClassLikeView
    decreases inheritors.len(),
{
    if inheritors.len() == 0 {
        m
    } else {
        with_inheritor(with_inheritors(m, span, inheritors.drop_last()), span, inheritors.last())
    }
}

/// What the `@inheritors` tags change: only the last of them counts.
pub open spec fn with_inheritors_tags(m: ClassLikeView, tags: Seq<Tag>) -> ClassLikeView {
    match last_inheritors(tags) {
        Some(t) => match t.resolved {
            Ok(u) => with_inheritors(m, t.type_span, u@.types),
            Err(e) => m.report(
                typing_error_issue(
                    "Could not resolve the type in the `@inheritors` tag.",
                    IssueCode::InvalidInheritorsTag,
                    e,
                ),
            ),
        },
        None => m,
    }
}

fn apply_inheritor(meta: &mut ClassLikeMetadata, span: Span, inheritor: &TAtomic)
    ensures
        final(meta)@ == with_inheritor(old(meta)@, span, inheritor@),
{
    if let TAtomic::Reference(TReference::Symbol(s)) = inheritor {
        if s.intersection_types.is_none() {
            meta.add_permitted_inheritor(ascii_lowercase_word(s.name.as_slice()));
            return;
        }
    }
    meta.report(
        Issue::error(word("The `@inheritors` tag only accepts class, interface, or enum names.")).with_code(
            IssueCode::InvalidInheritorsTag,
        ).with_annotation(Annotation::primary(span, word("This type is not a simple class-like name."))),
    );
}

pub fn apply_inheritors_tags(meta: &mut ClassLikeMetadata, tags: &Vec<Tag>)
    ensures
        final(meta)@ == with_inheritors_tags(old(meta)@, tags@),
{
    let mut inheritors: Option<&TypeTag> = None;
    let mut i: usize = 0;
    while i < tags.len()
        invariant
            i <= tags@.len(),
            match inheritors {
                Some(t) => last_inheritors(tags@.take(i as int)) == Some(*t),
                None => last_inheritors(tags@.take(i as int)) is None,
            },
        decreases tags@.len() - i,
    {
        assert(tags@.take(i + 1).drop_last() =~= tags@.take(i as int));
        assert(tags@.take(i + 1).last() == tags@[i as int]);
        if let Tag::Inheritors(t) = &tags[i] {
            inheritors = Some(t);
        }
        i = i + 1;
    }
    assert(tags@.take(i as int) =~= tags@);
    let Some(t) = inheritors else {
        return;
    };
    match &t.resolved {
        Err(e) => meta.report(
            make_typing_error_issue(
                "Could not resolve the type in the `@inheritors` tag.",
                IssueCode::InvalidInheritorsTag,
                e,
            ),
        ),
        Ok(u) => {
            let ghost start = meta@;
            let mut j: usize = 0;
            while j < u.types.len()
                invariant
                    j <= u.types@.len(),
                    u@.types.len() == u.types@.len(),
                    meta@ == with_inheritors(start, t.type_span, u@.types.take(j as int)),
                decreases u.types@.len() - j,
            {
                assert(u@.types.take(j + 1).drop_last() =~= u@.types.take(j as int));
                assert(u@.types.take(j + 1).last() == u.types@[j as int]@);
                apply_inheritor(meta, t.type_span, &u.types[j]);
                j = j + 1;
            }
            assert(u@.types.take(j as int) =~= u@.types);
        },
    }
}

// ---- mixins ----

/// What a `@mixin` tag changes.
pub open spec fn with_mixin_tag(m: ClassLikeView, tag: Tag) -> ClassLikeView {
    match tag {
        Tag::Mixin(t) => match t.resolved {
            Ok(mixin) => m.add_mixin(mixin@),
            Err(e) => m.report(
                typing_error_issue("Could not resolve the type in the `@mixin` tag.", IssueCode::InvalidMixinTag, e),
            ),
        },
        _ => m,
    }
}

pub fn apply_mixin_tag(meta: &mut ClassLikeMetadata, tag: &Tag)
    ensures
        final(meta)@ == with_mixin_tag(old(meta)@, *tag),
{
    let Tag::Mixin(t) = tag else {
        return;
    };
    match &t.resolved {
        Ok(mixin) => meta.add_mixin(mixin.copy()),
        Err(e) => meta.report(
            make_typing_error_issue("Could not resolve the type in the `@mixin` tag.", IssueCode::InvalidMixinTag, e),
        ),
    }
}

// ---- properties ----

/// A property tag, with whether the property can be read and whether it can be written.
pub open spec fn property_tag(tag: Tag) -> Option<(PropertyTag, bool, bool)> {
    match tag {
        Tag::Property(t) => Some((t, true, true)),
        Tag::PropertyRead(t) => Some((t, true, false)),
        Tag::PropertyWrite(t) => Some((t, false, true)),
        _ => None,
    }
}

/// The type that a property tag gives.
pub open spec fn tag_type(resolved: Option<Result<TypeMetadata, TypingError>>) -> Option<TypeView> {
    match resolved {
        Some(Ok(t)) => Some(t@),
        _ => None,
    }
}

/// A declared property once another tag says that it can be read.
pub open spec fn readable_property(p: PropertyView, t: Option<TypeView>) -> PropertyView {
    let readable = PropertyView {
        read_visibility: Visibility::Public,
        flags: MetadataFlags { is_writeonly: false, ..p.flags },
        ..p
    };
    if p.flags.is_writeonly {
        // What is known so far is the type of what is written; a read gives the new type.
        PropertyView {
            type_metadata: t,
            write_type_metadata: if p.write_type_metadata is None {
                p.type_metadata
            } else {
                p.write_type_metadata
            },
            ..readable
        }
    } else if p.type_metadata is None {
        PropertyView { type_metadata: t, ..readable }
    } else {
        readable
    }
}

/// A declared property once another tag says that it can be written; `was_readonly` says whether it
/// could only be read before that tag.
pub open spec fn writable_property(p: PropertyView, t: Option<TypeView>, was_readonly: bool) -> PropertyView {
    let writable = PropertyView {
        write_visibility: Visibility::Public,
        flags: MetadataFlags { is_readonly: false, ..p.flags },
        ..p
    };
    if was_readonly {
        if p.write_type_metadata is None {
            PropertyView { write_type_metadata: t, ..writable }
        } else {
            writable
        }
    } else if p.type_metadata is None {
        PropertyView { type_metadata: t, ..writable }
    } else {
        writable
    }
}

/// A property of two tags: neither of them replaces the other.
pub open spec fn combined_property(
    p: PropertyView,
    is_read: bool,
    is_write: bool,
    t: Option<TypeView>,
) -> PropertyView {
    let read = if is_read {
        readable_property(p, t)
    } else {
        p
    };
    if is_write {
        writable_property(read, t, p.flags.is_readonly)
    } else {
        read
    }
}

/// A property of one tag.
pub open spec fn tagged_property(name: Seq<u8>, is_read: bool, is_write: bool, t: Option<TypeView>) -> PropertyView {
    PropertyView {
        flags: MetadataFlags { is_readonly: is_read && !is_write, is_writeonly: !is_read && is_write, ..no_flags() },
        type_metadata: t,
        ..PropertyView::new(name, no_flags())
    }
}

/// A tag for reading and one for writing combine, in either order, into one property that can be
/// read and written, each with the type that its tag gives.
pub proof fn read_and_write_tags_combine(name: Seq<u8>, read: Option<TypeView>, written: Option<TypeView>)
    ensures
        combined_property(tagged_property(name, true, false, read), false, true, written) == combined_property(
            tagged_property(name, false, true, written),
            true,
            false,
            read,
        ),
        combined_property(tagged_property(name, true, false, read), false, true, written) == (PropertyView {
            type_metadata: read,
            write_type_metadata: written,
            ..PropertyView::new(name, no_flags())
        }),
{
}

/// What a property tag changes.
pub open spec fn with_property_tag(m: ClassLikeView, tag: Tag) -> ClassLikeView {
    match property_tag(tag) {
        Some((p, is_read, is_write)) => {
            let reported = match p.resolved {
                Some(Err(e)) => m.report(
                    typing_error_issue(
                        "Could not resolve the property type in the `@property` tag.",
                        IssueCode::InvalidPropertyTag,
                        e,
                    ),
                ),
                _ => m,
            };
            let name = p.variable@;
            if m.magic_properties.contains_key(name) {
                reported.change_magic_property(
                    name,
                    combined_property(m.magic_properties[name], is_read, is_write, tag_type(p.resolved)),
                )
            } else {
                reported.add_magic_property(tagged_property(name, is_read, is_write, tag_type(p.resolved)))
            }
        },
        None => m,
    }
}

/// The type that a property tag gives, to keep.
fn copy_tag_type(resolved: &Option<Result<TypeMetadata, TypingError>>) -> (t: Option<TypeMetadata>)
    ensures
        option_view(t) == tag_type(*resolved),
{
    match resolved {
        Some(Ok(t)) => Some(t.copy()),
        _ => None,
    }
}

/// A property that a tag says can be read.
fn make_readable(p: &PropertyMetadata, t: &Option<TypeMetadata>) -> (property: PropertyMetadata)
    ensures
        property@ == readable_property(p@, option_view(*t)),
{
    let type_metadata: Option<TypeMetadata> = if p.flags.is_writeonly || p.type_metadata.is_none() {
        copy_type(t)
    } else {
        copy_type(&p.type_metadata)
    };
    let write_type_metadata: Option<TypeMetadata> = if p.flags.is_writeonly && p.write_type_metadata.is_none() {
        copy_type(&p.type_metadata)
    } else {
        copy_type(&p.write_type_metadata)
    };
    PropertyMetadata {
        name: copy_word(p.name.as_slice()),
        flags: MetadataFlags { is_writeonly: false, ..p.flags },
        name_span: p.name_span,
        read_visibility: Visibility::Public,
        write_visibility: p.write_visibility,
        type_declaration_metadata: copy_type(&p.type_declaration_metadata),
        type_metadata,
        write_type_metadata,
    }
}

/// A property that a tag says can be written.
fn make_writable(p: &PropertyMetadata, t: &Option<TypeMetadata>, was_readonly: bool) -> (property: PropertyMetadata)
    ensures
        property@ == writable_property(p@, option_view(*t), was_readonly),
{
    let type_metadata: Option<TypeMetadata> = if !was_readonly && p.type_metadata.is_none() {
        copy_type(t)
    } else {
        copy_type(&p.type_metadata)
    };
    let write_type_metadata: Option<TypeMetadata> = if was_readonly && p.write_type_metadata.is_none() {
        copy_type(t)
    } else {
        copy_type(&p.write_type_metadata)
    };
    PropertyMetadata {
        name: copy_word(p.name.as_slice()),
        flags: MetadataFlags { is_readonly: false, ..p.flags },
        name_span: p.name_span,
        read_visibility: p.read_visibility,
        write_visibility: Visibility::Public,
        type_declaration_metadata: copy_type(&p.type_declaration_metadata),
        type_metadata,
        write_type_metadata,
    }
}

/// A property of two tags.
fn combine_property(
    existing: &PropertyMetadata,
    is_read: bool,
    is_write: bool,
    t: &Option<TypeMetadata>,
) -> (property: PropertyMetadata)
    ensures
        property@ == combined_property(existing@, is_read, is_write, option_view(*t)),
{
    let read: PropertyMetadata = if is_read {
        make_readable(existing, t)
    } else {
        existing.copy()
    };
    if is_write {
        make_writable(&read, t, existing.flags.is_readonly)
    } else {
        read
    }
}

pub fn apply_property_tag(meta: &mut ClassLikeMetadata, tag: &Tag)
    ensures
        final(meta)@ == with_property_tag(old(meta)@, *tag),
{
    let (p, is_read, is_write): (&PropertyTag, bool, bool) = match tag {
        Tag::Property(t) => (t, true, true),
        Tag::PropertyRead(t) => (t, true, false),
        Tag::PropertyWrite(t) => (t, false, true),
        _ => {
            return;
        },
    };
    if let Some(Err(e)) = &p.resolved {
        meta.report(
            make_typing_error_issue(
                "Could not resolve the property type in the `@property` tag.",
                IssueCode::InvalidPropertyTag,
                e,
            ),
        );
    }
    let t: Option<TypeMetadata> = copy_tag_type(&p.resolved);
    let combined: Option<PropertyMetadata> = match meta.magic_properties.get(&p.variable) {
        Some(existing) => Some(combine_property(existing, is_read, is_write, &t)),
        None => None,
    };
    if let Some(property) = combined {
        meta.change_magic_property(copy_word(p.variable.as_slice()), property);
        return;
    }
    let mut property: PropertyMetadata = PropertyMetadata::new(
        copy_word(p.variable.as_slice()),
        MetadataFlags {
            is_readonly: is_read && !is_write,
            is_writeonly: !is_read && is_write,
            ..MetadataFlags::empty()
        },
    );
    property.type_metadata = t;
    assert(property@ =~= tagged_property(p.variable@, is_read, is_write, tag_type(p.resolved)));
    meta.add_magic_property(property);
}

} // verus!
