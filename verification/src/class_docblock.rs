//! What a docblock says of a class-like.

use vstd::prelude::*;

use crate::class_tags::apply_alias_tag;
use crate::class_tags::apply_extends_tag;
use crate::class_tags::apply_flag_tag;
use crate::class_tags::apply_implements_tag;
use crate::class_tags::apply_import_tag;
use crate::class_tags::apply_inheritors_tags;
use crate::class_tags::apply_mixin_tag;
use crate::class_tags::apply_property_tag;
use crate::class_tags::apply_require_extends_tag;
use crate::class_tags::apply_require_implements_tag;
use crate::class_tags::apply_template_tag;
use crate::class_tags::local_alias;
use crate::class_tags::local_alias_word;
use crate::class_tags::make_template_definition;
use crate::class_tags::template_definition;
use crate::class_tags::with_alias_tag;
use crate::class_tags::with_extends_tag;
use crate::class_tags::with_flag_tag;
use crate::class_tags::with_implements_tag;
use crate::class_tags::with_import_tag;
use crate::class_tags::last_inheritors;
use crate::class_tags::with_inheritors;
use crate::class_tags::with_inheritors_tags;
use crate::class_tags::with_mixin_tag;
use crate::class_tags::with_property_tag;
use crate::class_tags::with_require_extends_tag;
use crate::class_tags::with_require_implements_tag;
use crate::class_tags::with_template_tag;
use crate::codebase::CodebaseMetadata;
use crate::codebase::CodebaseView;
use crate::collections::keys_with;
use crate::collections::lemma_views_push;
use crate::collections::option_view;
use crate::collections::views;
use crate::collections::with_item;
use crate::collections::SymbolIdentifier;
use crate::collections::WordMap;
use crate::collections::WordSet;
use crate::docblock::make_parse_error_issue;
use crate::docblock::parse_error_issue;
use crate::docblock::Document;
use crate::docblock::MethodTag;
use crate::docblock::MethodTagParameter;
use crate::docblock::ParseError;
use crate::docblock::Tag;
use crate::docblock::TypingError;
use crate::issue::Span;
use crate::metadata::no_flags;
use crate::metadata::ClassLikeMetadata;
use crate::metadata::ClassLikeView;
use crate::metadata::FunctionLikeKind;
use crate::metadata::FunctionLikeMetadata;
use crate::metadata::FunctionLikeView;
use crate::metadata::GenericTemplate;
use crate::metadata::GenericTemplateView;
use crate::metadata::MetadataFlags;
use crate::metadata::MethodIdentifier;
use crate::metadata::MethodMetadata;
use crate::metadata::MethodView;
use crate::metadata::ParameterMetadata;
use crate::metadata::ParameterView;
use crate::metadata::TypeMetadata;
use crate::metadata::TypeView;
use crate::metadata::Visibility;
use crate::ttype::AtomicView;
use crate::word::ascii_lowercase_word;
use crate::word::copy_word;
use crate::word::lowercase;
use crate::word::same_word;
use crate::word::Word;

verus! {

// ---- the context in which written types are resolved ----

/// The names that written types can use besides those of the file.
pub struct TypeResolutionContext {
    /// By local name, the class-like that an alias is imported from and its name there.
    pub imported_type_aliases: WordMap<SymbolIdentifier>,
    pub type_aliases: WordSet,
    pub template_definitions: WordMap<GenericTemplate>,
}

#[verifier::ext_equal]
pub struct TypeContextView {
    pub imported_type_aliases: Map<Seq<u8>, (Seq<u8>, Seq<u8>)>,
    pub type_aliases: Seq<Seq<u8>>,
    pub template_definitions: Map<Seq<u8>, GenericTemplateView>,
    pub template_names: Seq<Seq<u8>>,
}

impl View for TypeResolutionContext {
    type V = TypeContextView;

    open spec fn view(&self) -> TypeContextView {
        TypeContextView {
            imported_type_aliases: self.imported_type_aliases@,
            type_aliases: self.type_aliases@,
            template_definitions: self.template_definitions@,
            template_names: self.template_definitions.keys(),
        }
    }
}

pub open spec fn empty_type_context() -> TypeContextView {
    TypeContextView {
        imported_type_aliases: Map::empty(),
        type_aliases: Seq::empty(),
        template_definitions: Map::empty(),
        template_names: Seq::empty(),
    }
}

/// A context with the aliases that these tags import, but for those of the class-like itself.
pub open spec fn with_imports(c: TypeContextView, class_like: Seq<u8>, tags: Seq<Tag>) -> TypeContextView
    decreases tags.len(),
{
    if tags.len() == 0 {
        c
    } else {
        let rest = with_imports(c, class_like, tags.drop_last());
        match tags.last() {
            Tag::TypeAliasImport(t) => if lowercase(t.source@) == class_like {
                rest
            } else {
                TypeContextView {
                    imported_type_aliases: rest.imported_type_aliases.insert(
                        local_alias(t),
                        (lowercase(t.source@), t.name@),
                    ),
                    ..rest
                }
            },
            _ => rest,
        }
    }
}

/// A context with the aliases that these tags declare.
pub open spec fn with_aliases(c: TypeContextView, tags: Seq<Tag>) -> TypeContextView
    decreases tags.len(),
{
    if tags.len() == 0 {
        c
    } else {
        let rest = with_aliases(c, tags.drop_last());
        match tags.last() {
            Tag::TypeAlias(t) => TypeContextView { type_aliases: with_item(rest.type_aliases, t.alias@), ..rest },
            _ => rest,
        }
    }
}

/// A context with the template parameters that these tags declare.
pub open spec fn with_templates(c: TypeContextView, class_like: Seq<u8>, tags: Seq<Tag>) -> TypeContextView
    decreases tags.len(),
{
    if tags.len() == 0 {
        c
    } else {
        let rest = with_templates(c, class_like, tags.drop_last());
        match tags.last() {
            Tag::Template(t) => match template_definition(class_like, t) {
                Some(definition) => TypeContextView {
                    template_definitions: rest.template_definitions.insert(t.name@, definition),
                    template_names: keys_with(rest.template_names, rest.template_definitions, t.name@),
                    ..rest
                },
                None => rest,
            },
            _ => rest,
        }
    }
}

/// The context in which the types of the tag at `end` are resolved, if that tag is a template
/// parameter: all aliases are known, and the template parameters that come before it. With the
/// number of tags for `end`, the context of all other tags and of the members.
pub open spec fn type_context(class_like: Seq<u8>, tags: Seq<Tag>, end: int) -> TypeContextView {
    with_templates(
        with_aliases(with_imports(empty_type_context(), class_like, tags), tags),
        class_like,
        tags.take(end),
    )
}

/// The context in which the types of a docblock are resolved.
pub fn type_resolution_context(class_like: &Word, tags: &Vec<Tag>, end: usize) -> (context: TypeResolutionContext)
    requires
        end <= tags@.len(),
    ensures
        context@ == type_context(class_like@, tags@, end as int),
{
    let mut context: TypeResolutionContext = TypeResolutionContext {
        imported_type_aliases: WordMap::new(),
        type_aliases: WordSet::new(),
        template_definitions: WordMap::new(),
    };
    let mut i: usize = 0;
    assert(context@ =~= with_imports(empty_type_context(), class_like@, tags@.take(0)));
    while i < tags.len()
        invariant
            i <= tags@.len(),
            context@ == with_imports(empty_type_context(), class_like@, tags@.take(i as int)),
        decreases tags@.len() - i,
    {
        assert(tags@.take(i + 1).drop_last() =~= tags@.take(i as int));
        assert(tags@.take(i + 1).last() == tags@[i as int]);
        if let Tag::TypeAliasImport(t) = &tags[i] {
            let source: Word = ascii_lowercase_word(t.source.as_slice());
            if !same_word(source.as_slice(), class_like.as_slice()) {
                let import: SymbolIdentifier = (source, copy_word(t.name.as_slice()));
                context.imported_type_aliases.insert(local_alias_word(t), import);
            }
        }
        i = i + 1;
    }
    assert(tags@.take(i as int) =~= tags@);
    let ghost imported = context@;
    i = 0;
    while i < tags.len()
        invariant
            i <= tags@.len(),
            context@ == with_aliases(imported, tags@.take(i as int)),
        decreases tags@.len() - i,
    {
        assert(tags@.take(i + 1).drop_last() =~= tags@.take(i as int));
        assert(tags@.take(i + 1).last() == tags@[i as int]);
        if let Tag::TypeAlias(t) = &tags[i] {
            let _ = context.type_aliases.insert(copy_word(t.alias.as_slice()));
        }
        i = i + 1;
    }
    assert(tags@.take(i as int) =~= tags@);
    let ghost aliased = context@;
    i = 0;
    while i < end
        invariant
            i <= end <= tags@.len(),
            context@ == with_templates(aliased, class_like@, tags@.take(i as int)),
        decreases end - i,
    {
        assert(tags@.take(i + 1).drop_last() =~= tags@.take(i as int));
        assert(tags@.take(i + 1).last() == tags@[i as int]);
        if let Tag::Template(t) = &tags[i] {
            if let Some(definition) = make_template_definition(class_like, t) {
                context.template_definitions.insert(copy_word(t.name.as_slice()), definition);
            }
        }
        i = i + 1;
    }
    context
}

/// The template parameters that a docblock brings into the scope of names, in the order of their
/// tags.
pub open spec fn scope_names(tags: Seq<Tag>) -> Seq<Seq<u8>>
    decreases tags.len(),
{
    if tags.len() == 0 {
        Seq::empty()
    } else {
        match tags.last() {
            Tag::Template(t) => scope_names(tags.drop_last()).push(t.name@),
            _ => scope_names(tags.drop_last()),
        }
    }
}

pub fn template_scope_names(tags: &Vec<Tag>) -> (names: Vec<Word>)
    ensures
        views(names@) == scope_names(tags@),
{
    broadcast use lemma_views_push;

    let mut names: Vec<Word> = Vec::new();
    let mut i: usize = 0;
    assert(views(names@) =~= scope_names(tags@.take(0)));
    while i < tags.len()
        invariant
            i <= tags@.len(),
            views(names@) == scope_names(tags@.take(i as int)),
        decreases tags@.len() - i,
    {
        assert(tags@.take(i + 1).drop_last() =~= tags@.take(i as int));
        assert(tags@.take(i + 1).last() == tags@[i as int]);
        if let Tag::Template(t) = &tags[i] {
            names.push(copy_word(t.name.as_slice()));
        }
        i = i + 1;
    }
    assert(tags@.take(i as int) =~= tags@);
    names
}

// ---- tags, one kind after the other ----

/// The kinds of tags that are looked at one after the other, each in all tags.
#[derive(Clone, Copy, Debug, PartialEq, Eq, Structural)]
pub enum TagKind {
    Flag,
    Template,
    Import,
    Alias,
    Extends,
    Implements,
    RequireExtends,
    RequireImplements,
    Mixin,
    Property,
}

/// What a tag changes when the tags of this kind are looked at.
#[verifier::opaque]
pub open spec fn with_tag(kind: TagKind, m: ClassLikeView, tag: Tag) -> ClassLikeView {
    match kind {
        TagKind::Flag => with_flag_tag(m, tag),
        TagKind::Template => with_template_tag(m, tag),
        TagKind::Import => with_import_tag(m, tag),
        TagKind::Alias => with_alias_tag(m, tag),
        TagKind::Extends => with_extends_tag(m, tag),
        TagKind::Implements => with_implements_tag(m, tag),
        TagKind::RequireExtends => with_require_extends_tag(m, tag),
        TagKind::RequireImplements => with_require_implements_tag(m, tag),
        TagKind::Mixin => with_mixin_tag(m, tag),
        TagKind::Property => with_property_tag(m, tag),
    }
}

/// What the tags of one kind change, in their order.
pub open spec fn with_tags(kind: TagKind, m: ClassLikeView, tags: Seq<Tag>) -> ClassLikeView
    decreases tags.len(),
{
    if tags.len() == 0 {
        m
    } else {
        with_tag(kind, with_tags(kind, m, tags.drop_last()), tags.last())
    }
}

fn apply_tags(kind: TagKind, meta: &mut ClassLikeMetadata, tags: &Vec<Tag>)
    ensures
        final(meta)@ == with_tags(kind, old(meta)@, tags@),
{
    let ghost start = meta@;
    let mut i: usize = 0;
    while i < tags.len()
        invariant
            i <= tags@.len(),
            meta@ == with_tags(kind, start, tags@.take(i as int)),
        decreases tags@.len() - i,
    {
        assert(tags@.take(i + 1).drop_last() =~= tags@.take(i as int));
        assert(tags@.take(i + 1).last() == tags@[i as int]);
        proof {
            reveal(with_tag);
        }
        match kind {
            TagKind::Flag => apply_flag_tag(meta, &tags[i]),
            TagKind::Template => apply_template_tag(meta, &tags[i]),
            TagKind::Import => apply_import_tag(meta, &tags[i]),
            TagKind::Alias => apply_alias_tag(meta, &tags[i]),
            TagKind::Extends => apply_extends_tag(meta, &tags[i]),
            TagKind::Implements => apply_implements_tag(meta, &tags[i]),
            TagKind::RequireExtends => apply_require_extends_tag(meta, &tags[i]),
            TagKind::RequireImplements => apply_require_implements_tag(meta, &tags[i]),
            TagKind::Mixin => apply_mixin_tag(meta, &tags[i]),
            TagKind::Property => apply_property_tag(meta, &tags[i]),
        }
        i = i + 1;
    }
    assert(tags@.take(i as int) =~= tags@);
}

/// The reports on the places of a docblock that could not be read.
pub open spec fn with_parse_errors(m: ClassLikeView, message: &str, errors: Seq<ParseError>) -> ClassLikeView
    decreases errors.len(),
{
    if errors.len() == 0 {
        m
    } else {
        with_parse_errors(m, message, errors.drop_last()).report(parse_error_issue(message, errors.last()))
    }
}

pub fn report_parse_errors(meta: &mut ClassLikeMetadata, message: &str, errors: &Vec<ParseError>)
    ensures
        final(meta)@ == with_parse_errors(old(meta)@, message, errors@),
{
    let ghost start = meta@;
    let mut i: usize = 0;
    while i < errors.len()
        invariant
            i <= errors@.len(),
            meta@ == with_parse_errors(start, message, errors@.take(i as int)),
        decreases errors@.len() - i,
    {
        assert(errors@.take(i + 1).drop_last() =~= errors@.take(i as int));
        assert(errors@.take(i + 1).last() == errors@[i as int]);
        meta.report(make_parse_error_issue(message, &errors[i]));
        i = i + 1;
    }
    assert(errors@.take(i as int) =~= errors@);
}

// ---- methods ----

/// The type that a tag gives, where it gives one.
pub open spec fn written_type(resolved: Option<Result<TypeMetadata, TypingError>>) -> Option<TypeView> {
    match resolved {
        Some(Ok(t)) => Some(t@),
        _ => None,
    }
}

fn copy_written_type(resolved: &Option<Result<TypeMetadata, TypingError>>) -> (t: Option<TypeMetadata>)
    ensures
        option_view(t) == written_type(*resolved),
{
    match resolved {
        Some(Ok(t)) => Some(t.copy()),
        _ => None,
    }
}

/// A parameter of a method that a tag declares.
pub open spec fn tag_parameter(p: MethodTagParameter) -> ParameterView {
    let named = ParameterView::new(p.name@, p.span, p.name_span);
    let typed = match p.resolved {
        Some(_) => named.with_type_declaration(written_type(p.resolved)),
        None => named,
    };
    ParameterView {
        flags: MetadataFlags {
            is_variadic: p.is_variadic,
            is_by_reference: p.is_by_reference,
            has_default: p.is_optional,
            ..no_flags()
        },
        ..typed
    }
}

fn make_tag_parameter(p: &MethodTagParameter) -> (parameter: ParameterMetadata)
    ensures
        parameter@ == tag_parameter(*p),
{
    let mut parameter: ParameterMetadata = ParameterMetadata::new(
        copy_word(p.name.as_slice()),
        p.span,
        p.name_span,
    );
    if p.resolved.is_some() {
        parameter.set_type_declaration_metadata(copy_written_type(&p.resolved));
    }
    parameter.flags = MetadataFlags {
        is_variadic: p.is_variadic,
        is_by_reference: p.is_by_reference,
        has_default: p.is_optional,
        ..MetadataFlags::empty()
    };
    parameter
}

/// The method that a `@method` tag declares.
pub open spec fn tag_method(t: MethodTag) -> FunctionLikeView {
    FunctionLikeView {
        flags: MetadataFlags { is_static: t.is_static, is_magic_method: true, ..no_flags() },
        method_metadata: Some(
            MethodView {
                is_final: false,
                is_abstract: false,
                is_static: t.is_static,
                is_constructor: false,
                visibility: match t.visibility {
                    Some(v) => v,
                    None => Visibility::Public,
                },
            },
        ),
        parameters: t.parameters@.map_values(|p: MethodTagParameter| tag_parameter(p)),
        return_type_metadata: written_type(t.return_type),
        ..FunctionLikeView::new_method(lowercase(t.name@), t.name@, t.span)
    }
}

fn make_tag_method(t: &MethodTag) -> (method: FunctionLikeMetadata)
    ensures
        method@ == tag_method(*t),
{
    broadcast use lemma_views_push;

    let mut parameters: Vec<ParameterMetadata> = Vec::new();
    let ghost all = t.parameters@.map_values(|p: MethodTagParameter| tag_parameter(p));
    let mut i: usize = 0;
    assert(views(parameters@) =~= all.take(0));
    while i < t.parameters.len()
        invariant
            i <= t.parameters@.len(),
            all == t.parameters@.map_values(|p: MethodTagParameter| tag_parameter(p)),
            views(parameters@) == all.take(i as int),
        decreases t.parameters@.len() - i,
    {
        let ghost before = views(parameters@);
        parameters.push(make_tag_parameter(&t.parameters[i]));
        assert(views(parameters@) == before.push(all[i as int]));
        i = i + 1;
        assert(views(parameters@) =~= all.take(i as int));
    }
    assert(all.take(i as int) =~= all);
    let method = FunctionLikeMetadata {
        kind: FunctionLikeKind::Method,
        name: ascii_lowercase_word(t.name.as_slice()),
        original_name: copy_word(t.name.as_slice()),
        span: t.span,
        name_span: None,
        flags: MetadataFlags { is_static: t.is_static, is_magic_method: true, ..MetadataFlags::empty() },
        parameters,
        return_type_declaration_metadata: None,
        return_type_metadata: copy_written_type(&t.return_type),
        method_metadata: Some(
            MethodMetadata {
                is_final: false,
                is_abstract: false,
                is_static: t.is_static,
                is_constructor: false,
                visibility: match t.visibility {
                    Some(v) => v,
                    None => Visibility::Public,
                },
            },
        ),
        thrown_types: Vec::new(),
        return_expression_hints: Vec::new(),
    };
    assert(method@ =~= tag_method(*t));
    method
}

/// What a `@method` tag changes in its class-like.
pub open spec fn with_method_tag(m: ClassLikeView, tag: Tag) -> ClassLikeView {
    match tag {
        Tag::Method(t) => {
            let name = lowercase(t.name@);
            m.add_inheritable_method(name, (m.name, name)).add_pseudo_method(name)
        },
        _ => m,
    }
}

pub open spec fn with_method_tags(m: ClassLikeView, tags: Seq<Tag>) -> ClassLikeView
    decreases tags.len(),
{
    if tags.len() == 0 {
        m
    } else {
        with_method_tag(with_method_tags(m, tags.drop_last()), tags.last())
    }
}

/// The codebase with the methods that the tags of `class_like` declare.
pub open spec fn with_tag_methods(c: CodebaseView, class_like: Seq<u8>, tags: Seq<Tag>) -> CodebaseView
    decreases tags.len(),
{
    if tags.len() == 0 {
        c
    } else {
        let rest = with_tag_methods(c, class_like, tags.drop_last());
        match tags.last() {
            Tag::Method(t) => rest.add_function_like((class_like, lowercase(t.name@)), tag_method(t)),
            _ => rest,
        }
    }
}

fn apply_method_tags(codebase: &mut CodebaseMetadata, meta: &mut ClassLikeMetadata, tags: &Vec<Tag>)
    ensures
        final(meta)@ == with_method_tags(old(meta)@, tags@),
        final(codebase)@ == with_tag_methods(old(codebase)@, old(meta)@.name, tags@),
{
    let ghost start = meta@;
    let ghost known = codebase@;
    let mut i: usize = 0;
    while i < tags.len()
        invariant
            i <= tags@.len(),
            meta@.name == start.name,
            meta@ == with_method_tags(start, tags@.take(i as int)),
            codebase@ == with_tag_methods(known, start.name, tags@.take(i as int)),
        decreases tags@.len() - i,
    {
        assert(tags@.take(i + 1).drop_last() =~= tags@.take(i as int));
        assert(tags@.take(i + 1).last() == tags@[i as int]);
        if let Tag::Method(t) = &tags[i] {
            let name: Word = ascii_lowercase_word(t.name.as_slice());
            let id = MethodIdentifier::new(&meta.name, &name);
            meta.add_inheritable_method(copy_word(name.as_slice()), id);
            meta.add_pseudo_method(copy_word(name.as_slice()));
            let key: SymbolIdentifier = (copy_word(meta.name.as_slice()), name);
            codebase.add_function_like(key, make_tag_method(t));
        }
        i = i + 1;
    }
    assert(tags@.take(i as int) =~= tags@);
}

// ---- all of it ----

/// What a docblock says of a class-like.
#[verifier::opaque]
pub open spec fn with_document(m: ClassLikeView, document: Document) -> ClassLikeView {
    let tags = document.tags@;
    let m = with_parse_errors(m, "Failed to parse class-like docblock comment.", document.errors@);
    let m = with_tags(TagKind::Flag, m, tags);
    let m = with_tags(TagKind::Template, m, tags);
    let m = with_tags(TagKind::Import, m, tags);
    let m = with_tags(TagKind::Alias, m, tags);
    let m = with_tags(TagKind::Extends, m, tags);
    let m = with_tags(TagKind::Implements, m, tags);
    let m = with_tags(TagKind::RequireExtends, m, tags);
    let m = with_tags(TagKind::RequireImplements, m, tags);
    let m = with_inheritors_tags(m, tags);
    let m = with_tags(TagKind::Mixin, m, tags);
    let m = with_method_tags(m, tags);
    with_tags(TagKind::Property, m, tags)
}

/// A docblock leaves the name, the kind and the members of its class-like as they are.
pub open spec fn same_frame(a: ClassLikeView, b: ClassLikeView) -> bool {
    &&& a.name == b.name
    &&& a.original_name == b.original_name
    &&& a.span == b.span
    &&& a.name_span == b.name_span
    &&& a.kind == b.kind
    &&& a.enum_type == b.enum_type
    &&& a.attributes == b.attributes
    &&& a.direct_parent_class == b.direct_parent_class
    &&& a.all_parent_classes == b.all_parent_classes
    &&& a.direct_parent_interfaces == b.direct_parent_interfaces
    &&& a.all_parent_interfaces == b.all_parent_interfaces
    &&& a.used_traits == b.used_traits
    &&& a.properties == b.properties
    &&& a.declaring_property_ids == b.declaring_property_ids
    &&& a.constants == b.constants
    &&& a.enum_cases == b.enum_cases
}

proof fn lemma_flag_tag_frame(m: ClassLikeView, tag: Tag)
    ensures
        same_frame(with_flag_tag(m, tag), m),
{
}

proof fn lemma_template_tag_frame(m: ClassLikeView, tag: Tag)
    ensures
        same_frame(with_template_tag(m, tag), m),
{
}

proof fn lemma_import_tag_frame(m: ClassLikeView, tag: Tag)
    ensures
        same_frame(with_import_tag(m, tag), m),
{
}

proof fn lemma_alias_tag_frame(m: ClassLikeView, tag: Tag)
    ensures
        same_frame(with_alias_tag(m, tag), m),
{
}

proof fn lemma_extends_tag_frame(m: ClassLikeView, tag: Tag)
    ensures
        same_frame(with_extends_tag(m, tag), m),
{
}

proof fn lemma_implements_tag_frame(m: ClassLikeView, tag: Tag)
    ensures
        same_frame(with_implements_tag(m, tag), m),
{
}

proof fn lemma_require_extends_tag_frame(m: ClassLikeView, tag: Tag)
    ensures
        same_frame(with_require_extends_tag(m, tag), m),
{
}

proof fn lemma_require_implements_tag_frame(m: ClassLikeView, tag: Tag)
    ensures
        same_frame(with_require_implements_tag(m, tag), m),
{
}

proof fn lemma_mixin_tag_frame(m: ClassLikeView, tag: Tag)
    ensures
        same_frame(with_mixin_tag(m, tag), m),
{
}

proof fn lemma_property_tag_frame(m: ClassLikeView, tag: Tag)
    ensures
        same_frame(with_property_tag(m, tag), m),
{
}

proof fn lemma_tags_frame(kind: TagKind, m: ClassLikeView, tags: Seq<Tag>)
    ensures
        same_frame(with_tags(kind, m, tags), m),
    decreases tags.len(),
{
    if tags.len() > 0 {
        lemma_tags_frame(kind, m, tags.drop_last());
        let rest = with_tags(kind, m, tags.drop_last());
        assert(same_frame(with_tag(kind, rest, tags.last()), rest)) by {
            reveal(with_tag);
            match kind {
                TagKind::Flag => lemma_flag_tag_frame(rest, tags.last()),
                TagKind::Template => lemma_template_tag_frame(rest, tags.last()),
                TagKind::Import => lemma_import_tag_frame(rest, tags.last()),
                TagKind::Alias => lemma_alias_tag_frame(rest, tags.last()),
                TagKind::Extends => lemma_extends_tag_frame(rest, tags.last()),
                TagKind::Implements => lemma_implements_tag_frame(rest, tags.last()),
                TagKind::RequireExtends => lemma_require_extends_tag_frame(rest, tags.last()),
                TagKind::RequireImplements => lemma_require_implements_tag_frame(rest, tags.last()),
                TagKind::Mixin => lemma_mixin_tag_frame(rest, tags.last()),
                TagKind::Property => lemma_property_tag_frame(rest, tags.last()),
            }
        }
    }
}

proof fn lemma_parse_errors_frame(m: ClassLikeView, message: &str, errors: Seq<ParseError>)
    ensures
        same_frame(with_parse_errors(m, message, errors), m),
    decreases errors.len(),
{
    if errors.len() > 0 {
        lemma_parse_errors_frame(m, message, errors.drop_last());
    }
}

proof fn lemma_method_tags_frame(m: ClassLikeView, tags: Seq<Tag>)
    ensures
        same_frame(with_method_tags(m, tags), m),
    decreases tags.len(),
{
    if tags.len() > 0 {
        lemma_method_tags_frame(m, tags.drop_last());
    }
}

proof fn lemma_inheritors_frame(m: ClassLikeView, span: Span, inheritors: Seq<AtomicView>)
    ensures
        same_frame(with_inheritors(m, span, inheritors), m),
    decreases inheritors.len(),
{
    if inheritors.len() > 0 {
        lemma_inheritors_frame(m, span, inheritors.drop_last());
    }
}

/// Whatever a docblock says, it changes neither the name, the kind and the parents of its class-like
/// nor the members that the class-like declares.
pub proof fn document_keeps_frame(m: ClassLikeView, document: Document)
    ensures
        same_frame(with_document(m, document), m),
{
    reveal(with_document);
    let tags = document.tags@;
    lemma_parse_errors_frame(m, "Failed to parse class-like docblock comment.", document.errors@);
    let m = with_parse_errors(m, "Failed to parse class-like docblock comment.", document.errors@);
    lemma_tags_frame(TagKind::Flag, m, tags);
    let m = with_tags(TagKind::Flag, m, tags);
    lemma_tags_frame(TagKind::Template, m, tags);
    let m = with_tags(TagKind::Template, m, tags);
    lemma_tags_frame(TagKind::Import, m, tags);
    let m = with_tags(TagKind::Import, m, tags);
    lemma_tags_frame(TagKind::Alias, m, tags);
    let m = with_tags(TagKind::Alias, m, tags);
    lemma_tags_frame(TagKind::Extends, m, tags);
    let m = with_tags(TagKind::Extends, m, tags);
    lemma_tags_frame(TagKind::Implements, m, tags);
    let m = with_tags(TagKind::Implements, m, tags);
    lemma_tags_frame(TagKind::RequireExtends, m, tags);
    let m = with_tags(TagKind::RequireExtends, m, tags);
    lemma_tags_frame(TagKind::RequireImplements, m, tags);
    let m = with_tags(TagKind::RequireImplements, m, tags);
    if let Some(t) = last_inheritors(tags) {
        if let Ok(u) = t.resolved {
            lemma_inheritors_frame(m, t.type_span, u@.types);
        }
    }
    let m = with_inheritors_tags(m, tags);
    lemma_tags_frame(TagKind::Mixin, m, tags);
    let m = with_tags(TagKind::Mixin, m, tags);
    lemma_method_tags_frame(m, tags);
    let m = with_method_tags(m, tags);
    lemma_tags_frame(TagKind::Property, m, tags);
}

/// Takes over what a docblock says of a class-like. The methods that it declares go into the
/// codebase.
pub fn apply_document(codebase: &mut CodebaseMetadata, meta: &mut ClassLikeMetadata, document: &Document)
    ensures
        final(meta)@ == with_document(old(meta)@, *document),
        final(codebase)@ == with_tag_methods(old(codebase)@, old(meta)@.name, document.tags@),
{
    proof {
        reveal(with_document);
        document_keeps_frame(meta@, *document);
        lemma_method_tags_frame(meta@, document.tags@);
    }
    let ghost start = meta@;
    report_parse_errors(meta, "Failed to parse class-like docblock comment.", &document.errors);
    apply_tags(TagKind::Flag, meta, &document.tags);
    apply_tags(TagKind::Template, meta, &document.tags);
    apply_tags(TagKind::Import, meta, &document.tags);
    apply_tags(TagKind::Alias, meta, &document.tags);
    apply_tags(TagKind::Extends, meta, &document.tags);
    apply_tags(TagKind::Implements, meta, &document.tags);
    apply_tags(TagKind::RequireExtends, meta, &document.tags);
    apply_tags(TagKind::RequireImplements, meta, &document.tags);
    apply_inheritors_tags(meta, &document.tags);
    apply_tags(TagKind::Mixin, meta, &document.tags);
    let ghost before = meta@;
    proof {
        lemma_method_tags_frame(before, document.tags@);
        let after = with_method_tags(before, document.tags@);
        lemma_tags_frame(TagKind::Property, after, document.tags@);
        assert(before.name == start.name);
    }
    apply_method_tags(codebase, meta, &document.tags);
    apply_tags(TagKind::Property, meta, &document.tags);
}

} // verus!
