//! What holds of the registration of class-likes as a whole.

use vstd::prelude::*;

use crate::class_docblock::document_keeps_frame;
use crate::class_docblock::with_parse_errors;
use crate::class_docblock::with_tag_methods;
use crate::class_like::backing_atomic;
use crate::class_like::bare_class_like;
use crate::class_like::codebase_with_enum_methods;
use crate::class_like::docblock;
use crate::class_like::enum_interface;
use crate::class_like::is_registered;
use crate::class_like::scanned_class_like;
use crate::class_like::scanned_codebase;
use crate::class_like::with_body;
use crate::class_like::with_docblock;
use crate::class_like::with_enum_methods;
use crate::class_like::with_header;
use crate::class_like::with_interfaces;
use crate::class_like::HeaderView;
use crate::class_like::RegistrationView;
use crate::class_like::ScanSettings;
use crate::class_members::with_adaptations;
use crate::class_members::with_case_members;
use crate::class_members::with_constant_members;
use crate::class_members::with_constants;
use crate::class_members::with_enum_properties;
use crate::class_members::with_issues;
use crate::class_members::with_members;
use crate::class_members::with_properties;
use crate::class_members::with_use_tags;
use crate::class_members::with_used_traits;
use crate::class_members::ClassLikeMember;
use crate::class_members::TraitUse;
use crate::class_members::TraitUseAdaptation;
use crate::class_members::UseTagKind;
use crate::codebase::CodebaseView;
use crate::docblock::Document;
use crate::docblock::ParseError;
use crate::docblock::Tag;
use crate::issue::Issue;
use crate::issue::Span;
use crate::metadata::no_flags;
use crate::metadata::ClassLikeConstantMetadata;
use crate::metadata::ClassLikeView;
use crate::metadata::MetadataFlags;
use crate::metadata::PropertyMetadata;
use crate::metadata::SymbolKind;
use crate::word::lowercase;
use crate::word::text;
use crate::word::Word;

verus! {

/// Two accounts are of the same class-like.
pub open spec fn same_identity(a: ClassLikeView, b: ClassLikeView) -> bool {
    &&& a.name == b.name
    &&& a.original_name == b.original_name
    &&& a.kind == b.kind
}

proof fn lemma_interfaces(m: ClassLikeView, names: Seq<Seq<u8>>)
    ensures
        same_identity(with_interfaces(m, names), m),
    decreases names.len(),
{
    if names.len() > 0 {
        lemma_interfaces(m, names.drop_last());
    }
}

proof fn lemma_header(m: ClassLikeView, h: HeaderView)
    ensures
        same_identity(with_header(m, h), m),
{
    reveal(with_header);
    match h.kind {
        SymbolKind::Class => {
            let flagged = m.add_flags(
                MetadataFlags {
                    is_final: h.is_final,
                    is_abstract: h.is_abstract,
                    is_readonly: h.is_readonly,
                    ..no_flags()
                },
            );
            if h.extends.len() > 0 {
                lemma_interfaces(flagged.set_parent_class(lowercase(h.extends[0])), h.implements);
            } else {
                lemma_interfaces(flagged, h.implements);
            }
        },
        SymbolKind::Enum => {
            let flagged = m.add_flags(MetadataFlags { is_final: true, ..no_flags() });
            lemma_interfaces(
                with_enum_methods(flagged.add_direct_parent_interface(enum_interface(h.backing_type))),
                h.implements,
            );
        },
        SymbolKind::Trait => {},
        SymbolKind::Interface => {
            lemma_interfaces(m.add_flags(MetadataFlags { is_abstract: true, ..no_flags() }), h.extends);
        },
    }
}

proof fn lemma_issues(m: ClassLikeView, issues: Seq<Issue>)
    ensures
        same_identity(with_issues(m, issues), m),
    decreases issues.len(),
{
    if issues.len() > 0 {
        lemma_issues(m, issues.drop_last());
    }
}

proof fn lemma_constants(m: ClassLikeView, constants: Seq<ClassLikeConstantMetadata>)
    ensures
        same_identity(with_constants(m, constants), m),
    decreases constants.len(),
{
    if constants.len() > 0 {
        lemma_constants(m, constants.drop_last());
    }
}

proof fn lemma_constant_members(m: ClassLikeView, members: Seq<ClassLikeMember>)
    ensures
        same_identity(with_constant_members(m, members), m),
    decreases members.len(),
{
    if members.len() > 0 {
        let rest = with_constant_members(m, members.drop_last());
        lemma_constant_members(m, members.drop_last());
        if let ClassLikeMember::Constant(c) = members.last() {
            lemma_issues(rest, c.issues@);
            lemma_constants(with_issues(rest, c.issues@), c.constants@);
        }
    }
}

proof fn lemma_case_members(m: ClassLikeView, members: Seq<ClassLikeMember>)
    ensures
        same_identity(with_case_members(m, members), m),
    decreases members.len(),
{
    if members.len() > 0 {
        lemma_case_members(m, members.drop_last());
    }
}

proof fn lemma_enum_properties(m: ClassLikeView, max_cases: int)
    ensures
        same_identity(with_enum_properties(m, max_cases), m),
{
}

proof fn lemma_used_traits(m: ClassLikeView, names: Seq<Word>)
    ensures
        same_identity(with_used_traits(m, names), m),
    decreases names.len(),
{
    if names.len() > 0 {
        lemma_used_traits(m, names.drop_last());
    }
}

proof fn lemma_adaptations(m: ClassLikeView, adaptations: Seq<TraitUseAdaptation>)
    ensures
        same_identity(with_adaptations(m, adaptations), m),
    decreases adaptations.len(),
{
    if adaptations.len() > 0 {
        lemma_adaptations(m, adaptations.drop_last());
    }
}

proof fn lemma_parse_errors(m: ClassLikeView, message: &str, errors: Seq<ParseError>)
    ensures
        same_identity(with_parse_errors(m, message, errors), m),
    decreases errors.len(),
{
    if errors.len() > 0 {
        lemma_parse_errors(m, message, errors.drop_last());
    }
}

proof fn lemma_use_tags(kind: UseTagKind, m: ClassLikeView, tags: Seq<Tag>)
    ensures
        same_identity(with_use_tags(kind, m, tags), m),
    decreases tags.len(),
{
    if tags.len() > 0 {
        lemma_use_tags(kind, m, tags.drop_last());
    }
}

proof fn lemma_use_document(m: ClassLikeView, document: Document)
    ensures
        same_identity(crate::class_members::with_use_document(m, document), m),
{
    let message = "Failed to parse trait use docblock comment.";
    lemma_parse_errors(m, message, document.errors@);
    let m = with_parse_errors(m, message, document.errors@);
    lemma_use_tags(UseTagKind::Use, m, document.tags@);
    let m = with_use_tags(UseTagKind::Use, m, document.tags@);
    lemma_use_tags(UseTagKind::Implements, m, document.tags@);
    let m = with_use_tags(UseTagKind::Implements, m, document.tags@);
    lemma_use_tags(UseTagKind::Extends, m, document.tags@);
}

proof fn lemma_trait_use(m: ClassLikeView, trait_use: TraitUse)
    ensures
        same_identity(crate::class_members::with_trait_use(m, trait_use), m),
{
    lemma_used_traits(m, trait_use.names@);
    let using = with_used_traits(m, trait_use.names@);
    lemma_adaptations(using, trait_use.adaptations@);
    if let Some(document) = trait_use.document {
        lemma_use_document(with_adaptations(using, trait_use.adaptations@), document);
    }
}

proof fn lemma_properties(m: ClassLikeView, properties: Seq<PropertyMetadata>)
    ensures
        same_identity(with_properties(m, properties), m),
    decreases properties.len(),
{
    if properties.len() > 0 {
        lemma_properties(m, properties.drop_last());
    }
}

proof fn lemma_members(m: ClassLikeView, members: Seq<ClassLikeMember>)
    ensures
        same_identity(with_members(m, members), m),
    decreases members.len(),
{
    if members.len() > 0 {
        let rest = with_members(m, members.drop_last());
        lemma_members(m, members.drop_last());
        match members.last() {
            ClassLikeMember::TraitUse(trait_use) => {
                lemma_trait_use(rest, trait_use);
            },
            ClassLikeMember::Property(p) => {
                lemma_issues(rest, p.issues@);
                lemma_properties(with_issues(rest, p.issues@), p.properties@);
            },
            _ => {},
        }
    }
}

proof fn lemma_body(m: ClassLikeView, members: Seq<ClassLikeMember>, max_enum_cases: int)
    ensures
        same_identity(with_body(m, members, max_enum_cases), m),
{
    reveal(with_body);
    lemma_constant_members(m, members);
    let m = with_constant_members(m, members);
    lemma_case_members(m, members);
    let m = with_case_members(m, members);
    lemma_enum_properties(m, max_enum_cases);
    let m = with_enum_properties(m, max_enum_cases);
    lemma_members(m, members);
}

/// Whatever a declaration says of its class-like, the name and the kind stay those of its first
/// line.
pub proof fn declarations_keep_their_name(h: HeaderView, settings: ScanSettings)
    ensures
        scanned_class_like(h, settings).name == lowercase(h.name),
        scanned_class_like(h, settings).original_name == h.name,
        scanned_class_like(h, settings).kind == h.kind,
{
    reveal(scanned_class_like);
    let bare = bare_class_like(h, settings.origin_flags);
    lemma_header(bare, h);
    let headed = with_header(bare, h);
    if let Some(document) = docblock(h.declaration) {
        document_keeps_frame(headed, document);
    }
    lemma_body(with_docblock(headed, h.declaration), h.declaration.members@, settings.max_enum_cases as int);
}

proof fn lemma_tag_methods_keep_class_likes(c: CodebaseView, class_like: Seq<u8>, tags: Seq<Tag>)
    ensures
        with_tag_methods(c, class_like, tags).class_likes == c.class_likes,
    decreases tags.len(),
{
    if tags.len() > 0 {
        lemma_tag_methods_keep_class_likes(c, class_like, tags.drop_last());
    }
}

proof fn lemma_scanning_keeps_class_likes(c: CodebaseView, h: HeaderView, settings: ScanSettings)
    ensures
        scanned_codebase(c, h, settings).class_likes == c.class_likes,
{
    reveal(scanned_codebase);
    let name = lowercase(h.name);
    let named = c.add_symbol_name(name, h.kind);
    let with_methods = if h.kind == SymbolKind::Enum {
        codebase_with_enum_methods(named, bare_class_like(h, settings.origin_flags), h.declaration.span)
    } else {
        named
    };
    if let Some(document) = docblock(h.declaration) {
        lemma_tag_methods_keep_class_likes(with_methods, name, document.tags@);
    }
}

/// Once a declaration is registered, its class-like is known; and so are all that were known
/// before, as they were.
pub proof fn registered_class_likes_are_known(
    before: CodebaseView,
    h: HeaderView,
    settings: ScanSettings,
    result: Option<RegistrationView>,
    after: CodebaseView,
)
    requires
        is_registered(before, h, settings, result, after),
    ensures
        after.class_likes.contains_key(lowercase(h.name)),
        forall|name: Seq<u8>| #[trigger]
            before.class_likes.contains_key(name) ==> after.class_likes.contains_key(name) && after.class_likes[name]
                == before.class_likes[name],
        forall|name: Seq<u8>| #[trigger]
            after.class_likes.contains_key(name) ==> name == lowercase(h.name) || before.class_likes.contains_key(name),
        result is Some ==> result->0.name == lowercase(h.name),
{
    declarations_keep_their_name(h, settings);
    lemma_scanning_keeps_class_likes(before, h, settings);
}

/// Of two declarations with the same name, whatever the case of its letters and whatever the
/// settings, the first counts: to register the second one gives nothing and changes nothing.
pub proof fn first_declaration_counts(
    before: CodebaseView,
    first: HeaderView,
    first_settings: ScanSettings,
    first_result: Option<RegistrationView>,
    between: CodebaseView,
    second: HeaderView,
    second_settings: ScanSettings,
    second_result: Option<RegistrationView>,
    after: CodebaseView,
)
    requires
        lowercase(first.name) == lowercase(second.name),
        is_registered(before, first, first_settings, first_result, between),
        is_registered(between, second, second_settings, second_result, after),
    ensures
        second_result is None,
        after == between,
{
    registered_class_likes_are_known(before, first, first_settings, first_result, between);
}

proof fn lemma_tag_methods_keep_methods(
    c: CodebaseView,
    class_like: Seq<u8>,
    tags: Seq<Tag>,
    method: (Seq<u8>, Seq<u8>),
)
    requires
        c.function_likes.contains_key(method),
    ensures
        with_tag_methods(c, class_like, tags).function_likes.contains_key(method),
    decreases tags.len(),
{
    if tags.len() > 0 {
        lemma_tag_methods_keep_methods(c, class_like, tags.drop_last(), method);
    }
}

/// Each enum that is registered has a method that lists its cases; and each enum that is backed by
/// strings or integers has the two that find a case by its value.
pub proof fn enums_have_their_methods(
    before: CodebaseView,
    h: HeaderView,
    settings: ScanSettings,
    result: Option<RegistrationView>,
    after: CodebaseView,
)
    requires
        is_registered(before, h, settings, result, after),
        result is Some,
        h.kind == SymbolKind::Enum,
    ensures
        after.function_likes.contains_key((lowercase(h.name), lowercase(text("cases")))),
        backing_atomic(h.backing_type) is Some ==> after.function_likes.contains_key((lowercase(h.name), lowercase(text("from")))),
        backing_atomic(h.backing_type) is Some ==> after.function_likes.contains_key((lowercase(h.name), lowercase(text("tryFrom")))),
{
    lemma_registration_keeps_methods(before, h, settings, result, after);
    lemma_scanned_enum_methods(before, h, settings);
}

proof fn lemma_registration_keeps_methods(
    before: CodebaseView,
    h: HeaderView,
    settings: ScanSettings,
    result: Option<RegistrationView>,
    after: CodebaseView,
)
    requires
        is_registered(before, h, settings, result, after),
        result is Some,
    ensures
        after.function_likes == scanned_codebase(before, h, settings).function_likes,
{
}

proof fn lemma_enum_methods(c: CodebaseView, m: ClassLikeView, span: Span)
    ensures
        codebase_with_enum_methods(c, m, span).function_likes.contains_key((m.name, lowercase(text("cases")))),
        m.enum_type is Some ==> codebase_with_enum_methods(c, m, span).function_likes.contains_key(
            (m.name, lowercase(text("from"))),
        ),
        m.enum_type is Some ==> codebase_with_enum_methods(c, m, span).function_likes.contains_key(
            (m.name, lowercase(text("tryFrom"))),
        ),
{
}

proof fn lemma_scanned_enum_methods(c: CodebaseView, h: HeaderView, settings: ScanSettings)
    requires
        h.kind == SymbolKind::Enum,
    ensures
        scanned_codebase(c, h, settings).function_likes.contains_key((lowercase(h.name), lowercase(text("cases")))),
        backing_atomic(h.backing_type) is Some ==> scanned_codebase(c, h, settings).function_likes.contains_key(
            (lowercase(h.name), lowercase(text("from"))),
        ),
        backing_atomic(h.backing_type) is Some ==> scanned_codebase(c, h, settings).function_likes.contains_key(
            (lowercase(h.name), lowercase(text("tryFrom"))),
        ),
{
    reveal(scanned_codebase);
    let name = lowercase(h.name);
    let bare = bare_class_like(h, settings.origin_flags);
    let named = c.add_symbol_name(name, h.kind);
    let methods = codebase_with_enum_methods(named, bare, h.declaration.span);
    assert(bare.name == name);
    assert(bare.enum_type == backing_atomic(h.backing_type));
    lemma_enum_methods(named, bare, h.declaration.span);
    if let Some(document) = docblock(h.declaration) {
        lemma_tag_methods_keep_methods(methods, name, document.tags@, (name, lowercase(text("cases"))));
        if backing_atomic(h.backing_type) is Some {
            lemma_tag_methods_keep_methods(methods, name, document.tags@, (name, lowercase(text("from"))));
            lemma_tag_methods_keep_methods(methods, name, document.tags@, (name, lowercase(text("tryFrom"))));
        }
    }
}

} // verus!
