//! Reading the declarations of class-likes.

use vstd::prelude::*;

use crate::class_docblock::apply_document;
use crate::class_docblock::with_document;
use crate::class_docblock::with_tag_methods;
use crate::class_members::add_enum_properties;
use crate::class_members::scan_constants;
use crate::class_members::scan_enum_cases;
use crate::class_members::scan_members;
use crate::class_members::with_case_members;
use crate::class_members::with_constant_members;
use crate::class_members::with_enum_properties;
use crate::class_members::with_members;
use crate::class_members::ClassLikeMember;
use crate::class_members::Modifier;
use crate::codebase::CodebaseMetadata;
use crate::codebase::CodebaseView;
use crate::collections::lemma_take_members;
use crate::collections::lemma_views_push;
use crate::collections::lemma_with_item_members;
use crate::collections::option_view;
use crate::collections::views;
use crate::collections::SymbolIdentifier;
use crate::collections::WordMap;
use crate::collections::WordSet;
use crate::docblock::Document;
use crate::issue::Span;
use crate::metadata::declared_type;
use crate::metadata::no_flags;
use crate::metadata::AttributeMetadata;
use crate::metadata::AttributeView;
use crate::metadata::ClassLikeMetadata;
use crate::metadata::ClassLikeView;
use crate::metadata::FunctionLikeKind;
use crate::metadata::FunctionLikeMetadata;
use crate::metadata::FunctionLikeView;
use crate::metadata::GenericTemplate;
use crate::metadata::GenericTemplateView;
use crate::metadata::ImportedTypeAliasView;
use crate::metadata::MetadataFlags;
use crate::metadata::MethodIdentifier;
use crate::metadata::MethodMetadata;
use crate::metadata::MethodView;
use crate::metadata::ParameterMetadata;
use crate::metadata::ParameterView;
use crate::metadata::SymbolKind;
use crate::metadata::TypeMetadata;
use crate::metadata::TypeView;
use crate::metadata::VersionConstraint;
use crate::metadata::Visibility;
use crate::ttype::AtomicView;
use crate::ttype::EnumView;
use crate::ttype::ObjectView;
use crate::ttype::TAtomic;
use crate::ttype::TEnum;
use crate::ttype::TInteger;
use crate::ttype::TObject;
use crate::ttype::TScalar;
use crate::ttype::TString;
use crate::ttype::TStringCasing;
use crate::ttype::TUnion;
use crate::ttype::UnionView;
use crate::type_build::general_string;
use crate::type_build::get_list;
use crate::type_build::get_named_object;
use crate::type_build::get_non_empty_list;
use crate::type_build::int_atomic;
use crate::type_build::integer;
use crate::type_build::list_of;
use crate::type_build::named_object;
use crate::type_build::string_atomic;
use crate::type_build::union_of;
use crate::type_build::wrap_atomic;
use crate::type_build::wrap_atomics;
use crate::word::ascii_lowercase_word;
use crate::word::copy_word;
use crate::word::eq_ignore_ascii_case;
use crate::word::lowercase;
use crate::word::text;
use crate::word::word;
use crate::word::Word;

verus! {

// ---- the methods of enums ----

/// An object of an enum, of whichever case.
pub open spec fn enum_instance(name: Seq<u8>) -> AtomicView {
    AtomicView::Object(ObjectView::Enum(EnumView { name, case: None }))
}

fn make_enum_instance(name: &Word) -> (instance: TAtomic)
    ensures
        instance@ == enum_instance(name@),
{
    TAtomic::Object(TObject::Enum(TEnum { name: copy_word(name.as_slice()), case: None }))
}

pub fn enum_instance_union(name: &Word) -> (u: TUnion)
    ensures
        u@ == union_of(enum_instance(name@)),
{
    wrap_atomic(make_enum_instance(name))
}

/// The parameter of the methods that find a case by its value.
pub open spec fn enum_value_parameter(backing: AtomicView, span: Span) -> ParameterView {
    ParameterView {
        type_declaration_metadata: Some(declared_type(union_of(backing), span)),
        type_metadata: Some(declared_type(union_of(backing), span)),
        ..ParameterView::new(text("$value"), span, span)
    }
}

pub fn create_enum_value_parameter(backing_type: &TAtomic, span: Span) -> (parameter: ParameterMetadata)
    ensures
        parameter@ == enum_value_parameter(backing_type@, span),
{
    ParameterMetadata {
        name: word("$value"),
        span,
        name_span: span,
        flags: MetadataFlags::empty(),
        type_declaration_metadata: Some(TypeMetadata::new(wrap_atomic(backing_type.copy()), span)),
        type_metadata: Some(TypeMetadata::new(wrap_atomic(backing_type.copy()), span)),
    }
}

/// A method that each enum has.
pub open spec fn enum_method(
    name: &str,
    span: Span,
    parameters: Seq<ParameterView>,
    return_type: UnionView,
    thrown_types: Seq<TypeView>,
) -> FunctionLikeView {
    FunctionLikeView {
        kind: FunctionLikeKind::Method,
        name: text(name),
        original_name: text(name),
        span,
        name_span: Some(span),
        flags: MetadataFlags { is_populated: true, ..no_flags() },
        parameters,
        return_type_declaration_metadata: Some(declared_type(return_type, span)),
        return_type_metadata: Some(declared_type(return_type, span)),
        method_metadata: Some(
            MethodView {
                is_final: true,
                is_abstract: false,
                is_static: true,
                is_constructor: false,
                visibility: Visibility::Public,
            },
        ),
        thrown_types,
        return_expression_hints: Seq::empty(),
    }
}

pub fn create_enum_method(
    name: &str,
    span: Span,
    parameters: Vec<ParameterMetadata>,
    return_type: TUnion,
    thrown_types: Vec<TypeMetadata>,
) -> (method: FunctionLikeMetadata)
    ensures
        method@ == enum_method(name, span, views(parameters@), return_type@, views(thrown_types@)),
{
    let method = FunctionLikeMetadata {
        kind: FunctionLikeKind::Method,
        name: word(name),
        original_name: word(name),
        span,
        name_span: Some(span),
        flags: MetadataFlags { is_populated: true, ..MetadataFlags::empty() },
        parameters,
        return_type_declaration_metadata: Some(TypeMetadata::new(return_type.copy(), span)),
        return_type_metadata: Some(TypeMetadata::new(return_type, span)),
        method_metadata: Some(
            MethodMetadata {
                is_final: true,
                is_abstract: false,
                is_static: true,
                is_constructor: false,
                visibility: Visibility::Public,
            },
        ),
        thrown_types,
        return_expression_hints: Vec::new(),
    };
    assert(views(method.return_expression_hints@) =~= Seq::empty());
    method
}

/// An enum that declares the method `name`.
pub open spec fn with_enum_method(m: ClassLikeView, name: Seq<u8>) -> ClassLikeView {
    m.add_declaring_method_id(name, (m.name, name)).add_inheritable_method(name, (m.name, name))
}

fn add_enum_method(
    codebase: &mut CodebaseMetadata,
    class_like: &mut ClassLikeMetadata,
    name: &str,
    method: FunctionLikeMetadata,
)
    ensures
        final(class_like)@ == with_enum_method(old(class_like)@, lowercase(text(name))),
        final(codebase)@ == old(codebase)@.add_function_like(
            (old(class_like)@.name, lowercase(text(name))),
            method@,
        ),
{
    let name: Word = ascii_lowercase_word(name.as_bytes());
    let declaring = MethodIdentifier::new(&class_like.name, &name);
    let inheritable = MethodIdentifier::new(&class_like.name, &name);
    let key: SymbolIdentifier = (copy_word(class_like.name.as_slice()), copy_word(name.as_slice()));
    class_like.add_declaring_method_id(copy_word(name.as_slice()), declaring);
    class_like.add_inheritable_method(name, inheritable);
    codebase.add_function_like(key, method);
}

/// The method that gives the case of a value, and throws where there is none.
pub open spec fn from_method(m: ClassLikeView, backing: AtomicView, span: Span) -> FunctionLikeView {
    enum_method(
        "from",
        span,
        seq![enum_value_parameter(backing, span)],
        union_of(enum_instance(m.name)),
        seq![declared_type(union_of(named_object(text("ValueError"))), span)],
    )
}

/// The method that gives the case of a value, or null where there is none.
pub open spec fn try_from_method(m: ClassLikeView, backing: AtomicView, span: Span) -> FunctionLikeView {
    enum_method(
        "tryFrom",
        span,
        seq![enum_value_parameter(backing, span)],
        UnionView { types: seq![enum_instance(m.name), AtomicView::Null] },
        Seq::empty(),
    )
}

/// The method that lists the cases.
pub open spec fn cases_method(m: ClassLikeView, span: Span) -> FunctionLikeView {
    enum_method(
        "cases",
        span,
        Seq::empty(),
        list_of(union_of(enum_instance(m.name)), m.enum_case_names.len() > 0),
        Seq::empty(),
    )
}

/// An enum with the methods that each enum has.
pub open spec fn with_enum_methods(m: ClassLikeView) -> ClassLikeView {
    let backed = match m.enum_type {
        Some(_) => with_enum_method(
            with_enum_method(m, lowercase(text("from"))),
            lowercase(text("tryFrom")),
        ),
        None => m,
    };
    with_enum_method(backed, lowercase(text("cases")))
}

/// The codebase with the methods of an enum.
pub open spec fn codebase_with_enum_methods(c: CodebaseView, m: ClassLikeView, span: Span) -> CodebaseView {
    let backed = match m.enum_type {
        Some(backing) => c.add_function_like(
            (m.name, lowercase(text("from"))),
            from_method(m, backing, span),
        ).add_function_like((m.name, lowercase(text("tryFrom"))), try_from_method(m, backing, span)),
        None => c,
    };
    backed.add_function_like((m.name, lowercase(text("cases"))), cases_method(m, span))
}

/// Adds the methods that each enum has.
pub fn create_enum_methods(codebase: &mut CodebaseMetadata, class_like: &mut ClassLikeMetadata, span: Span)
    ensures
        final(class_like)@ == with_enum_methods(old(class_like)@),
        final(codebase)@ == codebase_with_enum_methods(old(codebase)@, old(class_like)@, span),
{
    let ghost start = class_like@;
    let methods: Option<(FunctionLikeMetadata, FunctionLikeMetadata)> = match &class_like.enum_type {
        Some(backing) => {
            let mut parameters: Vec<ParameterMetadata> = Vec::new();
            parameters.push(create_enum_value_parameter(backing, span));
            assert(views(parameters@) =~= seq![enum_value_parameter(backing@, span)]);
            let mut thrown: Vec<TypeMetadata> = Vec::new();
            thrown.push(TypeMetadata::new(get_named_object(word("ValueError")), span));
            assert(views(thrown@) =~= seq![declared_type(union_of(named_object(text("ValueError"))), span)]);
            let from = create_enum_method("from", span, parameters, enum_instance_union(&class_like.name), thrown);
            let mut parameters: Vec<ParameterMetadata> = Vec::new();
            parameters.push(create_enum_value_parameter(backing, span));
            assert(views(parameters@) =~= seq![enum_value_parameter(backing@, span)]);
            let thrown: Vec<TypeMetadata> = Vec::new();
            assert(views(thrown@) =~= Seq::empty());
            let try_from = create_enum_method(
                "tryFrom",
                span,
                parameters,
                wrap_atomics(make_enum_instance(&class_like.name), TAtomic::Null),
                thrown,
            );
            Some((from, try_from))
        },
        None => None,
    };
    let case_list: TUnion = enum_instance_union(&class_like.name);
    let return_type: TUnion = if class_like.enum_cases.is_empty() {
        get_list(case_list)
    } else {
        get_non_empty_list(case_list)
    };
    let parameters: Vec<ParameterMetadata> = Vec::new();
    let thrown: Vec<TypeMetadata> = Vec::new();
    assert(views(parameters@) =~= Seq::empty());
    assert(views(thrown@) =~= Seq::empty());
    let cases = create_enum_method("cases", span, parameters, return_type, thrown);
    assert(cases@ == cases_method(start, span));
    if let Some((from, try_from)) = methods {
        add_enum_method(codebase, class_like, "from", from);
        add_enum_method(codebase, class_like, "tryFrom", try_from);
    }
    add_enum_method(codebase, class_like, "cases", cases);
}

// ---- declarations ----

/// The type of the values of a backed enum, as it is written.
#[derive(Clone, Copy, Debug, PartialEq, Eq, Structural)]
pub enum BackingType {
    String,
    Integer,
    Other,
}

/// What the declarations of all kinds have.
pub struct Declaration {
    pub span: Span,
    pub attributes: Vec<AttributeMetadata>,
    pub version_constraint: VersionConstraint,
    /// The docblock between the start of the declaration and its opening brace.
    pub docblock_inside: Option<Document>,
    /// The docblock before the declaration.
    pub docblock_before: Option<Document>,
    pub members: Vec<ClassLikeMember>,
}

/// The declaration of a class; the names in it are resolved.
pub struct Class {
    pub name: Word,
    pub name_span: Span,
    pub modifiers: Vec<Modifier>,
    pub attribute_flags: Option<u8>,
    pub extends: Vec<Word>,
    pub implements: Vec<Word>,
    pub declaration: Declaration,
}

/// The declaration of a class without a name, under the name that is made up for it.
pub struct AnonymousClass {
    pub name: Word,
    pub modifiers: Vec<Modifier>,
    pub attribute_flags: Option<u8>,
    pub extends: Vec<Word>,
    pub implements: Vec<Word>,
    pub declaration: Declaration,
}

pub struct Interface {
    pub name: Word,
    pub name_span: Span,
    pub extends: Vec<Word>,
    pub declaration: Declaration,
}

pub struct Trait {
    pub name: Word,
    pub name_span: Span,
    pub declaration: Declaration,
}

pub struct Enum {
    pub name: Word,
    pub name_span: Span,
    pub implements: Vec<Word>,
    pub backing_type: Option<BackingType>,
    pub declaration: Declaration,
}

/// What holds for all declarations of a file.
#[derive(Clone, Copy, Debug)]
pub struct ScanSettings {
    /// The flags that tell where the file comes from.
    pub origin_flags: MetadataFlags,
    /// An enum with more cases is not looked at case by case.
    pub max_enum_cases: usize,
}

/// A declaration of any kind.
struct Header<'a> {
    name: &'a Word,
    kind: SymbolKind,
    name_span: Option<Span>,
    is_final: bool,
    is_abstract: bool,
    is_readonly: bool,
    attribute_flags: Option<u8>,
    extends: Option<&'a Vec<Word>>,
    implements: Option<&'a Vec<Word>>,
    backing_type: Option<BackingType>,
    declaration: &'a Declaration,
}

/// A declaration of any kind. A part that the kind does not have is empty.
pub struct HeaderView {
    pub name: Seq<u8>,
    pub kind: SymbolKind,
    pub name_span: Option<Span>,
    pub is_final: bool,
    pub is_abstract: bool,
    pub is_readonly: bool,
    pub attribute_flags: Option<u8>,
    pub extends: Seq<Seq<u8>>,
    pub implements: Seq<Seq<u8>>,
    pub backing_type: Option<BackingType>,
    pub declaration: Declaration,
}

spec fn names_view(names: Option<&Vec<Word>>) -> Seq<Seq<u8>> {
    match names {
        Some(names) => views(names@),
        None => Seq::empty(),
    }
}

impl View for Header<'_> {
    type V = HeaderView;

    closed spec fn view(&self) -> HeaderView {
        HeaderView {
            name: self.name@,
            kind: self.kind,
            name_span: self.name_span,
            is_final: self.is_final,
            is_abstract: self.is_abstract,
            is_readonly: self.is_readonly,
            attribute_flags: self.attribute_flags,
            extends: names_view(self.extends),
            implements: names_view(self.implements),
            backing_type: self.backing_type,
            declaration: *self.declaration,
        }
    }
}

pub open spec fn class_header(c: Class) -> HeaderView {
    HeaderView {
        name: c.name@,
        kind: SymbolKind::Class,
        name_span: Some(c.name_span),
        is_final: c.modifiers@.contains(Modifier::Final),
        is_abstract: c.modifiers@.contains(Modifier::Abstract),
        is_readonly: c.modifiers@.contains(Modifier::Readonly),
        attribute_flags: c.attribute_flags,
        extends: views(c.extends@),
        implements: views(c.implements@),
        backing_type: None,
        declaration: c.declaration,
    }
}

pub open spec fn anonymous_class_header(c: AnonymousClass) -> HeaderView {
    HeaderView {
        name: c.name@,
        kind: SymbolKind::Class,
        name_span: None,
        is_final: c.modifiers@.contains(Modifier::Final),
        is_abstract: c.modifiers@.contains(Modifier::Abstract),
        is_readonly: c.modifiers@.contains(Modifier::Readonly),
        attribute_flags: c.attribute_flags,
        extends: views(c.extends@),
        implements: views(c.implements@),
        backing_type: None,
        declaration: c.declaration,
    }
}

pub open spec fn interface_header(i: Interface) -> HeaderView {
    HeaderView {
        name: i.name@,
        kind: SymbolKind::Interface,
        name_span: Some(i.name_span),
        is_final: false,
        is_abstract: false,
        is_readonly: false,
        attribute_flags: None,
        extends: views(i.extends@),
        implements: Seq::empty(),
        backing_type: None,
        declaration: i.declaration,
    }
}

pub open spec fn trait_header(t: Trait) -> HeaderView {
    HeaderView {
        name: t.name@,
        kind: SymbolKind::Trait,
        name_span: Some(t.name_span),
        is_final: false,
        is_abstract: false,
        is_readonly: false,
        attribute_flags: None,
        extends: Seq::empty(),
        implements: Seq::empty(),
        backing_type: None,
        declaration: t.declaration,
    }
}

pub open spec fn enum_header(e: Enum) -> HeaderView {
    HeaderView {
        name: e.name@,
        kind: SymbolKind::Enum,
        name_span: Some(e.name_span),
        is_final: false,
        is_abstract: false,
        is_readonly: false,
        attribute_flags: None,
        extends: Seq::empty(),
        implements: views(e.implements@),
        backing_type: e.backing_type,
        declaration: e.declaration,
    }
}

fn has_modifier(modifiers: &Vec<Modifier>, modifier: Modifier) -> (found: bool)
    ensures
        found == modifiers@.contains(modifier),
{
    let mut i: usize = 0;
    while i < modifiers.len()
        invariant
            i <= modifiers@.len(),
            forall|j: int| 0 <= j < i ==> modifiers@[j] != modifier,
        decreases modifiers@.len() - i,
    {
        if modifiers[i] == modifier {
            return true;
        }
        i = i + 1;
    }
    false
}

// ---- what a declaration says ----

/// The type of the values of a backed enum.
pub open spec fn backing_atomic(backing_type: Option<BackingType>) -> Option<AtomicView> {
    match backing_type {
        Some(BackingType::String) => Some(string_atomic(general_string())),
        Some(BackingType::Integer) => Some(int_atomic(TInteger::Unspecified)),
        _ => None,
    }
}

fn make_backing_atomic(backing_type: Option<BackingType>) -> (t: Option<TAtomic>)
    ensures
        option_view(t) == backing_atomic(backing_type),
{
    match backing_type {
        Some(BackingType::String) => Some(
            TAtomic::Scalar(
                TScalar::String(TString::general_with_props(false, false, false, TStringCasing::Unspecified)),
            ),
        ),
        Some(BackingType::Integer) => Some(integer(TInteger::Unspecified)),
        _ => None,
    }
}

/// The interface that an enum has by the way in which it is backed.
pub open spec fn enum_interface(backing_type: Option<BackingType>) -> Seq<u8> {
    match backing_type {
        Some(BackingType::String) => text("__internal_do_not_use__stringbackedenum"),
        Some(BackingType::Integer) => text("__internal_do_not_use__intbackedenum"),
        Some(BackingType::Other) => text("backedenum"),
        None => text("unitenum"),
    }
}

/// A class-like with these interfaces as direct parents.
pub open spec fn with_interfaces(m: ClassLikeView, names: Seq<Seq<u8>>) -> ClassLikeView
    decreases names.len(),
{
    if names.len() == 0 {
        m
    } else {
        with_interfaces(m, names.drop_last()).add_direct_parent_interface(lowercase(names.last()))
    }
}

fn add_interfaces(meta: &mut ClassLikeMetadata, names: &Vec<Word>)
    ensures
        final(meta)@ == with_interfaces(old(meta)@, views(names@)),
{
    let ghost start = meta@;
    let ghost all = views(names@);
    let mut i: usize = 0;
    while i < names.len()
        invariant
            i <= names@.len(),
            all == views(names@),
            meta@ == with_interfaces(start, all.take(i as int)),
        decreases names@.len() - i,
    {
        assert(all.take(i + 1).drop_last() =~= all.take(i as int));
        assert(all.take(i + 1).last() == names@[i as int]@);
        meta.add_direct_parent_interface(ascii_lowercase_word(names[i].as_slice()));
        i = i + 1;
    }
    assert(all.take(i as int) =~= all);
}

/// What the first line of a declaration says.
#[verifier::opaque]
pub open spec fn with_header(m: ClassLikeView, h: HeaderView) -> ClassLikeView {
    match h.kind {
        SymbolKind::Class => {
            let flagged = m.add_flags(
                MetadataFlags {
                    is_final: h.is_final,
                    is_abstract: h.is_abstract,
                    is_readonly: h.is_readonly,
                    ..no_flags()
                },
            );
            let extending = if h.extends.len() > 0 {
                flagged.set_parent_class(lowercase(h.extends[0]))
            } else {
                flagged
            };
            with_interfaces(extending, h.implements)
        },
        SymbolKind::Enum => with_interfaces(
            with_enum_methods(
                m.add_flags(MetadataFlags { is_final: true, ..no_flags() }).add_direct_parent_interface(
                    enum_interface(h.backing_type),
                ),
            ),
            h.implements,
        ),
        SymbolKind::Trait => m,
        SymbolKind::Interface => with_interfaces(
            m.add_flags(MetadataFlags { is_abstract: true, ..no_flags() }),
            h.extends,
        ),
    }
}

/// What is known of a class-like before its declaration is read further.
pub open spec fn bare_class_like(h: HeaderView, origin_flags: MetadataFlags) -> ClassLikeView {
    ClassLikeView {
        version_constraint: h.declaration.version_constraint,
        attributes: views(h.declaration.attributes@),
        enum_type: backing_atomic(h.backing_type),
        attribute_flags: if h.kind == SymbolKind::Class {
            h.attribute_flags
        } else {
            None
        },
        kind: h.kind,
        ..ClassLikeView::new(lowercase(h.name), h.name, h.declaration.span, h.name_span, origin_flags)
    }
}

/// The docblock of a declaration.
pub open spec fn docblock(d: Declaration) -> Option<Document> {
    if d.docblock_inside is Some {
        d.docblock_inside
    } else {
        d.docblock_before
    }
}

/// Whether one of the attributes says that the class-like is deprecated.
pub open spec fn has_deprecated_attribute(attributes: Seq<AttributeView>) -> bool {
    exists|i: int|
        0 <= i < attributes.len() && lowercase((#[trigger] attributes[i]).name) == lowercase(text("Deprecated"))
}

/// What the docblock of a declaration says.
pub open spec fn with_docblock(m: ClassLikeView, d: Declaration) -> ClassLikeView {
    match docblock(d) {
        Some(document) => with_document(m, document),
        None => m,
    }
}

/// What the members and the attributes of a declaration say.
#[verifier::opaque]
pub open spec fn with_body(m: ClassLikeView, members: Seq<ClassLikeMember>, max_enum_cases: int) -> ClassLikeView {
    let m = with_constant_members(m, members);
    let m = with_case_members(m, members);
    let m = with_enum_properties(m, max_enum_cases);
    let m = with_members(m, members);
    if has_deprecated_attribute(m.attributes) {
        m.add_flags(MetadataFlags { is_deprecated: true, ..no_flags() })
    } else {
        m
    }
}

/// All that a declaration says of its class-like.
#[verifier::opaque]
pub open spec fn scanned_class_like(h: HeaderView, settings: ScanSettings) -> ClassLikeView {
    with_body(
        with_docblock(with_header(bare_class_like(h, settings.origin_flags), h), h.declaration),
        h.declaration.members@,
        settings.max_enum_cases as int,
    )
}

/// The codebase when a declaration has been read: its symbol and the methods that come with an enum
/// or with a docblock are known.
#[verifier::opaque]
pub open spec fn scanned_codebase(c: CodebaseView, h: HeaderView, settings: ScanSettings) -> CodebaseView {
    let name = lowercase(h.name);
    let named = c.add_symbol_name(name, h.kind);
    let with_methods = if h.kind == SymbolKind::Enum {
        codebase_with_enum_methods(named, bare_class_like(h, settings.origin_flags), h.declaration.span)
    } else {
        named
    };
    match docblock(h.declaration) {
        Some(document) => with_tag_methods(with_methods, name, document.tags@),
        None => with_methods,
    }
}

fn copy_attributes(attributes: &Vec<AttributeMetadata>) -> (copy: Vec<AttributeMetadata>)
    ensures
        views(copy@) == views(attributes@),
{
    let mut copy: Vec<AttributeMetadata> = Vec::new();
    let mut i: usize = 0;
    while i < attributes.len()
        invariant
            i <= attributes@.len(),
            copy@.len() == i,
            forall|j: int| 0 <= j < i ==> #[trigger] copy@[j]@ == attributes@[j]@,
        decreases attributes@.len() - i,
    {
        copy.push(AttributeMetadata { name: copy_word(attributes[i].name.as_slice()), span: attributes[i].span });
        i = i + 1;
    }
    assert(views(copy@) =~= views(attributes@));
    copy
}

fn make_bare_class_like(h: &Header<'_>, origin_flags: MetadataFlags) -> (meta: ClassLikeMetadata)
    ensures
        meta@ == bare_class_like(h@, origin_flags),
{
    let mut meta: ClassLikeMetadata = ClassLikeMetadata::new(
        ascii_lowercase_word(h.name.as_slice()),
        copy_word(h.name.as_slice()),
        h.declaration.span,
        h.name_span,
        origin_flags,
    );
    meta.version_constraint = h.declaration.version_constraint;
    meta.attributes = copy_attributes(&h.declaration.attributes);
    meta.enum_type = make_backing_atomic(h.backing_type);
    if h.kind == SymbolKind::Class {
        meta.attribute_flags = h.attribute_flags;
    }
    meta.kind = h.kind;
    meta
}

/// Takes over what the first line of a declaration says.
fn apply_header(codebase: &mut CodebaseMetadata, meta: &mut ClassLikeMetadata, h: &Header<'_>)
    requires
        old(meta)@.enum_case_names.len() == 0,
    ensures
        final(meta)@ == with_header(old(meta)@, h@),
        final(codebase)@ == {
            let named = old(codebase)@.add_symbol_name(old(meta)@.name, h@.kind);
            if h@.kind == SymbolKind::Enum {
                codebase_with_enum_methods(named, old(meta)@, h@.declaration.span)
            } else {
                named
            }
        },
{
    proof {
        reveal(with_header);
    }
    let ghost start = meta@;
    codebase.add_symbol_name(copy_word(meta.name.as_slice()), h.kind);
    match h.kind {
        SymbolKind::Class => {
            meta.add_flags(
                MetadataFlags {
                    is_final: h.is_final,
                    is_abstract: h.is_abstract,
                    is_readonly: h.is_readonly,
                    ..MetadataFlags::empty()
                },
            );
            if let Some(extends) = h.extends {
                if extends.len() > 0 {
                    assert(h@.extends[0] == extends@[0]@);
                    meta.set_parent_class(ascii_lowercase_word(extends[0].as_slice()));
                }
            }
            if let Some(implements) = h.implements {
                add_interfaces(meta, implements);
            }
        },
        SymbolKind::Enum => {
            meta.add_flags(MetadataFlags { is_final: true, ..MetadataFlags::empty() });
            let interface: Word = match h.backing_type {
                Some(BackingType::String) => word("__internal_do_not_use__stringbackedenum"),
                Some(BackingType::Integer) => word("__internal_do_not_use__intbackedenum"),
                Some(BackingType::Other) => word("backedenum"),
                None => word("unitenum"),
            };
            meta.add_direct_parent_interface(interface);
            create_enum_methods(codebase, meta, h.declaration.span);
            if let Some(implements) = h.implements {
                add_interfaces(meta, implements);
            }
        },
        SymbolKind::Trait => {},
        SymbolKind::Interface => {
            meta.add_flags(MetadataFlags { is_abstract: true, ..MetadataFlags::empty() });
            if let Some(extends) = h.extends {
                add_interfaces(meta, extends);
            }
        },
    }
}

fn is_deprecated(attributes: &Vec<AttributeMetadata>) -> (deprecated: bool)
    ensures
        deprecated == has_deprecated_attribute(views(attributes@)),
{
    let mut i: usize = 0;
    while i < attributes.len()
        invariant
            i <= attributes@.len(),
            forall|j: int|
                0 <= j < i ==> lowercase((#[trigger] views(attributes@)[j]).name) != lowercase(text("Deprecated")),
        decreases attributes@.len() - i,
    {
        assert(views(attributes@)[i as int] == attributes@[i as int]@);
        if eq_ignore_ascii_case(attributes[i].name.as_slice(), word("Deprecated").as_slice()) {
            return true;
        }
        i = i + 1;
    }
    false
}

fn apply_docblock(codebase: &mut CodebaseMetadata, meta: &mut ClassLikeMetadata, d: &Declaration)
    ensures
        final(meta)@ == with_docblock(old(meta)@, *d),
        final(codebase)@ == match docblock(*d) {
            Some(document) => with_tag_methods(old(codebase)@, old(meta)@.name, document.tags@),
            None => old(codebase)@,
        },
{
    let document: Option<&Document> = match &d.docblock_inside {
        Some(document) => Some(document),
        None => d.docblock_before.as_ref(),
    };
    if let Some(document) = document {
        apply_document(codebase, meta, document);
    }
}

fn apply_body(meta: &mut ClassLikeMetadata, members: &Vec<ClassLikeMember>, max_enum_cases: usize)
    ensures
        final(meta)@ == with_body(old(meta)@, members@, max_enum_cases as int),
{
    proof {
        reveal(with_body);
    }
    scan_constants(meta, members);
    scan_enum_cases(meta, members);
    add_enum_properties(meta, max_enum_cases);
    scan_members(meta, members);
    if is_deprecated(&meta.attributes) {
        meta.add_flags(MetadataFlags { is_deprecated: true, ..MetadataFlags::empty() });
    }
}

/// Reads a declaration. Where a class-like of that name is known already, nothing is done.
#[verifier::spinoff_prover]
#[verifier::rlimit(60)]
fn scan_class_like(codebase: &mut CodebaseMetadata, h: &Header<'_>, settings: ScanSettings) -> (meta: Option<
    ClassLikeMetadata,
>)
    ensures
        match meta {
            Some(meta) => {
                &&& !old(codebase)@.class_likes.contains_key(lowercase(h@.name))
                &&& meta@ == scanned_class_like(h@, settings)
                &&& final(codebase)@ == scanned_codebase(old(codebase)@, h@, settings)
            },
            None => old(codebase)@.class_likes.contains_key(lowercase(h@.name)) && final(codebase)@ == old(
                codebase,
            )@,
        },
{
    if codebase.class_likes.contains_key(&ascii_lowercase_word(h.name.as_slice())) {
        return None;
    }
    let mut meta: ClassLikeMetadata = make_bare_class_like(h, settings.origin_flags);
    apply_header(codebase, &mut meta, h);
    proof {
        reveal(scanned_class_like);
        reveal(scanned_codebase);
        lemma_header_keeps_name(bare_class_like(h@, settings.origin_flags), h@);
    }
    apply_docblock(codebase, &mut meta, h.declaration);
    apply_body(&mut meta, &h.declaration.members, settings.max_enum_cases);
    Some(meta)
}

proof fn lemma_interfaces_keep_name(m: ClassLikeView, names: Seq<Seq<u8>>)
    ensures
        with_interfaces(m, names).name == m.name,
    decreases names.len(),
{
    if names.len() > 0 {
        lemma_interfaces_keep_name(m, names.drop_last());
    }
}

proof fn lemma_header_keeps_name(m: ClassLikeView, h: HeaderView)
    ensures
        with_header(m, h).name == m.name,
{
    reveal(with_header);
    match h.kind {
        SymbolKind::Class => {
            let flagged = m.add_flags(
                MetadataFlags {
                    is_final: h.is_final,
                    is_abstract: h.is_abstract,
                    is_readonly: h.is_readonly,
                    ..no_flags()
                },
            );
            lemma_interfaces_keep_name(flagged, h.implements);
            lemma_interfaces_keep_name(flagged.set_parent_class(lowercase(h.extends[0])), h.implements);
        },
        SymbolKind::Enum => {
            lemma_interfaces_keep_name(
                with_enum_methods(
                    m.add_flags(MetadataFlags { is_final: true, ..no_flags() }).add_direct_parent_interface(
                        enum_interface(h.backing_type),
                    ),
                ),
                h.implements,
            );
        },
        SymbolKind::Trait => {},
        SymbolKind::Interface => {
            lemma_interfaces_keep_name(m.add_flags(MetadataFlags { is_abstract: true, ..no_flags() }), h.extends);
        },
    }
}

// ---- registration ----

/// What the reading of the members of a class-like needs to know of it: its name, its template
/// parameters, its type aliases, and the aliases that it imports.
pub struct ClassLikeRegistration {
    pub name: Word,
    pub templates: Vec<(Word, GenericTemplate)>,
    pub type_aliases: WordSet,
    pub imported_aliases: WordMap<SymbolIdentifier>,
}

#[verifier::ext_equal]
pub struct RegistrationView {
    pub name: Seq<u8>,
    pub templates: Seq<(Seq<u8>, GenericTemplateView)>,
    pub type_aliases: Set<Seq<u8>>,
    pub imported_aliases: Map<Seq<u8>, (Seq<u8>, Seq<u8>)>,
}

impl View for ClassLikeRegistration {
    type V = RegistrationView;

    open spec fn view(&self) -> RegistrationView {
        RegistrationView {
            name: self.name@,
            templates: views(self.templates@),
            type_aliases: self.type_aliases.members(),
            imported_aliases: self.imported_aliases@,
        }
    }
}

pub open spec fn registration(m: ClassLikeView) -> RegistrationView {
    RegistrationView {
        name: m.name,
        templates: m.template_names.map_values(|name: Seq<u8>| (name, m.template_types[name])),
        type_aliases: m.type_aliases.dom(),
        imported_aliases: m.imported_type_aliases.map_values(
            |import: ImportedTypeAliasView| (import.source, import.name),
        ),
    }
}

fn collect_templates(meta: &ClassLikeMetadata) -> (templates: Vec<(Word, GenericTemplate)>)
    ensures
        views(templates@) == registration(meta@).templates,
{
    broadcast use lemma_views_push;

    let ghost names = meta.template_types.keys();
    let ghost all = registration(meta@).templates;
    let mut templates: Vec<(Word, GenericTemplate)> = Vec::new();
    proof {
        meta.template_types.lemma_keys();
    }
    let mut i: usize = 0;
    assert(views(templates@) =~= all.take(0));
    while i < meta.template_types.len()
        invariant
            i <= names.len(),
            names == meta.template_types.keys(),
            all == registration(meta@).templates,
            forall|k: Seq<u8>| #[trigger] meta.template_types@.contains_key(k) <==> names.contains(k),
            views(templates@) == all.take(i as int),
        decreases names.len() - i,
    {
        let ghost before = views(templates@);
        let name = meta.template_types.key_at(i);
        assert(names.contains(names[i as int]));
        assert(meta.template_types@.contains_key(name@));
        if let Some(definition) = meta.template_types.get(name) {
            templates.push((copy_word(name.as_slice()), definition.copy()));
            assert(views(templates@) == before.push(all[i as int]));
        }
        i = i + 1;
        assert(views(templates@) =~= all.take(i as int));
    }
    assert(all.take(i as int) =~= all);
    templates
}

fn collect_type_aliases(meta: &ClassLikeMetadata) -> (aliases: WordSet)
    ensures
        aliases.members() == meta@.type_aliases.dom(),
{
    let ghost names = meta.type_aliases.keys();
    let mut aliases: WordSet = WordSet::new();
    let mut i: usize = 0;
    assert(aliases.members() =~= names.take(0).to_set());
    while i < meta.type_aliases.len()
        invariant
            i <= names.len(),
            names == meta.type_aliases.keys(),
            aliases.members() == names.take(i as int).to_set(),
        decreases names.len() - i,
    {
        let name = meta.type_aliases.key_at(i);
        proof {
            lemma_with_item_members(aliases@, name@);
            lemma_take_members(names, i as int);
        }
        let _ = aliases.insert(copy_word(name.as_slice()));
        i = i + 1;
    }
    proof {
        assert(names.take(i as int) =~= names);
        meta.type_aliases.lemma_keys();
        assert(names.to_set() =~= meta@.type_aliases.dom());
    }
    aliases
}

fn collect_imported_aliases(meta: &ClassLikeMetadata) -> (imports: WordMap<SymbolIdentifier>)
    ensures
        imports@ == registration(meta@).imported_aliases,
{
    let ghost names = meta.imported_type_aliases.keys();
    let ghost all = meta@.imported_type_aliases;
    let ghost wanted = registration(meta@).imported_aliases;
    let mut imports: WordMap<SymbolIdentifier> = WordMap::new();
    proof {
        meta.imported_type_aliases.lemma_keys();
    }
    let mut i: usize = 0;
    while i < meta.imported_type_aliases.len()
        invariant
            i <= names.len(),
            names == meta.imported_type_aliases.keys(),
            all == meta.imported_type_aliases@,
            wanted == registration(meta@).imported_aliases,
            all == meta@.imported_type_aliases,
            forall|k: Seq<u8>| #[trigger] all.contains_key(k) <==> names.contains(k),
            forall|k: Seq<u8>| #[trigger]
                imports@.contains_key(k) <==> exists|j: int| 0 <= j < i && #[trigger] names[j] == k,
            forall|k: Seq<u8>| #[trigger] imports@.contains_key(k) ==> imports@[k] == wanted[k],
        decreases names.len() - i,
    {
        let ghost before = imports@;
        let name = meta.imported_type_aliases.key_at(i);
        assert(names.contains(names[i as int]));
        assert(all.contains_key(name@));
        if let Some(import) = meta.imported_type_aliases.get(name) {
            let imported: SymbolIdentifier = (
                copy_word(import.source.as_slice()),
                copy_word(import.name.as_slice()),
            );
            assert(wanted[name@] == imported@);
            imports.insert(copy_word(name.as_slice()), imported);
        }
        assert forall|k: Seq<u8>| #[trigger] imports@.contains_key(k) <==> exists|j: int|
            0 <= j < i + 1 && #[trigger] names[j] == k by {
            assert(imports@.contains_key(k) <==> before.contains_key(k) || k == names[i as int]);
        }
        i = i + 1;
    }
    proof {
        assert forall|k: Seq<u8>| #[trigger] imports@.contains_key(k) <==> wanted.contains_key(k) by {
            if wanted.contains_key(k) {
                assert(all.contains_key(k));
                assert(names.contains(k));
                let j = choose|j: int| 0 <= j < names.len() && names[j] == k;
                assert(names[j] == k);
            }
            if imports@.contains_key(k) {
                let j = choose|j: int| 0 <= j < i && #[trigger] names[j] == k;
                assert(names.contains(k));
                assert(all.contains_key(k));
            }
        }
        assert(imports@ =~= wanted);
    }
    imports
}

/// Puts a class-like into the codebase.
pub fn finish_registration(
    codebase: &mut CodebaseMetadata,
    class_like_metadata: ClassLikeMetadata,
) -> (registered: ClassLikeRegistration)
    ensures
        registered@ == registration(class_like_metadata@),
        final(codebase)@ == old(codebase)@.add_class_like(class_like_metadata@.name, class_like_metadata@),
{
    let registered = ClassLikeRegistration {
        name: copy_word(class_like_metadata.name.as_slice()),
        templates: collect_templates(&class_like_metadata),
        type_aliases: collect_type_aliases(&class_like_metadata),
        imported_aliases: collect_imported_aliases(&class_like_metadata),
    };
    let name: Word = copy_word(class_like_metadata.name.as_slice());
    codebase.add_class_like(name, class_like_metadata);
    registered
}

/// What the registration of a declaration gives and leaves behind: nothing where a class-like of
/// that name is known already.
pub open spec fn is_registered(
    before: CodebaseView,
    h: HeaderView,
    settings: ScanSettings,
    result: Option<RegistrationView>,
    after: CodebaseView,
) -> bool {
    if before.class_likes.contains_key(lowercase(h.name)) {
        result is None && after == before
    } else {
        let m = scanned_class_like(h, settings);
        &&& result == Some(registration(m))
        &&& after == scanned_codebase(before, h, settings).add_class_like(m.name, m)
    }
}

fn register(codebase: &mut CodebaseMetadata, h: &Header<'_>, settings: ScanSettings) -> (result: Option<
    ClassLikeRegistration,
>)
    ensures
        is_registered(old(codebase)@, h@, settings, option_view(result), final(codebase)@),
{
    match scan_class_like(codebase, h, settings) {
        Some(meta) => Some(finish_registration(codebase, meta)),
        None => None,
    }
}

pub fn register_class(codebase: &mut CodebaseMetadata, class: &Class, settings: ScanSettings) -> (result: Option<
    ClassLikeRegistration,
>)
    ensures
        is_registered(old(codebase)@, class_header(*class), settings, option_view(result), final(codebase)@),
{
    let h = Header {
        name: &class.name,
        kind: SymbolKind::Class,
        name_span: Some(class.name_span),
        is_final: has_modifier(&class.modifiers, Modifier::Final),
        is_abstract: has_modifier(&class.modifiers, Modifier::Abstract),
        is_readonly: has_modifier(&class.modifiers, Modifier::Readonly),
        attribute_flags: class.attribute_flags,
        extends: Some(&class.extends),
        implements: Some(&class.implements),
        backing_type: None,
        declaration: &class.declaration,
    };
    register(codebase, &h, settings)
}

pub fn register_anonymous_class(
    codebase: &mut CodebaseMetadata,
    class: &AnonymousClass,
    settings: ScanSettings,
) -> (result: Option<ClassLikeRegistration>)
    ensures
        is_registered(old(codebase)@, anonymous_class_header(*class), settings, option_view(result), final(codebase)@),
{
    let h = Header {
        name: &class.name,
        kind: SymbolKind::Class,
        name_span: None,
        is_final: has_modifier(&class.modifiers, Modifier::Final),
        is_abstract: has_modifier(&class.modifiers, Modifier::Abstract),
        is_readonly: has_modifier(&class.modifiers, Modifier::Readonly),
        attribute_flags: class.attribute_flags,
        extends: Some(&class.extends),
        implements: Some(&class.implements),
        backing_type: None,
        declaration: &class.declaration,
    };
    register(codebase, &h, settings)
}

pub fn register_interface(
    codebase: &mut CodebaseMetadata,
    interface: &Interface,
    settings: ScanSettings,
) -> (result: Option<ClassLikeRegistration>)
    ensures
        is_registered(old(codebase)@, interface_header(*interface), settings, option_view(result), final(codebase)@),
{
    let h = Header {
        name: &interface.name,
        kind: SymbolKind::Interface,
        name_span: Some(interface.name_span),
        is_final: false,
        is_abstract: false,
        is_readonly: false,
        attribute_flags: None,
        extends: Some(&interface.extends),
        implements: None,
        backing_type: None,
        declaration: &interface.declaration,
    };
    register(codebase, &h, settings)
}

pub fn register_trait(codebase: &mut CodebaseMetadata, declared: &Trait, settings: ScanSettings) -> (result: Option<
    ClassLikeRegistration,
>)
    ensures
        is_registered(old(codebase)@, trait_header(*declared), settings, option_view(result), final(codebase)@),
{
    let h = Header {
        name: &declared.name,
        kind: SymbolKind::Trait,
        name_span: Some(declared.name_span),
        is_final: false,
        is_abstract: false,
        is_readonly: false,
        attribute_flags: None,
        extends: None,
        implements: None,
        backing_type: None,
        declaration: &declared.declaration,
    };
    register(codebase, &h, settings)
}

pub fn register_enum(codebase: &mut CodebaseMetadata, declared: &Enum, settings: ScanSettings) -> (result: Option<
    ClassLikeRegistration,
>)
    ensures
        is_registered(old(codebase)@, enum_header(*declared), settings, option_view(result), final(codebase)@),
{
    let h = Header {
        name: &declared.name,
        kind: SymbolKind::Enum,
        name_span: Some(declared.name_span),
        is_final: false,
        is_abstract: false,
        is_readonly: false,
        attribute_flags: None,
        extends: None,
        implements: Some(&declared.implements),
        backing_type: declared.backing_type,
        declaration: &declared.declaration,
    };
    register(codebase, &h, settings)
}

} // verus!
