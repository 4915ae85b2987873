//! What is known of the symbols of the analysed program.

use vstd::prelude::*;

use crate::collections::option_view;
use crate::collections::views;
use crate::collections::WordMap;
use crate::collections::WordSet;
use crate::issue::Issue;
use crate::issue::IssueView;
use crate::issue::Span;
use crate::ttype::unions_model;
use crate::ttype::AtomicView;
use crate::ttype::TAtomic;
use crate::ttype::TUnion;
use crate::ttype::UnionView;
use crate::word::copy_word;
use crate::word::Word;

verus! {

/// Facts about a symbol that hold or do not hold.
#[derive(Clone, Copy, Debug, PartialEq, Eq, Structural)]
pub struct MetadataFlags {
    pub is_populated: bool,
    pub is_user_defined: bool,
    pub is_built_in: bool,
    pub is_patch: bool,
    pub is_final: bool,
    pub is_abstract: bool,
    pub is_readonly: bool,
    pub is_writeonly: bool,
    pub is_enum_interface: bool,
    pub is_consistent_constructor: bool,
    pub is_consistent_templates: bool,
    pub is_deprecated: bool,
    pub is_internal: bool,
    pub is_static: bool,
    pub is_magic_method: bool,
    pub is_variadic: bool,
    pub is_by_reference: bool,
    pub has_default: bool,
    pub is_promoted_property: bool,
    pub is_virtual_property: bool,
    pub is_unchecked: bool,
    pub is_pure: bool,
}

impl View for MetadataFlags {
    type V = MetadataFlags;

    open spec fn view(&self) -> MetadataFlags {
        *self
    }
}

/// No fact holds.
pub open spec fn no_flags() -> MetadataFlags {
    MetadataFlags {
        is_populated: false,
        is_user_defined: false,
        is_built_in: false,
        is_patch: false,
        is_final: false,
        is_abstract: false,
        is_readonly: false,
        is_writeonly: false,
        is_enum_interface: false,
        is_consistent_constructor: false,
        is_consistent_templates: false,
        is_deprecated: false,
        is_internal: false,
        is_static: false,
        is_magic_method: false,
        is_variadic: false,
        is_by_reference: false,
        has_default: false,
        is_promoted_property: false,
        is_virtual_property: false,
        is_unchecked: false,
        is_pure: false,
    }
}

/// The facts of either.
pub open spec fn flags_union(a: MetadataFlags, b: MetadataFlags) -> MetadataFlags {
    MetadataFlags {
        is_populated: a.is_populated || b.is_populated,
        is_user_defined: a.is_user_defined || b.is_user_defined,
        is_built_in: a.is_built_in || b.is_built_in,
        is_patch: a.is_patch || b.is_patch,
        is_final: a.is_final || b.is_final,
        is_abstract: a.is_abstract || b.is_abstract,
        is_readonly: a.is_readonly || b.is_readonly,
        is_writeonly: a.is_writeonly || b.is_writeonly,
        is_enum_interface: a.is_enum_interface || b.is_enum_interface,
        is_consistent_constructor: a.is_consistent_constructor || b.is_consistent_constructor,
        is_consistent_templates: a.is_consistent_templates || b.is_consistent_templates,
        is_deprecated: a.is_deprecated || b.is_deprecated,
        is_internal: a.is_internal || b.is_internal,
        is_static: a.is_static || b.is_static,
        is_magic_method: a.is_magic_method || b.is_magic_method,
        is_variadic: a.is_variadic || b.is_variadic,
        is_by_reference: a.is_by_reference || b.is_by_reference,
        has_default: a.has_default || b.has_default,
        is_promoted_property: a.is_promoted_property || b.is_promoted_property,
        is_virtual_property: a.is_virtual_property || b.is_virtual_property,
        is_unchecked: a.is_unchecked || b.is_unchecked,
        is_pure: a.is_pure || b.is_pure,
    }
}

impl MetadataFlags {
    pub fn empty() -> (flags: MetadataFlags)
        ensures
            flags == no_flags(),
    {
        MetadataFlags {
            is_populated: false,
            is_user_defined: false,
            is_built_in: false,
            is_patch: false,
            is_final: false,
            is_abstract: false,
            is_readonly: false,
            is_writeonly: false,
            is_enum_interface: false,
            is_consistent_constructor: false,
            is_consistent_templates: false,
            is_deprecated: false,
            is_internal: false,
            is_static: false,
            is_magic_method: false,
            is_variadic: false,
            is_by_reference: false,
            has_default: false,
            is_promoted_property: false,
            is_virtual_property: false,
            is_unchecked: false,
            is_pure: false,
        }
    }

    pub fn union(self, other: MetadataFlags) -> (flags: MetadataFlags)
        ensures
            flags == flags_union(self, other),
    {
        MetadataFlags {
            is_populated: self.is_populated || other.is_populated,
            is_user_defined: self.is_user_defined || other.is_user_defined,
            is_built_in: self.is_built_in || other.is_built_in,
            is_patch: self.is_patch || other.is_patch,
            is_final: self.is_final || other.is_final,
            is_abstract: self.is_abstract || other.is_abstract,
            is_readonly: self.is_readonly || other.is_readonly,
            is_writeonly: self.is_writeonly || other.is_writeonly,
            is_enum_interface: self.is_enum_interface || other.is_enum_interface,
            is_consistent_constructor: self.is_consistent_constructor || other.is_consistent_constructor,
            is_consistent_templates: self.is_consistent_templates || other.is_consistent_templates,
            is_deprecated: self.is_deprecated || other.is_deprecated,
            is_internal: self.is_internal || other.is_internal,
            is_static: self.is_static || other.is_static,
            is_magic_method: self.is_magic_method || other.is_magic_method,
            is_variadic: self.is_variadic || other.is_variadic,
            is_by_reference: self.is_by_reference || other.is_by_reference,
            has_default: self.has_default || other.has_default,
            is_promoted_property: self.is_promoted_property || other.is_promoted_property,
            is_virtual_property: self.is_virtual_property || other.is_virtual_property,
            is_unchecked: self.is_unchecked || other.is_unchecked,
            is_pure: self.is_pure || other.is_pure,
        }
    }
}

/// The kind of a class-like.
#[derive(Clone, Copy, Debug, PartialEq, Eq, Structural)]
pub enum SymbolKind {
    Class,
    Enum,
    Trait,
    Interface,
}

impl View for SymbolKind {
    type V = SymbolKind;

    open spec fn view(&self) -> SymbolKind {
        *self
    }
}

/// From where a member can be used.
#[derive(Clone, Copy, Debug, PartialEq, Eq, Structural)]
pub enum Visibility {
    Public,
    Protected,
    Private,
}

impl View for Visibility {
    type V = Visibility;

    open spec fn view(&self) -> Visibility {
        *self
    }
}

/// How a template parameter varies.
#[derive(Clone, Copy, Debug, PartialEq, Eq, Structural)]
pub enum Variance {
    Invariant,
    Covariant,
    Contravariant,
}

impl View for Variance {
    type V = Variance;

    open spec fn view(&self) -> Variance {
        *self
    }
}

/// The kind of a function-like.
#[derive(Clone, Copy, Debug, PartialEq, Eq, Structural)]
pub enum FunctionLikeKind {
    Function,
    Method,
    Closure,
    ArrowFunction,
}

impl View for FunctionLikeKind {
    type V = FunctionLikeKind;

    open spec fn view(&self) -> FunctionLikeKind {
        *self
    }
}

/// The versions of the language in which a symbol exists: from the first of the two, and before
/// the second.
#[derive(Clone, Copy, Debug, PartialEq, Eq, Structural)]
pub struct VersionConstraint {
    pub since: Option<u32>,
    pub until: Option<u32>,
}

/// A list of types, such as the arguments of a generic type.
pub struct TypeList {
    pub types: Vec<TUnion>,
}

impl View for TypeList {
    type V = Seq<UnionView>;

    open spec fn view(&self) -> Seq<UnionView> {
        unions_model(self.types)
    }
}

/// A method: the class-like that declares it, and its name there.
pub struct MethodIdentifier {
    pub class_name: Word,
    pub method_name: Word,
}

impl View for MethodIdentifier {
    type V = (Seq<u8>, Seq<u8>);

    open spec fn view(&self) -> (Seq<u8>, Seq<u8>) {
        (self.class_name@, self.method_name@)
    }
}

impl MethodIdentifier {
    pub fn new(class_name: &Word, method_name: &Word) -> (id: MethodIdentifier)
        ensures
            id@ == (class_name@, method_name@),
    {
        MethodIdentifier { class_name: copy_word(class_name.as_slice()), method_name: copy_word(method_name.as_slice()) }
    }
}

/// A call whose result a function-like returns.
pub enum ReturnExpressionHint {
    InstanceMethodCall { class: Word, method: Word },
    StaticMethodCall { class: Word, method: Word },
    FunctionCall { function: Word },
    MethodChain { receiver_class: Word, methods: Vec<Word> },
}

#[verifier::ext_equal]
pub enum HintView {
    InstanceMethodCall { class: Seq<u8>, method: Seq<u8> },
    StaticMethodCall { class: Seq<u8>, method: Seq<u8> },
    FunctionCall { function: Seq<u8> },
    MethodChain { receiver_class: Seq<u8>, methods: Seq<Seq<u8>> },
}

impl View for ReturnExpressionHint {
    type V = HintView;

    open spec fn view(&self) -> HintView {
        match *self {
            ReturnExpressionHint::InstanceMethodCall { class, method } => HintView::InstanceMethodCall {
                class: class@,
                method: method@,
            },
            ReturnExpressionHint::StaticMethodCall { class, method } => HintView::StaticMethodCall {
                class: class@,
                method: method@,
            },
            ReturnExpressionHint::FunctionCall { function } => HintView::FunctionCall { function: function@ },
            ReturnExpressionHint::MethodChain { receiver_class, methods } => HintView::MethodChain {
                receiver_class: receiver_class@,
                methods: views(methods@),
            },
        }
    }
}

/// A type and where it comes from.
pub struct TypeMetadata {
    pub type_union: TUnion,
    pub span: Span,
    pub from_docblock: bool,
    pub inferred: bool,
}

#[verifier::ext_equal]
pub struct TypeView {
    pub type_union: UnionView,
    pub span: Span,
    pub from_docblock: bool,
    pub inferred: bool,
}

impl View for TypeMetadata {
    type V = TypeView;

    open spec fn view(&self) -> TypeView {
        TypeView {
            type_union: self.type_union@,
            span: self.span,
            from_docblock: self.from_docblock,
            inferred: self.inferred,
        }
    }
}

/// A type that was written at `span`.
pub open spec fn declared_type(type_union: UnionView, span: Span) -> TypeView {
    TypeView { type_union, span, from_docblock: false, inferred: false }
}

impl TypeMetadata {
    pub fn new(type_union: TUnion, span: Span) -> (t: TypeMetadata)
        ensures
            t@ == declared_type(type_union@, span),
    {
        TypeMetadata { type_union, span, from_docblock: false, inferred: false }
    }

    pub fn copy(&self) -> (t: TypeMetadata)
        ensures
            t@ == self@,
    {
        TypeMetadata {
            type_union: self.type_union.copy(),
            span: self.span,
            from_docblock: self.from_docblock,
            inferred: self.inferred,
        }
    }
}

/// A copy of a type that may be unknown.
pub fn copy_type(t: &Option<TypeMetadata>) -> (copy: Option<TypeMetadata>)
    ensures
        option_view(copy) == option_view(*t),
{
    match t {
        Some(t) => Some(t.copy()),
        None => None,
    }
}

/// An attribute.
pub struct AttributeMetadata {
    pub name: Word,
    pub span: Span,
}

#[verifier::ext_equal]
pub struct AttributeView {
    pub name: Seq<u8>,
    pub span: Span,
}

impl View for AttributeMetadata {
    type V = AttributeView;

    open spec fn view(&self) -> AttributeView {
        AttributeView {
            name: self.name@,
            span: self.span,
        }
    }
}

/// A template parameter of a class-like: the type that bounds it, and its default.
pub struct GenericTemplate {
    pub class_like: Word,
    pub constraint: TUnion,
    pub default: Option<TUnion>,
}

#[verifier::ext_equal]
pub struct GenericTemplateView {
    pub class_like: Seq<u8>,
    pub constraint: UnionView,
    pub default: Option<UnionView>,
}

impl View for GenericTemplate {
    type V = GenericTemplateView;

    open spec fn view(&self) -> GenericTemplateView {
        GenericTemplateView {
            class_like: self.class_like@,
            constraint: self.constraint@,
            default: option_view(self.default),
        }
    }
}

impl GenericTemplate {
    pub fn copy(&self) -> (t: GenericTemplate)
        ensures
            t@ == self@,
    {
        GenericTemplate {
            class_like: copy_word(self.class_like.as_slice()),
            constraint: self.constraint.copy(),
            default: match &self.default {
                Some(u) => Some(u.copy()),
                None => None,
            },
        }
    }
}

/// A type alias of another class-like.
pub struct ImportedTypeAlias {
    pub source: Word,
    pub name: Word,
    pub span: Span,
}

#[verifier::ext_equal]
pub struct ImportedTypeAliasView {
    pub source: Seq<u8>,
    pub name: Seq<u8>,
    pub span: Span,
}

impl View for ImportedTypeAlias {
    type V = ImportedTypeAliasView;

    open spec fn view(&self) -> ImportedTypeAliasView {
        ImportedTypeAliasView {
            source: self.source@,
            name: self.name@,
            span: self.span,
        }
    }
}

/// A parameter of a function-like.
pub struct ParameterMetadata {
    pub name: Word,
    pub span: Span,
    pub name_span: Span,
    pub flags: MetadataFlags,
    pub type_declaration_metadata: Option<TypeMetadata>,
    pub type_metadata: Option<TypeMetadata>,
}

#[verifier::ext_equal]
pub struct ParameterView {
    pub name: Seq<u8>,
    pub span: Span,
    pub name_span: Span,
    pub flags: MetadataFlags,
    pub type_declaration_metadata: Option<TypeView>,
    pub type_metadata: Option<TypeView>,
}

impl View for ParameterMetadata {
    type V = ParameterView;

    open spec fn view(&self) -> ParameterView {
        ParameterView {
            name: self.name@,
            span: self.span,
            name_span: self.name_span,
            flags: self.flags,
            type_declaration_metadata: option_view(self.type_declaration_metadata),
            type_metadata: option_view(self.type_metadata),
        }
    }
}

impl ParameterView {
    /// A parameter of which only the name and the place are known.
    pub open spec fn new(name: Seq<u8>, span: Span, name_span: Span) -> ParameterView {
        ParameterView {
            name,
            span,
            name_span,
            flags: no_flags(),
            type_declaration_metadata: None,
            type_metadata: None,
        }
    }

    /// The declared type; it is also the type where none was known.
    pub open spec fn with_type_declaration(self, declared: Option<TypeView>) -> ParameterView {
        ParameterView {
            type_declaration_metadata: declared,
            type_metadata: if self.type_metadata is None {
                declared
            } else {
                self.type_metadata
            },
            ..self
        }
    }
}

impl ParameterMetadata {
    pub fn new(name: Word, span: Span, name_span: Span) -> (parameter: ParameterMetadata)
        ensures
            parameter@ == ParameterView::new(name@, span, name_span),
    {
        ParameterMetadata {
            name,
            span,
            name_span,
            flags: MetadataFlags::empty(),
            type_declaration_metadata: None,
            type_metadata: None,
        }
    }

    pub fn set_type_declaration_metadata(&mut self, declared: Option<TypeMetadata>)
        ensures
            final(self)@ == old(self)@.with_type_declaration(option_view(declared)),
    {
        if self.type_metadata.is_none() {
            self.type_metadata = copy_type(&declared);
        }
        self.type_declaration_metadata = declared;
    }
}

/// What is known of a method.
pub struct MethodMetadata {
    pub is_final: bool,
    pub is_abstract: bool,
    pub is_static: bool,
    pub is_constructor: bool,
    pub visibility: Visibility,
}

#[verifier::ext_equal]
pub struct MethodView {
    pub is_final: bool,
    pub is_abstract: bool,
    pub is_static: bool,
    pub is_constructor: bool,
    pub visibility: Visibility,
}

impl View for MethodMetadata {
    type V = MethodView;

    open spec fn view(&self) -> MethodView {
        MethodView {
            is_final: self.is_final,
            is_abstract: self.is_abstract,
            is_static: self.is_static,
            is_constructor: self.is_constructor,
            visibility: self.visibility,
        }
    }
}

/// A function, a method or a closure.
pub struct FunctionLikeMetadata {
    pub kind: FunctionLikeKind,
    pub name: Word,
    pub original_name: Word,
    pub span: Span,
    pub name_span: Option<Span>,
    pub flags: MetadataFlags,
    pub parameters: Vec<ParameterMetadata>,
    pub return_type_declaration_metadata: Option<TypeMetadata>,
    pub return_type_metadata: Option<TypeMetadata>,
    pub method_metadata: Option<MethodMetadata>,
    pub thrown_types: Vec<TypeMetadata>,
    pub return_expression_hints: Vec<ReturnExpressionHint>,
}

#[verifier::ext_equal]
pub struct FunctionLikeView {
    pub kind: FunctionLikeKind,
    pub name: Seq<u8>,
    pub original_name: Seq<u8>,
    pub span: Span,
    pub name_span: Option<Span>,
    pub flags: MetadataFlags,
    pub parameters: Seq<ParameterView>,
    pub return_type_declaration_metadata: Option<TypeView>,
    pub return_type_metadata: Option<TypeView>,
    pub method_metadata: Option<MethodView>,
    pub thrown_types: Seq<TypeView>,
    pub return_expression_hints: Seq<HintView>,
}

impl View for FunctionLikeMetadata {
    type V = FunctionLikeView;

    open spec fn view(&self) -> FunctionLikeView {
        FunctionLikeView {
            kind: self.kind,
            name: self.name@,
            original_name: self.original_name@,
            span: self.span,
            name_span: self.name_span,
            flags: self.flags,
            parameters: views(self.parameters@),
            return_type_declaration_metadata: option_view(self.return_type_declaration_metadata),
            return_type_metadata: option_view(self.return_type_metadata),
            method_metadata: option_view(self.method_metadata),
            thrown_types: views(self.thrown_types@),
            return_expression_hints: views(self.return_expression_hints@),
        }
    }
}

impl FunctionLikeView {
    /// A method of which only the name and the place are known.
    pub open spec fn new_method(name: Seq<u8>, original_name: Seq<u8>, span: Span) -> FunctionLikeView {
        FunctionLikeView {
            kind: FunctionLikeKind::Method,
            name,
            original_name,
            span,
            name_span: None,
            flags: no_flags(),
            parameters: Seq::empty(),
            return_type_declaration_metadata: None,
            return_type_metadata: None,
            method_metadata: Some(
                MethodView {
                    is_final: false,
                    is_abstract: false,
                    is_static: false,
                    is_constructor: false,
                    visibility: Visibility::Public,
                },
            ),
            thrown_types: Seq::empty(),
            return_expression_hints: Seq::empty(),
        }
    }
}

/// A property of a class-like.
pub struct PropertyMetadata {
    pub name: Word,
    pub flags: MetadataFlags,
    pub name_span: Option<Span>,
    pub read_visibility: Visibility,
    pub write_visibility: Visibility,
    pub type_declaration_metadata: Option<TypeMetadata>,
    pub type_metadata: Option<TypeMetadata>,
    pub write_type_metadata: Option<TypeMetadata>,
}

#[verifier::ext_equal]
pub struct PropertyView {
    pub name: Seq<u8>,
    pub flags: MetadataFlags,
    pub name_span: Option<Span>,
    pub read_visibility: Visibility,
    pub write_visibility: Visibility,
    pub type_declaration_metadata: Option<TypeView>,
    pub type_metadata: Option<TypeView>,
    pub write_type_metadata: Option<TypeView>,
}

impl View for PropertyMetadata {
    type V = PropertyView;

    open spec fn view(&self) -> PropertyView {
        PropertyView {
            name: self.name@,
            flags: self.flags,
            name_span: self.name_span,
            read_visibility: self.read_visibility,
            write_visibility: self.write_visibility,
            type_declaration_metadata: option_view(self.type_declaration_metadata),
            type_metadata: option_view(self.type_metadata),
            write_type_metadata: option_view(self.write_type_metadata),
        }
    }
}

impl PropertyView {
    /// A property of which only the name and some flags are known.
    pub open spec fn new(name: Seq<u8>, flags: MetadataFlags) -> PropertyView {
        PropertyView {
            name,
            flags,
            name_span: None,
            read_visibility: Visibility::Public,
            write_visibility: Visibility::Public,
            type_declaration_metadata: None,
            type_metadata: None,
            write_type_metadata: None,
        }
    }

    /// The declared type; it is also the type where none was known.
    pub open spec fn with_type_declaration(self, declared: Option<TypeView>) -> PropertyView {
        PropertyView {
            type_declaration_metadata: declared,
            type_metadata: if self.type_metadata is None {
                declared
            } else {
                self.type_metadata
            },
            ..self
        }
    }
}

impl PropertyMetadata {
    pub fn new(name: Word, flags: MetadataFlags) -> (property: PropertyMetadata)
        ensures
            property@ == PropertyView::new(name@, flags),
    {
        PropertyMetadata {
            name,
            flags,
            name_span: None,
            read_visibility: Visibility::Public,
            write_visibility: Visibility::Public,
            type_declaration_metadata: None,
            type_metadata: None,
            write_type_metadata: None,
        }
    }

    pub fn set_type_declaration_metadata(&mut self, declared: Option<TypeMetadata>)
        ensures
            final(self)@ == old(self)@.with_type_declaration(option_view(declared)),
    {
        if self.type_metadata.is_none() {
            self.type_metadata = copy_type(&declared);
        }
        self.type_declaration_metadata = declared;
    }

    pub fn copy(&self) -> (property: PropertyMetadata)
        ensures
            property@ == self@,
    {
        PropertyMetadata {
            name: copy_word(self.name.as_slice()),
            flags: self.flags,
            name_span: self.name_span,
            read_visibility: self.read_visibility,
            write_visibility: self.write_visibility,
            type_declaration_metadata: copy_type(&self.type_declaration_metadata),
            type_metadata: copy_type(&self.type_metadata),
            write_type_metadata: copy_type(&self.write_type_metadata),
        }
    }
}

/// A constant of a class-like.
pub struct ClassLikeConstantMetadata {
    pub name: Word,
    pub span: Span,
    pub inferred_type: Option<TAtomic>,
}

#[verifier::ext_equal]
pub struct ClassLikeConstantView {
    pub name: Seq<u8>,
    pub span: Span,
    pub inferred_type: Option<AtomicView>,
}

impl View for ClassLikeConstantMetadata {
    type V = ClassLikeConstantView;

    open spec fn view(&self) -> ClassLikeConstantView {
        ClassLikeConstantView {
            name: self.name@,
            span: self.span,
            inferred_type: option_view(self.inferred_type),
        }
    }
}

/// A copy of a type that may be unknown.
pub fn copy_atomic(t: &Option<TAtomic>) -> (copy: Option<TAtomic>)
    ensures
        option_view(copy) == option_view(*t),
{
    match t {
        Some(t) => Some(t.copy()),
        None => None,
    }
}

impl ClassLikeConstantMetadata {
    pub fn copy(&self) -> (constant: ClassLikeConstantMetadata)
        ensures
            constant@ == self@,
    {
        ClassLikeConstantMetadata {
            name: copy_word(self.name.as_slice()),
            span: self.span,
            inferred_type: copy_atomic(&self.inferred_type),
        }
    }
}

/// A case of an enum.
pub struct EnumCaseMetadata {
    pub name: Word,
    pub span: Span,
    pub value_type: Option<TAtomic>,
}

#[verifier::ext_equal]
pub struct EnumCaseView {
    pub name: Seq<u8>,
    pub span: Span,
    pub value_type: Option<AtomicView>,
}

impl View for EnumCaseMetadata {
    type V = EnumCaseView;

    open spec fn view(&self) -> EnumCaseView {
        EnumCaseView {
            name: self.name@,
            span: self.span,
            value_type: option_view(self.value_type),
        }
    }
}

impl EnumCaseMetadata {
    pub fn copy(&self) -> (case: EnumCaseMetadata)
        ensures
            case@ == self@,
    {
        EnumCaseMetadata {
            name: copy_word(self.name.as_slice()),
            span: self.span,
            value_type: copy_atomic(&self.value_type),
        }
    }
}

/// A constant outside of any class-like.
pub struct ConstantMetadata {
    pub name: Word,
    pub span: Span,
    pub flags: MetadataFlags,
    pub attributes: Vec<AttributeMetadata>,
    pub type_metadata: Option<TypeMetadata>,
    pub inferred_type: Option<TUnion>,
}

#[verifier::ext_equal]
pub struct ConstantView {
    pub name: Seq<u8>,
    pub span: Span,
    pub flags: MetadataFlags,
    pub attributes: Seq<AttributeView>,
    pub type_metadata: Option<TypeView>,
    pub inferred_type: Option<UnionView>,
}

impl View for ConstantMetadata {
    type V = ConstantView;

    open spec fn view(&self) -> ConstantView {
        ConstantView {
            name: self.name@,
            span: self.span,
            flags: self.flags,
            attributes: views(self.attributes@),
            type_metadata: option_view(self.type_metadata),
            inferred_type: option_view(self.inferred_type),
        }
    }
}

/// A class, an interface, a trait or an enum.
pub struct ClassLikeMetadata {
    pub name: Word,
    pub original_name: Word,
    pub span: Span,
    pub name_span: Option<Span>,
    pub flags: MetadataFlags,
    pub kind: SymbolKind,
    pub version_constraint: VersionConstraint,
    pub attributes: Vec<AttributeMetadata>,
    pub attribute_flags: Option<u8>,
    pub enum_type: Option<TAtomic>,
    pub direct_parent_class: Option<Word>,
    pub all_parent_classes: WordSet,
    pub direct_parent_interfaces: WordSet,
    pub all_parent_interfaces: WordSet,
    pub used_traits: WordSet,
    pub require_extends: WordSet,
    pub require_implements: WordSet,
    pub permitted_inheritors: Option<WordSet>,
    pub template_types: WordMap<GenericTemplate>,
    pub template_variance: Vec<Variance>,
    pub template_readonly: WordSet,
    pub template_type_extends_count: WordMap<usize>,
    pub template_type_implements_count: WordMap<usize>,
    pub template_type_uses_count: WordMap<usize>,
    pub template_extended_offsets: WordMap<TypeList>,
    pub type_aliases: WordMap<TypeMetadata>,
    pub imported_type_aliases: WordMap<ImportedTypeAlias>,
    pub mixins: Vec<TypeMetadata>,
    pub methods: WordSet,
    pub pseudo_methods: WordSet,
    pub declaring_method_ids: WordMap<MethodIdentifier>,
    pub appearing_method_ids: WordMap<MethodIdentifier>,
    pub inheritable_method_ids: WordMap<MethodIdentifier>,
    pub overridden_method_ids: WordMap<MethodIdentifier>,
    pub properties: WordMap<PropertyMetadata>,
    pub declaring_property_ids: WordMap<Word>,
    pub appearing_property_ids: WordMap<Word>,
    pub overridden_property_ids: WordMap<WordSet>,
    pub magic_properties: WordMap<PropertyMetadata>,
    pub magic_property_ids: WordMap<Word>,
    pub initialized_properties: WordSet,
    pub constants: WordMap<ClassLikeConstantMetadata>,
    pub enum_cases: WordMap<EnumCaseMetadata>,
    pub trait_alias_map: WordMap<Word>,
    pub trait_visibility_map: WordMap<Visibility>,
    pub trait_final_map: WordSet,
    pub has_sealed_properties: Option<bool>,
    pub has_sealed_methods: Option<bool>,
    pub invalid_dependencies: WordSet,
    pub child_class_likes: Option<WordSet>,
    pub issues: Vec<Issue>,
}

#[verifier::ext_equal]
pub struct ClassLikeView {
    pub name: Seq<u8>,
    pub original_name: Seq<u8>,
    pub span: Span,
    pub name_span: Option<Span>,
    pub flags: MetadataFlags,
    pub kind: SymbolKind,
    pub version_constraint: VersionConstraint,
    pub attributes: Seq<AttributeView>,
    pub attribute_flags: Option<u8>,
    pub enum_type: Option<AtomicView>,
    pub direct_parent_class: Option<Seq<u8>>,
    pub all_parent_classes: Seq<Seq<u8>>,
    pub direct_parent_interfaces: Seq<Seq<u8>>,
    pub all_parent_interfaces: Seq<Seq<u8>>,
    pub used_traits: Seq<Seq<u8>>,
    pub require_extends: Seq<Seq<u8>>,
    pub require_implements: Seq<Seq<u8>>,
    pub permitted_inheritors: Option<Seq<Seq<u8>>>,
    pub template_types: Map<Seq<u8>, GenericTemplateView>,
    pub template_names: Seq<Seq<u8>>,
    pub template_variance: Seq<Variance>,
    pub template_readonly: Seq<Seq<u8>>,
    pub template_type_extends_count: Map<Seq<u8>, usize>,
    pub template_type_implements_count: Map<Seq<u8>, usize>,
    pub template_type_uses_count: Map<Seq<u8>, usize>,
    pub template_extended_offsets: Map<Seq<u8>, Seq<UnionView>>,
    pub type_aliases: Map<Seq<u8>, TypeView>,
    pub type_alias_names: Seq<Seq<u8>>,
    pub imported_type_aliases: Map<Seq<u8>, ImportedTypeAliasView>,
    pub imported_alias_names: Seq<Seq<u8>>,
    pub mixins: Seq<TypeView>,
    pub methods: Seq<Seq<u8>>,
    pub pseudo_methods: Seq<Seq<u8>>,
    pub declaring_method_ids: Map<Seq<u8>, (Seq<u8>, Seq<u8>)>,
    pub appearing_method_ids: Map<Seq<u8>, (Seq<u8>, Seq<u8>)>,
    pub inheritable_method_ids: Map<Seq<u8>, (Seq<u8>, Seq<u8>)>,
    pub overridden_method_ids: Map<Seq<u8>, (Seq<u8>, Seq<u8>)>,
    pub properties: Map<Seq<u8>, PropertyView>,
    pub declaring_property_ids: Map<Seq<u8>, Seq<u8>>,
    pub declaring_property_names: Seq<Seq<u8>>,
    pub appearing_property_ids: Map<Seq<u8>, Seq<u8>>,
    pub overridden_property_ids: Map<Seq<u8>, Seq<Seq<u8>>>,
    pub magic_properties: Map<Seq<u8>, PropertyView>,
    pub magic_property_ids: Map<Seq<u8>, Seq<u8>>,
    pub initialized_properties: Seq<Seq<u8>>,
    pub constants: Map<Seq<u8>, ClassLikeConstantView>,
    pub enum_cases: Map<Seq<u8>, EnumCaseView>,
    pub enum_case_names: Seq<Seq<u8>>,
    pub trait_alias_map: Map<Seq<u8>, Seq<u8>>,
    pub trait_visibility_map: Map<Seq<u8>, Visibility>,
    pub trait_final_map: Seq<Seq<u8>>,
    pub has_sealed_properties: Option<bool>,
    pub has_sealed_methods: Option<bool>,
    pub invalid_dependencies: Seq<Seq<u8>>,
    pub child_class_likes: Option<Seq<Seq<u8>>>,
    pub issues: Seq<IssueView>,
}

impl View for ClassLikeMetadata {
    type V = ClassLikeView;

    open spec fn view(&self) -> ClassLikeView {
        ClassLikeView {
            name: self.name@,
            original_name: self.original_name@,
            span: self.span,
            name_span: self.name_span,
            flags: self.flags,
            kind: self.kind,
            version_constraint: self.version_constraint,
            attributes: views(self.attributes@),
            attribute_flags: self.attribute_flags,
            enum_type: option_view(self.enum_type),
            direct_parent_class: option_view(self.direct_parent_class),
            all_parent_classes: self.all_parent_classes@,
            direct_parent_interfaces: self.direct_parent_interfaces@,
            all_parent_interfaces: self.all_parent_interfaces@,
            used_traits: self.used_traits@,
            require_extends: self.require_extends@,
            require_implements: self.require_implements@,
            permitted_inheritors: option_view(self.permitted_inheritors),
            template_types: self.template_types@,
            template_names: self.template_types.keys(),
            template_variance: views(self.template_variance@),
            template_readonly: self.template_readonly@,
            template_type_extends_count: self.template_type_extends_count@,
            template_type_implements_count: self.template_type_implements_count@,
            template_type_uses_count: self.template_type_uses_count@,
            template_extended_offsets: self.template_extended_offsets@,
            type_aliases: self.type_aliases@,
            type_alias_names: self.type_aliases.keys(),
            imported_type_aliases: self.imported_type_aliases@,
            imported_alias_names: self.imported_type_aliases.keys(),
            mixins: views(self.mixins@),
            methods: self.methods@,
            pseudo_methods: self.pseudo_methods@,
            declaring_method_ids: self.declaring_method_ids@,
            appearing_method_ids: self.appearing_method_ids@,
            inheritable_method_ids: self.inheritable_method_ids@,
            overridden_method_ids: self.overridden_method_ids@,
            properties: self.properties@,
            declaring_property_ids: self.declaring_property_ids@,
            declaring_property_names: self.declaring_property_ids.keys(),
            appearing_property_ids: self.appearing_property_ids@,
            overridden_property_ids: self.overridden_property_ids@,
            magic_properties: self.magic_properties@,
            magic_property_ids: self.magic_property_ids@,
            initialized_properties: self.initialized_properties@,
            constants: self.constants@,
            enum_cases: self.enum_cases@,
            enum_case_names: self.enum_cases.keys(),
            trait_alias_map: self.trait_alias_map@,
            trait_visibility_map: self.trait_visibility_map@,
            trait_final_map: self.trait_final_map@,
            has_sealed_properties: self.has_sealed_properties,
            has_sealed_methods: self.has_sealed_methods,
            invalid_dependencies: self.invalid_dependencies@,
            child_class_likes: option_view(self.child_class_likes),
            issues: views(self.issues@),
        }
    }
}

} // verus!
