//! The docblocks of class-likes.

use vstd::prelude::*;

use crate::issue::primary_annotation;
use crate::issue::Annotation;
use crate::issue::Issue;
use crate::issue::IssueCode;
use crate::issue::IssueView;
use crate::issue::Level;
use crate::issue::Span;
use crate::metadata::MetadataFlags;
use crate::metadata::TypeMetadata;
use crate::metadata::Variance;
use crate::metadata::Visibility;
use crate::ttype::TUnion;
use crate::word::copy_word;
use crate::word::text;
use crate::word::word;
use crate::word::Word;

verus! {

/// A place at which a docblock cannot be read.
pub struct ParseError {
    pub span: Span,
    pub message: Word,
    pub note: Word,
    pub help: Word,
}

/// Why a written type stands for no type.
pub struct TypingError {
    pub span: Span,
    pub message: Word,
    pub note: Word,
    pub help: Word,
}

/// A tag that holds a type: where the tag and the type stand, what the type stands for, and how
/// its first part is shown to the reader.
pub struct TypeTag {
    pub span: Span,
    pub type_span: Span,
    pub resolved: Result<TUnion, TypingError>,
    pub shown: Word,
}

/// A template parameter: the types that bound it and that it has by default.
pub struct TemplateTag {
    pub name: Word,
    pub bound: Option<Result<TUnion, TypingError>>,
    pub default: Option<Result<TUnion, TypingError>>,
    pub variance: Variance,
}

/// A type alias that is imported from another class-like.
///
/// The name of that class-like is resolved twice: in the scope of the file, and in that scope
/// with the template parameters of the docblock added.
pub struct TypeAliasImportTag {
    pub span: Span,
    pub source: Word,
    pub source_among_templates: Word,
    pub name: Word,
    pub local: Option<Word>,
}

pub struct TypeAliasTag {
    pub alias: Word,
    pub resolved: Result<TypeMetadata, TypingError>,
}

pub struct MethodTagParameter {
    pub span: Span,
    pub name: Word,
    pub name_span: Span,
    pub resolved: Option<Result<TypeMetadata, TypingError>>,
    pub is_variadic: bool,
    pub is_by_reference: bool,
    pub is_optional: bool,
}

pub struct MethodTag {
    pub span: Span,
    pub name: Word,
    pub is_static: bool,
    pub visibility: Option<Visibility>,
    pub parameters: Vec<MethodTagParameter>,
    pub return_type: Option<Result<TypeMetadata, TypingError>>,
}

pub struct PropertyTag {
    pub variable: Word,
    pub resolved: Option<Result<TypeMetadata, TypingError>>,
}

/// A tag of a docblock.
pub enum Tag {
    /// A tag that only says that some flags hold.
    Common(MetadataFlags),
    EnumInterface,
    Final,
    ConsistentConstructor,
    ConsistentTemplates,
    SealProperties,
    NoSealProperties,
    SealMethods,
    NoSealMethods,
    TypeAliasImport(TypeAliasImportTag),
    TypeAlias(TypeAliasTag),
    Template(TemplateTag),
    Extends(TypeTag),
    Implements(TypeTag),
    RequireExtends(TypeTag),
    RequireImplements(TypeTag),
    Inheritors(TypeTag),
    Mixin(TypeAliasTag),
    Method(MethodTag),
    Property(PropertyTag),
    PropertyRead(PropertyTag),
    PropertyWrite(PropertyTag),
    Use(TypeTag),
    Other,
}

/// A docblock, with the places that could not be read.
pub struct Document {
    pub errors: Vec<ParseError>,
    pub tags: Vec<Tag>,
}

/// A report on a docblock that could not be read.
pub open spec fn parse_error_issue(message: &str, error: ParseError) -> IssueView {
    IssueView::new(Level::Error, text(message)).with_code(IssueCode::MalformedDocblockComment).with_annotation(
        primary_annotation(error.span, error.message@),
    ).with_note(error.note@).with_help(error.help@)
}

pub fn make_parse_error_issue(message: &str, error: &ParseError) -> (issue: Issue)
    ensures
        issue@ == parse_error_issue(message, *error),
{
    Issue::error(word(message)).with_code(IssueCode::MalformedDocblockComment).with_annotation(
        Annotation::primary(error.span, copy_word(error.message.as_slice())),
    ).with_note(copy_word(error.note.as_slice())).with_help(copy_word(error.help.as_slice()))
}

/// A report on a written type that stands for no type.
pub open spec fn typing_error_issue(message: &str, code: IssueCode, error: TypingError) -> IssueView {
    IssueView::new(Level::Error, text(message)).with_code(code).with_annotation(
        primary_annotation(error.span, error.message@),
    ).with_note(error.note@).with_help(error.help@)
}

pub fn make_typing_error_issue(message: &str, code: IssueCode, error: &TypingError) -> (issue: Issue)
    ensures
        issue@ == typing_error_issue(message, code, *error),
{
    Issue::error(word(message)).with_code(code).with_annotation(
        Annotation::primary(error.span, copy_word(error.message.as_slice())),
    ).with_note(copy_word(error.note.as_slice())).with_help(copy_word(error.help.as_slice()))
}

/// A report on a tag that does not fit its class-like.
pub open spec fn tag_issue(
    message: &str,
    code: IssueCode,
    span: Span,
    remark: Seq<u8>,
    note: &str,
    help: Seq<u8>,
) -> IssueView {
    IssueView::new(Level::Error, text(message)).with_code(code).with_annotation(
        primary_annotation(span, remark),
    ).with_note(text(note)).with_help(help)
}

pub fn make_tag_issue(
    message: &str,
    code: IssueCode,
    span: Span,
    remark: Word,
    note: &str,
    help: Word,
) -> (issue: Issue)
    ensures
        issue@ == tag_issue(message, code, span, remark@, note, help@),
{
    Issue::error(word(message)).with_code(code).with_annotation(Annotation::primary(span, remark)).with_note(
        word(note),
    ).with_help(help)
}

} // verus!
