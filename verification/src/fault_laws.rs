//! Which faults of a docblock are reported.

use vstd::prelude::*;

use crate::class_docblock::with_document;
use crate::class_docblock::with_method_tags;
use crate::class_docblock::with_parse_errors;
use crate::class_docblock::with_tag;
use crate::class_docblock::with_tags;
use crate::class_docblock::TagKind;
use crate::class_like::bare_class_like;
use crate::class_like::docblock;
use crate::class_like::is_registered;
use crate::class_like::scanned_class_like;
use crate::class_like::with_body;
use crate::class_like::with_docblock;
use crate::class_like::with_header;
use crate::class_like::Declaration;
use crate::class_like::HeaderView;
use crate::class_like::RegistrationView;
use crate::class_like::ScanSettings;
use crate::class_members::with_adaptations;
use crate::class_members::with_case_members;
use crate::class_members::with_constant_members;
use crate::class_members::with_constants;
use crate::class_members::with_enum_properties;
use crate::class_members::with_issues;
use crate::class_members::with_member;
use crate::class_members::with_members;
use crate::class_members::with_properties;
use crate::class_members::with_trait_use;
use crate::class_members::with_use_tags;
use crate::class_members::with_used_traits;
use crate::class_members::ClassLikeMember;
use crate::class_members::TraitUse;
use crate::class_members::TraitUseAdaptation;
use crate::class_members::UseTagKind;
use crate::class_tags::last_inheritors;
use crate::class_tags::with_alias_tag;
use crate::class_tags::with_extends_tag;
use crate::class_tags::with_flag_tag;
use crate::class_tags::with_implements_tag;
use crate::class_tags::with_import_tag;
use crate::class_tags::with_inheritors;
use crate::class_tags::with_inheritors_tags;
use crate::class_tags::with_mixin_tag;
use crate::class_tags::with_property_tag;
use crate::class_tags::with_require_extends_tag;
use crate::class_tags::with_require_implements_tag;
use crate::class_tags::with_template_tag;
use crate::codebase::CodebaseView;
use crate::declaration_laws::is_written;
use crate::declaration_laws::lemma_inheritors_tags;
use crate::declaration_laws::lemma_parse_errors;
use crate::declaration_laws::lemma_tags;
use crate::declaration_laws::tags_of;
use crate::docblock::Document;
use crate::docblock::ParseError;
use crate::docblock::Tag;
use crate::docblock::TypeTag;
use crate::issue::Issue;
use crate::issue::IssueCode;
use crate::issue::IssueView;
use crate::issue::Span;
use crate::metadata::ClassLikeConstantMetadata;
use crate::metadata::ClassLikeView;
use crate::metadata::PropertyMetadata;
use crate::metadata::SymbolKind;
use crate::registration_laws::interfaces_of;
use crate::registration_laws::is_interface_of_kind;
use crate::registration_laws::lemma_bare;
use crate::registration_laws::lemma_headed_parents;
use crate::registration_laws::lemma_registered;
use crate::ttype::AtomicView;
use crate::ttype::ReferenceView;
use crate::word::lowercase;
use crate::word::Word;

verus! {

/// Some reports come first among others.
pub open spec fn grows(a: Seq<IssueView>, b: Seq<IssueView>) -> bool {
    a.len() <= b.len() && forall|i: int| 0 <= i < a.len() ==> #[trigger] b[i] == a[i]
}

/// One of the reports has this code.
pub open spec fn has_code(issues: Seq<IssueView>, code: IssueCode) -> bool {
    exists|k: int| 0 <= k < issues.len() && (#[trigger] issues[k]).code == Some(code)
}

proof fn lemma_kept(a: Seq<IssueView>, b: Seq<IssueView>, code: IssueCode)
    requires
        grows(a, b),
        has_code(a, code),
    ensures
        has_code(b, code),
{
    let k = choose|k: int| 0 <= k < a.len() && (#[trigger] a[k]).code == Some(code);
    assert(b[k] == a[k]);
}

proof fn lemma_grown(a: Seq<IssueView>, b: Seq<IssueView>, c: Seq<IssueView>)
    requires
        grows(a, b),
        grows(b, c),
    ensures
        grows(a, c),
{
    assert forall|i: int| 0 <= i < a.len() implies #[trigger] c[i] == a[i] by {
        assert(b[i] == a[i]);
    }
}

/// A type tag does not hold one class-like alone.
pub open spec fn names_no_class_like(t: TypeTag) -> bool {
    match t.resolved {
        Ok(u) => u@.types.len() != 1 || !(u@.types[0] matches AtomicView::Reference(ReferenceView::Symbol(s))
            && s.intersection_types is None),
        Err(_) => true,
    }
}

/// The class-like that a type tag holds.
pub open spec fn named_class_like(t: TypeTag) -> Seq<u8> {
    match t.resolved {
        Ok(u) => match u@.types[0] {
            AtomicView::Reference(ReferenceView::Symbol(s)) => lowercase(s.name),
            _ => Seq::empty(),
        },
        Err(_) => Seq::empty(),
    }
}

/// A tag is at fault: it holds a type that cannot be told, no class-like where it should, or one that
/// it cannot speak of.
pub open spec fn is_at_fault(
    tag: Tag,
    kind: SymbolKind,
    class_like: Seq<u8>,
    is_parent: spec_fn(Seq<u8>) -> bool,
    is_interface: spec_fn(Seq<u8>) -> bool,
) -> bool {
    match tag {
        Tag::Template(t) => (t.bound matches Some(Err(_))) || (t.default matches Some(Err(_))),
        Tag::TypeAlias(t) => t.resolved is Err,
        Tag::TypeAliasImport(t) => lowercase(t.source_among_templates@) == class_like,
        Tag::Extends(t) => names_no_class_like(t) || !(if kind == SymbolKind::Interface {
            is_interface(named_class_like(t))
        } else {
            is_parent(named_class_like(t))
        }),
        Tag::Implements(t) => names_no_class_like(t) || !is_interface(named_class_like(t)),
        Tag::RequireExtends(t) => names_no_class_like(t),
        Tag::RequireImplements(t) => names_no_class_like(t),
        Tag::Mixin(t) => t.resolved is Err,
        Tag::Property(t) => t.resolved matches Some(Err(_)),
        Tag::PropertyRead(t) => t.resolved matches Some(Err(_)),
        Tag::PropertyWrite(t) => t.resolved matches Some(Err(_)),
        _ => false,
    }
}

/// The code of the report on a tag that is at fault.
pub open spec fn code_of(tag: Tag) -> IssueCode {
    match tag {
        Tag::Template(_) => IssueCode::InvalidTemplateTag,
        Tag::TypeAlias(_) => IssueCode::InvalidTypeTag,
        Tag::TypeAliasImport(_) => IssueCode::CircularTypeImport,
        Tag::Extends(_) => IssueCode::InvalidExtendsTag,
        Tag::Implements(_) => IssueCode::InvalidImplementsTag,
        Tag::RequireExtends(_) => IssueCode::InvalidRequireExtendsTag,
        Tag::RequireImplements(_) => IssueCode::InvalidRequireImplementsTag,
        Tag::Mixin(_) => IssueCode::InvalidMixinTag,
        _ => IssueCode::InvalidPropertyTag,
    }
}

/// A tag is one of those that are looked at together.
spec fn is_of(kind: TagKind, tag: Tag) -> bool {
    match kind {
        TagKind::Flag => false,
        TagKind::Template => tag is Template,
        TagKind::Import => tag is TypeAliasImport,
        TagKind::Alias => tag is TypeAlias,
        TagKind::Extends => tag is Extends,
        TagKind::Implements => tag is Implements,
        TagKind::RequireExtends => tag is RequireExtends,
        TagKind::RequireImplements => tag is RequireImplements,
        TagKind::Mixin => tag is Mixin,
        TagKind::Property => tag is Property || tag is PropertyRead || tag is PropertyWrite,
    }
}

spec fn fault_in(m: ClassLikeView, tag: Tag) -> bool {
    is_at_fault(
        tag,
        m.kind,
        m.name,
        |n: Seq<u8>| m.all_parent_classes.contains(n),
        |n: Seq<u8>| m.all_parent_interfaces.contains(n),
    )
}

/// A tag is reported where it is at fault, and nothing is reported otherwise.
spec fn reports(kind: TagKind, m: ClassLikeView, tag: Tag, d: ClassLikeView) -> bool {
    if is_of(kind, tag) && fault_in(m, tag) {
        grows(m.issues, d.issues) && d.issues.len() == m.issues.len() + 1 && d.issues.last().code == Some(code_of(tag))
    } else {
        d.issues == m.issues
    }
}

proof fn lemma_flag_tag(m: ClassLikeView, tag: Tag)
    ensures
        reports(TagKind::Flag, m, tag, with_flag_tag(m, tag)),
{
}

proof fn lemma_template_tag(m: ClassLikeView, tag: Tag)
    ensures
        reports(TagKind::Template, m, tag, with_template_tag(m, tag)),
{
}

proof fn lemma_import_tag(m: ClassLikeView, tag: Tag)
    ensures
        reports(TagKind::Import, m, tag, with_import_tag(m, tag)),
{
}

proof fn lemma_alias_tag(m: ClassLikeView, tag: Tag)
    ensures
        reports(TagKind::Alias, m, tag, with_alias_tag(m, tag)),
{
}

proof fn lemma_extends_tag(m: ClassLikeView, tag: Tag)
    ensures
        reports(TagKind::Extends, m, tag, with_extends_tag(m, tag)),
{
}

proof fn lemma_implements_tag(m: ClassLikeView, tag: Tag)
    ensures
        reports(TagKind::Implements, m, tag, with_implements_tag(m, tag)),
{
}

proof fn lemma_require_extends_tag(m: ClassLikeView, tag: Tag)
    ensures
        reports(TagKind::RequireExtends, m, tag, with_require_extends_tag(m, tag)),
{
}

proof fn lemma_require_implements_tag(m: ClassLikeView, tag: Tag)
    ensures
        reports(TagKind::RequireImplements, m, tag, with_require_implements_tag(m, tag)),
{
}

proof fn lemma_mixin_tag(m: ClassLikeView, tag: Tag)
    ensures
        reports(TagKind::Mixin, m, tag, with_mixin_tag(m, tag)),
{
}

proof fn lemma_property_tag(m: ClassLikeView, tag: Tag)
    ensures
        reports(TagKind::Property, m, tag, with_property_tag(m, tag)),
{
}

proof fn lemma_tag(kind: TagKind, m: ClassLikeView, tag: Tag)
    ensures
        reports(kind, m, tag, with_tag(kind, m, tag)),
{
    reveal(with_tag);
    match kind {
        TagKind::Flag => lemma_flag_tag(m, tag),
        TagKind::Template => lemma_template_tag(m, tag),
        TagKind::Import => lemma_import_tag(m, tag),
        TagKind::Alias => lemma_alias_tag(m, tag),
        TagKind::Extends => lemma_extends_tag(m, tag),
        TagKind::Implements => lemma_implements_tag(m, tag),
        TagKind::RequireExtends => lemma_require_extends_tag(m, tag),
        TagKind::RequireImplements => lemma_require_implements_tag(m, tag),
        TagKind::Mixin => lemma_mixin_tag(m, tag),
        TagKind::Property => lemma_property_tag(m, tag),
    }
}

proof fn lemma_tags_grow(kind: TagKind, m: ClassLikeView, tags: Seq<Tag>)
    ensures
        grows(m.issues, with_tags(kind, m, tags).issues),
    decreases tags.len(),
{
    if tags.len() > 0 {
        let before = with_tags(kind, m, tags.drop_last());
        lemma_tags_grow(kind, m, tags.drop_last());
        lemma_tag(kind, before, tags.last());
        lemma_grown(m.issues, before.issues, with_tags(kind, m, tags).issues);
    }
}

proof fn lemma_fault_reported(kind: TagKind, m: ClassLikeView, tags: Seq<Tag>, i: int)
    requires
        0 <= i < tags.len(),
        is_of(kind, tags[i]),
        fault_in(m, tags[i]),
    ensures
        has_code(with_tags(kind, m, tags).issues, code_of(tags[i])),
    decreases tags.len(),
{
    let rest = tags.drop_last();
    let before = with_tags(kind, m, rest);
    let after = with_tags(kind, m, tags);
    lemma_tags(kind, m, rest);
    lemma_tag(kind, before, tags.last());
    if i < rest.len() {
        assert(rest[i] == tags[i]);
        lemma_fault_reported(kind, m, rest, i);
        lemma_kept(before.issues, after.issues, code_of(tags[i]));
    } else {
        assert(fault_in(before, tags[i]));
        assert(after.issues[after.issues.len() - 1].code == Some(code_of(tags[i])));
    }
}

proof fn lemma_faultless(kind: TagKind, m: ClassLikeView, tags: Seq<Tag>)
    requires
        forall|i: int| 0 <= i < tags.len() ==> !fault_in(m, #[trigger] tags[i]),
    ensures
        with_tags(kind, m, tags).issues == m.issues,
    decreases tags.len(),
{
    if tags.len() > 0 {
        let rest = tags.drop_last();
        assert forall|i: int| 0 <= i < rest.len() implies !fault_in(m, #[trigger] rest[i]) by {
            assert(rest[i] == tags[i]);
        }
        lemma_faultless(kind, m, rest);
        lemma_tags(kind, m, rest);
        lemma_tag(kind, with_tags(kind, m, rest), tags.last());
        assert(!fault_in(m, tags[tags.len() - 1]));
    }
}

proof fn lemma_errors(m: ClassLikeView, message: &str, errors: Seq<ParseError>)
    ensures
        grows(m.issues, with_parse_errors(m, message, errors).issues),
        with_parse_errors(m, message, errors).issues.len() == m.issues.len() + errors.len(),
        errors.len() > 0 ==> has_code(
            with_parse_errors(m, message, errors).issues,
            IssueCode::MalformedDocblockComment,
        ),
    decreases errors.len(),
{
    if errors.len() > 0 {
        let before = with_parse_errors(m, message, errors.drop_last());
        let after = with_parse_errors(m, message, errors);
        lemma_errors(m, message, errors.drop_last());
        lemma_grown(m.issues, before.issues, after.issues);
        assert(after.issues[before.issues.len() as int].code == Some(IssueCode::MalformedDocblockComment));
    }
}

proof fn lemma_inheritors(m: ClassLikeView, span: Span, inheritors: Seq<AtomicView>)
    ensures
        grows(m.issues, with_inheritors(m, span, inheritors).issues),
    decreases inheritors.len(),
{
    if inheritors.len() > 0 {
        let before = with_inheritors(m, span, inheritors.drop_last());
        lemma_inheritors(m, span, inheritors.drop_last());
        lemma_grown(m.issues, before.issues, with_inheritors(m, span, inheritors).issues);
    }
}

proof fn lemma_inheritors_grow(m: ClassLikeView, tags: Seq<Tag>)
    ensures
        grows(m.issues, with_inheritors_tags(m, tags).issues),
{
    if let Some(t) = last_inheritors(tags) {
        if let Ok(u) = t.resolved {
            lemma_inheritors(m, t.type_span, u@.types);
        }
    }
}

proof fn lemma_methods_grow(m: ClassLikeView, tags: Seq<Tag>)
    ensures
        with_method_tags(m, tags).issues == m.issues,
    decreases tags.len(),
{
    if tags.len() > 0 {
        lemma_methods_grow(m, tags.drop_last());
    }
}

spec fn same_parents(a: ClassLikeView, b: ClassLikeView) -> bool {
    &&& a.kind == b.kind
    &&& a.name == b.name
    &&& a.all_parent_classes == b.all_parent_classes
    &&& a.all_parent_interfaces == b.all_parent_interfaces
}

proof fn lemma_stage(kind: TagKind, m: ClassLikeView, before: ClassLikeView, tags: Seq<Tag>)
    requires
        same_parents(before, m),
    ensures
        same_parents(with_tags(kind, before, tags), m),
        grows(before.issues, with_tags(kind, before, tags).issues),
        forall|i: int|
            0 <= i < tags.len() && is_of(kind, #[trigger] tags[i]) && fault_in(m, tags[i]) ==> has_code(
                with_tags(kind, before, tags).issues,
                code_of(tags[i]),
            ),
        (forall|i: int| 0 <= i < tags.len() ==> !fault_in(m, #[trigger] tags[i])) ==> with_tags(
            kind,
            before,
            tags,
        ).issues == before.issues,
{
    lemma_tags(kind, before, tags);
    lemma_tags_grow(kind, before, tags);
    assert forall|t: Tag| #[trigger] fault_in(before, t) == fault_in(m, t) by {}
    assert forall|i: int| 0 <= i < tags.len() && is_of(kind, #[trigger] tags[i]) && fault_in(m, tags[i]) implies has_code(
        with_tags(kind, before, tags).issues,
        code_of(tags[i]),
    ) by {
        assert(fault_in(before, tags[i]));
        lemma_fault_reported(kind, before, tags, i);
    }
    if forall|i: int| 0 <= i < tags.len() ==> !fault_in(m, #[trigger] tags[i]) {
        assert forall|i: int| 0 <= i < tags.len() implies !fault_in(before, #[trigger] tags[i]) by {
            assert(!fault_in(m, tags[i]));
        }
        lemma_faultless(kind, before, tags);
    }
}

/// The reports of a stage are there in the end.
spec fn ends_in(kind: TagKind, m: ClassLikeView, tags: Seq<Tag>, issues: Seq<IssueView>) -> bool {
    forall|i: int|
        0 <= i < tags.len() && is_of(kind, #[trigger] tags[i]) && fault_in(m, tags[i]) ==> has_code(
            issues,
            code_of(tags[i]),
        )
}

proof fn lemma_ends(kind: TagKind, m: ClassLikeView, tags: Seq<Tag>, a: Seq<IssueView>, b: Seq<IssueView>)
    requires
        ends_in(kind, m, tags, a),
        grows(a, b),
    ensures
        ends_in(kind, m, tags, b),
{
    assert forall|i: int| 0 <= i < tags.len() && is_of(kind, #[trigger] tags[i]) && fault_in(m, tags[i]) implies has_code(
        b,
        code_of(tags[i]),
    ) by {
        lemma_kept(a, b, code_of(tags[i]));
    }
}

/// What a stage adds to what was reported before.
spec fn reports_all(m: ClassLikeView, document: Document, issues: Seq<IssueView>) -> bool {
    let tags = document.tags@;
    &&& grows(m.issues, issues)
    &&& document.errors@.len() > 0 ==> has_code(issues, IssueCode::MalformedDocblockComment)
    &&& ends_in(TagKind::Template, m, tags, issues)
    &&& ends_in(TagKind::Import, m, tags, issues)
    &&& ends_in(TagKind::Alias, m, tags, issues)
    &&& ends_in(TagKind::Extends, m, tags, issues)
    &&& ends_in(TagKind::Implements, m, tags, issues)
    &&& ends_in(TagKind::RequireExtends, m, tags, issues)
    &&& ends_in(TagKind::RequireImplements, m, tags, issues)
    &&& ends_in(TagKind::Mixin, m, tags, issues)
    &&& ends_in(TagKind::Property, m, tags, issues)
}

proof fn lemma_all_kept(m: ClassLikeView, document: Document, a: Seq<IssueView>, b: Seq<IssueView>)
    requires
        reports_all(m, document, a),
        grows(a, b),
    ensures
        reports_all(m, document, b),
{
    let tags = document.tags@;
    lemma_grown(m.issues, a, b);
    if document.errors@.len() > 0 {
        lemma_kept(a, b, IssueCode::MalformedDocblockComment);
    }
    lemma_ends(TagKind::Template, m, tags, a, b);
    lemma_ends(TagKind::Import, m, tags, a, b);
    lemma_ends(TagKind::Alias, m, tags, a, b);
    lemma_ends(TagKind::Extends, m, tags, a, b);
    lemma_ends(TagKind::Implements, m, tags, a, b);
    lemma_ends(TagKind::RequireExtends, m, tags, a, b);
    lemma_ends(TagKind::RequireImplements, m, tags, a, b);
    lemma_ends(TagKind::Mixin, m, tags, a, b);
    lemma_ends(TagKind::Property, m, tags, a, b);
}

proof fn lemma_document_reports(m: ClassLikeView, document: Document)
    ensures
        reports_all(m, document, with_document(m, document).issues),
        document.errors@.len() == 0 && (forall|i: int|
            0 <= i < document.tags@.len() ==> !fault_in(m, #[trigger] document.tags@[i]) && !(
            document.tags@[i] is Inheritors)) ==> with_document(m, document).issues == m.issues,
{
    reveal(with_document);
    let tags = document.tags@;
    let message = "Failed to parse class-like docblock comment.";
    let start = with_parse_errors(m, message, document.errors@);
    lemma_errors(m, message, document.errors@);
    lemma_parse_errors(m, message, document.errors@);
    let flags = with_tags(TagKind::Flag, start, tags);
    lemma_stage(TagKind::Flag, m, start, tags);
    let templates = with_tags(TagKind::Template, flags, tags);
    lemma_stage(TagKind::Template, m, flags, tags);
    let imports = with_tags(TagKind::Import, templates, tags);
    lemma_stage(TagKind::Import, m, templates, tags);
    let aliases = with_tags(TagKind::Alias, imports, tags);
    lemma_stage(TagKind::Alias, m, imports, tags);
    let extends = with_tags(TagKind::Extends, aliases, tags);
    lemma_stage(TagKind::Extends, m, aliases, tags);
    let implements = with_tags(TagKind::Implements, extends, tags);
    lemma_stage(TagKind::Implements, m, extends, tags);
    let required = with_tags(TagKind::RequireExtends, implements, tags);
    lemma_stage(TagKind::RequireExtends, m, implements, tags);
    let both = with_tags(TagKind::RequireImplements, required, tags);
    lemma_stage(TagKind::RequireImplements, m, required, tags);
    let inheritors = with_inheritors_tags(both, tags);
    lemma_inheritors_tags(both, tags);
    lemma_inheritors_grow(both, tags);
    let mixins = with_tags(TagKind::Mixin, inheritors, tags);
    lemma_stage(TagKind::Mixin, m, inheritors, tags);
    let methods = with_method_tags(mixins, tags);
    crate::declaration_laws::lemma_method_tags(mixins, tags);
    lemma_methods_grow(mixins, tags);
    let last = with_tags(TagKind::Property, methods, tags);
    lemma_stage(TagKind::Property, m, methods, tags);
    lemma_chain(
        m,
        document,
        seq![
            start.issues,
            flags.issues,
            templates.issues,
            imports.issues,
            aliases.issues,
            extends.issues,
            implements.issues,
            required.issues,
            both.issues,
            inheritors.issues,
            mixins.issues,
            last.issues,
        ],
    );
    if forall|i: int| 0 <= i < tags.len() ==> !fault_in(m, #[trigger] tags[i]) && !(tags[i] is Inheritors) {
        lemma_no_inheritors(tags);
    }
}

proof fn lemma_no_inheritors(tags: Seq<Tag>)
    requires
        forall|i: int| 0 <= i < tags.len() ==> !(#[trigger] tags[i] is Inheritors),
    ensures
        last_inheritors(tags) is None,
    decreases tags.len(),
{
    if tags.len() > 0 {
        let rest = tags.drop_last();
        assert forall|i: int| 0 <= i < rest.len() implies !(#[trigger] rest[i] is Inheritors) by {
            assert(rest[i] == tags[i]);
        }
        lemma_no_inheritors(rest);
        assert(!(tags[tags.len() - 1] is Inheritors));
    }
}

proof fn lemma_last_grows(a: Seq<Seq<IssueView>>, i: int)
    requires
        0 <= i < a.len(),
        forall|k: int| 0 <= k < a.len() - 1 ==> grows(#[trigger] a[k], a[k + 1]),
    ensures
        grows(a[i], a.last()),
    decreases a.len() - i,
{
    if i < a.len() - 1 {
        lemma_last_grows(a, i + 1);
        lemma_grown(a[i], a[i + 1], a.last());
    }
}

proof fn lemma_chain(m: ClassLikeView, document: Document, a: Seq<Seq<IssueView>>)
    requires
        a.len() == 12,
        grows(m.issues, a[0]),
        forall|k: int| 0 <= k < a.len() - 1 ==> grows(#[trigger] a[k], a[k + 1]),
        document.errors@.len() > 0 ==> has_code(a[0], IssueCode::MalformedDocblockComment),
        ends_in(TagKind::Template, m, document.tags@, a[2]),
        ends_in(TagKind::Import, m, document.tags@, a[3]),
        ends_in(TagKind::Alias, m, document.tags@, a[4]),
        ends_in(TagKind::Extends, m, document.tags@, a[5]),
        ends_in(TagKind::Implements, m, document.tags@, a[6]),
        ends_in(TagKind::RequireExtends, m, document.tags@, a[7]),
        ends_in(TagKind::RequireImplements, m, document.tags@, a[8]),
        ends_in(TagKind::Mixin, m, document.tags@, a[10]),
        ends_in(TagKind::Property, m, document.tags@, a[11]),
    ensures
        reports_all(m, document, a[11]),
{
    let tags = document.tags@;
    let last = a[11];
    assert(a.last() == last);
    lemma_last_grows(a, 0);
    lemma_grown(m.issues, a[0], last);
    if document.errors@.len() > 0 {
        lemma_kept(a[0], last, IssueCode::MalformedDocblockComment);
    }
    lemma_last_grows(a, 2);
    lemma_ends(TagKind::Template, m, tags, a[2], last);
    lemma_last_grows(a, 3);
    lemma_ends(TagKind::Import, m, tags, a[3], last);
    lemma_last_grows(a, 4);
    lemma_ends(TagKind::Alias, m, tags, a[4], last);
    lemma_last_grows(a, 5);
    lemma_ends(TagKind::Extends, m, tags, a[5], last);
    lemma_last_grows(a, 6);
    lemma_ends(TagKind::Implements, m, tags, a[6], last);
    lemma_last_grows(a, 7);
    lemma_ends(TagKind::RequireExtends, m, tags, a[7], last);
    lemma_last_grows(a, 8);
    lemma_ends(TagKind::RequireImplements, m, tags, a[8], last);
    lemma_last_grows(a, 10);
    lemma_ends(TagKind::Mixin, m, tags, a[10], last);
}

// ---- members ----

proof fn lemma_issues(m: ClassLikeView, issues: Seq<Issue>)
    ensures
        grows(m.issues, with_issues(m, issues).issues),
    decreases issues.len(),
{
    if issues.len() > 0 {
        let before = with_issues(m, issues.drop_last());
        lemma_issues(m, issues.drop_last());
        lemma_grown(m.issues, before.issues, with_issues(m, issues).issues);
    }
}

proof fn lemma_constants(m: ClassLikeView, constants: Seq<ClassLikeConstantMetadata>)
    ensures
        with_constants(m, constants).issues == m.issues,
    decreases constants.len(),
{
    if constants.len() > 0 {
        lemma_constants(m, constants.drop_last());
    }
}

proof fn lemma_constant_members(m: ClassLikeView, members: Seq<ClassLikeMember>)
    ensures
        grows(m.issues, with_constant_members(m, members).issues),
    decreases members.len(),
{
    if members.len() > 0 {
        let before = with_constant_members(m, members.drop_last());
        lemma_constant_members(m, members.drop_last());
        if let ClassLikeMember::Constant(c) = members.last() {
            lemma_issues(before, c.issues@);
            lemma_constants(with_issues(before, c.issues@), c.constants@);
        }
        lemma_grown(m.issues, before.issues, with_constant_members(m, members).issues);
    }
}

proof fn lemma_case_members(m: ClassLikeView, members: Seq<ClassLikeMember>)
    ensures
        with_case_members(m, members).issues == m.issues,
    decreases members.len(),
{
    if members.len() > 0 {
        lemma_case_members(m, members.drop_last());
    }
}

proof fn lemma_properties(m: ClassLikeView, properties: Seq<PropertyMetadata>)
    ensures
        with_properties(m, properties).issues == m.issues,
    decreases properties.len(),
{
    if properties.len() > 0 {
        lemma_properties(m, properties.drop_last());
    }
}

proof fn lemma_used_traits(m: ClassLikeView, names: Seq<Word>)
    ensures
        with_used_traits(m, names).issues == m.issues,
    decreases names.len(),
{
    if names.len() > 0 {
        lemma_used_traits(m, names.drop_last());
    }
}

proof fn lemma_adaptations(m: ClassLikeView, adaptations: Seq<TraitUseAdaptation>)
    ensures
        with_adaptations(m, adaptations).issues == m.issues,
    decreases adaptations.len(),
{
    if adaptations.len() > 0 {
        lemma_adaptations(m, adaptations.drop_last());
    }
}

proof fn lemma_use_tags(kind: UseTagKind, m: ClassLikeView, tags: Seq<Tag>)
    ensures
        grows(m.issues, with_use_tags(kind, m, tags).issues),
    decreases tags.len(),
{
    if tags.len() > 0 {
        let before = with_use_tags(kind, m, tags.drop_last());
        lemma_use_tags(kind, m, tags.drop_last());
        lemma_grown(m.issues, before.issues, with_use_tags(kind, m, tags).issues);
    }
}

proof fn lemma_trait_use(m: ClassLikeView, t: TraitUse)
    ensures
        grows(m.issues, with_trait_use(m, t).issues),
{
    lemma_used_traits(m, t.names@);
    let used = with_used_traits(m, t.names@);
    lemma_adaptations(used, t.adaptations@);
    let adapted = with_adaptations(used, t.adaptations@);
    if let Some(document) = t.document {
        let message = "Failed to parse trait use docblock comment.";
        lemma_errors(adapted, message, document.errors@);
        let a = with_parse_errors(adapted, message, document.errors@);
        lemma_use_tags(UseTagKind::Use, a, document.tags@);
        let b = with_use_tags(UseTagKind::Use, a, document.tags@);
        lemma_use_tags(UseTagKind::Implements, b, document.tags@);
        let c = with_use_tags(UseTagKind::Implements, b, document.tags@);
        lemma_use_tags(UseTagKind::Extends, c, document.tags@);
        let d = with_use_tags(UseTagKind::Extends, c, document.tags@);
        lemma_grown(m.issues, a.issues, b.issues);
        lemma_grown(m.issues, b.issues, c.issues);
        lemma_grown(m.issues, c.issues, d.issues);
    }
}

proof fn lemma_members(m: ClassLikeView, members: Seq<ClassLikeMember>)
    ensures
        grows(m.issues, with_members(m, members).issues),
    decreases members.len(),
{
    if members.len() > 0 {
        let before = with_members(m, members.drop_last());
        lemma_members(m, members.drop_last());
        match members.last() {
            ClassLikeMember::TraitUse(t) => lemma_trait_use(before, t),
            ClassLikeMember::Property(p) => {
                lemma_issues(before, p.issues@);
                lemma_properties(with_issues(before, p.issues@), p.properties@);
            },
            _ => {},
        }
        assert(with_members(m, members) == with_member(before, members.last()));
        lemma_grown(m.issues, before.issues, with_members(m, members).issues);
    }
}

proof fn lemma_body(m: ClassLikeView, members: Seq<ClassLikeMember>, max_enum_cases: int)
    ensures
        grows(m.issues, with_body(m, members, max_enum_cases).issues),
{
    reveal(with_body);
    lemma_constant_members(m, members);
    let a = with_constant_members(m, members);
    lemma_case_members(a, members);
    let b = with_case_members(a, members);
    let c = with_enum_properties(b, max_enum_cases);
    lemma_enum_properties(b, max_enum_cases);
    lemma_members(c, members);
    lemma_grown(m.issues, c.issues, with_members(c, members).issues);
}

proof fn lemma_enum_properties(m: ClassLikeView, max_enum_cases: int)
    ensures
        with_enum_properties(m, max_enum_cases).issues == m.issues,
{
}

// ---- all of it ----

/// A parent that the first line of a declaration names.
pub open spec fn names_parent(h: HeaderView) -> spec_fn(Seq<u8>) -> bool {
    |n: Seq<u8>| h.kind == SymbolKind::Class && h.extends.len() > 0 && n == lowercase(h.extends[0])
}

/// An interface that the first line of a declaration names, or that comes with it.
pub open spec fn names_interface(h: HeaderView) -> spec_fn(Seq<u8>) -> bool {
    |n: Seq<u8>| is_interface_of_kind(h, n) || is_written(interfaces_of(h), n)
}

/// Some place of the docblock of a declaration could not be read.
pub open spec fn has_errors(d: Declaration) -> bool {
    match (d.docblock_inside, d.docblock_before) {
        (Some(document), _) => document.errors@.len() > 0,
        (None, Some(document)) => document.errors@.len() > 0,
        (None, None) => false,
    }
}

/// Where no tag is at fault, none restricts who inherits, the docblock can be read and nothing
/// follows the first line, there is nothing to report.
pub proof fn nothing_else_is_reported(
    before: CodebaseView,
    h: HeaderView,
    settings: ScanSettings,
    result: Option<RegistrationView>,
    after: CodebaseView,
)
    requires
        is_registered(before, h, settings, result, after),
        result is Some,
        h.declaration.members@.len() == 0,
        !has_errors(h.declaration),
        forall|i: int|
            0 <= i < tags_of(h.declaration).len() ==> !is_at_fault(
                #[trigger] tags_of(h.declaration)[i],
                h.kind,
                lowercase(h.name),
                names_parent(h),
                names_interface(h),
            ) && !(tags_of(h.declaration)[i] is Inheritors),
    ensures
        after.class_likes[lowercase(h.name)].issues.len() == 0,
{
    lemma_registered(before, h, settings, result, after);
    let bare = bare_class_like(h, settings.origin_flags);
    lemma_bare(h, settings.origin_flags);
    lemma_headed_parents(bare, h);
    let headed = with_header(bare, h);
    let described = with_docblock(headed, h.declaration);
    if let Some(document) = docblock(h.declaration) {
        assert forall|i: int| 0 <= i < document.tags@.len() implies !fault_in(headed, #[trigger] document.tags@[i]) && !(
        document.tags@[i] is Inheritors) by {
            let tag = tags_of(h.declaration)[i];
            assert(tag == document.tags@[i]);
        }
        lemma_document_reports(headed, document);
    }
    assert(after.class_likes[lowercase(h.name)].issues == described.issues) by {
        reveal(scanned_class_like);
        lemma_no_members(described, h.declaration.members@, settings.max_enum_cases as int);
    }
}

proof fn lemma_no_members(m: ClassLikeView, members: Seq<ClassLikeMember>, max_enum_cases: int)
    requires
        members.len() == 0,
    ensures
        with_body(m, members, max_enum_cases).issues == m.issues,
{
    reveal(with_body);
    lemma_enum_properties(m, max_enum_cases);
}

/// Each tag that is at fault is reported, and so is a docblock that cannot be read.
pub proof fn faults_are_reported(
    before: CodebaseView,
    h: HeaderView,
    settings: ScanSettings,
    result: Option<RegistrationView>,
    after: CodebaseView,
)
    requires
        is_registered(before, h, settings, result, after),
        result is Some,
    ensures
        ({
            let issues = after.class_likes[lowercase(h.name)].issues;
            let tags = tags_of(h.declaration);
            &&& forall|i: int|
                0 <= i < tags.len() && is_at_fault(
                    #[trigger] tags[i],
                    h.kind,
                    lowercase(h.name),
                    names_parent(h),
                    names_interface(h),
                ) ==> has_code(issues, code_of(tags[i]))
            &&& has_errors(h.declaration) ==> has_code(issues, IssueCode::MalformedDocblockComment)
        }),
{
    lemma_registered(before, h, settings, result, after);
    let bare = bare_class_like(h, settings.origin_flags);
    lemma_bare(h, settings.origin_flags);
    lemma_headed_parents(bare, h);
    let headed = with_header(bare, h);
    let described = with_docblock(headed, h.declaration);
    let m = after.class_likes[lowercase(h.name)];
    assert(grows(described.issues, m.issues)) by {
        reveal(scanned_class_like);
        lemma_body(described, h.declaration.members@, settings.max_enum_cases as int);
    }
    if let Some(document) = docblock(h.declaration) {
        lemma_document_reports(headed, document);
        lemma_all_kept(headed, document, described.issues, m.issues);
        let tags = document.tags@;
        assert forall|i: int|
            0 <= i < tags.len() && is_at_fault(
                #[trigger] tags[i],
                h.kind,
                lowercase(h.name),
                names_parent(h),
                names_interface(h),
            ) implies has_code(m.issues, code_of(tags[i])) by {
            assert(fault_in(headed, tags[i]));
            assert(is_of(TagKind::Template, tags[i]) || is_of(TagKind::Import, tags[i]) || is_of(
                TagKind::Alias,
                tags[i],
            ) || is_of(TagKind::Extends, tags[i]) || is_of(TagKind::Implements, tags[i]) || is_of(
                TagKind::RequireExtends,
                tags[i],
            ) || is_of(TagKind::RequireImplements, tags[i]) || is_of(TagKind::Mixin, tags[i]) || is_of(
                TagKind::Property,
                tags[i],
            ));
        }
    }
}

} // verus!
