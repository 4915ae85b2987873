//! What the methods of an enum take and give.

use vstd::prelude::*;

use crate::class_docblock::with_tag_methods;
use crate::class_like::bare_class_like;
use crate::class_like::codebase_with_enum_methods;
use crate::class_like::docblock;
use crate::class_like::is_registered;
use crate::class_like::scanned_codebase;
use crate::class_like::BackingType;
use crate::class_like::HeaderView;
use crate::class_like::RegistrationView;
use crate::class_like::ScanSettings;
use crate::codebase::CodebaseView;
use crate::declaration_laws::lemma_some_tag;
use crate::declaration_laws::some_tag;
use crate::declaration_laws::tags_of;
use crate::docblock::Tag;
use crate::inference_laws::only;
use crate::inference_laws::some_string;
use crate::metadata::FunctionLikeView;
use crate::metadata::SymbolKind;
use crate::metadata::Visibility;
use crate::tag_laws::declares_method;
use crate::ttype::ArrayView;
use crate::ttype::AtomicView;
use crate::ttype::EnumView;
use crate::ttype::ObjectView;
use crate::ttype::ScalarView;
use crate::ttype::TInteger;
use crate::ttype::UnionView;
use crate::word::lowercase;
use crate::word::text;

verus! {

/// A case of an enum.
pub open spec fn case_of(name: Seq<u8>) -> AtomicView {
    AtomicView::Object(ObjectView::Enum(EnumView { name, case: None }))
}

/// Anyone can call the method without an object, and nobody can put another in its place.
pub open spec fn is_enum_method(f: FunctionLikeView) -> bool {
    f.method_metadata matches Some(method) && method.is_static && method.is_final && !method.is_abstract
        && !method.is_constructor && method.visibility == Visibility::Public
}

/// The method gives a value of this type.
pub open spec fn gives(f: FunctionLikeView, t: UnionView) -> bool {
    f.return_type_metadata matches Some(r) && r.type_union == t
}

/// The method takes one value of this type.
pub open spec fn takes(f: FunctionLikeView, t: AtomicView) -> bool {
    f.parameters.len() == 1 && (f.parameters[0].type_metadata matches Some(p) && p.type_union == only(t))
}

/// The method lists cases of the enum.
pub open spec fn lists_cases(f: FunctionLikeView, name: Seq<u8>) -> bool {
    f.return_type_metadata matches Some(r) && r.type_union.types.len() == 1 && (
    r.type_union.types[0] matches AtomicView::Array(ArrayView::List(list)) && *list.element_type == only(case_of(name)))
}

proof fn lemma_other_names(c: CodebaseView, class_like: Seq<u8>, tags: Seq<Tag>, name: Seq<u8>)
    requires
        !some_tag(tags, declares_method(name)),
    ensures
        with_tag_methods(c, class_like, tags).function_likes.contains_key((class_like, name))
            == c.function_likes.contains_key((class_like, name)),
        with_tag_methods(c, class_like, tags).function_likes[(class_like, name)] == c.function_likes[(class_like, name)],
    decreases tags.len(),
{
    if tags.len() > 0 {
        lemma_some_tag(tags, declares_method(name));
        lemma_other_names(c, class_like, tags.drop_last(), name);
        assert(!declares_method(name)(tags.last()));
    }
}

proof fn lemma_names()
    ensures
        lowercase(text("from")) != lowercase(text("tryFrom")),
        lowercase(text("from")) != lowercase(text("cases")),
        lowercase(text("tryFrom")) != lowercase(text("cases")),
{
    reveal_strlit("from");
    reveal_strlit("tryFrom");
    reveal_strlit("cases");
    vstd::string::is_ascii_spec_bytes("from");
    vstd::string::is_ascii_spec_bytes("tryFrom");
    vstd::string::is_ascii_spec_bytes("cases");
    assert(lowercase(text("from")).len() == 4);
    assert(lowercase(text("tryFrom")).len() == 7);
    assert(lowercase(text("cases")).len() == 5);
}

/// The methods that find a case by its value take one and give a case of the enum: one of them throws
/// where there is none, the other one then gives null. The third one lists the cases.
pub open spec fn has_enum_methods(
    methods: Map<(Seq<u8>, Seq<u8>), FunctionLikeView>,
    name: Seq<u8>,
    backing: Option<AtomicView>,
    is_known: spec_fn(Seq<u8>) -> bool,
) -> bool {
    let from = methods[(name, lowercase(text("from")))];
    let try_from = methods[(name, lowercase(text("tryFrom")))];
    let cases = methods[(name, lowercase(text("cases")))];
    &&& backing matches Some(t) ==> {
        &&& is_known(lowercase(text("from"))) ==> is_enum_method(from) && takes(from, t) && gives(
            from,
            only(case_of(name)),
        ) && from.thrown_types.len() == 1
        &&& is_known(lowercase(text("tryFrom"))) ==> is_enum_method(try_from) && takes(try_from, t) && gives(
            try_from,
            UnionView { types: seq![case_of(name), AtomicView::Null] },
        ) && try_from.thrown_types.len() == 0
    }
    &&& is_known(lowercase(text("cases"))) ==> is_enum_method(cases) && cases.parameters.len() == 0 && lists_cases(
        cases,
        name,
    )
}

/// The type of the values of the cases, where they are strings or integers.
pub open spec fn backing_of(h: HeaderView) -> Option<AtomicView> {
    match h.backing_type {
        Some(BackingType::String) => Some(some_string(false)),
        Some(BackingType::Integer) => Some(AtomicView::Scalar(ScalarView::Integer(TInteger::Unspecified))),
        _ => None,
    }
}

/// The names that no tag of a docblock gives to another method.
pub open spec fn is_left(h: HeaderView) -> spec_fn(Seq<u8>) -> bool {
    |n: Seq<u8>| !some_tag(tags_of(h.declaration), declares_method(n))
}

/// The methods of an enum that is registered take and give what they should, unless its docblock
/// declares others of their names.
pub proof fn enum_methods_give_cases(
    before: CodebaseView,
    h: HeaderView,
    settings: ScanSettings,
    result: Option<RegistrationView>,
    after: CodebaseView,
)
    requires
        is_registered(before, h, settings, result, after),
        result is Some,
        h.kind == SymbolKind::Enum,
    ensures
        has_enum_methods(
            after.function_likes,
            lowercase(h.name),
            backing_of(h),
            is_left(h),
        ),
{
    let name = lowercase(h.name);
    let bare = bare_class_like(h, settings.origin_flags);
    let named = before.add_symbol_name(name, h.kind);
    let start = codebase_with_enum_methods(named, bare, h.declaration.span);
    let is_known = is_left(h);
    lemma_names();
    lemma_methods(named, h, settings);
    assert(after.function_likes == scanned_codebase(before, h, settings).function_likes);
    reveal(scanned_codebase);
    if let Some(document) = docblock(h.declaration) {
        let tags = document.tags@;
        assert(tags == tags_of(h.declaration));
        if is_known(lowercase(text("from"))) {
            lemma_other_names(start, name, tags, lowercase(text("from")));
        }
        if is_known(lowercase(text("tryFrom"))) {
            lemma_other_names(start, name, tags, lowercase(text("tryFrom")));
        }
        if is_known(lowercase(text("cases"))) {
            lemma_other_names(start, name, tags, lowercase(text("cases")));
        }
    }
}

proof fn lemma_methods(c: CodebaseView, h: HeaderView, settings: ScanSettings)
    ensures
        has_enum_methods(
            codebase_with_enum_methods(
                c,
                bare_class_like(h, settings.origin_flags),
                h.declaration.span,
            ).function_likes,
            lowercase(h.name),
            bare_class_like(h, settings.origin_flags).enum_type,
            is_left(h),
        ),
{
    lemma_names();
}

} // verus!
