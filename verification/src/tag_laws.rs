//! What the tags of a docblock make known of the class-like below it.

use vstd::prelude::*;

use crate::class_docblock::with_method_tags;
use crate::class_docblock::with_tag;
use crate::class_docblock::with_tag_methods;
use crate::class_docblock::with_tags;
use crate::class_docblock::TagKind;
use crate::class_like::bare_class_like;
use crate::class_like::docblock;
use crate::class_like::is_registered;
use crate::class_like::scanned_class_like;
use crate::class_like::scanned_codebase;
use crate::class_like::with_docblock;
use crate::class_like::with_header;
use crate::class_like::HeaderView;
use crate::class_like::RegistrationView;
use crate::class_like::ScanSettings;
use crate::class_tags::last_inheritors;
use crate::class_tags::with_inheritors;
use crate::class_tags::with_inheritors_tags;
use crate::codebase::CodebaseView;
use crate::collections::lemma_with_item;
use crate::declaration_laws::lemma_document;
use crate::declaration_laws::lemma_method_tags;
use crate::declaration_laws::lemma_some_tag;
use crate::declaration_laws::lemma_tags;
use crate::declaration_laws::some_tag;
use crate::declaration_laws::tags_of;
use crate::declaration_laws::up_to;
use crate::declaration_laws::Part;
use crate::docblock::Tag;
use crate::docblock::TypeAliasImportTag;
use crate::issue::Span;
use crate::metadata::ClassLikeView;
use crate::metadata::FunctionLikeKind;
use crate::metadata::Visibility;
use crate::registration_laws::lemma_bare;
use crate::registration_laws::lemma_body;
use crate::registration_laws::lemma_headed;
use crate::registration_laws::lemma_registered;
use crate::ttype::AtomicView;
use crate::ttype::ReferenceView;
use crate::word::lowercase;

verus! {

// ---- the parts of a docblock ----

/// What is known of a class-like when the tags of a part of its docblock are read.
#[verifier::opaque]
spec fn at_part(h: HeaderView, settings: ScanSettings, part: Part) -> ClassLikeView {
    let headed = with_header(bare_class_like(h, settings.origin_flags), h);
    match docblock(h.declaration) {
        Some(document) => up_to(headed, document, part),
        None => headed,
    }
}

proof fn lemma_parts(h: HeaderView, settings: ScanSettings)
    ensures
        ({
            let m = scanned_class_like(h, settings);
            let tags = tags_of(h.declaration);
            &&& m.type_aliases == with_tags(TagKind::Alias, at_part(h, settings, Part::Aliases), tags).type_aliases
            &&& m.imported_type_aliases == with_tags(
                TagKind::Import,
                at_part(h, settings, Part::Imports),
                tags,
            ).imported_type_aliases
            &&& m.template_types == with_tags(
                TagKind::Template,
                at_part(h, settings, Part::Templates),
                tags,
            ).template_types
            &&& m.mixins == with_tags(TagKind::Mixin, at_part(h, settings, Part::Mixins), tags).mixins
            &&& m.require_extends == with_tags(
                TagKind::RequireExtends,
                at_part(h, settings, Part::Required),
                tags,
            ).require_extends
            &&& m.permitted_inheritors == with_inheritors_tags(
                at_part(h, settings, Part::Inheritors),
                tags,
            ).permitted_inheritors
            &&& m.pseudo_methods == with_method_tags(at_part(h, settings, Part::Methods), tags).pseudo_methods
            &&& m.inheritable_method_ids == with_method_tags(
                at_part(h, settings, Part::Methods),
                tags,
            ).inheritable_method_ids
            &&& m.magic_properties == with_tags(
                TagKind::Property,
                at_part(h, settings, Part::MagicProperties),
                tags,
            ).magic_properties
            &&& forall|n: Seq<u8>| !#[trigger] at_part(h, settings, Part::Aliases).type_aliases.contains_key(n)
            &&& forall|n: Seq<u8>| !#[trigger] at_part(h, settings, Part::Imports).imported_type_aliases.contains_key(n)
            &&& at_part(h, settings, Part::Imports).name == lowercase(h.name)
            &&& forall|n: Seq<u8>| !#[trigger] at_part(h, settings, Part::Templates).template_types.contains_key(n)
            &&& at_part(h, settings, Part::Templates).name == lowercase(h.name)
            &&& at_part(h, settings, Part::Mixins).mixins.len() == 0
            &&& at_part(h, settings, Part::Required).require_extends.len() == 0
            &&& at_part(h, settings, Part::Inheritors).permitted_inheritors is None
            &&& at_part(h, settings, Part::Methods).pseudo_methods.len() == 0
            &&& at_part(h, settings, Part::Methods).name == lowercase(h.name)
            &&& forall|n: Seq<u8>| !#[trigger]
                at_part(h, settings, Part::MagicProperties).magic_properties.contains_key(n)
        }),
{
    reveal(at_part);
    reveal(scanned_class_like);
    let bare = bare_class_like(h, settings.origin_flags);
    lemma_bare(h, settings.origin_flags);
    lemma_empty(h, settings);
    lemma_headed(bare, h);
    let headed = with_header(bare, h);
    if let Some(document) = docblock(h.declaration) {
        lemma_document(headed, document);
    }
    lemma_body(
        with_docblock(headed, h.declaration),
        h.declaration.members@,
        settings.max_enum_cases as int,
    );
}

proof fn lemma_empty(h: HeaderView, settings: ScanSettings)
    ensures
        ({
            let m = bare_class_like(h, settings.origin_flags);
            &&& forall|n: Seq<u8>| !#[trigger] m.type_aliases.contains_key(n)
            &&& forall|n: Seq<u8>| !#[trigger] m.imported_type_aliases.contains_key(n)
            &&& forall|n: Seq<u8>| !#[trigger] m.template_types.contains_key(n)
            &&& forall|n: Seq<u8>| !#[trigger] m.magic_properties.contains_key(n)
            &&& m.mixins.len() == 0
            &&& m.require_extends.len() == 0
            &&& m.permitted_inheritors is None
            &&& m.pseudo_methods.len() == 0
        }),
{
}

// ---- aliases ----

/// A tag gives a type this alias.
pub open spec fn aliases(name: Seq<u8>) -> spec_fn(Tag) -> bool {
    |t: Tag| t matches Tag::TypeAlias(a) && a.resolved is Ok && a.alias@ == name
}

proof fn lemma_alias_step(m: ClassLikeView, tag: Tag)
    ensures
        with_tag(TagKind::Alias, m, tag).type_aliases == match tag {
            Tag::TypeAlias(a) => match a.resolved {
                Ok(t) => m.type_aliases.insert(a.alias@, t@),
                Err(_) => m.type_aliases,
            },
            _ => m.type_aliases,
        },
{
    reveal(with_tag);
}

proof fn lemma_aliases(m: ClassLikeView, tags: Seq<Tag>, name: Seq<u8>)
    ensures
        with_tags(TagKind::Alias, m, tags).type_aliases.contains_key(name) <==> m.type_aliases.contains_key(name)
            || some_tag(tags, aliases(name)),
    decreases tags.len(),
{
    if tags.len() > 0 {
        lemma_aliases(m, tags.drop_last(), name);
        lemma_alias_step(with_tags(TagKind::Alias, m, tags.drop_last()), tags.last());
        lemma_some_tag(tags, aliases(name));
    }
}

proof fn lemma_last_alias(m: ClassLikeView, tags: Seq<Tag>, i: int, name: Seq<u8>)
    requires
        0 <= i < tags.len(),
        aliases(name)(tags[i]),
        forall|j: int| i < j < tags.len() ==> !aliases(name)(#[trigger] tags[j]),
    ensures
        with_tags(TagKind::Alias, m, tags).type_aliases.contains_key(name),
        with_tags(TagKind::Alias, m, tags).type_aliases[name] == (tags[i]->TypeAlias_0).resolved->Ok_0@,
    decreases tags.len(),
{
    let rest = tags.drop_last();
    lemma_alias_step(with_tags(TagKind::Alias, m, rest), tags.last());
    if i < rest.len() {
        assert(rest[i] == tags[i]);
        assert forall|j: int| i < j < rest.len() implies !aliases(name)(#[trigger] rest[j]) by {
            assert(rest[j] == tags[j]);
        }
        lemma_last_alias(m, rest, i, name);
        assert(!aliases(name)(tags[tags.len() - 1]));
    }
}

/// A class-like has the type aliases that its docblock gives, and no others. Of two aliases of one
/// name the last counts.
pub proof fn aliases_are_given(
    before: CodebaseView,
    h: HeaderView,
    settings: ScanSettings,
    result: Option<RegistrationView>,
    after: CodebaseView,
)
    requires
        is_registered(before, h, settings, result, after),
        result is Some,
    ensures
        ({
            let m = after.class_likes[lowercase(h.name)];
            let tags = tags_of(h.declaration);
            &&& forall|n: Seq<u8>| #[trigger] m.type_aliases.contains_key(n) <==> some_tag(tags, aliases(n))
            &&& forall|i: int, n: Seq<u8>|
                0 <= i < tags.len() && #[trigger] aliases(n)(tags[i]) && (forall|j: int|
                    i < j < tags.len() ==> !aliases(n)(#[trigger] tags[j])) ==> m.type_aliases[n] == (
                tags[i]->TypeAlias_0).resolved->Ok_0@
        }),
{
    lemma_registered(before, h, settings, result, after);
    lemma_parts(h, settings);
    let m = after.class_likes[lowercase(h.name)];
    let tags = tags_of(h.declaration);
    let start = at_part(h, settings, Part::Aliases);
    assert forall|n: Seq<u8>| #[trigger] m.type_aliases.contains_key(n) <==> some_tag(tags, aliases(n)) by {
        lemma_aliases(start, tags, n);
    }
    assert forall|i: int, n: Seq<u8>|
        0 <= i < tags.len() && #[trigger] aliases(n)(tags[i]) && (forall|j: int|
            i < j < tags.len() ==> !aliases(n)(#[trigger] tags[j])) implies m.type_aliases[n] == (
    tags[i]->TypeAlias_0).resolved->Ok_0@ by {
        lemma_last_alias(start, tags, i, n);
    }
}

// ---- imports ----

/// A tag imports an alias under this name into a class-like.
pub open spec fn imports(class_like: Seq<u8>, name: Seq<u8>) -> spec_fn(Tag) -> bool {
    |t: Tag|
        t matches Tag::TypeAliasImport(a) && lowercase(a.source_among_templates@) != class_like && name == match a.local {
            Some(local) => local@,
            None => a.name@,
        }
}

proof fn lemma_import_step(m: ClassLikeView, tag: Tag, name: Seq<u8>)
    ensures
        imports(m.name, name)(tag) ==> {
            let d = with_tag(TagKind::Import, m, tag).imported_type_aliases;
            let t = tag->TypeAliasImport_0;
            &&& d.contains_key(name)
            &&& d[name].source == lowercase(t.source_among_templates@)
            &&& d[name].name == t.name@
            &&& d[name].span == t.span
        },
        !imports(m.name, name)(tag) ==> {
            let d = with_tag(TagKind::Import, m, tag).imported_type_aliases;
            &&& d.contains_key(name) == m.imported_type_aliases.contains_key(name)
            &&& d[name] == m.imported_type_aliases[name]
        },
{
    reveal(with_tag);
}

proof fn lemma_imports(m: ClassLikeView, tags: Seq<Tag>, name: Seq<u8>)
    ensures
        with_tags(TagKind::Import, m, tags).imported_type_aliases.contains_key(name)
            <==> m.imported_type_aliases.contains_key(name) || some_tag(tags, imports(m.name, name)),
    decreases tags.len(),
{
    if tags.len() > 0 {
        lemma_imports(m, tags.drop_last(), name);
        lemma_tags(TagKind::Import, m, tags.drop_last());
        lemma_import_step(with_tags(TagKind::Import, m, tags.drop_last()), tags.last(), name);
        lemma_some_tag(tags, imports(m.name, name));
    }
}

/// The import is what a tag says.
pub open spec fn is_imported(
    import: crate::metadata::ImportedTypeAliasView,
    t: TypeAliasImportTag,
) -> bool {
    &&& import.source == lowercase(t.source_among_templates@)
    &&& import.name == t.name@
    &&& import.span == t.span
}

proof fn lemma_last_import(m: ClassLikeView, tags: Seq<Tag>, i: int, name: Seq<u8>)
    requires
        0 <= i < tags.len(),
        imports(m.name, name)(tags[i]),
        forall|j: int| i < j < tags.len() ==> !imports(m.name, name)(#[trigger] tags[j]),
    ensures
        is_imported(
            with_tags(TagKind::Import, m, tags).imported_type_aliases[name],
            tags[i]->TypeAliasImport_0,
        ),
    decreases tags.len(),
{
    let rest = tags.drop_last();
    lemma_tags(TagKind::Import, m, rest);
    lemma_import_step(with_tags(TagKind::Import, m, rest), tags.last(), name);
    if i < rest.len() {
        assert(rest[i] == tags[i]);
        assert forall|j: int| i < j < rest.len() implies !imports(m.name, name)(#[trigger] rest[j]) by {
            assert(rest[j] == tags[j]);
        }
        lemma_last_import(m, rest, i, name);
        assert(!imports(m.name, name)(tags[tags.len() - 1]));
    }
}

/// A class-like imports the aliases that its docblock names, from other class-likes alone. Of two
/// imports under one name the last counts.
pub proof fn aliases_are_imported(
    before: CodebaseView,
    h: HeaderView,
    settings: ScanSettings,
    result: Option<RegistrationView>,
    after: CodebaseView,
)
    requires
        is_registered(before, h, settings, result, after),
        result is Some,
    ensures
        ({
            let class_like = lowercase(h.name);
            let m = after.class_likes[class_like];
            let tags = tags_of(h.declaration);
            &&& forall|n: Seq<u8>| #[trigger]
                m.imported_type_aliases.contains_key(n) <==> some_tag(tags, imports(class_like, n))
            &&& forall|i: int, n: Seq<u8>|
                0 <= i < tags.len() && #[trigger] imports(class_like, n)(tags[i]) && (forall|j: int|
                    i < j < tags.len() ==> !imports(class_like, n)(#[trigger] tags[j])) ==> is_imported(
                    m.imported_type_aliases[n],
                    tags[i]->TypeAliasImport_0,
                )
        }),
{
    lemma_registered(before, h, settings, result, after);
    lemma_parts(h, settings);
    let class_like = lowercase(h.name);
    let m = after.class_likes[class_like];
    let tags = tags_of(h.declaration);
    let start = at_part(h, settings, Part::Imports);
    assert forall|n: Seq<u8>| #[trigger]
        m.imported_type_aliases.contains_key(n) <==> some_tag(tags, imports(class_like, n)) by {
        lemma_imports(start, tags, n);
    }
    assert forall|i: int, n: Seq<u8>|
        0 <= i < tags.len() && #[trigger] imports(class_like, n)(tags[i]) && (forall|j: int|
            i < j < tags.len() ==> !imports(class_like, n)(#[trigger] tags[j])) implies is_imported(
        m.imported_type_aliases[n],
        tags[i]->TypeAliasImport_0,
    ) by {
        lemma_last_import(start, tags, i, n);
    }
}

// ---- templates ----

/// A tag defines the template parameter of this name, with a bound that can be told.
pub open spec fn defines_template(name: Seq<u8>) -> spec_fn(Tag) -> bool {
    |t: Tag| t matches Tag::Template(a) && !(a.bound matches Some(Err(_))) && a.name@ == name
}

/// A template parameter is what a tag says: bound by any type where the tag names none.
pub open spec fn is_template(known: crate::metadata::GenericTemplateView, class_like: Seq<u8>, tag: Tag) -> bool {
    &&& known.class_like == class_like
    &&& (tag->Template_0).bound matches Some(Ok(t)) ==> known.constraint == t@
    &&& (tag->Template_0).bound is None ==> known.constraint.types == seq![AtomicView::Mixed]
    &&& (tag->Template_0).default matches Some(Ok(t)) ==> known.default == Some(t@)
    &&& !((tag->Template_0).default matches Some(Ok(_))) ==> known.default is None
}

proof fn lemma_template_step(m: ClassLikeView, tag: Tag, name: Seq<u8>)
    ensures
        defines_template(name)(tag) ==> {
            let d = with_tag(TagKind::Template, m, tag).template_types;
            &&& d.contains_key(name)
            &&& is_template(d[name], m.name, tag)
        },
        !defines_template(name)(tag) ==> {
            let d = with_tag(TagKind::Template, m, tag).template_types;
            &&& d.contains_key(name) == m.template_types.contains_key(name)
            &&& d[name] == m.template_types[name]
        },
{
    reveal(with_tag);
}

proof fn lemma_templates(m: ClassLikeView, tags: Seq<Tag>, name: Seq<u8>)
    ensures
        with_tags(TagKind::Template, m, tags).template_types.contains_key(name) <==> m.template_types.contains_key(name)
            || some_tag(tags, defines_template(name)),
    decreases tags.len(),
{
    if tags.len() > 0 {
        lemma_templates(m, tags.drop_last(), name);
        lemma_template_step(with_tags(TagKind::Template, m, tags.drop_last()), tags.last(), name);
        lemma_some_tag(tags, defines_template(name));
    }
}

proof fn lemma_last_template(m: ClassLikeView, tags: Seq<Tag>, i: int, name: Seq<u8>)
    requires
        0 <= i < tags.len(),
        defines_template(name)(tags[i]),
        forall|j: int| i < j < tags.len() ==> !defines_template(name)(#[trigger] tags[j]),
    ensures
        is_template(with_tags(TagKind::Template, m, tags).template_types[name], m.name, tags[i]),
    decreases tags.len(),
{
    let rest = tags.drop_last();
    lemma_tags(TagKind::Template, m, rest);
    lemma_template_step(with_tags(TagKind::Template, m, rest), tags.last(), name);
    if i < rest.len() {
        assert(rest[i] == tags[i]);
        assert forall|j: int| i < j < rest.len() implies !defines_template(name)(#[trigger] rest[j]) by {
            assert(rest[j] == tags[j]);
        }
        lemma_last_template(m, rest, i, name);
        assert(!defines_template(name)(tags[tags.len() - 1]));
    }
}

/// A class-like has the template parameters that its docblock defines, and no others, each with its
/// bound and its default.
pub proof fn templates_are_defined(
    before: CodebaseView,
    h: HeaderView,
    settings: ScanSettings,
    result: Option<RegistrationView>,
    after: CodebaseView,
)
    requires
        is_registered(before, h, settings, result, after),
        result is Some,
    ensures
        ({
            let class_like = lowercase(h.name);
            let m = after.class_likes[class_like];
            let tags = tags_of(h.declaration);
            &&& forall|n: Seq<u8>| #[trigger]
                m.template_types.contains_key(n) <==> some_tag(tags, defines_template(n))
            &&& forall|i: int, n: Seq<u8>|
                0 <= i < tags.len() && #[trigger] defines_template(n)(tags[i]) && (forall|j: int|
                    i < j < tags.len() ==> !defines_template(n)(#[trigger] tags[j])) ==> is_template(
                    m.template_types[n],
                    class_like,
                    tags[i],
                )
        }),
{
    lemma_registered(before, h, settings, result, after);
    lemma_parts(h, settings);
    let class_like = lowercase(h.name);
    let m = after.class_likes[class_like];
    let tags = tags_of(h.declaration);
    let start = at_part(h, settings, Part::Templates);
    assert forall|n: Seq<u8>| #[trigger]
        m.template_types.contains_key(n) <==> some_tag(tags, defines_template(n)) by {
        lemma_templates(start, tags, n);
    }
    assert forall|i: int, n: Seq<u8>|
        0 <= i < tags.len() && #[trigger] defines_template(n)(tags[i]) && (forall|j: int|
            i < j < tags.len() ==> !defines_template(n)(#[trigger] tags[j])) implies is_template(
        m.template_types[n],
        class_like,
        tags[i],
    ) by {
        lemma_last_template(start, tags, i, n);
    }
}

// ---- methods ----

/// A tag declares the method of this name.
pub open spec fn declares_method(name: Seq<u8>) -> spec_fn(Tag) -> bool {
    |t: Tag| t matches Tag::Method(a) && lowercase(a.name@) == name
}

proof fn lemma_methods(m: ClassLikeView, tags: Seq<Tag>, name: Seq<u8>)
    ensures
        with_method_tags(m, tags).pseudo_methods.contains(name) <==> m.pseudo_methods.contains(name) || some_tag(
            tags,
            declares_method(name),
        ),
        some_tag(tags, declares_method(name)) ==> {
            let ids = with_method_tags(m, tags).inheritable_method_ids;
            ids.contains_key(name) && ids[name] == (m.name, name)
        },
    decreases tags.len(),
{
    if tags.len() > 0 {
        let rest = tags.drop_last();
        lemma_methods(m, rest, name);
        lemma_method_tags(m, rest);
        lemma_some_tag(tags, declares_method(name));
        if let Tag::Method(t) = tags.last() {
            lemma_with_item(with_method_tags(m, rest).pseudo_methods, lowercase(t.name@), name);
        }
    }
}

/// A method is what a tag says.
pub open spec fn is_method_of(known: crate::metadata::FunctionLikeView, tag: Tag) -> bool {
    let t = tag->Method_0;
    &&& known.kind == FunctionLikeKind::Method
    &&& known.name == lowercase(t.name@)
    &&& known.original_name == t.name@
    &&& known.span == t.span
    &&& known.flags.is_magic_method
    &&& known.flags.is_static == t.is_static
    &&& known.method_metadata matches Some(method) && method.is_static == t.is_static && !method.is_final
        && !method.is_abstract && !method.is_constructor && method.visibility == (match t.visibility {
        Some(v) => v,
        None => Visibility::Public,
    })
    &&& known.parameters.len() == t.parameters@.len()
    &&& t.return_type matches Some(Ok(r)) ==> known.return_type_metadata == Some(r@)
    &&& !(t.return_type matches Some(Ok(_))) ==> known.return_type_metadata is None
}

proof fn lemma_last_method(c: CodebaseView, class_like: Seq<u8>, tags: Seq<Tag>, i: int, name: Seq<u8>)
    requires
        0 <= i < tags.len(),
        declares_method(name)(tags[i]),
        forall|j: int| i < j < tags.len() ==> !declares_method(name)(#[trigger] tags[j]),
    ensures
        with_tag_methods(c, class_like, tags).function_likes.contains_key((class_like, name)),
        is_method_of(with_tag_methods(c, class_like, tags).function_likes[(class_like, name)], tags[i]),
    decreases tags.len(),
{
    let rest = tags.drop_last();
    if i < rest.len() {
        assert(rest[i] == tags[i]);
        assert forall|j: int| i < j < rest.len() implies !declares_method(name)(#[trigger] rest[j]) by {
            assert(rest[j] == tags[j]);
        }
        lemma_last_method(c, class_like, rest, i, name);
        assert(!declares_method(name)(tags[tags.len() - 1]));
    }
}

proof fn lemma_registered_methods(
    before: CodebaseView,
    h: HeaderView,
    settings: ScanSettings,
    result: Option<RegistrationView>,
    after: CodebaseView,
)
    requires
        is_registered(before, h, settings, result, after),
        result is Some,
    ensures
        after.function_likes == scanned_codebase(before, h, settings).function_likes,
{
}

/// A docblock declares methods, which the class-like and those that inherit from it have; the
/// codebase knows each of them, as public where the tag does not say otherwise.
pub proof fn methods_are_declared(
    before: CodebaseView,
    h: HeaderView,
    settings: ScanSettings,
    result: Option<RegistrationView>,
    after: CodebaseView,
)
    requires
        is_registered(before, h, settings, result, after),
        result is Some,
    ensures
        ({
            let class_like = lowercase(h.name);
            let m = after.class_likes[class_like];
            let tags = tags_of(h.declaration);
            &&& forall|n: Seq<u8>| #[trigger] m.pseudo_methods.contains(n) <==> some_tag(tags, declares_method(n))
            &&& forall|n: Seq<u8>| #[trigger]
                some_tag(tags, declares_method(n)) ==> m.inheritable_method_ids.contains_key(n)
                    && m.inheritable_method_ids[n] == (class_like, n)
            &&& forall|i: int, n: Seq<u8>|
                0 <= i < tags.len() && #[trigger] declares_method(n)(tags[i]) && (forall|j: int|
                    i < j < tags.len() ==> !declares_method(n)(#[trigger] tags[j]))
                    ==> after.function_likes.contains_key((class_like, n)) && is_method_of(
                    after.function_likes[(class_like, n)],
                    tags[i],
                )
        }),
{
    lemma_registered(before, h, settings, result, after);
    lemma_registered_methods(before, h, settings, result, after);
    lemma_parts(h, settings);
    let class_like = lowercase(h.name);
    let m = after.class_likes[class_like];
    let tags = tags_of(h.declaration);
    let start = at_part(h, settings, Part::Methods);
    assert forall|n: Seq<u8>| #[trigger] m.pseudo_methods.contains(n) <==> some_tag(tags, declares_method(n)) by {
        lemma_methods(start, tags, n);
    }
    assert forall|n: Seq<u8>| #[trigger]
        some_tag(tags, declares_method(n)) implies m.inheritable_method_ids.contains_key(n)
        && m.inheritable_method_ids[n] == (class_like, n) by {
        lemma_methods(start, tags, n);
    }
    assert forall|i: int, n: Seq<u8>|
        0 <= i < tags.len() && #[trigger] declares_method(n)(tags[i]) && (forall|j: int|
            i < j < tags.len() ==> !declares_method(n)(#[trigger] tags[j])) implies after.function_likes.contains_key(
        (class_like, n),
    ) && is_method_of(after.function_likes[(class_like, n)], tags[i]) by {
        lemma_codebase_method(before, h, settings, i, n);
    }
}

proof fn lemma_codebase_method(c: CodebaseView, h: HeaderView, settings: ScanSettings, i: int, name: Seq<u8>)
    requires
        0 <= i < tags_of(h.declaration).len(),
        declares_method(name)(tags_of(h.declaration)[i]),
        forall|j: int|
            i < j < tags_of(h.declaration).len() ==> !declares_method(name)(#[trigger] tags_of(h.declaration)[j]),
    ensures
        scanned_codebase(c, h, settings).function_likes.contains_key((lowercase(h.name), name)),
        is_method_of(
            scanned_codebase(c, h, settings).function_likes[(lowercase(h.name), name)],
            tags_of(h.declaration)[i],
        ),
{
    reveal(scanned_codebase);
    let named = c.add_symbol_name(lowercase(h.name), h.kind);
    let with_methods = if h.kind == crate::metadata::SymbolKind::Enum {
        crate::class_like::codebase_with_enum_methods(
            named,
            bare_class_like(h, settings.origin_flags),
            h.declaration.span,
        )
    } else {
        named
    };
    lemma_last_method(with_methods, lowercase(h.name), tags_of(h.declaration), i, name);
}

// ---- properties ----

/// A tag says something of the property of this name.
pub open spec fn tells_of_property(name: Seq<u8>) -> spec_fn(Tag) -> bool {
    |t: Tag|
        match t {
            Tag::Property(p) => p.variable@ == name,
            Tag::PropertyRead(p) => p.variable@ == name,
            Tag::PropertyWrite(p) => p.variable@ == name,
            _ => false,
        }
}

proof fn lemma_property_step(m: ClassLikeView, tag: Tag, name: Seq<u8>)
    ensures
        !tells_of_property(name)(tag) ==> {
            let d = with_tag(TagKind::Property, m, tag).magic_properties;
            &&& d.contains_key(name) == m.magic_properties.contains_key(name)
            &&& d[name] == m.magic_properties[name]
        },
        tells_of_property(name)(tag) ==> with_tag(TagKind::Property, m, tag).magic_properties.contains_key(name),
        tells_of_property(name)(tag) && !m.magic_properties.contains_key(name) ==> is_magic_property(
            with_tag(TagKind::Property, m, tag).magic_properties[name],
            tag,
        ),
{
    reveal(with_tag);
}

/// A property is what the only tag that tells of it says: one that can be read and written, or only
/// one of these.
pub open spec fn is_magic_property(known: crate::metadata::PropertyView, tag: Tag) -> bool {
    let resolved = match tag {
        Tag::Property(p) => p.resolved,
        Tag::PropertyRead(p) => p.resolved,
        Tag::PropertyWrite(p) => p.resolved,
        _ => None,
    };
    &&& known.flags.is_readonly == (tag is PropertyRead)
    &&& known.flags.is_writeonly == (tag is PropertyWrite)
    &&& resolved matches Some(Ok(t)) ==> known.type_metadata == Some(t@)
    &&& !(resolved matches Some(Ok(_))) ==> known.type_metadata is None
}

proof fn lemma_property_tags(m: ClassLikeView, tags: Seq<Tag>, name: Seq<u8>)
    ensures
        with_tags(TagKind::Property, m, tags).magic_properties.contains_key(name)
            <==> m.magic_properties.contains_key(name) || some_tag(tags, tells_of_property(name)),
    decreases tags.len(),
{
    if tags.len() > 0 {
        lemma_property_tags(m, tags.drop_last(), name);
        lemma_property_step(with_tags(TagKind::Property, m, tags.drop_last()), tags.last(), name);
        lemma_some_tag(tags, tells_of_property(name));
    }
}

proof fn lemma_only_property(m: ClassLikeView, tags: Seq<Tag>, i: int, name: Seq<u8>)
    requires
        0 <= i < tags.len(),
        !m.magic_properties.contains_key(name),
        tells_of_property(name)(tags[i]),
        forall|j: int| 0 <= j < tags.len() && j != i ==> !tells_of_property(name)(#[trigger] tags[j]),
    ensures
        is_magic_property(with_tags(TagKind::Property, m, tags).magic_properties[name], tags[i]),
    decreases tags.len(),
{
    let rest = tags.drop_last();
    lemma_property_step(with_tags(TagKind::Property, m, rest), tags.last(), name);
    if i < rest.len() {
        assert(rest[i] == tags[i]);
        assert forall|j: int| 0 <= j < rest.len() && j != i implies !tells_of_property(name)(#[trigger] rest[j]) by {
            assert(rest[j] == tags[j]);
        }
        lemma_only_property(m, rest, i, name);
        assert(!tells_of_property(name)(tags[tags.len() - 1]));
    } else {
        lemma_property_tags(m, rest, name);
        let says = tells_of_property(name);
        assert(!some_tag(rest, says)) by {
            if some_tag(rest, says) {
                let j = choose|j: int| 0 <= j < rest.len() && says(#[trigger] rest[j]);
                assert(says(tags[j]));
            }
        }
    }
}

/// A docblock tells of properties that the class-like has without declaring them. One that a single
/// tag tells of is as this tag says.
pub proof fn magic_properties_are_told(
    before: CodebaseView,
    h: HeaderView,
    settings: ScanSettings,
    result: Option<RegistrationView>,
    after: CodebaseView,
)
    requires
        is_registered(before, h, settings, result, after),
        result is Some,
    ensures
        ({
            let m = after.class_likes[lowercase(h.name)];
            let tags = tags_of(h.declaration);
            &&& forall|n: Seq<u8>| #[trigger]
                m.magic_properties.contains_key(n) <==> some_tag(tags, tells_of_property(n))
            &&& forall|i: int, n: Seq<u8>|
                0 <= i < tags.len() && #[trigger] tells_of_property(n)(tags[i]) && (forall|j: int|
                    0 <= j < tags.len() && j != i ==> !tells_of_property(n)(#[trigger] tags[j])) ==> is_magic_property(
                    m.magic_properties[n],
                    tags[i],
                )
        }),
{
    lemma_registered(before, h, settings, result, after);
    lemma_parts(h, settings);
    let m = after.class_likes[lowercase(h.name)];
    let tags = tags_of(h.declaration);
    let start = at_part(h, settings, Part::MagicProperties);
    assert forall|n: Seq<u8>| #[trigger]
        m.magic_properties.contains_key(n) <==> some_tag(tags, tells_of_property(n)) by {
        lemma_property_tags(start, tags, n);
    }
    assert forall|i: int, n: Seq<u8>|
        0 <= i < tags.len() && #[trigger] tells_of_property(n)(tags[i]) && (forall|j: int|
            0 <= j < tags.len() && j != i ==> !tells_of_property(n)(#[trigger] tags[j])) implies is_magic_property(
        m.magic_properties[n],
        tags[i],
    ) by {
        lemma_only_property(start, tags, i, n);
    }
}

// ---- mixins, required parents and inheritors ----

/// A tag mixes this type in.
pub open spec fn mixes_in(mixin: crate::metadata::TypeView) -> spec_fn(Tag) -> bool {
    |t: Tag| t matches Tag::Mixin(a) && (a.resolved matches Ok(r) && r@ == mixin)
}

/// The name of a class-like that a type is, where it is one alone.
pub open spec fn is_plain_name(t: AtomicView, name: Seq<u8>) -> bool {
    t matches AtomicView::Reference(ReferenceView::Symbol(s)) && s.intersection_types is None && lowercase(s.name) == name
}

/// A tag requires this parent.
pub open spec fn requires_parent(name: Seq<u8>) -> spec_fn(Tag) -> bool {
    |t: Tag|
        t matches Tag::RequireExtends(a) && (a.resolved matches Ok(u) && u@.types.len() == 1 && is_plain_name(
            u@.types[0],
            name,
        ))
}

proof fn lemma_mixin_step(m: ClassLikeView, tag: Tag)
    ensures
        with_tag(TagKind::Mixin, m, tag).mixins == match tag {
            Tag::Mixin(a) => match a.resolved {
                Ok(t) => m.mixins.push(t@),
                Err(_) => m.mixins,
            },
            _ => m.mixins,
        },
{
    reveal(with_tag);
}

proof fn lemma_mixins(m: ClassLikeView, tags: Seq<Tag>, mixin: crate::metadata::TypeView)
    ensures
        with_tags(TagKind::Mixin, m, tags).mixins.contains(mixin) <==> m.mixins.contains(mixin) || some_tag(
            tags,
            mixes_in(mixin),
        ),
    decreases tags.len(),
{
    if tags.len() > 0 {
        let before = with_tags(TagKind::Mixin, m, tags.drop_last());
        lemma_mixins(m, tags.drop_last(), mixin);
        lemma_mixin_step(before, tags.last());
        lemma_some_tag(tags, mixes_in(mixin));
        if let Tag::Mixin(a) = tags.last() {
            if let Ok(t) = a.resolved {
                let after = before.mixins.push(t@);
                assert(after[before.mixins.len() as int] == t@);
                if before.mixins.contains(mixin) {
                    let k = choose|k: int| 0 <= k < before.mixins.len() && before.mixins[k] == mixin;
                    assert(after[k] == mixin);
                }
            }
        }
    }
}

proof fn lemma_required_step(m: ClassLikeView, tag: Tag, name: Seq<u8>)
    ensures
        with_tag(TagKind::RequireExtends, m, tag).require_extends.contains(name) <==> m.require_extends.contains(name)
            || requires_parent(name)(tag),
{
    if let Tag::RequireExtends(a) = tag {
        if let Ok(u) = a.resolved {
            if let AtomicView::Reference(ReferenceView::Symbol(s)) = u@.types[0] {
                lemma_with_item(m.require_extends, lowercase(s.name), name);
            }
        }
    }
    reveal(with_tag);
}

proof fn lemma_required(m: ClassLikeView, tags: Seq<Tag>, name: Seq<u8>)
    ensures
        with_tags(TagKind::RequireExtends, m, tags).require_extends.contains(name) <==> m.require_extends.contains(name)
            || some_tag(tags, requires_parent(name)),
    decreases tags.len(),
{
    if tags.len() > 0 {
        lemma_required(m, tags.drop_last(), name);
        lemma_required_step(with_tags(TagKind::RequireExtends, m, tags.drop_last()), tags.last(), name);
        lemma_some_tag(tags, requires_parent(name));
    }
}

/// A class-like mixes in the types that its docblock says, and requires the parents that its docblock
/// requires, and no others.
pub proof fn mixins_and_parents_are_named(
    before: CodebaseView,
    h: HeaderView,
    settings: ScanSettings,
    result: Option<RegistrationView>,
    after: CodebaseView,
)
    requires
        is_registered(before, h, settings, result, after),
        result is Some,
    ensures
        ({
            let m = after.class_likes[lowercase(h.name)];
            let tags = tags_of(h.declaration);
            &&& forall|t: crate::metadata::TypeView| #[trigger] m.mixins.contains(t) <==> some_tag(tags, mixes_in(t))
            &&& forall|n: Seq<u8>| #[trigger] m.require_extends.contains(n) <==> some_tag(tags, requires_parent(n))
        }),
{
    lemma_registered(before, h, settings, result, after);
    lemma_parts(h, settings);
    let m = after.class_likes[lowercase(h.name)];
    let tags = tags_of(h.declaration);
    assert forall|t: crate::metadata::TypeView| #[trigger] m.mixins.contains(t) <==> some_tag(tags, mixes_in(t)) by {
        lemma_mixins(at_part(h, settings, Part::Mixins), tags, t);
    }
    assert forall|n: Seq<u8>| #[trigger] m.require_extends.contains(n) <==> some_tag(tags, requires_parent(n)) by {
        lemma_required(at_part(h, settings, Part::Required), tags, n);
    }
}

/// The class-like of this name may inherit.
pub open spec fn is_permitted(m: ClassLikeView, name: Seq<u8>) -> bool {
    m.permitted_inheritors matches Some(names) && names.contains(name)
}

/// One of the types is the class-like of this name.
pub open spec fn some_name(types: Seq<AtomicView>, name: Seq<u8>) -> bool {
    exists|k: int| 0 <= k < types.len() && is_plain_name(#[trigger] types[k], name)
}

proof fn lemma_permitted(m: ClassLikeView, span: Span, types: Seq<AtomicView>, name: Seq<u8>)
    ensures
        is_permitted(with_inheritors(m, span, types), name) <==> is_permitted(m, name) || some_name(types, name),
    decreases types.len(),
{
    if types.len() > 0 {
        let rest = types.drop_last();
        let before = with_inheritors(m, span, rest);
        lemma_permitted(m, span, rest, name);
        if let AtomicView::Reference(ReferenceView::Symbol(s)) = types.last() {
            if let Some(known) = before.permitted_inheritors {
                lemma_with_item(known, lowercase(s.name), name);
            } else {
                assert(seq![lowercase(s.name)][0] == lowercase(s.name));
            }
        }
        if some_name(types, name) {
            let k = choose|k: int| 0 <= k < types.len() && is_plain_name(#[trigger] types[k], name);
            if k < rest.len() {
                assert(is_plain_name(rest[k], name));
            }
        }
        if some_name(rest, name) {
            let k = choose|k: int| 0 <= k < rest.len() && is_plain_name(#[trigger] rest[k], name);
            assert(is_plain_name(types[k], name));
        }
        assert(types[types.len() - 1] == types.last());
    }
}

proof fn lemma_last_inheritors(tags: Seq<Tag>, i: int)
    requires
        0 <= i < tags.len(),
        tags[i] is Inheritors,
        forall|j: int| i < j < tags.len() ==> !(#[trigger] tags[j] is Inheritors),
    ensures
        last_inheritors(tags) == Some(tags[i]->Inheritors_0),
    decreases tags.len(),
{
    let rest = tags.drop_last();
    if i < rest.len() {
        assert(rest[i] == tags[i]);
        assert forall|j: int| i < j < rest.len() implies !(#[trigger] rest[j] is Inheritors) by {
            assert(rest[j] == tags[j]);
        }
        lemma_last_inheritors(rest, i);
        assert(!(tags[tags.len() - 1] is Inheritors));
    }
}

/// Those that the last tag names, and no others, may inherit from a class-like.
pub proof fn inheritors_are_named(
    before: CodebaseView,
    h: HeaderView,
    settings: ScanSettings,
    result: Option<RegistrationView>,
    after: CodebaseView,
    i: int,
    name: Seq<u8>,
)
    requires
        is_registered(before, h, settings, result, after),
        result is Some,
        0 <= i < tags_of(h.declaration).len(),
        tags_of(h.declaration)[i] is Inheritors,
        (tags_of(h.declaration)[i]->Inheritors_0).resolved is Ok,
        forall|j: int| i < j < tags_of(h.declaration).len() ==> !(#[trigger] tags_of(h.declaration)[j] is Inheritors),
    ensures
        is_permitted(after.class_likes[lowercase(h.name)], name) <==> some_name(
            (tags_of(h.declaration)[i]->Inheritors_0).resolved->Ok_0@.types,
            name,
        ),
{
    lemma_registered(before, h, settings, result, after);
    lemma_parts(h, settings);
    let tags = tags_of(h.declaration);
    let t = tags[i]->Inheritors_0;
    lemma_last_inheritors(tags, i);
    lemma_permitted(at_part(h, settings, Part::Inheritors), t.type_span, t.resolved->Ok_0@.types, name);
}

} // verus!
