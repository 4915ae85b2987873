//! What declarations of class-likes say.

use mago::class_docblock::template_scope_names;
use mago::class_docblock::type_resolution_context;
use mago::class_like::register_anonymous_class;
use mago::class_like::register_class;
use mago::class_like::register_enum;
use mago::class_like::register_interface;
use mago::class_like::register_trait;
use mago::class_like::AnonymousClass;
use mago::class_like::BackingType;
use mago::class_like::Class;
use mago::class_like::Declaration;
use mago::class_like::Enum;
use mago::class_like::Interface;
use mago::class_like::ScanSettings;
use mago::class_like::Trait;
use mago::class_members::AliasAdaptation;
use mago::class_members::ClassLikeMember;
use mago::class_members::ConstantMember;
use mago::class_members::Modifier;
use mago::class_members::PropertyMember;
use mago::class_members::TraitUse;
use mago::class_members::TraitUseAdaptation;
use mago::codebase::CodebaseMetadata;
use mago::collections::SymbolMap;
use mago::collections::WordMap;
use mago::collections::WordSet;
use mago::docblock::Document;
use mago::docblock::MethodTag;
use mago::docblock::ParseError;
use mago::docblock::PropertyTag;
use mago::docblock::Tag;
use mago::docblock::TemplateTag;
use mago::docblock::TypeAliasImportTag;
use mago::docblock::TypeAliasTag;
use mago::docblock::TypeTag;
use mago::docblock::TypingError;
use mago::issue::IssueCode;
use mago::issue::Span;
use mago::metadata::AttributeMetadata;
use mago::metadata::ClassLikeConstantMetadata;
use mago::metadata::ClassLikeMetadata;
use mago::metadata::EnumCaseMetadata;
use mago::metadata::MetadataFlags;
use mago::metadata::PropertyMetadata;
use mago::metadata::SymbolKind;
use mago::metadata::TypeMetadata;
use mago::metadata::Variance;
use mago::metadata::VersionConstraint;
use mago::metadata::Visibility;
use mago::ttype::TAtomic;
use mago::ttype::TReference;
use mago::ttype::TSymbolReference;
use mago::ttype::TUnion;
use mago::type_build::get_int;
use mago::type_build::get_mixed;
use mago::type_build::get_string;
use mago::word::Word;

fn w(s: &str) -> Word {
    s.as_bytes().to_vec()
}

fn span(start: u32) -> Span {
    Span { file: 1, start, end: start + 1 }
}

fn codebase() -> CodebaseMetadata {
    CodebaseMetadata {
        class_likes: WordMap::new(),
        function_likes: SymbolMap::new(),
        constants: WordMap::new(),
        symbols: WordMap::new(),
        all_class_like_descendants: WordMap::new(),
        direct_classlike_descendants: WordMap::new(),
        safe_symbols: WordSet::new(),
        safe_symbol_members: Default::default(),
    }
}

fn settings() -> ScanSettings {
    let mut origin_flags = MetadataFlags::empty();
    origin_flags.is_user_defined = true;
    ScanSettings { origin_flags, max_enum_cases: 100 }
}

fn declaration(tags: Vec<Tag>, members: Vec<ClassLikeMember>) -> Declaration {
    Declaration {
        span: span(0),
        attributes: Vec::new(),
        version_constraint: VersionConstraint { since: None, until: None },
        docblock_inside: None,
        docblock_before: Some(Document { errors: Vec::new(), tags }),
        members,
    }
}

fn class(name: &str, declaration: Declaration) -> Class {
    Class {
        name: w(name),
        name_span: span(6),
        modifiers: Vec::new(),
        attribute_flags: None,
        extends: Vec::new(),
        implements: Vec::new(),
        declaration,
    }
}

fn reference(name: &str, parameters: Option<Vec<TUnion>>) -> TUnion {
    TUnion {
        types: vec![TAtomic::Reference(TReference::Symbol(TSymbolReference {
            name: w(name),
            parameters,
            intersection_types: None,
        }))],
    }
}

fn type_tag(resolved: TUnion) -> TypeTag {
    TypeTag { span: span(40), type_span: span(45), resolved: Ok(resolved), shown: w("shown") }
}

fn failing_tag() -> TypeTag {
    TypeTag { span: span(40), type_span: span(45), resolved: Err(typing_error()), shown: w("shown") }
}

fn typing_error() -> TypingError {
    TypingError { span: span(45), message: w("unknown type"), note: w("note"), help: w("help") }
}

fn property_tag(name: &str, t: TUnion) -> PropertyTag {
    PropertyTag { variable: w(name), resolved: Some(Ok(TypeMetadata::new(t, span(50)))) }
}

/// The class of the name after its declaration was registered.
fn registered(declared: Class) -> ClassLikeMetadata {
    let mut base = codebase();
    let name = declared.name.to_ascii_lowercase();
    assert!(register_class(&mut base, &declared, settings()).is_some());
    let mut classes = base.class_likes;
    let mut taken = ClassLikeMetadata::new(Vec::new(), Vec::new(), span(0), None, MetadataFlags::empty());
    std::mem::swap(classes.get_mut(&name).unwrap(), &mut taken);
    taken
}

fn codes(meta: &ClassLikeMetadata) -> Vec<Option<IssueCode>> {
    meta.issues.iter().map(|issue| issue.code).collect()
}

#[test]
fn class_header_is_read() {
    let mut declared = class("App\\User", declaration(Vec::new(), Vec::new()));
    declared.modifiers = vec![Modifier::Final, Modifier::Readonly];
    declared.extends = vec![w("App\\Person"), w("App\\Ignored")];
    declared.implements = vec![w("App\\Named"), w("App\\Aged")];
    declared.attribute_flags = Some(3);
    let meta = registered(declared);
    assert_eq!(meta.name, w("app\\user"));
    assert_eq!(meta.original_name, w("App\\User"));
    assert_eq!(meta.kind, SymbolKind::Class);
    assert!(meta.flags.is_final && meta.flags.is_readonly && !meta.flags.is_abstract && meta.flags.is_user_defined);
    assert_eq!(meta.direct_parent_class, Some(w("app\\person")));
    assert_eq!(meta.direct_parent_interfaces.len(), 2);
    assert!(meta.direct_parent_interfaces.contains(&w("app\\aged")));
    assert_eq!(meta.attribute_flags, Some(3));
    assert!(meta.issues.is_empty());
}

#[test]
fn first_declaration_of_a_name_counts() {
    let mut base = codebase();
    let first = register_class(&mut base, &class("User", declaration(Vec::new(), Vec::new())), settings());
    assert_eq!(first.unwrap().name, w("user"));
    let declared = Trait { name: w("USER"), name_span: span(6), declaration: declaration(Vec::new(), Vec::new()) };
    assert!(register_trait(&mut base, &declared, settings()).is_none());
    let elsewhere = ScanSettings { origin_flags: MetadataFlags::empty(), max_enum_cases: 1 };
    assert!(register_trait(&mut base, &declared, elsewhere).is_none());
    assert_eq!(base.class_likes.len(), 1);
    assert_eq!(base.class_likes.get(&w("user")).unwrap().kind, SymbolKind::Class);
    assert!(base.class_likes.get(&w("user")).unwrap().flags.is_user_defined);
}

#[test]
fn anonymous_classes_interfaces_and_traits_are_registered() {
    let mut base = codebase();
    let anonymous = AnonymousClass {
        name: w("class@anonymous:1"),
        modifiers: vec![Modifier::Readonly],
        attribute_flags: None,
        extends: vec![w("Person")],
        implements: Vec::new(),
        declaration: declaration(Vec::new(), Vec::new()),
    };
    assert!(register_anonymous_class(&mut base, &anonymous, settings()).is_some());
    let meta = base.class_likes.get(&w("class@anonymous:1")).unwrap();
    assert_eq!(meta.name_span, None);
    assert!(meta.flags.is_readonly);
    let interface = Interface {
        name: w("Named"),
        name_span: span(6),
        extends: vec![w("Base")],
        declaration: declaration(Vec::new(), Vec::new()),
    };
    assert!(register_interface(&mut base, &interface, settings()).is_some());
    let meta = base.class_likes.get(&w("named")).unwrap();
    assert_eq!(meta.kind, SymbolKind::Interface);
    assert!(meta.flags.is_abstract);
    assert!(meta.direct_parent_interfaces.contains(&w("base")));
    let declared = Trait { name: w("Aged"), name_span: span(6), declaration: declaration(Vec::new(), Vec::new()) };
    assert!(register_trait(&mut base, &declared, settings()).is_some());
    assert_eq!(base.class_likes.get(&w("aged")).unwrap().kind, SymbolKind::Trait);
    assert_eq!(base.symbols.get(&w("aged")), Some(&SymbolKind::Trait));
}

fn case(name: &str) -> ClassLikeMember {
    ClassLikeMember::EnumCase(EnumCaseMetadata { name: w(name), span: span(70), value_type: None })
}

#[test]
fn enums_have_methods_and_properties() {
    let mut base = codebase();
    let declared = Enum {
        name: w("Suit"),
        name_span: span(5),
        implements: vec![w("HasLabel")],
        backing_type: Some(BackingType::String),
        declaration: declaration(Vec::new(), vec![case("Hearts"), case("Spades")]),
    };
    assert!(register_enum(&mut base, &declared, settings()).is_some());
    for method in ["cases", "from", "tryfrom"] {
        assert!(base.function_likes.contains_key(&(w("suit"), w(method))));
    }
    let meta = base.class_likes.get(&w("suit")).unwrap();
    assert!(meta.flags.is_final);
    assert!(meta.direct_parent_interfaces.contains(&w("__internal_do_not_use__stringbackedenum")));
    assert_eq!(meta.enum_cases.len(), 2);
    assert!(meta.properties.contains_key(&w("$name")));
    assert!(meta.properties.contains_key(&w("$value")));
    let name_type = meta.properties.get(&w("$name")).unwrap().type_metadata.as_ref().unwrap();
    assert_eq!(name_type.type_union.types.len(), 2);
}

#[test]
fn pure_enums_have_no_values() {
    let mut base = codebase();
    let declared = Enum {
        name: w("Suit"),
        name_span: span(5),
        implements: Vec::new(),
        backing_type: None,
        declaration: declaration(Vec::new(), vec![case("Hearts")]),
    };
    assert!(register_enum(&mut base, &declared, settings()).is_some());
    assert!(base.function_likes.contains_key(&(w("suit"), w("cases"))));
    assert!(!base.function_likes.contains_key(&(w("suit"), w("from"))));
    let meta = base.class_likes.get(&w("suit")).unwrap();
    assert!(meta.direct_parent_interfaces.contains(&w("unitenum")));
    assert!(!meta.properties.contains_key(&w("$value")));
}

#[test]
fn large_enums_are_not_looked_at_case_by_case() {
    let mut base = codebase();
    let declared = Enum {
        name: w("Suit"),
        name_span: span(5),
        implements: Vec::new(),
        backing_type: None,
        declaration: declaration(Vec::new(), vec![case("Hearts"), case("Spades")]),
    };
    let few = ScanSettings { max_enum_cases: 1, ..settings() };
    assert!(register_enum(&mut base, &declared, few).is_some());
    let meta = base.class_likes.get(&w("suit")).unwrap();
    let name_type = meta.properties.get(&w("$name")).unwrap().type_metadata.as_ref().unwrap();
    assert_eq!(name_type.type_union.types.len(), 1);
}

#[test]
fn first_constant_of_a_name_counts_and_beats_a_case() {
    let constant = |start: u32| ClassLikeConstantMetadata { name: w("A"), span: span(start), inferred_type: None };
    let members = vec![
        ClassLikeMember::Constant(ConstantMember { constants: vec![constant(60), constant(61)], issues: Vec::new() }),
        case("A"),
    ];
    let meta = registered(class("User", declaration(Vec::new(), members)));
    assert_eq!(meta.constants.len(), 1);
    assert_eq!(meta.constants.get(&w("A")).unwrap().span, span(60));
    assert!(meta.enum_cases.is_empty());
}

#[test]
fn properties_and_traits_of_the_body_are_read() {
    let members = vec![
        ClassLikeMember::TraitUse(TraitUse {
            names: vec![w("Named")],
            adaptations: vec![
                TraitUseAdaptation::Precedence,
                TraitUseAdaptation::Alias(AliasAdaptation {
                    method: w("getName"),
                    alias: Some(w("getLabel")),
                    modifier: Some(Modifier::Private),
                }),
                TraitUseAdaptation::Alias(AliasAdaptation {
                    method: w("getAge"),
                    alias: None,
                    modifier: Some(Modifier::Final),
                }),
            ],
            document: None,
        }),
        ClassLikeMember::Property(PropertyMember {
            properties: vec![PropertyMetadata::new(w("$id"), MetadataFlags::empty())],
            issues: Vec::new(),
        }),
    ];
    let meta = registered(class("User", declaration(Vec::new(), members)));
    assert!(meta.used_traits.contains(&w("named")));
    assert_eq!(meta.trait_alias_map.get(&w("getname")), Some(&w("getlabel")));
    assert_eq!(meta.trait_visibility_map.get(&w("getlabel")), Some(&Visibility::Private));
    assert!(meta.trait_final_map.contains(&w("getage")));
    assert!(meta.properties.contains_key(&w("$id")));
}

#[test]
fn use_tags_belong_to_used_traits() {
    let use_of = |tags: Vec<Tag>| {
        let member = ClassLikeMember::TraitUse(TraitUse {
            names: vec![w("Named")],
            adaptations: Vec::new(),
            document: Some(Document { errors: Vec::new(), tags }),
        });
        registered(class("User", declaration(Vec::new(), vec![member])))
    };
    let good = use_of(vec![Tag::Use(type_tag(reference("Named", Some(vec![get_int()]))))]);
    assert!(good.issues.is_empty());
    assert_eq!(good.template_type_uses_count.get(&w("named")), Some(&1));
    let other = use_of(vec![Tag::Use(type_tag(reference("Aged", Some(vec![get_int()]))))]);
    assert_eq!(other.issues[0].message, w("The `@use` tag must refer to a trait that is used."));
    let bare = use_of(vec![Tag::Use(type_tag(reference("Named", None)))]);
    assert_eq!(bare.issues[0].message, w("The `@use` tag must specify type parameters."));
    let wrong = use_of(vec![Tag::Extends(type_tag(reference("Named", None)))]);
    assert_eq!(wrong.issues[0].message, w("The `@extends` tag is not allowed in trait use."));
    let wrong = use_of(vec![Tag::Implements(type_tag(reference("Named", None)))]);
    assert_eq!(wrong.issues[0].message, w("The `@implements` tag is not allowed in trait use."));
    let failing = use_of(vec![Tag::Use(failing_tag())]);
    assert_eq!(codes(&failing), vec![Some(IssueCode::InvalidUseTag)]);
    let scalar = use_of(vec![Tag::Use(type_tag(get_int()))]);
    assert_eq!(scalar.issues[0].message, w("The `@use` tag expects a single trait type."));
}

#[test]
fn read_and_write_tags_combine_in_either_order() {
    let read = || Tag::PropertyRead(property_tag("$id", get_int()));
    let write = || Tag::PropertyWrite(property_tag("$id", get_string()));
    for tags in [vec![read(), write()], vec![write(), read()]] {
        let meta = registered(class("User", declaration(tags, Vec::new())));
        let property = meta.magic_properties.get(&w("$id")).unwrap();
        assert!(!property.flags.is_readonly && !property.flags.is_writeonly);
        assert!(property.type_metadata.as_ref().unwrap().type_union.same(&get_int()));
        assert!(property.write_type_metadata.as_ref().unwrap().type_union.same(&get_string()));
        assert_eq!(meta.magic_property_ids.get(&w("$id")), Some(&w("user")));
    }
}

#[test]
fn one_property_tag_says_how_a_property_is_used() {
    let tags = vec![
        Tag::PropertyRead(property_tag("$read", get_int())),
        Tag::PropertyWrite(property_tag("$written", get_int())),
        Tag::Property(property_tag("$both", get_int())),
        Tag::Property(PropertyTag { variable: w("$broken"), resolved: Some(Err(typing_error())) }),
    ];
    let meta = registered(class("User", declaration(tags, Vec::new())));
    assert!(meta.magic_properties.get(&w("$read")).unwrap().flags.is_readonly);
    assert!(meta.magic_properties.get(&w("$written")).unwrap().flags.is_writeonly);
    let both = meta.magic_properties.get(&w("$both")).unwrap();
    assert!(!both.flags.is_readonly && !both.flags.is_writeonly);
    assert!(meta.magic_properties.get(&w("$broken")).unwrap().type_metadata.is_none());
    assert_eq!(codes(&meta), vec![Some(IssueCode::InvalidPropertyTag)]);
}

#[test]
fn last_inheritors_tag_counts() {
    let tags = vec![
        Tag::Inheritors(type_tag(reference("Admin", None))),
        Tag::Inheritors(type_tag(reference("Guest", None))),
    ];
    let meta = registered(class("User", declaration(tags, Vec::new())));
    let permitted = meta.permitted_inheritors.as_ref().unwrap();
    assert_eq!(permitted.len(), 1);
    assert!(permitted.contains(&w("guest")));
    let wrong = registered(class("User", declaration(vec![Tag::Inheritors(type_tag(get_int()))], Vec::new())));
    assert_eq!(codes(&wrong), vec![Some(IssueCode::InvalidInheritorsTag)]);
}

#[test]
fn method_tags_declare_methods() {
    let mut base = codebase();
    let tags = vec![Tag::Method(MethodTag {
        span: span(40),
        name: w("getName"),
        is_static: true,
        visibility: None,
        parameters: Vec::new(),
        return_type: Some(Ok(TypeMetadata::new(get_string(), span(41)))),
    })];
    assert!(register_class(&mut base, &class("User", declaration(tags, Vec::new())), settings()).is_some());
    let method = base.function_likes.get(&(w("user"), w("getname"))).unwrap();
    assert!(method.method_metadata.as_ref().unwrap().is_static);
    let meta = base.class_likes.get(&w("user")).unwrap();
    assert!(meta.pseudo_methods.contains(&w("getname")));
}

#[test]
fn flags_and_seals_of_docblocks_are_taken_over() {
    let mut deprecated = MetadataFlags::empty();
    deprecated.is_deprecated = true;
    let tags = vec![
        Tag::Common(deprecated),
        Tag::Final,
        Tag::ConsistentConstructor,
        Tag::SealProperties,
        Tag::NoSealMethods,
    ];
    let meta = registered(class("User", declaration(tags, Vec::new())));
    assert!(meta.flags.is_deprecated && meta.flags.is_final && meta.flags.is_consistent_constructor);
    assert_eq!(meta.has_sealed_properties, Some(true));
    assert_eq!(meta.has_sealed_methods, Some(false));
}

#[test]
fn deprecated_attribute_counts_in_any_case() {
    let mut declared = class("User", declaration(Vec::new(), Vec::new()));
    declared.declaration.attributes = vec![AttributeMetadata { name: w("DEPRECATED"), span: span(1) }];
    assert!(registered(declared).flags.is_deprecated);
}

#[test]
fn docblock_inside_comes_before_the_one_outside() {
    let mut declared = class("User", declaration(vec![Tag::Final], Vec::new()));
    declared.declaration.docblock_inside = Some(Document { errors: Vec::new(), tags: vec![Tag::ConsistentTemplates] });
    let meta = registered(declared);
    assert!(meta.flags.is_consistent_templates);
    assert!(!meta.flags.is_final);
}

#[test]
fn broken_docblocks_are_reported() {
    let mut declared = class("User", declaration(Vec::new(), Vec::new()));
    let error = ParseError { span: span(3), message: w("odd"), note: w("note"), help: w("help") };
    declared.declaration.docblock_before = Some(Document { errors: vec![error], tags: Vec::new() });
    let meta = registered(declared);
    assert_eq!(codes(&meta), vec![Some(IssueCode::MalformedDocblockComment)]);
    assert_eq!(meta.issues[0].message, w("Failed to parse class-like docblock comment."));
}

#[test]
fn extends_tag_must_name_the_parent() {
    let mut declared = class(
        "User",
        declaration(vec![Tag::Extends(type_tag(reference("Person", Some(vec![get_int()]))))], Vec::new()),
    );
    declared.extends = vec![w("Person")];
    let meta = registered(declared);
    assert!(meta.issues.is_empty());
    assert_eq!(meta.template_type_extends_count.get(&w("person")), Some(&1));
    let mut declared = class(
        "User",
        declaration(vec![Tag::Extends(type_tag(reference("Other", Some(vec![get_int()]))))], Vec::new()),
    );
    declared.extends = vec![w("Person")];
    assert_eq!(codes(&registered(declared)), vec![Some(IssueCode::InvalidExtendsTag)]);
}

#[test]
fn implements_tag_must_name_an_interface() {
    let tag = || vec![Tag::Implements(type_tag(reference("Named", Some(vec![get_int()]))))];
    let mut declared = class("User", declaration(tag(), Vec::new()));
    declared.implements = vec![w("Named")];
    let meta = registered(declared);
    assert!(meta.issues.is_empty());
    assert_eq!(meta.template_type_implements_count.get(&w("named")), Some(&1));
    let declared = class("User", declaration(tag(), Vec::new()));
    assert_eq!(codes(&registered(declared)), vec![Some(IssueCode::InvalidImplementsTag)]);
}

#[test]
fn each_tag_that_stands_for_no_type_is_reported() {
    let alias = || TypeAliasTag { alias: w("Id"), resolved: Err(typing_error()) };
    let tags: Vec<(Tag, IssueCode)> = vec![
        (Tag::RequireExtends(failing_tag()), IssueCode::InvalidRequireExtendsTag),
        (Tag::RequireImplements(failing_tag()), IssueCode::InvalidRequireImplementsTag),
        (Tag::Inheritors(failing_tag()), IssueCode::InvalidInheritorsTag),
        (Tag::Mixin(alias()), IssueCode::InvalidMixinTag),
        (Tag::TypeAlias(alias()), IssueCode::InvalidTypeTag),
        (Tag::Extends(failing_tag()), IssueCode::InvalidExtendsTag),
        (Tag::Implements(failing_tag()), IssueCode::InvalidImplementsTag),
    ];
    for (tag, code) in tags {
        let meta = registered(class("User", declaration(vec![tag], Vec::new())));
        assert_eq!(codes(&meta), vec![Some(code)]);
    }
}

#[test]
fn templates_and_aliases_are_handed_on() {
    let template = TemplateTag {
        name: w("T"),
        bound: Some(Ok(get_int())),
        default: None,
        variance: Variance::Covariant,
    };
    let tags = vec![
        Tag::Template(template),
        Tag::TypeAlias(TypeAliasTag { alias: w("Id"), resolved: Ok(TypeMetadata::new(get_int(), span(50))) }),
        Tag::TypeAliasImport(TypeAliasImportTag {
            span: span(51),
            source: w("Other"),
            source_among_templates: w("Other"),
            name: w("Name"),
            local: Some(w("Label")),
        }),
    ];
    let mut base = codebase();
    let result = register_class(&mut base, &class("User", declaration(tags, Vec::new())), settings()).unwrap();
    assert_eq!(result.templates.len(), 1);
    assert_eq!(result.templates[0].0, w("T"));
    assert!(result.templates[0].1.constraint.same(&get_int()));
    assert!(result.type_aliases.contains(&w("Id")));
    assert!(result.imported_aliases.contains_key(&w("Label")));
    let meta = base.class_likes.get(&w("user")).unwrap();
    assert_eq!(meta.template_variance, vec![Variance::Covariant]);
}

#[test]
fn importing_an_alias_from_oneself_is_reported() {
    let tags = vec![Tag::TypeAliasImport(TypeAliasImportTag {
        span: span(51),
        source: w("User"),
        source_among_templates: w("User"),
        name: w("Name"),
        local: None,
    })];
    let meta = registered(class("User", declaration(tags, Vec::new())));
    assert_eq!(codes(&meta), vec![Some(IssueCode::CircularTypeImport)]);
    assert!(meta.imported_type_aliases.is_empty());
}

#[test]
fn template_names_are_in_scope() {
    let template = |name: &str| {
        Tag::Template(TemplateTag { name: w(name), bound: None, default: None, variance: Variance::Invariant })
    };
    let tags = vec![template("T"), Tag::Other, template("U")];
    let names = template_scope_names(&tags);
    assert_eq!(names, vec![w("T"), w("U")]);
    let context = type_resolution_context(&w("user"), &tags, tags.len());
    assert_eq!(context.template_definitions.len(), 2);
    assert!(get_mixed().same(&context.template_definitions.get(&w("T")).unwrap().constraint));
}
