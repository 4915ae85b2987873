//! Which typed properties a class leaves without a value.

use mago::codebase::CodebaseMetadata;
use mago::collections::SymbolMap;
use mago::collections::SymbolSet;
use mago::collections::WordMap;
use mago::collections::WordSet;
use mago::initialization::check_parent_constructor_initializes;
use mago::initialization::check_property_initialization;
use mago::initialization::compute_class_initializer_initializations;
use mago::initialization::compute_transitive_initializations;
use mago::initialization::is_method_trustworthy;
use mago::initialization::property_requires_initialization;
use mago::initialization::AnalysisArtifacts;
use mago::initialization::AnalysisSettings;
use mago::initialization::Context;
use mago::issue::Issue;
use mago::issue::IssueCode;
use mago::issue::Level;
use mago::issue::Span;
use mago::metadata::ClassLikeMetadata;
use mago::metadata::FunctionLikeKind;
use mago::metadata::FunctionLikeMetadata;
use mago::metadata::MetadataFlags;
use mago::metadata::MethodIdentifier;
use mago::metadata::MethodMetadata;
use mago::metadata::PropertyMetadata;
use mago::metadata::SymbolKind;
use mago::metadata::TypeMetadata;
use mago::metadata::Visibility;
use mago::ttype::TAtomic;
use mago::type_build::get_int;
use mago::type_build::get_mixed;
use mago::type_build::wrap_atomics;
use mago::word::Word;

fn w(s: &str) -> Word {
    s.as_bytes().to_vec()
}

fn span(start: u32) -> Span {
    Span { file: 1, start, end: start + 1 }
}

fn codebase() -> CodebaseMetadata {
    CodebaseMetadata {
        class_likes: WordMap::new(),
        function_likes: SymbolMap::new(),
        constants: WordMap::new(),
        symbols: WordMap::new(),
        all_class_like_descendants: WordMap::new(),
        direct_classlike_descendants: WordMap::new(),
        safe_symbols: WordSet::new(),
        safe_symbol_members: Default::default(),
    }
}

fn artifacts() -> AnalysisArtifacts {
    AnalysisArtifacts {
        method_initialized_properties: SymbolMap::new(),
        method_calls_this_methods: SymbolMap::new(),
        method_calls_parent_constructor: SymbolMap::new(),
        method_calls_parent_initializer: SymbolMap::new(),
    }
}

fn words(items: &[&str]) -> WordSet {
    let mut set = WordSet::new();
    for item in items {
        set.insert(w(item));
    }
    set
}

fn settings(initializers: &[&str]) -> AnalysisSettings {
    AnalysisSettings { check_property_initialization: true, class_initializers: words(initializers) }
}

fn class(name: &str) -> ClassLikeMetadata {
    ClassLikeMetadata::new(
        name.to_ascii_lowercase().into_bytes(),
        w(name),
        span(0),
        Some(span(6)),
        MetadataFlags::empty(),
    )
}

fn typed_property(name: &str) -> PropertyMetadata {
    let mut property = PropertyMetadata::new(w(name), MetadataFlags::empty());
    property.set_type_declaration_metadata(Some(TypeMetadata::new(get_int(), span(20))));
    property
}

fn declare(class: &mut ClassLikeMetadata, property: PropertyMetadata) {
    let name = property.name.clone();
    class.declaring_property_ids.insert(name.clone(), class.name.clone());
    class.properties.insert(name, property);
}

fn with_method(class: &mut ClassLikeMetadata, declaring: &str, method: &str) {
    class.declaring_method_ids.insert(w(method), MethodIdentifier::new(&w(declaring), &w(method)));
}

fn method(name: &str, visibility: Visibility, is_final: bool) -> FunctionLikeMetadata {
    FunctionLikeMetadata {
        kind: FunctionLikeKind::Method,
        name: w(name),
        original_name: w(name),
        span: span(30),
        name_span: None,
        flags: MetadataFlags::empty(),
        parameters: Vec::new(),
        return_type_declaration_metadata: None,
        return_type_metadata: None,
        method_metadata: Some(MethodMetadata {
            is_final,
            is_abstract: false,
            is_static: false,
            is_constructor: false,
            visibility,
        }),
        thrown_types: Vec::new(),
        return_expression_hints: Vec::new(),
    }
}

fn reports(
    codebase: &CodebaseMetadata,
    settings: &AnalysisSettings,
    artifacts: &AnalysisArtifacts,
    class: &ClassLikeMetadata,
) -> Vec<Issue> {
    let plugin_initialized = SymbolSet::new();
    let mut context = Context { codebase, settings, plugin_initialized: &plugin_initialized, issues: Vec::new() };
    check_property_initialization(&mut context, artifacts, class, span(0), Some(span(6)));
    context.issues
}

/// Registers the class and checks it.
fn check(mut base: CodebaseMetadata, settings: AnalysisSettings, artifacts: AnalysisArtifacts, class: ClassLikeMetadata) -> Vec<Issue> {
    let name = class.name.clone();
    base.add_class_like(name.clone(), class);
    let class = base.class_likes.get(&name).unwrap();
    reports(&base, &settings, &artifacts, class)
}

#[test]
fn missing_constructor_names_the_properties_in_order() {
    let mut user = class("User");
    declare(&mut user, typed_property("$name"));
    declare(&mut user, typed_property("$email"));
    declare(&mut user, typed_property("$age"));
    let issues = check(codebase(), settings(&[]), artifacts(), user);
    assert_eq!(issues.len(), 1);
    assert_eq!(issues[0].level, Level::Error);
    assert_eq!(issues[0].code, Some(IssueCode::MissingConstructor));
    assert_eq!(
        issues[0].message,
        w("Class `User` has typed properties without default values but no constructor to initialize them.")
    );
    assert_eq!(issues[0].notes, vec![w("Properties requiring initialization: $age, $email, $name")]);
    assert_eq!(
        issues[0].help,
        Some(w("Add a constructor that initializes all typed properties, or provide default values."))
    );
    assert_eq!(issues[0].annotations.len(), 1);
    assert!(issues[0].annotations[0].is_primary);
    assert_eq!(issues[0].annotations[0].span, span(6));
}

#[test]
fn own_constructor_is_held_to_each_property() {
    let mut user = class("User");
    declare(&mut user, typed_property("$name"));
    declare(&mut user, typed_property("$age"));
    with_method(&mut user, "user", "__construct");
    let mut known = artifacts();
    known.method_initialized_properties.insert((w("user"), w("__construct")), words(&["$name"]));
    let issues = check(codebase(), settings(&[]), known, user);
    assert_eq!(issues.len(), 1);
    assert_eq!(issues[0].code, Some(IssueCode::UninitializedProperty));
    assert_eq!(issues[0].message, w("Property `$age` is not initialized in the constructor of class `User`."));
    assert_eq!(
        issues[0].help,
        Some(w("Initialize `$age` in the constructor, provide a default value, or make the type nullable."))
    );
}

#[test]
fn complete_constructor_is_not_reported() {
    let mut user = class("User");
    declare(&mut user, typed_property("$name"));
    with_method(&mut user, "user", "__construct");
    let mut known = artifacts();
    known.method_initialized_properties.insert((w("user"), w("__construct")), words(&["$name"]));
    assert!(check(codebase(), settings(&[]), known, user).is_empty());
}

#[test]
fn a_class_above_itself_is_checked_by_its_own_constructor() {
    let mut user = class("User");
    declare(&mut user, typed_property("$name"));
    with_method(&mut user, "user", "__construct");
    user.set_parent_class(w("user"));
    assert_eq!(check(codebase(), settings(&[]), artifacts(), user).len(), 1);
    let mut user = class("User");
    declare(&mut user, typed_property("$name"));
    with_method(&mut user, "user", "__construct");
    user.set_parent_class(w("user"));
    let mut known = artifacts();
    known.method_initialized_properties.insert((w("user"), w("__construct")), words(&["$name"]));
    assert!(check(codebase(), settings(&[]), known, user).is_empty());
}

#[test]
fn nothing_is_reported_where_the_check_is_off() {
    let mut user = class("User");
    declare(&mut user, typed_property("$name"));
    let off = AnalysisSettings { check_property_initialization: false, class_initializers: WordSet::new() };
    assert!(check(codebase(), off, artifacts(), user).is_empty());
}

#[test]
fn what_cannot_be_instantiated_is_not_reported() {
    for kind in [SymbolKind::Interface, SymbolKind::Trait, SymbolKind::Enum] {
        let mut user = class("User");
        user.kind = kind;
        declare(&mut user, typed_property("$name"));
        assert!(check(codebase(), settings(&[]), artifacts(), user).is_empty());
    }
    let mut user = class("User");
    user.flags.is_abstract = true;
    declare(&mut user, typed_property("$name"));
    assert!(check(codebase(), settings(&[]), artifacts(), user).is_empty());
}

#[test]
fn exempt_properties_are_not_required() {
    let base = codebase();
    let settings = settings(&[]);
    let plugin = SymbolSet::new();
    let context = Context { codebase: &base, settings: &settings, plugin_initialized: &plugin, issues: Vec::new() };
    let user = class("User");
    let known = artifacts();
    let requires = |p: &PropertyMetadata| property_requires_initialization(p, &user, &user, &known, &context);
    assert!(requires(&typed_property("$name")));
    let mut with_default = typed_property("$name");
    with_default.flags.has_default = true;
    assert!(!requires(&with_default));
    let mut promoted = typed_property("$name");
    promoted.flags.is_promoted_property = true;
    assert!(!requires(&promoted));
    let mut of_the_class = typed_property("$name");
    of_the_class.flags.is_static = true;
    assert!(!requires(&of_the_class));
    let mut hooked = typed_property("$name");
    hooked.flags.is_virtual_property = true;
    assert!(!requires(&hooked));
    assert!(!requires(&PropertyMetadata::new(w("$name"), MetadataFlags::empty())));
}

#[test]
fn nullable_and_mixed_types_are_required_too() {
    let base = codebase();
    let settings = settings(&[]);
    let plugin = SymbolSet::new();
    let context = Context { codebase: &base, settings: &settings, plugin_initialized: &plugin, issues: Vec::new() };
    let user = class("User");
    for declared in [wrap_atomics(TAtomic::Null, TAtomic::Void), get_mixed()] {
        let mut property = typed_property("$name");
        property.set_type_declaration_metadata(Some(TypeMetadata::new(declared, span(20))));
        assert!(property_requires_initialization(&property, &user, &user, &artifacts(), &context));
    }
}

#[test]
fn plugins_can_initialize_properties() {
    let base = codebase();
    let settings = settings(&[]);
    let mut plugin = SymbolSet::new();
    plugin.insert((w("user"), w("$name")));
    let context = Context { codebase: &base, settings: &settings, plugin_initialized: &plugin, issues: Vec::new() };
    let user = class("User");
    assert!(!property_requires_initialization(&typed_property("$name"), &user, &user, &artifacts(), &context));
    assert!(property_requires_initialization(&typed_property("$age"), &user, &user, &artifacts(), &context));
}

#[test]
fn concrete_parents_look_after_their_properties() {
    let base = codebase();
    let settings = settings(&[]);
    let plugin = SymbolSet::new();
    let context = Context { codebase: &base, settings: &settings, plugin_initialized: &plugin, issues: Vec::new() };
    let user = class("User");
    let mut parent = class("Person");
    let property = typed_property("$name");
    assert!(!property_requires_initialization(&property, &user, &parent, &artifacts(), &context));
    parent.flags.is_abstract = true;
    assert!(property_requires_initialization(&property, &user, &parent, &artifacts(), &context));
    with_method(&mut parent, "person", "__construct");
    assert!(!property_requires_initialization(&property, &user, &parent, &artifacts(), &context));
    let mut child = class("User");
    with_method(&mut child, "user", "__construct");
    assert!(property_requires_initialization(&property, &child, &parent, &artifacts(), &context));
    let mut used = class("Person");
    used.kind = SymbolKind::Trait;
    assert!(property_requires_initialization(&property, &user, &used, &artifacts(), &context));
}

#[test]
fn methods_that_can_be_overridden_are_not_trusted() {
    let mut base = codebase();
    let mut user = class("User");
    for name in ["open", "closed", "hidden"] {
        with_method(&mut user, "user", name);
    }
    base.add_class_like(w("user"), user);
    base.add_function_like((w("user"), w("open")), method("open", Visibility::Public, false));
    base.add_function_like((w("user"), w("closed")), method("closed", Visibility::Protected, true));
    base.add_function_like((w("user"), w("hidden")), method("hidden", Visibility::Private, false));
    let settings = settings(&["setup"]);
    let plugin = SymbolSet::new();
    let context = Context { codebase: &base, settings: &settings, plugin_initialized: &plugin, issues: Vec::new() };
    let known = artifacts();
    let trusted = |name: &str, is_final: bool| is_method_trustworthy(&context, &known, &w("user"), &w(name), is_final);
    assert!(!trusted("open", false));
    assert!(trusted("open", true));
    assert!(trusted("closed", false));
    assert!(trusted("hidden", false));
    assert!(trusted("setup", false));
    assert!(!trusted("unknown", false));
}

#[test]
fn trusted_calls_are_followed() {
    let mut base = codebase();
    let mut user = class("User");
    with_method(&mut user, "user", "open");
    with_method(&mut user, "user", "hidden");
    base.add_class_like(w("user"), user);
    base.add_function_like((w("user"), w("open")), method("open", Visibility::Public, false));
    base.add_function_like((w("user"), w("hidden")), method("hidden", Visibility::Private, false));
    let settings = settings(&[]);
    let plugin = SymbolSet::new();
    let context = Context { codebase: &base, settings: &settings, plugin_initialized: &plugin, issues: Vec::new() };
    let mut known = artifacts();
    known.method_calls_this_methods.insert((w("user"), w("__construct")), words(&["open", "hidden"]));
    known.method_calls_this_methods.insert((w("user"), w("hidden")), words(&["__construct"]));
    known.method_initialized_properties.insert((w("user"), w("__construct")), words(&["$id"]));
    known.method_initialized_properties.insert((w("user"), w("open")), words(&["$name"]));
    known.method_initialized_properties.insert((w("user"), w("hidden")), words(&["$age"]));
    let cautious = compute_transitive_initializations(&known, &context, &w("user"), &w("__construct"), false, false);
    assert!(cautious.contains(&w("$id")));
    assert!(cautious.contains(&w("$age")));
    assert!(!cautious.contains(&w("$name")));
    let trusting = compute_transitive_initializations(&known, &context, &w("user"), &w("__construct"), false, true);
    for name in ["$id", "$age", "$name"] {
        assert!(trusting.contains(&w(name)));
    }
    let in_final_class = compute_transitive_initializations(&known, &context, &w("user"), &w("__construct"), true, false);
    assert!(in_final_class.contains(&w("$name")));
}

#[test]
fn a_call_of_the_parent_constructor_counts() {
    let mut base = codebase();
    let mut person = class("Person");
    with_method(&mut person, "person", "__construct");
    base.add_class_like(w("person"), person);
    let mut user = class("User");
    user.set_parent_class(w("person"));
    declare(&mut user, typed_property("$age"));
    user.declaring_property_ids.insert(w("$name"), w("person"));
    base.add_class_like(w("user"), user);
    let settings = settings(&[]);
    let plugin = SymbolSet::new();
    let context = Context { codebase: &base, settings: &settings, plugin_initialized: &plugin, issues: Vec::new() };
    let mut known = artifacts();
    known.method_initialized_properties.insert((w("person"), w("__construct")), words(&["$name", "$age"]));
    let without = compute_transitive_initializations(&known, &context, &w("user"), &w("__construct"), false, false);
    assert!(without.is_empty());
    known.method_calls_parent_constructor.insert((w("user"), w("__construct")), true);
    let with = compute_transitive_initializations(&known, &context, &w("user"), &w("__construct"), false, false);
    assert!(with.contains(&w("$name")));
    // A property of the class itself is not that of its parent.
    assert!(!with.contains(&w("$age")));
}

#[test]
fn class_initializers_count() {
    let mut user = class("User");
    declare(&mut user, typed_property("$name"));
    with_method(&mut user, "user", "setup");
    let mut known = artifacts();
    known.method_initialized_properties.insert((w("user"), w("setup")), words(&["$name"]));
    assert!(check(codebase(), settings(&["setup"]), known, user).is_empty());
}

#[test]
fn class_initializers_of_parents_count() {
    let mut base = codebase();
    let mut person = class("Person");
    with_method(&mut person, "person", "setup");
    person.declaring_property_ids.insert(w("$trusted"), w("person"));
    base.add_class_like(w("person"), person);
    let mut user = class("User");
    user.set_parent_class(w("person"));
    declare(&mut user, typed_property("$own"));
    base.add_class_like(w("user"), user);
    let settings = settings(&["setup"]);
    let plugin = SymbolSet::new();
    let context = Context { codebase: &base, settings: &settings, plugin_initialized: &plugin, issues: Vec::new() };
    let mut known = artifacts();
    known.method_initialized_properties.insert((w("person"), w("setup")), words(&["$name", "$own"]));
    let user = base.class_likes.get(&w("user")).unwrap();
    let all = compute_class_initializer_initializations(&known, &context, user);
    assert!(all.contains(&w("$name")));
    assert!(all.contains(&w("$trusted")));
    assert!(!all.contains(&w("$own")));
}

#[test]
fn unknown_parent_constructor_is_trusted_with_its_own() {
    let mut base = codebase();
    let mut person = class("Person");
    with_method(&mut person, "person", "__construct");
    base.add_class_like(w("person"), person);
    let mut user = class("User");
    user.set_parent_class(w("person"));
    user.declaring_property_ids.insert(w("$name"), w("person"));
    user.declaring_property_ids.insert(w("$age"), w("user"));
    base.add_class_like(w("user"), user);
    let settings = settings(&[]);
    let plugin = SymbolSet::new();
    let context = Context { codebase: &base, settings: &settings, plugin_initialized: &plugin, issues: Vec::new() };
    let user = base.class_likes.get(&w("user")).unwrap();
    let property = typed_property("$name");
    let known = artifacts();
    assert!(check_parent_constructor_initializes(&context, &known, user, &vec![(w("$name"), &property)]));
    assert!(!check_parent_constructor_initializes(&context, &known, user, &vec![(w("$age"), &property)]));
    let mut known = artifacts();
    known.method_initialized_properties.insert((w("person"), w("__construct")), words(&["$age"]));
    assert!(!check_parent_constructor_initializes(&context, &known, user, &vec![(w("$name"), &property)]));
    assert!(check_parent_constructor_initializes(&context, &known, user, &vec![(w("$age"), &property)]));
}

#[test]
fn trait_constructor_is_trusted_with_traits() {
    let mut base = codebase();
    let mut named = class("Named");
    named.kind = SymbolKind::Trait;
    declare(&mut named, typed_property("$name"));
    base.add_class_like(w("named"), named);
    let mut constructed = class("Constructed");
    constructed.kind = SymbolKind::Trait;
    with_method(&mut constructed, "constructed", "__construct");
    base.add_class_like(w("constructed"), constructed);
    let mut user = class("User");
    user.add_used_trait(w("named"));
    user.add_used_trait(w("constructed"));
    user.declaring_property_ids.insert(w("$name"), w("named"));
    with_method(&mut user, "constructed", "__construct");
    assert!(check(base, settings(&[]), artifacts(), user).is_empty());
}

#[test]
fn inherited_constructor_leaves_own_properties_open() {
    let mut base = codebase();
    let mut person = class("Person");
    with_method(&mut person, "person", "__construct");
    base.add_class_like(w("person"), person);
    let mut user = class("User");
    user.set_parent_class(w("person"));
    declare(&mut user, typed_property("$name"));
    with_method(&mut user, "person", "__construct");
    let issues = check(base, settings(&[]), artifacts(), user);
    assert_eq!(issues.len(), 1);
    assert_eq!(issues[0].code, Some(IssueCode::UninitializedProperty));
}
