//! The population of a codebase, and the types that calls return.

use mago::codebase::CodebaseMetadata;
use mago::collections::SymbolMap;
use mago::collections::SymbolSet;
use mago::collections::WordMap;
use mago::collections::WordSet;
use mago::issue::Span;
use mago::metadata::AttributeMetadata;
use mago::metadata::ClassLikeMetadata;
use mago::metadata::ConstantMetadata;
use mago::metadata::FunctionLikeKind;
use mago::metadata::FunctionLikeMetadata;
use mago::metadata::MetadataFlags;
use mago::metadata::MethodIdentifier;
use mago::metadata::ReturnExpressionHint;
use mago::metadata::TypeMetadata;
use mago::populator::populate_codebase;
use mago::populator::populate_codebase_targeted;
use mago::populator::populate_constant;
use mago::populator::rebuild_descendants;
use mago::populator::reset_population;
use mago::populator::Population;
use mago::populator::PopulationAction;
use mago::populator::ReferenceSource;
use mago::populator_model::Stage;
use mago::return_hints::collect_atomics;
use mago::return_hints::extract_class_from_type;
use mago::return_hints::resolve_function_return;
use mago::return_hints::resolve_hints;
use mago::return_hints::resolve_method_chain;
use mago::return_hints::resolve_method_return;
use mago::return_hints::resolve_return_expression_hints;
use mago::ttype::TAtomic;
use mago::ttype::TNamedObject;
use mago::ttype::TObject;
use mago::ttype::TReference;
use mago::ttype::TSymbolReference;
use mago::ttype::TUnion;
use mago::type_build::get_int;
use mago::type_build::get_named_object;
use mago::type_build::get_string;
use mago::word::Word;

fn w(s: &str) -> Word {
    s.as_bytes().to_vec()
}

fn span(start: u32) -> Span {
    Span { file: 1, start, end: start + 1 }
}

fn codebase() -> CodebaseMetadata {
    CodebaseMetadata {
        class_likes: WordMap::new(),
        function_likes: SymbolMap::new(),
        constants: WordMap::new(),
        symbols: WordMap::new(),
        all_class_like_descendants: WordMap::new(),
        direct_classlike_descendants: WordMap::new(),
        safe_symbols: WordSet::new(),
        safe_symbol_members: Default::default(),
    }
}

fn words(items: &[&str]) -> WordSet {
    let mut set = WordSet::new();
    for item in items {
        set.insert(w(item));
    }
    set
}

fn symbols(items: &[(&str, &str)]) -> foldhash::HashSet<(Word, Word)> {
    items.iter().map(|(a, b)| (w(a), w(b))).collect()
}

fn class(name: &str, populated: bool, user_defined: bool) -> ClassLikeMetadata {
    let mut flags = MetadataFlags::empty();
    flags.is_populated = populated;
    flags.is_user_defined = user_defined;
    ClassLikeMetadata::new(w(name), w(name), span(0), None, flags)
}

fn function(name: &str) -> FunctionLikeMetadata {
    let mut flags = MetadataFlags::empty();
    flags.is_user_defined = true;
    FunctionLikeMetadata {
        kind: FunctionLikeKind::Function,
        name: w(name),
        original_name: w(name),
        span: span(30),
        name_span: None,
        flags,
        parameters: Vec::new(),
        return_type_declaration_metadata: None,
        return_type_metadata: None,
        method_metadata: None,
        thrown_types: Vec::new(),
        return_expression_hints: Vec::new(),
    }
}

fn returning(name: &str, t: TUnion) -> FunctionLikeMetadata {
    let mut f = function(name);
    f.return_type_metadata = Some(TypeMetadata::new(t, span(31)));
    f
}

fn hinting(name: &str, hints: Vec<ReturnExpressionHint>) -> FunctionLikeMetadata {
    let mut f = function(name);
    f.return_expression_hints = hints;
    f
}

fn call(class: &str, method: &str) -> ReturnExpressionHint {
    ReturnExpressionHint::InstanceMethodCall { class: w(class), method: w(method) }
}

fn reference(name: &str) -> TUnion {
    TUnion {
        types: vec![TAtomic::Reference(TReference::Symbol(TSymbolReference {
            name: w(name),
            parameters: None,
            intersection_types: None,
        }))],
    }
}

fn constant(name: &str) -> ConstantMetadata {
    ConstantMetadata {
        name: w(name),
        span: span(40),
        flags: MetadataFlags::empty(),
        attributes: vec![AttributeMetadata { name: w("Deprecated"), span: span(41) }],
        type_metadata: None,
        inferred_type: Some(get_int()),
    }
}

fn selected(action: PopulationAction) -> Vec<Word> {
    match action {
        PopulationAction::PopulateHierarchy(names) => (0..names.len()).map(|i| names.at(i).clone()).collect(),
        _ => panic!("the hierarchy comes first"),
    }
}

/// The stages up to the end, with the number of function-likes, class-likes and constants.
fn run(population: &mut Population, base: &mut CodebaseMetadata) -> (usize, usize, usize) {
    let mut counts = (0, 0, 0);
    let mut steps = 0;
    while population.stage() != Stage::Finished {
        match population.advance(base) {
            PopulationAction::PopulateFunctionLikes(functions) => counts.0 = functions.len(),
            PopulationAction::PopulateClassTypes(classes) => counts.1 = classes.len(),
            PopulationAction::PopulateConstants(constants) => counts.2 = constants.len(),
            _ => {}
        }
        steps += 1;
        assert!(steps <= 6);
    }
    counts
}

#[test]
fn outdated_class_likes_are_selected() {
    let mut base = codebase();
    base.add_class_like(w("new"), class("new", false, true));
    base.add_class_like(w("safe"), class("safe", true, true));
    base.add_class_like(w("changed"), class("changed", true, true));
    base.add_class_like(w("builtin"), class("builtin", true, false));
    let mut population = populate_codebase(&mut base, words(&["safe"]), symbols(&[]));
    assert_eq!(population.stage(), Stage::Selected);
    assert_eq!(selected(population.advance(&mut base)), vec![w("new"), w("changed")]);
    assert!(!base.class_likes.get(&w("changed")).unwrap().flags.is_populated);
    assert!(base.class_likes.get(&w("safe")).unwrap().flags.is_populated);
}

#[test]
fn invalidated_class_likes_are_selected_though_they_are_not_dirty() {
    let mut base = codebase();
    base.add_class_like(w("parent"), class("parent", true, true));
    base.add_class_like(w("child"), class("child", true, true));
    base.add_class_like(w("new"), class("new", false, false));
    base.add_class_like(w("unpopulated"), class("unpopulated", false, false));
    let mut population =
        populate_codebase_targeted(&mut base, words(&["parent"]), symbols(&[]), symbols(&[("new", "")]));
    let names = selected(population.advance(&mut base));
    assert_eq!(names, vec![w("new"), w("child")]);
}

#[test]
fn dirty_symbols_are_each_taken_once() {
    let mut base = codebase();
    for name in ["one", "two", "three"] {
        base.add_function_like((w(""), w(name)), function(name));
    }
    let dirty = symbols(&[("", "one"), ("", "three"), ("", "gone")]);
    let mut population = populate_codebase_targeted(&mut base, words(&["x", ""]), symbols(&[]), dirty);
    population.advance(&mut base);
    match population.advance(&mut base) {
        PopulationAction::PopulateFunctionLikes(steps) => {
            let mut dirty: Vec<Word> = steps.iter().filter(|s| s.force).map(|s| s.key.1.clone()).collect();
            dirty.sort();
            assert_eq!(dirty, vec![w("one"), w("three")]);
            // The other one is new, and not forced.
            assert_eq!(steps.len(), 3);
        }
        _ => panic!("function-likes come second"),
    }
}

#[test]
fn safe_members_are_left_alone() {
    let mut base = codebase();
    let mut method = function("m");
    method.flags.is_populated = true;
    method.kind = FunctionLikeKind::Method;
    let mut other = function("n");
    other.flags.is_populated = true;
    other.kind = FunctionLikeKind::Method;
    base.add_function_like((w("user"), w("m")), method);
    base.add_function_like((w("user"), w("n")), other);
    let mut population = populate_codebase(&mut base, WordSet::new(), symbols(&[("user", "m")]));
    population.advance(&mut base);
    match population.advance(&mut base) {
        PopulationAction::PopulateFunctionLikes(steps) => {
            assert_eq!(steps.len(), 1);
            assert_eq!(steps[0].key, (w("user"), w("n")));
            assert!(steps[0].force);
            match &steps[0].source {
                ReferenceSource::ClassLikeMember(in_signature, class_like, member) => {
                    assert!(*in_signature);
                    assert_eq!((class_like, member), (&w("user"), &w("n")));
                }
                _ => panic!("a method is a member"),
            }
        }
        _ => panic!("function-likes come second"),
    }
}

#[test]
fn a_full_population_looks_at_everything() {
    let mut base = codebase();
    base.add_class_like(w("user"), class("user", true, false));
    base.add_function_like((w(""), w("f")), function("f"));
    base.constants.insert(w("A"), constant("A"));
    let mut population = populate_codebase(&mut base, WordSet::new(), symbols(&[]));
    assert_eq!(run(&mut population, &mut base), (1, 1, 1));
    assert!(matches!(population.advance(&mut base), PopulationAction::Nothing));
}

#[test]
fn what_is_safe_is_remembered_at_the_end() {
    let mut base = codebase();
    let mut population = populate_codebase(&mut base, words(&["user"]), symbols(&[("user", "m")]));
    assert!(base.safe_symbols.is_empty());
    run(&mut population, &mut base);
    assert!(base.safe_symbols.contains(&w("user")));
    assert!(base.safe_symbol_members.contains(&(w("user"), w("m"))));
}

#[test]
fn descendants_mirror_parents() {
    let mut base = codebase();
    let mut user = class("user", true, true);
    user.set_parent_class(w("person"));
    user.add_direct_parent_interface(w("named"));
    user.all_parent_classes.insert(w("being"));
    base.add_class_like(w("user"), user);
    base.add_class_like(w("person"), class("person", true, true));
    rebuild_descendants(&mut base);
    assert!(base.all_class_like_descendants.get(&w("being")).unwrap().contains(&w("user")));
    assert!(base.direct_classlike_descendants.get(&w("being")).is_none());
    assert!(base.direct_classlike_descendants.get(&w("person")).unwrap().contains(&w("user")));
    assert!(base.direct_classlike_descendants.get(&w("named")).unwrap().contains(&w("user")));
    let children = base.class_likes.get(&w("person")).unwrap().child_class_likes.as_ref().unwrap();
    assert!(children.contains(&w("user")));
}

#[test]
fn reset_takes_away_what_population_gave() {
    let mut user = class("user", true, true);
    user.declaring_method_ids.insert(w("m"), MethodIdentifier::new(&w("user"), &w("m")));
    user.declaring_property_ids.insert(w("$p"), w("user"));
    user.add_used_trait(w("named"));
    reset_population(&mut user);
    assert!(!user.flags.is_populated && user.flags.is_user_defined);
    assert!(user.declaring_method_ids.is_empty() && user.declaring_property_ids.is_empty());
    assert!(user.used_traits.contains(&w("named")));
    reset_population(&mut user);
    assert!(!user.flags.is_populated);
}

#[test]
fn constants_are_populated() {
    let mut limit = constant("LIMIT");
    let mut references = Vec::new();
    populate_constant(&w("LIMIT"), &mut limit, &mut references, Some(get_string()), Some(get_string()));
    assert!(limit.flags.is_populated);
    assert!(limit.type_metadata.is_none());
    assert!(limit.inferred_type.unwrap().same(&get_string()));
    assert_eq!(references.len(), 1);
    assert_eq!((&references[0].from, &references[0].to), (&w("LIMIT"), &w("Deprecated")));
    assert!(references[0].in_signature);
}

#[test]
fn declared_types_are_returned() {
    let mut base = codebase();
    base.add_function_like((w("user"), w("name")), returning("name", get_string()));
    let mut resolving = SymbolSet::new();
    for class in ["user", "USER"] {
        let t = resolve_method_return(&w(class), &w("name"), &base, &mut resolving).unwrap();
        assert!(t.same(&get_string()));
    }
    assert!(resolve_method_return(&w("user"), &w("age"), &base, &mut resolving).is_none());
    assert!(resolving.is_empty());
}

#[test]
fn parents_and_traits_are_searched() {
    let mut base = codebase();
    let mut user = class("user", true, true);
    user.set_parent_class(w("person"));
    user.add_used_trait(w("aged"));
    base.add_class_like(w("user"), user);
    base.add_function_like((w("person"), w("name")), returning("name", get_string()));
    base.add_function_like((w("aged"), w("age")), returning("age", get_int()));
    base.add_function_like((w("aged"), w("name")), returning("name", get_int()));
    let mut resolving = SymbolSet::new();
    let name = resolve_method_return(&w("user"), &w("name"), &base, &mut resolving).unwrap();
    assert!(name.same(&get_string()));
    let age = resolve_method_return(&w("user"), &w("age"), &base, &mut resolving).unwrap();
    assert!(age.same(&get_int()));
}

#[test]
fn functions_fall_back_to_the_global_ones() {
    let mut base = codebase();
    base.add_function_like((w(""), w("strtr")), returning("strtr", get_string()));
    base.add_function_like((w(""), w("xf\\own")), returning("own", get_int()));
    let mut resolving = SymbolSet::new();
    let fallback = resolve_function_return(&w("xf\\StrTr"), &base, &mut resolving).unwrap();
    assert!(fallback.same(&get_string()));
    assert!(resolve_function_return(&w("xf\\own"), &base, &mut resolving).unwrap().same(&get_int()));
    assert!(resolve_function_return(&w("own"), &base, &mut resolving).is_none());
}

#[test]
fn chains_follow_the_returned_classes() {
    let mut base = codebase();
    base.add_function_like((w("app"), w("language")), returning("language", get_named_object(w("Language"))));
    base.add_function_like((w("language"), w("datetime")), returning("datetime", get_string()));
    let mut resolving = SymbolSet::new();
    let chain = vec![w("language"), w("datetime")];
    let t = resolve_method_chain(&w("App"), &chain, &base, &mut resolving).unwrap();
    assert!(t.same(&get_string()));
    let broken = vec![w("language"), w("missing")];
    assert!(resolve_method_chain(&w("App"), &broken, &base, &mut resolving).is_none());
    assert!(resolve_method_chain(&w("App"), &Vec::new(), &base, &mut resolving).is_none());
}

#[test]
fn class_of_a_type() {
    let this = TUnion {
        types: vec![
            TAtomic::Null,
            TAtomic::Object(TObject::Named(TNamedObject {
                name: w("User"),
                type_parameters: None,
                is_this: true,
                intersection_types: None,
            })),
        ],
    };
    assert_eq!(extract_class_from_type(&this, &w("admin")), Some(w("admin")));
    assert_eq!(extract_class_from_type(&get_named_object(w("User")), &w("admin")), Some(w("user")));
    assert_eq!(extract_class_from_type(&reference("User"), &w("admin")), Some(w("user")));
    assert_eq!(extract_class_from_type(&get_int(), &w("admin")), None);
}

#[test]
fn names_of_classes_become_objects() {
    let mut atomics = Vec::new();
    collect_atomics(&reference("User"), &mut atomics);
    collect_atomics(&reference("User"), &mut atomics);
    collect_atomics(&get_int(), &mut atomics);
    assert_eq!(atomics.len(), 2);
    match &atomics[0] {
        TAtomic::Object(TObject::Named(named)) => {
            assert_eq!(named.name, w("User"));
            assert!(!named.is_this);
        }
        _ => panic!("not an object"),
    }
}

#[test]
fn hints_are_resolved_through_each_other() {
    let mut base = codebase();
    base.add_function_like((w("a"), w("first")), hinting("first", vec![call("a", "second")]));
    base.add_function_like((w("a"), w("second")), hinting("second", vec![call("a", "third"), call("a", "second")]));
    base.add_function_like((w("a"), w("third")), returning("third", get_int()));
    resolve_return_expression_hints(&mut base);
    for name in ["first", "second"] {
        let t = base.function_likes.get(&(w("a"), w(name))).unwrap().return_type_metadata.as_ref().unwrap();
        assert!(t.type_union.same(&get_int()));
        assert!(t.inferred && !t.from_docblock);
        assert_eq!(t.span, span(30));
    }
    let third = base.function_likes.get(&(w("a"), w("third"))).unwrap().return_type_metadata.as_ref().unwrap();
    assert!(!third.inferred);
}

#[test]
fn circular_calls_give_nothing() {
    let mut base = codebase();
    base.add_function_like((w("a"), w("first")), hinting("first", vec![call("a", "second")]));
    base.add_function_like((w("a"), w("second")), hinting("second", vec![call("a", "first")]));
    let mut resolving = SymbolSet::new();
    assert!(resolve_hints(&vec![call("a", "first")], &base, &mut resolving).is_none());
    resolve_return_expression_hints(&mut base);
    assert!(base.function_likes.get(&(w("a"), w("first"))).unwrap().return_type_metadata.is_none());
}

#[test]
fn long_chains_of_hints_are_resolved() {
    let mut base = codebase();
    for i in 0..30 {
        let next = format!("m{}", i + 1);
        base.add_function_like((w("a"), w(&format!("m{}", i))), hinting("m", vec![call("a", &next)]));
    }
    base.add_function_like((w("a"), w("m30")), returning("m30", get_int()));
    resolve_return_expression_hints(&mut base);
    let first = base.function_likes.get(&(w("a"), w("m0"))).unwrap();
    assert!(first.return_type_metadata.as_ref().unwrap().type_union.same(&get_int()));
}
