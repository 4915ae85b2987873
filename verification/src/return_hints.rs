//! Return types that follow from the calls that function-likes return.

use vstd::prelude::*;

use crate::codebase::CodebaseMetadata;
use crate::codebase::CodebaseView;
use crate::collections::lemma_views_push;
use crate::collections::lemma_with_item_members;
use crate::collections::option_view;
use crate::collections::views;
use crate::collections::SymbolIdentifier;
use crate::collections::SymbolSet;
use crate::collections::WordSet;
use crate::initialization_model::lemma_unseen_insert;
use crate::initialization_model::unseen;
use crate::metadata::ReturnExpressionHint;
use crate::metadata::TypeMetadata;
use crate::return_hints_model::chain_return;
use crate::return_hints_model::class_of_type;
use crate::return_hints_model::collect;
use crate::return_hints_model::direct_return;
use crate::return_hints_model::first_return;
use crate::return_hints_model::function_return;
use crate::return_hints_model::hint_pass;
use crate::return_hints_model::hint_return;
use crate::return_hints_model::hinted_return;
use crate::return_hints_model::hinted_types;
use crate::return_hints_model::hints_resolved;
use crate::return_hints_model::is_open;
use crate::return_hints_model::lemma_step_untyped;
use crate::return_hints_model::method_return;
use crate::return_hints_model::open_keys;
use crate::return_hints_model::resolved_hints;
use crate::return_hints_model::returned_atomic;
use crate::return_hints_model::settles;
use crate::return_hints_model::untyped;
use crate::return_hints_model::with_hints_of;
use crate::return_hints_model::with_return_type;
use crate::ttype::atomics_model;
use crate::ttype::TAtomic;
use crate::ttype::TNamedObject;
use crate::ttype::TObject;
use crate::ttype::TReference;
use crate::ttype::TUnion;
use crate::type_copy::copy_atomics;
use crate::type_copy::copy_unions;
use crate::word::ascii_lowercase_word;
use crate::word::copy_word;
use crate::word::find_last_separator;
use crate::word::short_name;
use crate::word::Word;

verus! {

/// A type as it is returned.
fn make_returned_atomic(t: &TAtomic) -> (returned: TAtomic)
    ensures
        returned@ == returned_atomic(t@),
{
    if let TAtomic::Reference(TReference::Symbol(s)) = t {
        let type_parameters: Option<Vec<TUnion>> = match &s.parameters {
            Some(parameters) => Some(copy_unions(parameters)),
            None => None,
        };
        let intersection_types: Option<Vec<TAtomic>> = match &s.intersection_types {
            Some(types) => {
                assert(atomics_model(*types).len() == types@.len());
                if types.len() > 0 {
                    Some(copy_atomics(types))
                } else {
                    None
                }
            },
            None => None,
        };
        proof {
            reveal_with_fuel(TAtomic::model, 3);
        }
        return TAtomic::Object(
            TObject::Named(
                TNamedObject { name: copy_word(s.name.as_slice()), type_parameters, is_this: false, intersection_types },
            ),
        );
    }
    t.copy()
}

/// Whether a type is among those that were collected.
fn contains_atomic(atomics: &Vec<TAtomic>, t: &TAtomic) -> (found: bool)
    ensures
        found == atomics_model(*atomics).contains(t@),
{
    let mut i: usize = 0;
    while i < atomics.len()
        invariant
            i <= atomics@.len(),
            forall|j: int| 0 <= j < i ==> atomics_model(*atomics)[j] != t@,
        decreases atomics@.len() - i,
    {
        assert(atomics_model(*atomics)[i as int] == atomics@[i as int]@);
        if atomics[i].same(t) {
            return true;
        }
        i = i + 1;
    }
    false
}

/// Adds the types of a union to those that were collected.
pub fn collect_atomics(union: &TUnion, atomics: &mut Vec<TAtomic>)
    ensures
        atomics_model(*final(atomics)) == collect(atomics_model(*old(atomics)), union@.types),
{
    let ghost before = atomics_model(*atomics);
    let mut i: usize = 0;
    while i < union.types.len()
        invariant
            i <= union.types@.len(),
            union@.types.len() == union.types@.len(),
            atomics_model(*atomics) == collect(before, union@.types.take(i as int)),
        decreases union.types@.len() - i,
    {
        let ghost earlier = atomics_model(*atomics);
        assert(union@.types.take(i + 1).drop_last() =~= union@.types.take(i as int));
        assert(union@.types.take(i + 1).last() == union.types@[i as int]@);
        let returned: TAtomic = make_returned_atomic(&union.types[i]);
        if !contains_atomic(atomics, &returned) {
            let ghost added = returned@;
            atomics.push(returned);
            assert(atomics_model(*atomics) =~= earlier.push(added));
        }
        i = i + 1;
    }
    assert(union@.types.take(i as int) =~= union@.types);
}

/// The class of an object of this type.
pub fn extract_class_from_type(union: &TUnion, current_class: &Word) -> (class: Option<Word>)
    ensures
        option_view(class) == class_of_type(union@.types, current_class@),
{
    let ghost types = union@.types;
    let mut i: usize = 0;
    assert(types.skip(0) =~= types);
    while i < union.types.len()
        invariant
            i <= union.types@.len(),
            types == union@.types,
            types.len() == union.types@.len(),
            class_of_type(types, current_class@) == class_of_type(types.skip(i as int), current_class@),
        decreases union.types@.len() - i,
    {
        assert(types.skip(i as int)[0] == union.types@[i as int]@);
        assert(types.skip(i as int).skip(1) =~= types.skip(i + 1));
        match &union.types[i] {
            TAtomic::Object(TObject::Named(named)) => {
                return Some(
                    if named.is_this {
                        copy_word(current_class.as_slice())
                    } else {
                        ascii_lowercase_word(named.name.as_slice())
                    },
                );
            },
            TAtomic::Reference(TReference::Symbol(s)) => {
                if s.intersection_types.is_none() {
                    return Some(ascii_lowercase_word(s.name.as_slice()));
                }
            },
            _ => {},
        }
        i = i + 1;
    }
    None
}

/// Whether nothing but the function-like of this key decides what a call returns.
fn check_settles(codebase: &CodebaseMetadata, key: &SymbolIdentifier, resolving: &SymbolSet) -> (settled: bool)
    ensures
        settled == settles(codebase@, key@, resolving.members()),
{
    if resolving.contains(key) {
        return true;
    }
    proof {
        codebase.function_likes.lemma_keys();
    }
    match codebase.function_likes.get(key) {
        Some(f) => {
            assert(f@.return_expression_hints.len() == f.return_expression_hints@.len());
            f.return_type_metadata.is_some() || f.return_expression_hints.len() > 0
        },
        None => false,
    }
}

/// What the function-like of this key returns, unless it is being resolved already.
fn resolve_direct(codebase: &CodebaseMetadata, key: &SymbolIdentifier, resolving: &mut SymbolSet) -> (t: Option<TUnion>)
    ensures
        option_view(t) == direct_return(codebase@, key@, old(resolving).members()),
        final(resolving)@ == old(resolving)@,
    decreases unseen(codebase@.function_like_keys, old(resolving).members()), 0nat, 0nat,
{
    let ghost seen = resolving@;
    if resolving.contains(key) {
        return None;
    }
    proof {
        codebase.function_likes.lemma_keys();
    }
    let Some(f) = codebase.function_likes.get(key) else {
        return None;
    };
    if let Some(t) = &f.return_type_metadata {
        return Some(t.type_union.copy());
    }
    proof {
        lemma_unseen_insert(codebase@.function_like_keys, resolving.members(), key@);
        lemma_with_item_members(resolving@, key@);
    }
    let added: SymbolIdentifier = (copy_word(key.0.as_slice()), copy_word(key.1.as_slice()));
    let _ = resolving.insert(added);
    let t = resolve_hints(&f.return_expression_hints, codebase, resolving);
    resolving.remove_last();
    assert(resolving@ =~= seen);
    t
}

/// What the first of these class-likes whose method returns something known returns.
fn resolve_first(
    codebase: &CodebaseMetadata,
    classes: &WordSet,
    method: &Word,
    resolving: &mut SymbolSet,
) -> (t: Option<TUnion>)
    ensures
        option_view(t) == first_return(codebase@, classes@, method@, old(resolving).members()),
        final(resolving)@ == old(resolving)@,
    decreases unseen(codebase@.function_like_keys, old(resolving).members()), 1nat, 0nat,
{
    let ghost seen = resolving@;
    let mut i: usize = 0;
    while i < classes.len()
        invariant
            i <= classes@.len(),
            resolving@ == seen,
            seen == old(resolving)@,
            first_return(codebase@, classes@.take(i as int), method@, seen.to_set()) is None,
        decreases classes@.len() - i,
    {
        assert(classes@.take(i + 1).drop_last() =~= classes@.take(i as int));
        assert(classes@.take(i + 1).last() == classes@[i as int]);
        let key: SymbolIdentifier = (ascii_lowercase_word(classes.at(i).as_slice()), copy_word(method.as_slice()));
        let t = resolve_direct(codebase, &key, resolving);
        if t.is_some() {
            proof {
                lemma_first_return_longer(codebase@, classes@, (i + 1) as int, method@, seen.to_set());
            }
            return t;
        }
        i = i + 1;
    }
    assert(classes@.take(i as int) =~= classes@);
    None
}

/// What is found in the beginning of a list is what is found in the list.
proof fn lemma_first_return_longer(
    c: CodebaseView,
    classes: Seq<Seq<u8>>,
    n: int,
    method: Seq<u8>,
    resolving: Set<(Seq<u8>, Seq<u8>)>,
)
    requires
        0 <= n <= classes.len(),
        first_return(c, classes.take(n), method, resolving) is Some,
    ensures
        first_return(c, classes, method, resolving) == first_return(c, classes.take(n), method, resolving),
    decreases classes.len() - n,
{
    if n < classes.len() {
        assert(classes.take(n + 1).drop_last() =~= classes.take(n));
        lemma_first_return_longer(c, classes, n + 1, method, resolving);
    } else {
        assert(classes.take(n) =~= classes);
    }
}

/// A list of class-likes after another one is looked at only where the other one gives nothing.
proof fn lemma_first_return_concat(
    c: CodebaseView,
    a: Seq<Seq<u8>>,
    b: Seq<Seq<u8>>,
    method: Seq<u8>,
    resolving: Set<(Seq<u8>, Seq<u8>)>,
)
    ensures
        first_return(c, a + b, method, resolving) == if first_return(c, a, method, resolving) is Some {
            first_return(c, a, method, resolving)
        } else {
            first_return(c, b, method, resolving)
        },
    decreases b.len(),
{
    if b.len() == 0 {
        assert(a + b =~= a);
    } else {
        assert((a + b).drop_last() =~= a + b.drop_last());
        lemma_first_return_concat(c, a, b.drop_last(), method, resolving);
    }
}

/// What a method of a class returns.
pub fn resolve_method_return(
    class: &Word,
    method: &Word,
    codebase: &CodebaseMetadata,
    resolving: &mut SymbolSet,
) -> (t: Option<TUnion>)
    ensures
        option_view(t) == method_return(codebase@, class@, method@, old(resolving).members()),
        final(resolving)@ == old(resolving)@,
    decreases unseen(codebase@.function_like_keys, old(resolving).members()), 2nat, 0nat,
{
    let key: SymbolIdentifier = (ascii_lowercase_word(class.as_slice()), copy_word(method.as_slice()));
    if check_settles(codebase, &key, resolving) {
        return resolve_direct(codebase, &key, resolving);
    }
    let Some(meta) = codebase.get_class_like(class) else {
        return None;
    };
    proof {
        lemma_first_return_concat(
            codebase@,
            meta@.all_parent_classes,
            meta@.used_traits,
            method@,
            resolving.members(),
        );
    }
    let of_parent = resolve_first(codebase, &meta.all_parent_classes, method, resolving);
    if of_parent.is_some() {
        return of_parent;
    }
    resolve_first(codebase, &meta.used_traits, method, resolving)
}

/// What a function returns.
pub fn resolve_function_return(
    function: &Word,
    codebase: &CodebaseMetadata,
    resolving: &mut SymbolSet,
) -> (t: Option<TUnion>)
    ensures
        option_view(t) == function_return(codebase@, function@, old(resolving).members()),
        final(resolving)@ == old(resolving)@,
    decreases unseen(codebase@.function_like_keys, old(resolving).members()), 2nat, 0nat,
{
    let key: SymbolIdentifier = (Vec::new(), copy_word(function.as_slice()));
    assert(key.0@ =~= Seq::<u8>::empty());
    if check_settles(codebase, &key, resolving) {
        return resolve_direct(codebase, &key, resolving);
    }
    match find_last_separator(function.as_slice()) {
        Some(position) => {
            let short = vstd::slice::slice_subrange(function.as_slice(), position + 1, function.len());
            assert(short@ =~= short_name(function@));
            let short_key: SymbolIdentifier = (Vec::new(), ascii_lowercase_word(short));
            assert(short_key.0@ =~= Seq::<u8>::empty());
            resolve_direct(codebase, &short_key, resolving)
        },
        None => None,
    }
}

/// What a chain of methods returns.
pub fn resolve_method_chain(
    receiver_class: &Word,
    methods: &Vec<Word>,
    codebase: &CodebaseMetadata,
    resolving: &mut SymbolSet,
) -> (t: Option<TUnion>)
    ensures
        option_view(t) == chain_return(codebase@, receiver_class@, views(methods@), old(resolving).members()),
        final(resolving)@ == old(resolving)@,
    decreases unseen(codebase@.function_like_keys, old(resolving).members()), 3nat, 0nat,
{
    let ghost seen = resolving@;
    let ghost all = views(methods@);
    let ghost result = chain_return(codebase@, receiver_class@, all, seen.to_set());
    let mut current: Word = copy_word(receiver_class.as_slice());
    let mut i: usize = 0;
    assert(all.skip(0) =~= all);
    while i < methods.len()
        invariant
            i <= methods@.len(),
            all == views(methods@),
            resolving@ == seen,
            seen == old(resolving)@,
            result == chain_return(codebase@, receiver_class@, all, seen.to_set()),
            result == chain_return(codebase@, current@, all.skip(i as int), seen.to_set()),
        decreases methods@.len() - i,
    {
        assert(all.skip(i as int)[0] == methods@[i as int]@);
        assert(all.skip(i as int).skip(1) =~= all.skip(i + 1));
        let Some(t) = resolve_method_return(&current, &methods[i], codebase, resolving) else {
            return None;
        };
        if i == methods.len() - 1 {
            return Some(t);
        }
        let Some(next) = extract_class_from_type(&t, &current) else {
            return None;
        };
        current = next;
        i = i + 1;
    }
    None
}

/// What the call of a hint returns.
fn resolve_hint(
    hint: &ReturnExpressionHint,
    codebase: &CodebaseMetadata,
    resolving: &mut SymbolSet,
) -> (t: Option<TUnion>)
    ensures
        option_view(t) == hint_return(codebase@, hint@, old(resolving).members()),
        final(resolving)@ == old(resolving)@,
    decreases unseen(codebase@.function_like_keys, old(resolving).members()), 4nat, 0nat,
{
    match hint {
        ReturnExpressionHint::InstanceMethodCall { class, method } => resolve_method_return(
            class,
            method,
            codebase,
            resolving,
        ),
        ReturnExpressionHint::StaticMethodCall { class, method } => resolve_method_return(
            class,
            method,
            codebase,
            resolving,
        ),
        ReturnExpressionHint::FunctionCall { function } => resolve_function_return(function, codebase, resolving),
        ReturnExpressionHint::MethodChain { receiver_class, methods } => resolve_method_chain(
            receiver_class,
            methods,
            codebase,
            resolving,
        ),
    }
}

/// What a function-like with these hints returns, where anything of it is known.
pub fn resolve_hints(
    hints: &Vec<ReturnExpressionHint>,
    codebase: &CodebaseMetadata,
    resolving: &mut SymbolSet,
) -> (t: Option<TUnion>)
    ensures
        option_view(t) == resolved_hints(codebase@, views(hints@), old(resolving).members()),
        final(resolving)@ == old(resolving)@,
    decreases unseen(codebase@.function_like_keys, old(resolving).members()), 6nat, 0nat,
{
    let ghost seen = resolving@;
    let ghost all = views(hints@);
    let mut atomics: Vec<TAtomic> = Vec::new();
    let mut i: usize = 0;
    assert(atomics_model(atomics) =~= hinted_types(codebase@, all.take(0), seen.to_set()));
    while i < hints.len()
        invariant
            i <= hints@.len(),
            all == views(hints@),
            resolving@ == seen,
            seen == old(resolving)@,
            atomics_model(atomics) == hinted_types(codebase@, all.take(i as int), seen.to_set()),
        decreases hints@.len() - i,
    {
        assert(all.take(i + 1).drop_last() =~= all.take(i as int));
        assert(all.take(i + 1).last() == hints@[i as int]@);
        if let Some(t) = resolve_hint(&hints[i], codebase, resolving) {
            collect_atomics(&t, &mut atomics);
        }
        i = i + 1;
    }
    assert(all.take(i as int) =~= all);
    assert(atomics_model(atomics).len() == atomics@.len());
    if atomics.len() == 0 {
        None
    } else {
        Some(TUnion { types: atomics })
    }
}

/// The function-likes that have hints and no return type.
fn collect_open_keys(codebase: &CodebaseMetadata) -> (keys: Vec<SymbolIdentifier>)
    ensures
        views(keys@) == open_keys(codebase@),
{
    broadcast use lemma_views_push;

    let ghost all = codebase.function_likes.keys();
    let ghost c = codebase@;
    let ghost pred = |key: (Seq<u8>, Seq<u8>)| is_open(c, key);
    let mut keys: Vec<SymbolIdentifier> = Vec::new();
    let mut i: usize = 0;
    proof {
        reveal(Seq::filter);
        assert(views(keys@) =~= all.take(0).filter(pred));
        codebase.function_likes.lemma_keys();
    }
    while i < codebase.function_likes.len()
        invariant
            i <= all.len(),
            all == codebase.function_likes.keys(),
            c == codebase@,
            pred == (|key: (Seq<u8>, Seq<u8>)| is_open(c, key)),
            views(keys@) == all.take(i as int).filter(pred),
        decreases all.len() - i,
    {
        let ghost before = views(keys@);
        let key = codebase.function_likes.key_at(i);
        proof {
            reveal(Seq::filter);
            assert(all.take(i + 1).drop_last() =~= all.take(i as int));
            assert(all.take(i + 1).last() == key@);
        }
        let open: bool = match codebase.function_likes.get(key) {
            Some(f) => {
                assert(f@.return_expression_hints.len() == f.return_expression_hints@.len());
                f.return_type_metadata.is_none() && f.return_expression_hints.len() > 0
            },
            None => false,
        };
        assert(open == pred(key@));
        if open {
            let copy: SymbolIdentifier = (copy_word(key.0.as_slice()), copy_word(key.1.as_slice()));
            keys.push(copy);
            assert(views(keys@) == before.push(key@));
        }
        i = i + 1;
    }
    assert(all.take(i as int) =~= all);
    keys
}

/// Looks at the hints of one function-like; the result says whether it has a return type now that
/// it did not have before.
fn resolve_key(codebase: &mut CodebaseMetadata, key: &SymbolIdentifier) -> (changed: bool)
    ensures
        final(codebase)@ == with_hints_of(old(codebase)@, key@),
        changed == hinted_return(old(codebase)@, key@) is Some,
{
    let ghost c = codebase@;
    let mut resolving: SymbolSet = SymbolSet::new();
    let first: SymbolIdentifier = (copy_word(key.0.as_slice()), copy_word(key.1.as_slice()));
    proof {
        lemma_with_item_members(resolving@, key@);
        assert(resolving.members() =~= Set::<(Seq<u8>, Seq<u8>)>::empty());
    }
    let _ = resolving.insert(first);
    let mut resolved: Option<TUnion> = None;
    if let Some(f) = codebase.function_likes.get(key) {
        if f.return_type_metadata.is_none() && f.return_expression_hints.len() > 0 {
            resolved = resolve_hints(&f.return_expression_hints, codebase, &mut resolving);
        }
        assert(f@.return_expression_hints.len() == f.return_expression_hints@.len());
    }
    assert(option_view(resolved) == hinted_return(c, key@));
    let Some(t) = resolved else {
        return false;
    };
    let ghost returned = t@;
    if let Some(f) = codebase.function_likes.get_mut(key) {
        f.return_type_metadata = Some(
            TypeMetadata { type_union: t, span: f.span, from_docblock: false, inferred: true },
        );
    }
    assert(codebase@ =~= with_return_type(c, key@, returned));
    true
}

/// Gives a return type to each function-like that has none and whose return type follows from what
/// it returns: the hints are looked at until nothing changes any more.
pub fn resolve_return_expression_hints(codebase: &mut CodebaseMetadata)
    ensures
        final(codebase)@ == hints_resolved(old(codebase)@, open_keys(old(codebase)@)),
{
    let ghost start = codebase@;
    let ghost all = open_keys(start);
    let keys: Vec<SymbolIdentifier> = collect_open_keys(codebase);
    let mut changed: bool = true;
    while changed
        invariant
            views(keys@) == all,
            changed ==> hints_resolved(codebase@, all) == hints_resolved(start, all),
            !changed ==> codebase@ == hints_resolved(start, all),
        decreases untyped(codebase@, all), changed as int,
    {
        let ghost before = codebase@;
        changed = false;
        let mut i: usize = 0;
        while i < keys.len()
            invariant
                i <= keys@.len(),
                views(keys@) == all,
                codebase@ == hint_pass(before, all.take(i as int)),
                untyped(codebase@, all) <= untyped(before, all),
                changed == (untyped(codebase@, all) < untyped(before, all)),
            decreases keys@.len() - i,
        {
            assert(all.take(i + 1).drop_last() =~= all.take(i as int));
            assert(all.take(i + 1).last() == keys@[i as int]@);
            assert(all[i as int] == keys@[i as int]@);
            proof {
                lemma_step_untyped(codebase@, all[i as int], all);
            }
            if resolve_key(codebase, &keys[i]) {
                changed = true;
            }
            i = i + 1;
        }
        assert(all.take(i as int) =~= all);
    }
}

} // verus!
