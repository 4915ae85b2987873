//! What is populated, and in which order: the mathematical account.

use vstd::prelude::*;

use crate::codebase::CodebaseView;
use crate::collections::lemma_with_item;
use crate::collections::with_item;
use crate::metadata::ClassLikeView;
use crate::metadata::FunctionLikeKind;
use crate::metadata::FunctionLikeView;
use crate::metadata::MetadataFlags;
use crate::return_hints_model::hints_resolved;
use crate::return_hints_model::open_keys;

verus! {

/// How far a population has come.
#[derive(Clone, Copy, Debug, PartialEq, Eq, Structural)]
pub enum Stage {
    Selected,
    HierarchyPopulated,
    FunctionLikesPopulated,
    ClassTypesPopulated,
    ConstantsPopulated,
    DocblocksInherited,
    Finished,
}

/// Who refers to a symbol: a symbol, or a member of a class-like; and whether a signature does.
#[verifier::ext_equal]
pub enum SourceView {
    Symbol(bool, Seq<u8>),
    ClassLikeMember(bool, Seq<u8>, Seq<u8>),
}

/// A function-like whose signature is to be populated.
#[verifier::ext_equal]
pub struct FunctionLikeStepView {
    pub key: (Seq<u8>, Seq<u8>),
    pub source: SourceView,
    pub force: bool,
}

/// A symbol whose types are to be populated.
#[verifier::ext_equal]
pub struct SymbolStepView {
    pub name: Seq<u8>,
    pub force: bool,
}

/// What has to be done next.
#[verifier::ext_equal]
pub enum ActionView {
    /// Put these class-likes in order and populate each of them from its parents.
    PopulateHierarchy(Seq<Seq<u8>>),
    PopulateFunctionLikes(Seq<FunctionLikeStepView>),
    PopulateClassTypes(Seq<SymbolStepView>),
    PopulateConstants(Seq<SymbolStepView>),
    /// Inherit the docblocks of methods: of these class-likes, or of all of them.
    InheritDocblocks(Option<Seq<Seq<u8>>>),
    Nothing,
}

/// A population under way.
#[verifier::ext_equal]
pub struct PopulationView {
    pub stage: Stage,
    /// The class-likes that are populated anew.
    pub selected: Seq<Seq<u8>>,
    pub safe_symbols: Seq<Seq<u8>>,
    pub safe_members: Set<(Seq<u8>, Seq<u8>)>,
    /// The symbols that changed, where only these are looked at.
    pub dirty: Option<Seq<(Seq<u8>, Seq<u8>)>>,
}

impl PopulationView {
    /// Something is known to be safe.
    pub open spec fn incremental(self) -> bool {
        self.safe_symbols.len() > 0 || self.safe_members != Set::<(Seq<u8>, Seq<u8>)>::empty()
    }
}

// ---- selection ----

/// A user-defined symbol that is not known to be safe.
pub open spec fn is_invalidated(flags: MetadataFlags, name: Seq<u8>, safe_symbols: Seq<Seq<u8>>) -> bool {
    flags.is_user_defined && !safe_symbols.contains(name)
}

pub open spec fn is_outdated(flags: MetadataFlags, name: Seq<u8>, safe_symbols: Seq<Seq<u8>>) -> bool {
    !flags.is_populated || is_invalidated(flags, name, safe_symbols)
}

/// Those of the class-likes that are outdated.
pub open spec fn select_outdated(
    c: CodebaseView,
    names: Seq<Seq<u8>>,
    safe_symbols: Seq<Seq<u8>>,
) -> Seq<Seq<u8>>
    decreases names.len(),
{
    if names.len() == 0 {
        Seq::empty()
    } else {
        let rest = select_outdated(c, names.drop_last(), safe_symbols);
        let name = names.last();
        if c.class_likes.contains_key(name) && is_outdated(c.class_likes[name].flags, name, safe_symbols) {
            with_item(rest, name)
        } else {
            rest
        }
    }
}

/// The class-likes of `selected`, and those of `names` that are invalidated.
pub open spec fn select_invalidated(
    c: CodebaseView,
    selected: Seq<Seq<u8>>,
    names: Seq<Seq<u8>>,
    safe_symbols: Seq<Seq<u8>>,
) -> Seq<Seq<u8>>
    decreases names.len(),
{
    if names.len() == 0 {
        selected
    } else {
        let rest = select_invalidated(c, selected, names.drop_last(), safe_symbols);
        let name = names.last();
        if c.class_likes.contains_key(name) && is_invalidated(c.class_likes[name].flags, name, safe_symbols) {
            with_item(rest, name)
        } else {
            rest
        }
    }
}

/// The symbols of members.
pub open spec fn symbol_names(symbols: Seq<(Seq<u8>, Seq<u8>)>) -> Seq<Seq<u8>> {
    symbols.map_values(|s: (Seq<u8>, Seq<u8>)| s.0)
}

/// The class-likes that are populated anew: the outdated ones; where only some symbols changed, the
/// outdated ones among these and all that are invalidated.
pub open spec fn selected_class_likes(
    c: CodebaseView,
    safe_symbols: Seq<Seq<u8>>,
    dirty: Option<Seq<(Seq<u8>, Seq<u8>)>>,
) -> Seq<Seq<u8>> {
    match dirty {
        Some(symbols) => select_invalidated(
            c,
            select_outdated(c, symbol_names(symbols), safe_symbols),
            c.class_like_names,
            safe_symbols,
        ),
        None => select_outdated(c, c.class_like_names, safe_symbols),
    }
}

/// A class-like without what its population gave it.
pub open spec fn reset_class_like(m: ClassLikeView) -> ClassLikeView {
    ClassLikeView {
        flags: MetadataFlags { is_populated: false, ..m.flags },
        declaring_property_ids: Map::empty(),
        declaring_property_names: Seq::empty(),
        appearing_property_ids: Map::empty(),
        declaring_method_ids: Map::empty(),
        appearing_method_ids: Map::empty(),
        overridden_method_ids: Map::empty(),
        overridden_property_ids: Map::empty(),
        invalid_dependencies: Seq::empty(),
        ..m
    }
}

/// The codebase with these class-likes reset.
pub open spec fn with_reset(c: CodebaseView, names: Seq<Seq<u8>>) -> CodebaseView
    decreases names.len(),
{
    if names.len() == 0 {
        c
    } else {
        let rest = with_reset(c, names.drop_last());
        let name = names.last();
        if rest.class_likes.contains_key(name) {
            CodebaseView {
                class_likes: rest.class_likes.insert(name, reset_class_like(rest.class_likes[name])),
                ..rest
            }
        } else {
            rest
        }
    }
}

// ---- function-likes ----

/// Who refers to the symbols of a signature: for a closure and for a function its own symbol.
pub open spec fn signature_source(key: (Seq<u8>, Seq<u8>), f: FunctionLikeView) -> SourceView {
    if key.1.len() == 0 || f.kind == FunctionLikeKind::Closure {
        SourceView::Symbol(true, key.0)
    } else {
        SourceView::ClassLikeMember(true, key.0, key.1)
    }
}

/// Nothing that the signature of a function-like depends on has changed.
pub open spec fn is_safe_function_like(
    key: (Seq<u8>, Seq<u8>),
    f: FunctionLikeView,
    safe_symbols: Seq<Seq<u8>>,
    safe_members: Set<(Seq<u8>, Seq<u8>)>,
) -> bool {
    ||| f.kind == FunctionLikeKind::Closure
    ||| f.kind == FunctionLikeKind::ArrowFunction
    ||| safe_symbols.contains(key.0)
    ||| key.1.len() > 0 && safe_members.contains(key)
}

/// The function-likes of these keys that are populated. Where `spare` holds, one that is populated
/// is left alone unless it has to be populated again.
pub open spec fn function_like_steps(
    p: PopulationView,
    c: CodebaseView,
    keys: Seq<(Seq<u8>, Seq<u8>)>,
    spare: bool,
) -> Seq<FunctionLikeStepView>
    decreases keys.len(),
{
    if keys.len() == 0 {
        Seq::empty()
    } else {
        let rest = function_like_steps(p, c, keys.drop_last(), spare);
        let key = keys.last();
        if c.function_likes.contains_key(key) {
            let f = c.function_likes[key];
            let force = f.flags.is_user_defined && !is_safe_function_like(key, f, p.safe_symbols, p.safe_members);
            if spare && f.flags.is_populated && !force {
                rest
            } else {
                rest.push(FunctionLikeStepView { key, source: signature_source(key, f), force })
            }
        } else {
            rest
        }
    }
}

/// The changed function-likes that are populated: all that are user-defined, whatever is safe.
pub open spec fn dirty_function_like_steps(
    c: CodebaseView,
    keys: Seq<(Seq<u8>, Seq<u8>)>,
) -> Seq<FunctionLikeStepView>
    decreases keys.len(),
{
    if keys.len() == 0 {
        Seq::empty()
    } else {
        let rest = dirty_function_like_steps(c, keys.drop_last());
        let key = keys.last();
        if c.function_likes.contains_key(key) {
            let f = c.function_likes[key];
            let force = f.flags.is_user_defined;
            if f.flags.is_populated && !force {
                rest
            } else {
                rest.push(FunctionLikeStepView { key, source: signature_source(key, f), force })
            }
        } else {
            rest
        }
    }
}

/// The keys that are not among those that changed.
pub open spec fn clean_keys(
    keys: Seq<(Seq<u8>, Seq<u8>)>,
    dirty: Seq<(Seq<u8>, Seq<u8>)>,
) -> Seq<(Seq<u8>, Seq<u8>)> {
    keys.filter(|key: (Seq<u8>, Seq<u8>)| !dirty.contains(key))
}

/// The function-likes whose signatures are populated. Where only some symbols changed, these come
/// first, and then those of the others that have to be populated again.
pub open spec fn all_function_like_steps(p: PopulationView, c: CodebaseView) -> Seq<FunctionLikeStepView> {
    match p.dirty {
        Some(dirty) => dirty_function_like_steps(c, dirty) + function_like_steps(
            p,
            c,
            clean_keys(c.function_like_keys, dirty),
            true,
        ),
        None => function_like_steps(p, c, c.function_like_keys, p.incremental()),
    }
}

// ---- types of class-likes, and constants ----

/// The class-likes whose types are populated when all of them are looked at.
pub open spec fn class_type_steps(p: PopulationView, c: CodebaseView, names: Seq<Seq<u8>>) -> Seq<SymbolStepView>
    decreases names.len(),
{
    if names.len() == 0 {
        Seq::empty()
    } else {
        let rest = class_type_steps(p, c, names.drop_last());
        let name = names.last();
        if c.class_likes.contains_key(name) {
            let flags = c.class_likes[name].flags;
            let force = is_invalidated(flags, name, p.safe_symbols);
            if p.incremental() && flags.is_populated && !force {
                rest
            } else {
                rest.push(SymbolStepView { name, force })
            }
        } else {
            rest
        }
    }
}

/// The selected class-likes, as far as they are there: their types are populated in any case.
pub open spec fn forced_type_steps(c: CodebaseView, names: Seq<Seq<u8>>) -> Seq<SymbolStepView>
    decreases names.len(),
{
    if names.len() == 0 {
        Seq::empty()
    } else {
        let rest = forced_type_steps(c, names.drop_last());
        if c.class_likes.contains_key(names.last()) {
            rest.push(SymbolStepView { name: names.last(), force: true })
        } else {
            rest
        }
    }
}

pub open spec fn all_class_type_steps(p: PopulationView, c: CodebaseView) -> Seq<SymbolStepView> {
    match p.dirty {
        Some(_) => forced_type_steps(c, p.selected),
        None => class_type_steps(p, c, c.class_like_names),
    }
}

/// The constants that are populated when all of them are looked at.
pub open spec fn constant_steps(p: PopulationView, c: CodebaseView, names: Seq<Seq<u8>>) -> Seq<SymbolStepView>
    decreases names.len(),
{
    if names.len() == 0 {
        Seq::empty()
    } else {
        let rest = constant_steps(p, c, names.drop_last());
        let name = names.last();
        if c.constants.contains_key(name) {
            let flags = c.constants[name].flags;
            let force = is_invalidated(flags, name, p.safe_symbols);
            if p.incremental() && flags.is_populated && !force {
                rest
            } else {
                rest.push(SymbolStepView { name, force })
            }
        } else {
            rest
        }
    }
}

/// The changed constants that are populated. A constant has no member.
pub open spec fn dirty_constant_steps(c: CodebaseView, symbols: Seq<(Seq<u8>, Seq<u8>)>) -> Seq<SymbolStepView>
    decreases symbols.len(),
{
    if symbols.len() == 0 {
        Seq::empty()
    } else {
        let rest = dirty_constant_steps(c, symbols.drop_last());
        let (name, member) = symbols.last();
        if member.len() == 0 && c.constants.contains_key(name) {
            let force = c.constants[name].flags.is_user_defined;
            if c.constants[name].flags.is_populated && !force {
                rest
            } else {
                rest.push(SymbolStepView { name, force })
            }
        } else {
            rest
        }
    }
}

pub open spec fn all_constant_steps(p: PopulationView, c: CodebaseView) -> Seq<SymbolStepView> {
    match p.dirty {
        Some(dirty) => dirty_constant_steps(c, dirty),
        None => constant_steps(p, c, c.constant_names),
    }
}

// ---- descendants ----

/// The descendants once `child` is one of those of `parent`.
pub open spec fn with_descendant(
    descendants: Map<Seq<u8>, Seq<Seq<u8>>>,
    parent: Seq<u8>,
    child: Seq<u8>,
) -> Map<Seq<u8>, Seq<Seq<u8>>> {
    let known = if descendants.contains_key(parent) {
        descendants[parent]
    } else {
        Seq::empty()
    };
    descendants.insert(parent, with_item(known, child))
}

/// The descendants once `child` is one of those of each of these parents.
pub open spec fn with_parents(
    descendants: Map<Seq<u8>, Seq<Seq<u8>>>,
    parents: Seq<Seq<u8>>,
    child: Seq<u8>,
) -> Map<Seq<u8>, Seq<Seq<u8>>>
    decreases parents.len(),
{
    if parents.len() == 0 {
        descendants
    } else {
        with_descendant(with_parents(descendants, parents.drop_last(), child), parents.last(), child)
    }
}

/// Everything that a class-like descends from.
pub open spec fn all_parents(m: ClassLikeView) -> Seq<Seq<u8>> {
    m.all_parent_interfaces + m.all_parent_classes + m.used_traits
}

/// What a class-like extends or implements itself.
pub open spec fn direct_parents(m: ClassLikeView) -> Seq<Seq<u8>> {
    m.direct_parent_interfaces + match m.direct_parent_class {
        Some(parent) => seq![parent],
        None => Seq::empty(),
    }
}

/// The descendants of these class-likes' parents: all of them, or the direct ones.
pub open spec fn descendants(c: CodebaseView, names: Seq<Seq<u8>>, direct: bool) -> Map<Seq<u8>, Seq<Seq<u8>>>
    decreases names.len(),
{
    if names.len() == 0 {
        Map::empty()
    } else {
        let rest = descendants(c, names.drop_last(), direct);
        let name = names.last();
        if c.class_likes.contains_key(name) {
            with_parents(
                rest,
                if direct {
                    direct_parents(c.class_likes[name])
                } else {
                    all_parents(c.class_likes[name])
                },
                name,
            )
        } else {
            rest
        }
    }
}

/// The class-likes, each with the children that it has.
pub open spec fn with_children(
    class_likes: Map<Seq<u8>, ClassLikeView>,
    direct: Map<Seq<u8>, Seq<Seq<u8>>>,
) -> Map<Seq<u8>, ClassLikeView> {
    Map::new(
        |name: Seq<u8>| class_likes.contains_key(name),
        |name: Seq<u8>|
            if direct.contains_key(name) {
                ClassLikeView { child_class_likes: Some(direct[name]), ..class_likes[name] }
            } else {
                class_likes[name]
            },
    )
}

/// The codebase with its descendants found anew.
pub open spec fn with_descendants(c: CodebaseView) -> CodebaseView {
    let direct = descendants(c, c.class_like_names, true);
    CodebaseView {
        class_likes: with_children(c.class_likes, direct),
        all_class_like_descendants: descendants(c, c.class_like_names, false),
        direct_classlike_descendants: direct,
        ..c
    }
}

/// `child` is found among the descendants of `parent`.
pub open spec fn is_descendant(
    descendants: Map<Seq<u8>, Seq<Seq<u8>>>,
    parent: Seq<u8>,
    child: Seq<u8>,
) -> bool {
    descendants.contains_key(parent) && descendants[parent].contains(child)
}

proof fn lemma_with_parents(
    known: Map<Seq<u8>, Seq<Seq<u8>>>,
    parents: Seq<Seq<u8>>,
    child: Seq<u8>,
    p: Seq<u8>,
    d: Seq<u8>,
)
    ensures
        is_descendant(with_parents(known, parents, child), p, d) <==> is_descendant(known, p, d) || (d == child
            && parents.contains(p)),
    decreases parents.len(),
{
    if parents.len() > 0 {
        let rest = parents.drop_last();
        lemma_with_parents(known, rest, child, p, d);
        let between = with_parents(known, rest, child);
        let last = parents.last();
        let before = if between.contains_key(last) {
            between[last]
        } else {
            Seq::empty()
        };
        lemma_with_item(before, child, d);
        assert(parents.contains(p) <==> rest.contains(p) || p == last) by {
            if parents.contains(p) {
                let i = choose|i: int| 0 <= i < parents.len() && parents[i] == p;
                if i < rest.len() {
                    assert(rest[i] == p);
                }
            }
            if rest.contains(p) {
                let i = choose|i: int| 0 <= i < rest.len() && rest[i] == p;
                assert(parents[i] == p);
            }
            if p == last {
                assert(parents[parents.len() - 1] == p);
            }
        }
    }
}

/// A class-like is found among the descendants of another one exactly where it lists that one among
/// its parents.
pub proof fn descendants_mirror_parents(
    c: CodebaseView,
    names: Seq<Seq<u8>>,
    direct: bool,
    parent: Seq<u8>,
    child: Seq<u8>,
)
    ensures
        is_descendant(descendants(c, names, direct), parent, child) <==> {
            &&& names.contains(child)
            &&& c.class_likes.contains_key(child)
            &&& if direct {
                direct_parents(c.class_likes[child]).contains(parent)
            } else {
                all_parents(c.class_likes[child]).contains(parent)
            }
        },
    decreases names.len(),
{
    if names.len() > 0 {
        let rest = names.drop_last();
        descendants_mirror_parents(c, rest, direct, parent, child);
        let last = names.last();
        if c.class_likes.contains_key(last) {
            let parents = if direct {
                direct_parents(c.class_likes[last])
            } else {
                all_parents(c.class_likes[last])
            };
            lemma_with_parents(descendants(c, rest, direct), parents, last, parent, child);
        }
        assert(names.contains(child) <==> rest.contains(child) || child == last) by {
            if names.contains(child) {
                let i = choose|i: int| 0 <= i < names.len() && names[i] == child;
                if i < rest.len() {
                    assert(rest[i] == child);
                }
            }
            if rest.contains(child) {
                let i = choose|i: int| 0 <= i < rest.len() && rest[i] == child;
                assert(names[i] == child);
            }
            if child == last {
                assert(names[names.len() - 1] == child);
            }
        }
    }
}

// ---- the whole ----

/// The descendants are found anew, and docblocks inherited: always, unless something is safe and no
/// class-like was selected.
pub open spec fn rebuilds(p: PopulationView) -> bool {
    !p.incremental() || p.selected.len() > 0
}

/// What is done next.
pub open spec fn next_action(p: PopulationView, c: CodebaseView) -> ActionView {
    match p.stage {
        Stage::Selected => ActionView::PopulateHierarchy(p.selected),
        Stage::HierarchyPopulated => ActionView::PopulateFunctionLikes(all_function_like_steps(p, c)),
        Stage::FunctionLikesPopulated => ActionView::PopulateClassTypes(
            all_class_type_steps(p, hints_resolved(c, open_keys(c))),
        ),
        Stage::ClassTypesPopulated => ActionView::PopulateConstants(all_constant_steps(p, c)),
        Stage::ConstantsPopulated => if rebuilds(p) {
            ActionView::InheritDocblocks(
                match p.dirty {
                    Some(_) => Some(p.selected),
                    None => None,
                },
            )
        } else {
            ActionView::Nothing
        },
        Stage::DocblocksInherited => ActionView::Nothing,
        Stage::Finished => ActionView::Nothing,
    }
}

pub open spec fn next_stage(p: PopulationView) -> Stage {
    match p.stage {
        Stage::Selected => Stage::HierarchyPopulated,
        Stage::HierarchyPopulated => Stage::FunctionLikesPopulated,
        Stage::FunctionLikesPopulated => Stage::ClassTypesPopulated,
        Stage::ClassTypesPopulated => Stage::ConstantsPopulated,
        Stage::ConstantsPopulated => if rebuilds(p) {
            Stage::DocblocksInherited
        } else {
            Stage::Finished
        },
        Stage::DocblocksInherited => Stage::Finished,
        Stage::Finished => Stage::Finished,
    }
}

/// The codebase when the next action begins. Hints are resolved once the signatures are populated,
/// and before the types of class-likes are.
pub open spec fn next_codebase(p: PopulationView, c: CodebaseView) -> CodebaseView {
    let known = match p.stage {
        Stage::FunctionLikesPopulated => hints_resolved(c, open_keys(c)),
        Stage::ConstantsPopulated => if rebuilds(p) {
            with_descendants(c)
        } else {
            c
        },
        _ => c,
    };
    if next_stage(p) == Stage::Finished && p.stage != Stage::Finished {
        CodebaseView { safe_symbols: p.safe_symbols, safe_symbol_members: p.safe_members, ..known }
    } else {
        known
    }
}

} // verus!
