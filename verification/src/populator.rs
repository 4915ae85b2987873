//! Populating the codebase: types are resolved and inheritance is followed.
//!
//! A population is a sequence of stages. Between two of them the signatures, hierarchies and types
//! that it names are populated; what is named, and what happens in between, is decided here.

use vstd::prelude::*;

use crate::codebase::symbol_set_contains;
use crate::codebase::symbol_set_is_empty;
use crate::codebase::symbol_set_items;
use crate::codebase::symbols_of;
use crate::codebase::CodebaseMetadata;
use crate::codebase::CodebaseView;
use crate::collections::lemma_views_push;
use crate::collections::option_view;
use crate::collections::views;
use crate::collections::SymbolIdentifier;
use crate::collections::WordMap;
use crate::collections::WordSet;
use crate::metadata::ClassLikeMetadata;
use crate::metadata::ClassLikeView;
use crate::metadata::ConstantMetadata;
use crate::metadata::ConstantView;
use crate::metadata::FunctionLikeKind;
use crate::metadata::FunctionLikeMetadata;
use crate::metadata::MetadataFlags;
use crate::metadata::TypeMetadata;
use crate::metadata::TypeView;
use crate::populator_model::all_class_type_steps;
use crate::populator_model::all_constant_steps;
use crate::populator_model::all_function_like_steps;
use crate::populator_model::class_type_steps;
use crate::populator_model::clean_keys;
use crate::populator_model::constant_steps;
use crate::populator_model::descendants;
use crate::populator_model::direct_parents;
use crate::populator_model::dirty_constant_steps;
use crate::populator_model::dirty_function_like_steps;
use crate::populator_model::forced_type_steps;
use crate::populator_model::function_like_steps;
use crate::populator_model::is_invalidated;
use crate::populator_model::is_safe_function_like;
use crate::populator_model::next_action;
use crate::populator_model::next_codebase;
use crate::populator_model::next_stage;
use crate::populator_model::reset_class_like;
use crate::populator_model::select_invalidated;
use crate::populator_model::select_outdated;
use crate::populator_model::selected_class_likes;
use crate::populator_model::signature_source;
use crate::populator_model::symbol_names;
use crate::populator_model::with_children;
use crate::populator_model::with_descendant;
use crate::populator_model::with_descendants;
use crate::populator_model::with_parents;
use crate::populator_model::with_reset;
use crate::populator_model::ActionView;
use crate::populator_model::FunctionLikeStepView;
use crate::populator_model::PopulationView;
use crate::populator_model::SourceView;
use crate::populator_model::Stage;
use crate::populator_model::SymbolStepView;
use crate::return_hints::resolve_return_expression_hints;
use crate::ttype::TUnion;
use crate::ttype::UnionView;
use crate::word::copy_word;
use crate::word::same_word;
use crate::word::Word;

verus! {

/// Who refers to a symbol, and whether a signature does.
pub enum ReferenceSource {
    Symbol(bool, Word),
    ClassLikeMember(bool, Word, Word),
}

impl View for ReferenceSource {
    type V = SourceView;

    open spec fn view(&self) -> SourceView {
        match *self {
            ReferenceSource::Symbol(in_signature, symbol) => SourceView::Symbol(in_signature, symbol@),
            ReferenceSource::ClassLikeMember(in_signature, class_like, member) => SourceView::ClassLikeMember(
                in_signature,
                class_like@,
                member@,
            ),
        }
    }
}

/// A function-like whose signature is to be populated, for which source, and whether again.
pub struct FunctionLikeStep {
    pub key: SymbolIdentifier,
    pub source: ReferenceSource,
    pub force: bool,
}

impl View for FunctionLikeStep {
    type V = FunctionLikeStepView;

    open spec fn view(&self) -> FunctionLikeStepView {
        FunctionLikeStepView { key: self.key@, source: self.source@, force: self.force }
    }
}

/// A symbol whose types are to be populated, and whether again.
pub struct SymbolStep {
    pub name: Word,
    pub force: bool,
}

impl View for SymbolStep {
    type V = SymbolStepView;

    open spec fn view(&self) -> SymbolStepView {
        SymbolStepView { name: self.name@, force: self.force }
    }
}

/// What has to be done next.
pub enum PopulationAction {
    PopulateHierarchy(WordSet),
    PopulateFunctionLikes(Vec<FunctionLikeStep>),
    PopulateClassTypes(Vec<SymbolStep>),
    PopulateConstants(Vec<SymbolStep>),
    InheritDocblocks(Option<WordSet>),
    Nothing,
}

impl View for PopulationAction {
    type V = ActionView;

    open spec fn view(&self) -> ActionView {
        match *self {
            PopulationAction::PopulateHierarchy(names) => ActionView::PopulateHierarchy(names@),
            PopulationAction::PopulateFunctionLikes(steps) => ActionView::PopulateFunctionLikes(views(steps@)),
            PopulationAction::PopulateClassTypes(steps) => ActionView::PopulateClassTypes(views(steps@)),
            PopulationAction::PopulateConstants(steps) => ActionView::PopulateConstants(views(steps@)),
            PopulationAction::InheritDocblocks(names) => ActionView::InheritDocblocks(option_view(names)),
            PopulationAction::Nothing => ActionView::Nothing,
        }
    }
}

/// A population under way.
pub struct Population {
    stage: Stage,
    selected: WordSet,
    safe_symbols: WordSet,
    safe_symbol_members: foldhash::HashSet<(Vec<u8>, Vec<u8>)>,
    dirty: Option<Vec<SymbolIdentifier>>,
}

impl View for Population {
    type V = PopulationView;

    closed spec fn view(&self) -> PopulationView {
        PopulationView {
            stage: self.stage,
            selected: self.selected@,
            safe_symbols: self.safe_symbols@,
            safe_members: symbols_of(self.safe_symbol_members),
            dirty: match self.dirty {
                Some(items) => Some(views(items@)),
                None => None,
            },
        }
    }
}

// ---- selection ----

fn check_invalidated(flags: MetadataFlags, name: &Word, safe_symbols: &WordSet) -> (invalidated: bool)
    ensures
        invalidated == is_invalidated(flags, name@, safe_symbols@),
{
    flags.is_user_defined && !safe_symbols.contains(name)
}

/// The names of the class-likes.
fn class_like_names(codebase: &CodebaseMetadata) -> (names: Vec<Word>)
    ensures
        views(names@) == codebase@.class_like_names,
{
    let ghost all = codebase.class_likes.keys();
    let mut names: Vec<Word> = Vec::new();
    let mut i: usize = 0;
    while i < codebase.class_likes.len()
        invariant
            i <= all.len(),
            all == codebase.class_likes.keys(),
            names@.len() == i,
            forall|j: int| 0 <= j < i ==> #[trigger] names@[j]@ == all[j],
        decreases all.len() - i,
    {
        names.push(copy_word(codebase.class_likes.key_at(i).as_slice()));
        i = i + 1;
    }
    assert(views(names@) =~= all);
    names
}

/// The symbols of members.
fn collect_symbol_names(symbols: &Vec<SymbolIdentifier>) -> (names: Vec<Word>)
    ensures
        views(names@) == symbol_names(views(symbols@)),
{
    let mut names: Vec<Word> = Vec::new();
    let mut i: usize = 0;
    while i < symbols.len()
        invariant
            i <= symbols@.len(),
            names@.len() == i,
            forall|j: int| 0 <= j < i ==> #[trigger] names@[j]@ == symbols@[j].0@,
        decreases symbols@.len() - i,
    {
        names.push(copy_word(symbols[i].0.as_slice()));
        i = i + 1;
    }
    assert(views(names@) =~= symbol_names(views(symbols@)));
    names
}

fn collect_outdated(codebase: &CodebaseMetadata, names: &Vec<Word>, safe_symbols: &WordSet) -> (selected: WordSet)
    ensures
        selected@ == select_outdated(codebase@, views(names@), safe_symbols@),
{
    let ghost all = views(names@);
    let mut selected: WordSet = WordSet::new();
    let mut i: usize = 0;
    while i < names.len()
        invariant
            i <= names@.len(),
            all == views(names@),
            selected@ == select_outdated(codebase@, all.take(i as int), safe_symbols@),
        decreases names@.len() - i,
    {
        assert(all.take(i + 1).drop_last() =~= all.take(i as int));
        assert(all.take(i + 1).last() == names@[i as int]@);
        if let Some(meta) = codebase.class_likes.get(&names[i]) {
            if !meta.flags.is_populated || check_invalidated(meta.flags, &names[i], safe_symbols) {
                let _ = selected.insert(copy_word(names[i].as_slice()));
            }
        }
        i = i + 1;
    }
    assert(all.take(i as int) =~= all);
    selected
}

fn collect_invalidated(
    codebase: &CodebaseMetadata,
    selected: &mut WordSet,
    names: &Vec<Word>,
    safe_symbols: &WordSet,
)
    ensures
        final(selected)@ == select_invalidated(codebase@, old(selected)@, views(names@), safe_symbols@),
{
    let ghost all = views(names@);
    let ghost start = selected@;
    let mut i: usize = 0;
    while i < names.len()
        invariant
            i <= names@.len(),
            all == views(names@),
            selected@ == select_invalidated(codebase@, start, all.take(i as int), safe_symbols@),
        decreases names@.len() - i,
    {
        assert(all.take(i + 1).drop_last() =~= all.take(i as int));
        assert(all.take(i + 1).last() == names@[i as int]@);
        if let Some(meta) = codebase.class_likes.get(&names[i]) {
            if check_invalidated(meta.flags, &names[i], safe_symbols) {
                let _ = selected.insert(copy_word(names[i].as_slice()));
            }
        }
        i = i + 1;
    }
    assert(all.take(i as int) =~= all);
}

/// Takes away from a class-like what its population gave it.
pub fn reset_population(meta: &mut ClassLikeMetadata)
    ensures
        final(meta)@ == reset_class_like(old(meta)@),
{
    meta.flags = MetadataFlags { is_populated: false, ..meta.flags };
    meta.declaring_property_ids.clear();
    meta.appearing_property_ids.clear();
    meta.declaring_method_ids.clear();
    meta.appearing_method_ids.clear();
    meta.overridden_method_ids.clear();
    meta.overridden_property_ids.clear();
    meta.invalid_dependencies.clear();
    assert(meta@ =~= reset_class_like(old(meta)@));
}

fn reset_selected(codebase: &mut CodebaseMetadata, names: &WordSet)
    ensures
        final(codebase)@ == with_reset(old(codebase)@, names@),
{
    let ghost start = codebase@;
    let mut i: usize = 0;
    while i < names.len()
        invariant
            i <= names@.len(),
            codebase@ == with_reset(start, names@.take(i as int)),
        decreases names@.len() - i,
    {
        let ghost before = codebase@;
        assert(names@.take(i + 1).drop_last() =~= names@.take(i as int));
        assert(names@.take(i + 1).last() == names@[i as int]);
        let name = names.at(i);
        if let Some(meta) = codebase.class_likes.get_mut(name) {
            reset_population(meta);
        }
        assert(codebase@ =~= with_reset(start, names@.take(i + 1)));
        i = i + 1;
    }
    assert(names@.take(i as int) =~= names@);
}

/// Selects the class-likes that are populated anew, and resets them.
fn populate_codebase_inner(
    codebase: &mut CodebaseMetadata,
    safe_symbols: WordSet,
    safe_symbol_members: foldhash::HashSet<(Vec<u8>, Vec<u8>)>,
    dirty: Option<Vec<SymbolIdentifier>>,
) -> (p: Population)
    ensures
        p@.stage == Stage::Selected,
        p@.safe_symbols == safe_symbols@,
        p@.safe_members == symbols_of(safe_symbol_members),
        p@.dirty == match dirty {
            Some(items) => Some(views(items@)),
            None => None,
        },
        p@.selected == selected_class_likes(old(codebase)@, safe_symbols@, p@.dirty),
        final(codebase)@ == with_reset(old(codebase)@, p@.selected),
{
    let names: Vec<Word> = class_like_names(codebase);
    let selected: WordSet = match &dirty {
        Some(symbols) => {
            let dirty_names: Vec<Word> = collect_symbol_names(symbols);
            let mut selected: WordSet = collect_outdated(codebase, &dirty_names, &safe_symbols);
            collect_invalidated(codebase, &mut selected, &names, &safe_symbols);
            selected
        },
        None => collect_outdated(codebase, &names, &safe_symbols),
    };
    reset_selected(codebase, &selected);
    Population { stage: Stage::Selected, selected, safe_symbols, safe_symbol_members, dirty }
}

/// Begins to populate the codebase: the class-likes that have to be populated are selected, and what
/// an earlier population gave them is taken away.
pub fn populate_codebase(
    codebase: &mut CodebaseMetadata,
    safe_symbols: WordSet,
    safe_symbol_members: foldhash::HashSet<(Vec<u8>, Vec<u8>)>,
) -> (p: Population)
    ensures
        p@ == (PopulationView {
            stage: Stage::Selected,
            selected: selected_class_likes(old(codebase)@, safe_symbols@, None),
            safe_symbols: safe_symbols@,
            safe_members: symbols_of(safe_symbol_members),
            dirty: None,
        }),
        final(codebase)@ == with_reset(old(codebase)@, p@.selected),
{
    populate_codebase_inner(codebase, safe_symbols, safe_symbol_members, None)
}

/// Begins to populate the codebase where only the symbols of `dirty_symbols` changed. These are
/// taken in an order that nothing is known of, each once.
pub fn populate_codebase_targeted(
    codebase: &mut CodebaseMetadata,
    safe_symbols: WordSet,
    safe_symbol_members: foldhash::HashSet<(Vec<u8>, Vec<u8>)>,
    dirty_symbols: foldhash::HashSet<(Vec<u8>, Vec<u8>)>,
) -> (p: Population)
    ensures
        p@.stage == Stage::Selected,
        p@.safe_symbols == safe_symbols@,
        p@.safe_members == symbols_of(safe_symbol_members),
        p@.dirty is Some,
        p@.dirty->0.to_set() == symbols_of(dirty_symbols),
        p@.dirty->0.no_duplicates(),
        p@.selected == selected_class_likes(old(codebase)@, safe_symbols@, p@.dirty),
        final(codebase)@ == with_reset(old(codebase)@, p@.selected),
{
    let items: Vec<SymbolIdentifier> = symbol_set_items(&dirty_symbols);
    populate_codebase_inner(codebase, safe_symbols, safe_symbol_members, Some(items))
}

// ---- steps ----

fn make_signature_source(key: &SymbolIdentifier, f: &FunctionLikeMetadata) -> (source: ReferenceSource)
    ensures
        source@ == signature_source(key@, f@),
{
    if key.1.len() == 0 || f.kind == FunctionLikeKind::Closure {
        ReferenceSource::Symbol(true, copy_word(key.0.as_slice()))
    } else {
        ReferenceSource::ClassLikeMember(true, copy_word(key.0.as_slice()), copy_word(key.1.as_slice()))
    }
}

fn make_step(key: &SymbolIdentifier, f: &FunctionLikeMetadata, force: bool) -> (step: FunctionLikeStep)
    ensures
        step@ == (FunctionLikeStepView { key: key@, source: signature_source(key@, f@), force }),
{
    FunctionLikeStep {
        key: (copy_word(key.0.as_slice()), copy_word(key.1.as_slice())),
        source: make_signature_source(key, f),
        force,
    }
}

fn contains_symbol(symbols: &Vec<SymbolIdentifier>, symbol: &SymbolIdentifier) -> (found: bool)
    ensures
        found == views(symbols@).contains(symbol@),
{
    let mut i: usize = 0;
    while i < symbols.len()
        invariant
            i <= symbols@.len(),
            forall|j: int| 0 <= j < i ==> views(symbols@)[j] != symbol@,
        decreases symbols@.len() - i,
    {
        assert(views(symbols@)[i as int] == symbols@[i as int]@);
        if same_word(symbols[i].0.as_slice(), symbol.0.as_slice()) && same_word(
            symbols[i].1.as_slice(),
            symbol.1.as_slice(),
        ) {
            return true;
        }
        i = i + 1;
    }
    false
}

fn collect_dirty_steps(codebase: &CodebaseMetadata, keys: &Vec<SymbolIdentifier>) -> (steps: Vec<FunctionLikeStep>)
    ensures
        views(steps@) == dirty_function_like_steps(codebase@, views(keys@)),
{
    broadcast use lemma_views_push;

    let ghost all = views(keys@);
    let mut steps: Vec<FunctionLikeStep> = Vec::new();
    let mut i: usize = 0;
    assert(views(steps@) =~= dirty_function_like_steps(codebase@, all.take(0)));
    while i < keys.len()
        invariant
            i <= keys@.len(),
            all == views(keys@),
            views(steps@) == dirty_function_like_steps(codebase@, all.take(i as int)),
        decreases keys@.len() - i,
    {
        assert(all.take(i + 1).drop_last() =~= all.take(i as int));
        assert(all.take(i + 1).last() == keys@[i as int]@);
        if let Some(f) = codebase.function_likes.get(&keys[i]) {
            let force: bool = f.flags.is_user_defined;
            if !f.flags.is_populated || force {
                steps.push(make_step(&keys[i], f, force));
            }
        }
        i = i + 1;
    }
    assert(all.take(i as int) =~= all);
    steps
}

/// The keys that are not among those that changed.
fn collect_clean_keys(codebase: &CodebaseMetadata, dirty: &Vec<SymbolIdentifier>) -> (keys: Vec<SymbolIdentifier>)
    ensures
        views(keys@) == clean_keys(codebase@.function_like_keys, views(dirty@)),
{
    broadcast use lemma_views_push;

    let ghost all = codebase.function_likes.keys();
    let ghost changed = views(dirty@);
    let ghost pred = |key: (Seq<u8>, Seq<u8>)| !changed.contains(key);
    let mut keys: Vec<SymbolIdentifier> = Vec::new();
    let mut i: usize = 0;
    proof {
        reveal(Seq::filter);
        assert(views(keys@) =~= all.take(0).filter(pred));
    }
    while i < codebase.function_likes.len()
        invariant
            i <= all.len(),
            all == codebase.function_likes.keys(),
            changed == views(dirty@),
            pred == (|key: (Seq<u8>, Seq<u8>)| !changed.contains(key)),
            views(keys@) == all.take(i as int).filter(pred),
        decreases all.len() - i,
    {
        let ghost before = views(keys@);
        let key = codebase.function_likes.key_at(i);
        proof {
            reveal(Seq::filter);
            assert(all.take(i + 1).drop_last() =~= all.take(i as int));
            assert(all.take(i + 1).last() == key@);
        }
        let is_dirty: bool = contains_symbol(dirty, key);
        assert(pred(key@) == !is_dirty);
        if !is_dirty {
            let copy: SymbolIdentifier = (copy_word(key.0.as_slice()), copy_word(key.1.as_slice()));
            keys.push(copy);
            assert(views(keys@) == before.push(key@));
        }
        i = i + 1;
    }
    assert(all.take(i as int) =~= all);
    keys
}

/// The keys of all function-likes.
fn function_like_keys(codebase: &CodebaseMetadata) -> (keys: Vec<SymbolIdentifier>)
    ensures
        views(keys@) == codebase@.function_like_keys,
{
    let ghost all = codebase.function_likes.keys();
    let mut keys: Vec<SymbolIdentifier> = Vec::new();
    let mut i: usize = 0;
    while i < codebase.function_likes.len()
        invariant
            i <= all.len(),
            all == codebase.function_likes.keys(),
            keys@.len() == i,
            forall|j: int| 0 <= j < i ==> #[trigger] keys@[j]@ == all[j],
        decreases all.len() - i,
    {
        let key = codebase.function_likes.key_at(i);
        let copy: SymbolIdentifier = (copy_word(key.0.as_slice()), copy_word(key.1.as_slice()));
        keys.push(copy);
        i = i + 1;
    }
    assert(views(keys@) =~= all);
    keys
}

impl Population {
    pub fn stage(&self) -> (stage: Stage)
        ensures
            stage == self@.stage,
    {
        self.stage
    }

    /// The symbols that are known to be safe.
    pub fn safe_symbols(&self) -> (symbols: &WordSet)
        ensures
            symbols@ == self@.safe_symbols,
    {
        &self.safe_symbols
    }

    fn is_incremental(&self) -> (incremental: bool)
        ensures
            incremental == self@.incremental(),
    {
        !self.safe_symbols.is_empty() || !symbol_set_is_empty(&self.safe_symbol_members)
    }

    fn check_safe(&self, key: &SymbolIdentifier, f: &FunctionLikeMetadata) -> (safe: bool)
        ensures
            safe == is_safe_function_like(key@, f@, self@.safe_symbols, self@.safe_members),
    {
        if f.kind == FunctionLikeKind::Closure || f.kind == FunctionLikeKind::ArrowFunction {
            true
        } else if key.1.len() == 0 {
            self.safe_symbols.contains(&key.0)
        } else {
            symbol_set_contains(&self.safe_symbol_members, key) || self.safe_symbols.contains(&key.0)
        }
    }

    fn collect_steps(
        &self,
        codebase: &CodebaseMetadata,
        keys: &Vec<SymbolIdentifier>,
        spare: bool,
    ) -> (steps: Vec<FunctionLikeStep>)
        ensures
            views(steps@) == function_like_steps(self@, codebase@, views(keys@), spare),
    {
        broadcast use lemma_views_push;

        let ghost all = views(keys@);
        let mut steps: Vec<FunctionLikeStep> = Vec::new();
        let mut i: usize = 0;
        assert(views(steps@) =~= function_like_steps(self@, codebase@, all.take(0), spare));
        while i < keys.len()
            invariant
                i <= keys@.len(),
                all == views(keys@),
                views(steps@) == function_like_steps(self@, codebase@, all.take(i as int), spare),
            decreases keys@.len() - i,
        {
            assert(all.take(i + 1).drop_last() =~= all.take(i as int));
            assert(all.take(i + 1).last() == keys@[i as int]@);
            if let Some(f) = codebase.function_likes.get(&keys[i]) {
                let force: bool = f.flags.is_user_defined && !self.check_safe(&keys[i], f);
                if !(spare && f.flags.is_populated && !force) {
                    steps.push(make_step(&keys[i], f, force));
                }
            }
            i = i + 1;
        }
        assert(all.take(i as int) =~= all);
        steps
    }

    /// The function-likes whose signatures are populated.
    fn plan_function_likes(&self, codebase: &CodebaseMetadata) -> (steps: Vec<FunctionLikeStep>)
        ensures
            views(steps@) == all_function_like_steps(self@, codebase@),
    {
        match &self.dirty {
            Some(dirty) => {
                let mut steps = collect_dirty_steps(codebase, dirty);
                let clean = collect_clean_keys(codebase, dirty);
                let mut others = self.collect_steps(codebase, &clean, true);
                let ghost first = steps@;
                let ghost second = others@;
                steps.append(&mut others);
                assert(views(steps@) =~= views(first) + views(second));
                steps
            },
            None => {
                let keys = function_like_keys(codebase);
                self.collect_steps(codebase, &keys, self.is_incremental())
            },
        }
    }

    /// The class-likes whose types are populated.
    fn plan_class_types(&self, codebase: &CodebaseMetadata) -> (steps: Vec<SymbolStep>)
        ensures
            views(steps@) == all_class_type_steps(self@, codebase@),
    {
        broadcast use lemma_views_push;

        let mut steps: Vec<SymbolStep> = Vec::new();
        let mut i: usize = 0;
        if self.dirty.is_some() {
            let ghost all = self.selected@;
            assert(views(steps@) =~= forced_type_steps(codebase@, all.take(0)));
            while i < self.selected.len()
                invariant
                    i <= all.len(),
                    all == self.selected@,
                    views(steps@) == forced_type_steps(codebase@, all.take(i as int)),
                decreases all.len() - i,
            {
                assert(all.take(i + 1).drop_last() =~= all.take(i as int));
                assert(all.take(i + 1).last() == all[i as int]);
                let name = self.selected.at(i);
                if codebase.class_likes.contains_key(name) {
                    steps.push(SymbolStep { name: copy_word(name.as_slice()), force: true });
                }
                i = i + 1;
            }
            assert(all.take(i as int) =~= all);
            return steps;
        }
        let incremental: bool = self.is_incremental();
        let ghost all = codebase.class_likes.keys();
        assert(views(steps@) =~= class_type_steps(self@, codebase@, all.take(0)));
        while i < codebase.class_likes.len()
            invariant
                i <= all.len(),
                all == codebase.class_likes.keys(),
                incremental == self@.incremental(),
                views(steps@) == class_type_steps(self@, codebase@, all.take(i as int)),
            decreases all.len() - i,
        {
            assert(all.take(i + 1).drop_last() =~= all.take(i as int));
            assert(all.take(i + 1).last() == all[i as int]);
            let name = codebase.class_likes.key_at(i);
            if let Some(meta) = codebase.class_likes.get(name) {
                let force: bool = check_invalidated(meta.flags, name, &self.safe_symbols);
                if !(incremental && meta.flags.is_populated && !force) {
                    steps.push(SymbolStep { name: copy_word(name.as_slice()), force });
                }
            }
            i = i + 1;
        }
        assert(all.take(i as int) =~= all);
        steps
    }

    /// The constants that are populated.
    fn plan_constants(&self, codebase: &CodebaseMetadata) -> (steps: Vec<SymbolStep>)
        ensures
            views(steps@) == all_constant_steps(self@, codebase@),
    {
        broadcast use lemma_views_push;

        let mut steps: Vec<SymbolStep> = Vec::new();
        let mut i: usize = 0;
        if let Some(dirty) = &self.dirty {
            let ghost all = views(dirty@);
            assert(views(steps@) =~= dirty_constant_steps(codebase@, all.take(0)));
            while i < dirty.len()
                invariant
                    i <= dirty@.len(),
                    all == views(dirty@),
                    views(steps@) == dirty_constant_steps(codebase@, all.take(i as int)),
                decreases dirty@.len() - i,
            {
                assert(all.take(i + 1).drop_last() =~= all.take(i as int));
                assert(all.take(i + 1).last() == dirty@[i as int]@);
                if dirty[i].1.len() == 0 {
                    if let Some(constant) = codebase.constants.get(&dirty[i].0) {
                        let force: bool = constant.flags.is_user_defined;
                        if !constant.flags.is_populated || force {
                            steps.push(SymbolStep { name: copy_word(dirty[i].0.as_slice()), force });
                        }
                    }
                }
                i = i + 1;
            }
            assert(all.take(i as int) =~= all);
            return steps;
        }
        let incremental: bool = self.is_incremental();
        let ghost all = codebase.constants.keys();
        assert(views(steps@) =~= constant_steps(self@, codebase@, all.take(0)));
        while i < codebase.constants.len()
            invariant
                i <= all.len(),
                all == codebase.constants.keys(),
                incremental == self@.incremental(),
                views(steps@) == constant_steps(self@, codebase@, all.take(i as int)),
            decreases all.len() - i,
        {
            assert(all.take(i + 1).drop_last() =~= all.take(i as int));
            assert(all.take(i + 1).last() == all[i as int]);
            let name = codebase.constants.key_at(i);
            if let Some(constant) = codebase.constants.get(name) {
                let force: bool = check_invalidated(constant.flags, name, &self.safe_symbols);
                if !(incremental && constant.flags.is_populated && !force) {
                    steps.push(SymbolStep { name: copy_word(name.as_slice()), force });
                }
            }
            i = i + 1;
        }
        assert(all.take(i as int) =~= all);
        steps
    }
}

// ---- descendants ----

fn add_descendant(known: &mut WordMap<WordSet>, parent: &Word, child: &Word)
    ensures
        final(known)@ == with_descendant(old(known)@, parent@, child@),
{
    let mut children: WordSet = match known.get(parent) {
        Some(children) => children.copy(),
        None => WordSet::new(),
    };
    let _ = children.insert(copy_word(child.as_slice()));
    known.insert(copy_word(parent.as_slice()), children);
}

fn add_parents(known: &mut WordMap<WordSet>, parents: &WordSet, child: &Word)
    ensures
        final(known)@ == with_parents(old(known)@, parents@, child@),
{
    let ghost start = known@;
    let mut i: usize = 0;
    while i < parents.len()
        invariant
            i <= parents@.len(),
            known@ == with_parents(start, parents@.take(i as int), child@),
        decreases parents@.len() - i,
    {
        assert(parents@.take(i + 1).drop_last() =~= parents@.take(i as int));
        assert(parents@.take(i + 1).last() == parents@[i as int]);
        add_descendant(known, parents.at(i), child);
        i = i + 1;
    }
    assert(parents@.take(i as int) =~= parents@);
}

/// Parents after other parents are added after them.
proof fn lemma_with_parents_concat(
    known: Map<Seq<u8>, Seq<Seq<u8>>>,
    a: Seq<Seq<u8>>,
    b: Seq<Seq<u8>>,
    child: Seq<u8>,
)
    ensures
        with_parents(known, a + b, child) == with_parents(with_parents(known, a, child), b, child),
    decreases b.len(),
{
    if b.len() == 0 {
        assert(a + b =~= a);
    } else {
        assert((a + b).drop_last() =~= a + b.drop_last());
        lemma_with_parents_concat(known, a, b.drop_last(), child);
    }
}

/// The descendants of all class-likes.
fn collect_descendants(codebase: &CodebaseMetadata) -> (all: WordMap<WordSet>)
    ensures
        all@ == descendants(codebase@, codebase@.class_like_names, false),
{
    let ghost names = codebase.class_likes.keys();
    let mut all: WordMap<WordSet> = WordMap::new();
    let mut i: usize = 0;
    while i < codebase.class_likes.len()
        invariant
            i <= names.len(),
            names == codebase.class_likes.keys(),
            all@ == descendants(codebase@, names.take(i as int), false),
        decreases names.len() - i,
    {
        assert(names.take(i + 1).drop_last() =~= names.take(i as int));
        assert(names.take(i + 1).last() == names[i as int]);
        let name = codebase.class_likes.key_at(i);
        if let Some(meta) = codebase.class_likes.get(name) {
            proof {
                lemma_with_parents_concat(
                    all@,
                    meta@.all_parent_interfaces + meta@.all_parent_classes,
                    meta@.used_traits,
                    name@,
                );
                lemma_with_parents_concat(all@, meta@.all_parent_interfaces, meta@.all_parent_classes, name@);
            }
            add_parents(&mut all, &meta.all_parent_interfaces, name);
            add_parents(&mut all, &meta.all_parent_classes, name);
            add_parents(&mut all, &meta.used_traits, name);
        }
        i = i + 1;
    }
    assert(names.take(i as int) =~= names);
    all
}

/// The direct descendants of all class-likes.
fn collect_direct_descendants(codebase: &CodebaseMetadata) -> (direct: WordMap<WordSet>)
    ensures
        direct@ == descendants(codebase@, codebase@.class_like_names, true),
{
    let ghost names = codebase.class_likes.keys();
    let mut direct: WordMap<WordSet> = WordMap::new();
    let mut i: usize = 0;
    while i < codebase.class_likes.len()
        invariant
            i <= names.len(),
            names == codebase.class_likes.keys(),
            direct@ == descendants(codebase@, names.take(i as int), true),
        decreases names.len() - i,
    {
        assert(names.take(i + 1).drop_last() =~= names.take(i as int));
        assert(names.take(i + 1).last() == names[i as int]);
        let name = codebase.class_likes.key_at(i);
        if let Some(meta) = codebase.class_likes.get(name) {
            let ghost before = direct@;
            proof {
                if let Some(parent) = meta@.direct_parent_class {
                    lemma_with_parents_concat(before, meta@.direct_parent_interfaces, seq![parent], name@);
                    let between = with_parents(before, meta@.direct_parent_interfaces, name@);
                    assert(seq![parent].drop_last() =~= Seq::empty());
                    assert(with_parents(between, seq![parent].drop_last(), name@) == between);
                    assert(seq![parent].last() == parent);
                } else {
                    assert(direct_parents(meta@) =~= meta@.direct_parent_interfaces);
                }
            }
            add_parents(&mut direct, &meta.direct_parent_interfaces, name);
            if let Some(parent) = &meta.direct_parent_class {
                add_descendant(&mut direct, parent, name);
            }
        }
        i = i + 1;
    }
    assert(names.take(i as int) =~= names);
    direct
}

/// Sets the children of one class-like.
fn set_children(codebase: &mut CodebaseMetadata, name: &Word, children: WordSet)
    ensures
        final(codebase)@ == (CodebaseView {
            class_likes: if old(codebase)@.class_likes.contains_key(name@) {
                old(codebase)@.class_likes.insert(
                    name@,
                    ClassLikeView {
                        child_class_likes: Some(children@),
                        ..old(codebase)@.class_likes[name@]
                    },
                )
            } else {
                old(codebase)@.class_likes
            },
            ..old(codebase)@
        }),
{
    if let Some(meta) = codebase.class_likes.get_mut(name) {
        meta.child_class_likes = Some(children);
    }
}

/// Sets the children of each class-like that has some.
fn set_all_children(codebase: &mut CodebaseMetadata, direct: &WordMap<WordSet>)
    ensures
        final(codebase)@ == (CodebaseView {
            class_likes: with_children(old(codebase)@.class_likes, direct@),
            ..old(codebase)@
        }),
{
    let ghost start = codebase@;
    let ghost parents = direct.keys();
    proof {
        direct.lemma_keys();
    }
    let mut i: usize = 0;
    while i < direct.len()
        invariant
            i <= parents.len(),
            parents == direct.keys(),
            forall|k: Seq<u8>| #[trigger] direct@.contains_key(k) <==> parents.contains(k),
            codebase@ == (CodebaseView { class_likes: codebase@.class_likes, ..start }),
            codebase@.class_likes.dom() == start.class_likes.dom(),
            forall|k: Seq<u8>|
                #![trigger codebase@.class_likes[k]]
                start.class_likes.contains_key(k) ==> codebase@.class_likes[k] == if exists|j: int|
                    0 <= j < i && #[trigger] parents[j] == k {
                    ClassLikeView { child_class_likes: Some(direct@[k]), ..start.class_likes[k] }
                } else {
                    start.class_likes[k]
                },
        decreases parents.len() - i,
    {
        let ghost before = codebase@.class_likes;
        let parent = direct.key_at(i);
        assert(parents.contains(parents[i as int]));
        assert(direct@.contains_key(parent@));
        if let Some(children) = direct.get(parent) {
            set_children(codebase, parent, children.copy());
        }
        assert(codebase@.class_likes.dom() =~= start.class_likes.dom());
        assert forall|k: Seq<u8>|
            #![trigger codebase@.class_likes[k]]
            start.class_likes.contains_key(k) implies codebase@.class_likes[k] == if exists|j: int|
            0 <= j < i + 1 && #[trigger] parents[j] == k {
            ClassLikeView { child_class_likes: Some(direct@[k]), ..start.class_likes[k] }
        } else {
            start.class_likes[k]
        } by {
            let earlier = before[k];
            assert(before.dom().contains(k));
            if k == parents[i as int] {
                assert(parents[i as int] == k);
            }
        }
        i = i + 1;
    }
    proof {
        let wanted = with_children(start.class_likes, direct@);
        assert(codebase@.class_likes.dom() =~= wanted.dom());
        assert forall|k: Seq<u8>| wanted.contains_key(k) implies codebase@.class_likes[k] == #[trigger] wanted[k] by {
            let now = codebase@.class_likes[k];
            if direct@.contains_key(k) {
                assert(parents.contains(k));
                let j = choose|j: int| 0 <= j < parents.len() && parents[j] == k;
                assert(parents[j] == k);
            } else {
                assert(!parents.contains(k));
            }
        }
        assert(codebase@.class_likes =~= wanted);
    }
}

/// Finds the descendants of all class-likes anew.
pub fn rebuild_descendants(codebase: &mut CodebaseMetadata)
    ensures
        final(codebase)@ == with_descendants(old(codebase)@),
{
    let all = collect_descendants(codebase);
    let direct = collect_direct_descendants(codebase);
    set_all_children(codebase, &direct);
    codebase.all_class_like_descendants = all;
    codebase.direct_classlike_descendants = direct;
}

// ---- the whole ----

impl Population {
    /// Goes on to the next stage: the result says what has to be done before the stage after it. What
    /// an action names has to be populated before the next call.
    pub fn advance(&mut self, codebase: &mut CodebaseMetadata) -> (action: PopulationAction)
        ensures
            action@ == next_action(old(self)@, old(codebase)@),
            final(codebase)@ == next_codebase(old(self)@, old(codebase)@),
            final(self)@.stage == next_stage(old(self)@),
            final(self)@.stage != Stage::Finished ==> final(self)@ == (PopulationView {
                stage: next_stage(old(self)@),
                ..old(self)@
            }),
    {
        let ghost start = self@;
        match self.stage {
            Stage::Selected => {
                self.stage = Stage::HierarchyPopulated;
                PopulationAction::PopulateHierarchy(self.selected.copy())
            },
            Stage::HierarchyPopulated => {
                let steps = self.plan_function_likes(codebase);
                self.stage = Stage::FunctionLikesPopulated;
                PopulationAction::PopulateFunctionLikes(steps)
            },
            Stage::FunctionLikesPopulated => {
                resolve_return_expression_hints(codebase);
                let steps = self.plan_class_types(codebase);
                self.stage = Stage::ClassTypesPopulated;
                PopulationAction::PopulateClassTypes(steps)
            },
            Stage::ClassTypesPopulated => {
                let steps = self.plan_constants(codebase);
                self.stage = Stage::ConstantsPopulated;
                PopulationAction::PopulateConstants(steps)
            },
            Stage::ConstantsPopulated => {
                if !self.is_incremental() || !self.selected.is_empty() {
                    rebuild_descendants(codebase);
                    self.stage = Stage::DocblocksInherited;
                    PopulationAction::InheritDocblocks(
                        if self.dirty.is_some() {
                            Some(self.selected.copy())
                        } else {
                            None
                        },
                    )
                } else {
                    self.finish(codebase);
                    PopulationAction::Nothing
                }
            },
            Stage::DocblocksInherited => {
                self.finish(codebase);
                PopulationAction::Nothing
            },
            Stage::Finished => PopulationAction::Nothing,
        }
    }

    /// Leaves behind in the codebase what is safe.
    fn finish(&mut self, codebase: &mut CodebaseMetadata)
        ensures
            final(self)@.stage == Stage::Finished,
            final(codebase)@ == (CodebaseView {
                safe_symbols: old(self)@.safe_symbols,
                safe_symbol_members: old(self)@.safe_members,
                ..old(codebase)@
            }),
    {
        self.stage = Stage::Finished;
        std::mem::swap(&mut self.safe_symbols, &mut codebase.safe_symbols);
        std::mem::swap(&mut self.safe_symbol_members, &mut codebase.safe_symbol_members);
    }
}

// ---- constants ----

/// That a symbol refers to another one, and whether its signature does.
pub struct SymbolReference {
    pub from: Word,
    pub to: Word,
    pub in_signature: bool,
}

#[verifier::ext_equal]
pub struct SymbolReferenceView {
    pub from: Seq<u8>,
    pub to: Seq<u8>,
    pub in_signature: bool,
}

impl View for SymbolReference {
    type V = SymbolReferenceView;

    open spec fn view(&self) -> SymbolReferenceView {
        SymbolReferenceView { from: self.from@, to: self.to@, in_signature: self.in_signature }
    }
}

/// The references of a constant to its attributes.
pub open spec fn attribute_references(name: Seq<u8>, constant: ConstantView) -> Seq<SymbolReferenceView> {
    Seq::new(
        constant.attributes.len(),
        |i: int| SymbolReferenceView { from: name, to: constant.attributes[i].name, in_signature: true },
    )
}

/// A constant with its types populated: a type that it does not have stays away.
pub open spec fn populated_constant(
    constant: ConstantView,
    declared: Option<UnionView>,
    inferred: Option<UnionView>,
) -> ConstantView {
    ConstantView {
        flags: MetadataFlags { is_populated: true, ..constant.flags },
        type_metadata: match (constant.type_metadata, declared) {
            (Some(t), Some(u)) => Some(TypeView { type_union: u, ..t }),
            (t, _) => t,
        },
        inferred_type: match (constant.inferred_type, inferred) {
            (Some(_), Some(u)) => Some(u),
            (t, _) => t,
        },
        ..constant
    }
}

fn set_declared_type(constant: &mut ConstantMetadata, declared: TUnion)
    ensures
        final(constant)@ == (ConstantView {
            type_metadata: match old(constant)@.type_metadata {
                Some(t) => Some(TypeView { type_union: declared@, ..t }),
                None => None,
            },
            ..old(constant)@
        }),
{
    let changed: Option<TypeMetadata> = match &constant.type_metadata {
        Some(t) => Some(
            TypeMetadata { type_union: declared, span: t.span, from_docblock: t.from_docblock, inferred: t.inferred },
        ),
        None => None,
    };
    constant.type_metadata = changed;
}

fn set_inferred_type(constant: &mut ConstantMetadata, inferred: TUnion)
    ensures
        final(constant)@ == (ConstantView {
            inferred_type: if old(constant)@.inferred_type is Some {
                Some(inferred@)
            } else {
                None
            },
            ..old(constant)@
        }),
{
    if constant.inferred_type.is_some() {
        constant.inferred_type = Some(inferred);
    }
}

fn add_attribute_references(name: &Word, constant: &ConstantMetadata, references: &mut Vec<SymbolReference>)
    ensures
        views(final(references)@) == views(old(references)@) + attribute_references(name@, constant@),
{
    broadcast use lemma_views_push;

    let ghost before = views(references@);
    let ghost all = attribute_references(name@, constant@);
    let mut i: usize = 0;
    assert(views(references@) =~= before + all.take(0));
    while i < constant.attributes.len()
        invariant
            i <= constant.attributes@.len(),
            all == attribute_references(name@, constant@),
            all.len() == constant.attributes@.len(),
            views(references@) == before + all.take(i as int),
        decreases constant.attributes@.len() - i,
    {
        let ghost earlier = views(references@);
        let reference = SymbolReference {
            from: copy_word(name.as_slice()),
            to: copy_word(constant.attributes[i].name.as_slice()),
            in_signature: true,
        };
        assert(reference@ == all[i as int]);
        references.push(reference);
        assert(views(references@) == earlier.push(all[i as int]));
        i = i + 1;
        assert(views(references@) =~= before + all.take(i as int));
    }
    assert(all.take(i as int) =~= all);
}

fn mark_populated(constant: &mut ConstantMetadata)
    ensures
        final(constant)@ == (ConstantView {
            flags: MetadataFlags { is_populated: true, ..old(constant)@.flags },
            ..old(constant)@
        }),
{
    constant.flags = MetadataFlags { is_populated: true, ..constant.flags };
}

/// Populates a constant. Its declared type and its inferred type, populated with the constant as
/// the source, are `declared` and `inferred`; a reference is recorded to each of its attributes.
pub fn populate_constant(
    name: &Word,
    constant: &mut ConstantMetadata,
    references: &mut Vec<SymbolReference>,
    declared: Option<TUnion>,
    inferred: Option<TUnion>,
)
    ensures
        final(constant)@ == populated_constant(old(constant)@, option_view(declared), option_view(inferred)),
        views(final(references)@) == views(old(references)@) + attribute_references(name@, old(constant)@),
{
    add_attribute_references(name, constant, references);
    let ghost start = constant@;
    if let Some(u) = declared {
        set_declared_type(constant, u);
    }
    if let Some(u) = inferred {
        set_inferred_type(constant, u);
    }
    mark_populated(constant);
}

} // verus!
