//! The symbols of the analysed program, taken together.

use vstd::prelude::*;

use crate::collections::keys_with;
use crate::collections::views;
use crate::collections::SymbolIdentifier;
use crate::collections::SymbolMap;
use crate::collections::WordMap;
use crate::collections::WordSet;
use crate::metadata::ClassLikeMetadata;
use crate::metadata::ClassLikeView;
use crate::metadata::ConstantMetadata;
use crate::metadata::ConstantView;
use crate::metadata::FunctionLikeMetadata;
use crate::metadata::FunctionLikeView;
use crate::metadata::MethodView;
use crate::metadata::MethodMetadata;
use crate::metadata::SymbolKind;
use crate::metadata::Visibility;
use crate::word::ascii_lowercase_word;
use crate::word::copy_word;
use crate::word::lowercase;
use crate::word::Word;

verus! {

/// The hasher of `foldhash`; only its name is used.
#[verifier::external_type_specification]
#[verifier::external_body]
pub struct ExRandomState(foldhash::fast::RandomState);

/// What a `foldhash::HashSet` of symbols holds.
pub uninterp spec fn symbols_of(set: foldhash::HashSet<(Vec<u8>, Vec<u8>)>) -> Set<(Seq<u8>, Seq<u8>)>;

/// Calls `contains` of the standard hash set, of which `foldhash::HashSet` is an instance: whether
/// a symbol is in the set.
#[verifier::external_body]
pub(crate) fn symbol_set_contains(set: &foldhash::HashSet<(Vec<u8>, Vec<u8>)>, symbol: &(Vec<u8>, Vec<u8>)) -> (found: bool)
    ensures
        found == symbols_of(*set).contains(symbol@),
{
    set.contains(symbol)
}

/// Calls `is_empty` of the standard hash set, of which `foldhash::HashSet` is an instance: whether
/// the set holds no symbol.
#[verifier::external_body]
pub(crate) fn symbol_set_is_empty(set: &foldhash::HashSet<(Vec<u8>, Vec<u8>)>) -> (empty: bool)
    ensures
        empty == (symbols_of(*set) == Set::<(Seq<u8>, Seq<u8>)>::empty()),
{
    set.is_empty()
}

/// Calls `iter` of the standard hash set, of which `foldhash::HashSet` is an instance: each symbol
/// of the set once, in an order that nothing is known of.
#[verifier::external_body]
pub(crate) fn symbol_set_items(set: &foldhash::HashSet<(Vec<u8>, Vec<u8>)>) -> (items: Vec<(Vec<u8>, Vec<u8>)>)
    ensures
        views(items@).to_set() == symbols_of(*set),
        views(items@).no_duplicates(),
{
    set.iter().cloned().collect()
}

/// The symbols of the analysed program, and what is known of each.
pub struct CodebaseMetadata {
    pub class_likes: WordMap<ClassLikeMetadata>,
    pub function_likes: SymbolMap<FunctionLikeMetadata>,
    pub constants: WordMap<ConstantMetadata>,
    pub symbols: WordMap<SymbolKind>,
    pub all_class_like_descendants: WordMap<WordSet>,
    pub direct_classlike_descendants: WordMap<WordSet>,
    pub safe_symbols: WordSet,
    pub safe_symbol_members: foldhash::HashSet<(Vec<u8>, Vec<u8>)>,
}

#[verifier::ext_equal]
pub struct CodebaseView {
    pub class_likes: Map<Seq<u8>, ClassLikeView>,
    pub class_like_names: Seq<Seq<u8>>,
    pub function_likes: Map<(Seq<u8>, Seq<u8>), FunctionLikeView>,
    pub function_like_keys: Seq<(Seq<u8>, Seq<u8>)>,
    pub constants: Map<Seq<u8>, ConstantView>,
    pub constant_names: Seq<Seq<u8>>,
    pub symbols: Map<Seq<u8>, SymbolKind>,
    pub all_class_like_descendants: Map<Seq<u8>, Seq<Seq<u8>>>,
    pub direct_classlike_descendants: Map<Seq<u8>, Seq<Seq<u8>>>,
    pub safe_symbols: Seq<Seq<u8>>,
    pub safe_symbol_members: Set<(Seq<u8>, Seq<u8>)>,
}

impl View for CodebaseMetadata {
    type V = CodebaseView;

    open spec fn view(&self) -> CodebaseView {
        CodebaseView {
            class_likes: self.class_likes@,
            class_like_names: self.class_likes.keys(),
            function_likes: self.function_likes@,
            function_like_keys: self.function_likes.keys(),
            constants: self.constants@,
            constant_names: self.constants.keys(),
            symbols: self.symbols@,
            all_class_like_descendants: self.all_class_like_descendants@,
            direct_classlike_descendants: self.direct_classlike_descendants@,
            safe_symbols: self.safe_symbols@,
            safe_symbol_members: symbols_of(self.safe_symbol_members),
        }
    }
}

impl CodebaseView {
    /// The class-like of this name, whatever the case of its letters.
    pub open spec fn class_like(self, name: Seq<u8>) -> Option<ClassLikeView> {
        if self.class_likes.contains_key(lowercase(name)) {
            Some(self.class_likes[lowercase(name)])
        } else {
            None
        }
    }

    /// What is known of the method that a class-like has under a name, wherever it is declared.
    pub open spec fn method(self, class: Seq<u8>, method: Seq<u8>) -> Option<MethodView> {
        match self.class_like(class) {
            Some(meta) => {
                if meta.declaring_method_ids.contains_key(lowercase(method)) {
                    let id = meta.declaring_method_ids[lowercase(method)];
                    if self.function_likes.contains_key(id) {
                        self.function_likes[id].method_metadata
                    } else {
                        None
                    }
                } else {
                    None
                }
            },
            None => None,
        }
    }
}

impl CodebaseMetadata {
    pub fn get_class_like(&self, name: &Word) -> (meta: Option<&ClassLikeMetadata>)
        ensures
            match meta {
                Some(m) => self@.class_like(name@) == Some(m@),
                None => self@.class_like(name@) is None,
            },
    {
        self.class_likes.get(&ascii_lowercase_word(name.as_slice()))
    }

    pub fn get_method(&self, class: &Word, method: &Word) -> (meta: Option<&MethodMetadata>)
        ensures
            match meta {
                Some(m) => self@.method(class@, method@) == Some(m@),
                None => self@.method(class@, method@) is None,
            },
    {
        let Some(class_meta) = self.get_class_like(class) else {
            return None;
        };
        let Some(id) = class_meta.declaring_method_ids.get(&ascii_lowercase_word(method.as_slice())) else {
            return None;
        };
        let key: SymbolIdentifier = (copy_word(id.class_name.as_slice()), copy_word(id.method_name.as_slice()));
        let Some(function_like) = self.function_likes.get(&key) else {
            return None;
        };
        function_like.method_metadata.as_ref()
    }

    pub fn get_method_visibility(&self, class: &Word, method: &Word) -> (visibility: Option<Visibility>)
        ensures
            visibility == match self@.method(class@, method@) {
                Some(m) => Some(m.visibility),
                None => None,
            },
    {
        match self.get_method(class, method) {
            Some(m) => Some(m.visibility),
            None => None,
        }
    }

    pub fn method_is_final(&self, class: &Word, method: &Word) -> (is_final: bool)
        ensures
            is_final == match self@.method(class@, method@) {
                Some(m) => m.is_final,
                None => false,
            },
    {
        match self.get_method(class, method) {
            Some(m) => m.is_final,
            None => false,
        }
    }
}

impl CodebaseView {
    pub open spec fn add_function_like(self, key: (Seq<u8>, Seq<u8>), function_like: FunctionLikeView) -> CodebaseView {
        CodebaseView {
            function_likes: self.function_likes.insert(key, function_like),
            function_like_keys: keys_with(self.function_like_keys, self.function_likes, key),
            ..self
        }
    }

    pub open spec fn add_class_like(self, name: Seq<u8>, class_like: ClassLikeView) -> CodebaseView {
        CodebaseView {
            class_likes: self.class_likes.insert(name, class_like),
            class_like_names: keys_with(self.class_like_names, self.class_likes, name),
            ..self
        }
    }

    pub open spec fn add_symbol_name(self, name: Seq<u8>, kind: SymbolKind) -> CodebaseView {
        CodebaseView { symbols: self.symbols.insert(name, kind), ..self }
    }
}

impl CodebaseMetadata {
    pub fn add_function_like(&mut self, key: SymbolIdentifier, function_like: FunctionLikeMetadata)
        ensures
            final(self)@ == old(self)@.add_function_like(key@, function_like@),
    {
        self.function_likes.insert(key, function_like);
    }

    pub fn add_class_like(&mut self, name: Word, class_like: ClassLikeMetadata)
        ensures
            final(self)@ == old(self)@.add_class_like(name@, class_like@),
    {
        self.class_likes.insert(name, class_like);
    }

    pub fn add_symbol_name(&mut self, name: Word, kind: SymbolKind)
        ensures
            final(self)@ == old(self)@.add_symbol_name(name@, kind),
    {
        self.symbols.insert(name, kind);
    }
}

} // verus!
