//! Equality of types.

use vstd::prelude::*;

use crate::ttype::atomics_model;
use crate::ttype::elements_model;
use crate::ttype::items_model;
use crate::ttype::unions_model;
use crate::ttype::word_option;
use crate::ttype::ArrayKey;
use crate::ttype::ArrayParameters;
use crate::ttype::KeyedItem;
use crate::ttype::ListElement;
use crate::ttype::TArray;
use crate::ttype::TAtomic;
use crate::ttype::TKeyedArray;
use crate::ttype::TList;
use crate::ttype::TNamedObject;
use crate::ttype::TObject;
use crate::ttype::TReference;
use crate::ttype::TScalar;
use crate::ttype::TString;
use crate::ttype::TStringLiteral;
use crate::ttype::TSymbolReference;
use crate::ttype::TUnion;
use crate::word::same_word;
use crate::word::Word;

verus! {

pub fn same_word_option(a: &Option<Word>, b: &Option<Word>) -> (same: bool)
    ensures
        same == (word_option(*a) == word_option(*b)),
{
    match (a, b) {
        (Some(a), Some(b)) => same_word(a.as_slice(), b.as_slice()),
        (None, None) => true,
        _ => false,
    }
}

/// Whether two lists of single types are the same.
pub fn same_atomics(a: &Vec<TAtomic>, b: &Vec<TAtomic>) -> (same: bool)
    ensures
        same == (atomics_model(*a) == atomics_model(*b)),
    decreases *a,
{
    if a.len() != b.len() {
        assert(atomics_model(*a).len() != atomics_model(*b).len());
        return false;
    }
    let mut i: usize = 0;
    while i < a.len()
        invariant
            a.len() == b.len(),
            i <= a.len(),
            forall|j: int| 0 <= j < i ==> (#[trigger] a@[j]).model() == b@[j].model(),
        decreases a.len() - i,
    {
        assert(decreases_to!(*a => a@[i as int]));
        if !a[i].same(&b[i]) {
            assert(atomics_model(*a)[i as int] != atomics_model(*b)[i as int]);
            return false;
        }
        i = i + 1;
    }
    assert(atomics_model(*a) =~= atomics_model(*b));
    true
}

/// Whether two lists of unions are the same.
pub fn same_unions(a: &Vec<TUnion>, b: &Vec<TUnion>) -> (same: bool)
    ensures
        same == (unions_model(*a) == unions_model(*b)),
    decreases *a,
{
    if a.len() != b.len() {
        assert(unions_model(*a).len() != unions_model(*b).len());
        return false;
    }
    let mut i: usize = 0;
    while i < a.len()
        invariant
            a.len() == b.len(),
            i <= a.len(),
            forall|j: int| 0 <= j < i ==> (#[trigger] a@[j]).model() == b@[j].model(),
        decreases a.len() - i,
    {
        assert(decreases_to!(*a => a@[i as int]));
        if !a[i].same(&b[i]) {
            assert(unions_model(*a)[i as int] != unions_model(*b)[i as int]);
            return false;
        }
        i = i + 1;
    }
    assert(unions_model(*a) =~= unions_model(*b));
    true
}

/// Whether two lists of list elements are the same.
pub fn same_elements(a: &Vec<ListElement>, b: &Vec<ListElement>) -> (same: bool)
    ensures
        same == (elements_model(*a) == elements_model(*b)),
    decreases *a,
{
    if a.len() != b.len() {
        assert(elements_model(*a).len() != elements_model(*b).len());
        return false;
    }
    let mut i: usize = 0;
    while i < a.len()
        invariant
            a.len() == b.len(),
            i <= a.len(),
            forall|j: int| 0 <= j < i ==> (#[trigger] a@[j]).model() == b@[j].model(),
        decreases a.len() - i,
    {
        assert(decreases_to!(*a => a@[i as int]));
        if !a[i].same(&b[i]) {
            assert(elements_model(*a)[i as int] != elements_model(*b)[i as int]);
            return false;
        }
        i = i + 1;
    }
    assert(elements_model(*a) =~= elements_model(*b));
    true
}

/// Whether two lists of keyed items are the same.
pub fn same_items(a: &Vec<KeyedItem>, b: &Vec<KeyedItem>) -> (same: bool)
    ensures
        same == (items_model(*a) == items_model(*b)),
    decreases *a,
{
    if a.len() != b.len() {
        assert(items_model(*a).len() != items_model(*b).len());
        return false;
    }
    let mut i: usize = 0;
    while i < a.len()
        invariant
            a.len() == b.len(),
            i <= a.len(),
            forall|j: int| 0 <= j < i ==> (#[trigger] a@[j]).model() == b@[j].model(),
        decreases a.len() - i,
    {
        assert(decreases_to!(*a => a@[i as int]));
        if !a[i].same(&b[i]) {
            assert(items_model(*a)[i as int] != items_model(*b)[i as int]);
            return false;
        }
        i = i + 1;
    }
    assert(items_model(*a) =~= items_model(*b));
    true
}

impl TUnion {
    pub fn same(&self, other: &TUnion) -> (same: bool)
        ensures
            same == (self@ == other@),
        decreases *self,
    {
        let same: bool = same_atomics(&self.types, &other.types);
        assert(same ==> self@ =~= other@);
        same
    }
}

impl TAtomic {
    pub fn same(&self, other: &TAtomic) -> (same: bool)
        ensures
            same == (self@ == other@),
        decreases *self,
    {
        match (self, other) {
            (TAtomic::Mixed, TAtomic::Mixed) => true,
            (TAtomic::Never, TAtomic::Never) => true,
            (TAtomic::Void, TAtomic::Void) => true,
            (TAtomic::Null, TAtomic::Null) => true,
            (TAtomic::Scalar(a), TAtomic::Scalar(b)) => a.same(b),
            (TAtomic::Object(a), TAtomic::Object(b)) => a.same(b),
            (TAtomic::Array(a), TAtomic::Array(b)) => a.same(b),
            (TAtomic::Reference(a), TAtomic::Reference(b)) => a.same(b),
            (TAtomic::ValueOf(a), TAtomic::ValueOf(b)) => a.same(b),
            (TAtomic::Resource(a), TAtomic::Resource(b)) => *a == *b,
            (TAtomic::Callable(a), TAtomic::Callable(b)) => *a == *b,
            (TAtomic::Other(a), TAtomic::Other(b)) => same_word(a.as_slice(), b.as_slice()),
            _ => false,
        }
    }
}

impl TScalar {
    pub fn same(&self, other: &TScalar) -> (same: bool)
        ensures
            same == (self.model() == other.model()),
    {
        match (self, other) {
            (TScalar::Bool(a), TScalar::Bool(b)) => *a == *b,
            (TScalar::Integer(a), TScalar::Integer(b)) => *a == *b,
            (TScalar::Float(a), TScalar::Float(b)) => *a == *b,
            (TScalar::String(a), TScalar::String(b)) => a.same(b),
            (TScalar::ClassLikeString(a), TScalar::ClassLikeString(b)) => same_word_option(a, b),
            (TScalar::ArrayKey, TScalar::ArrayKey) => true,
            (TScalar::Numeric, TScalar::Numeric) => true,
            _ => false,
        }
    }
}

impl TString {
    pub fn same(&self, other: &TString) -> (same: bool)
        ensures
            same == (self@ == other@),
    {
        (match (&self.literal, &other.literal) {
            (Some(TStringLiteral::Value(a)), Some(TStringLiteral::Value(b))) => same_word(a.as_slice(), b.as_slice()),
            (Some(TStringLiteral::Unspecified), Some(TStringLiteral::Unspecified)) => true,
            (None, None) => true,
            _ => false,
        }) && self.is_numeric == other.is_numeric && self.is_truthy == other.is_truthy && self.is_non_empty
            == other.is_non_empty && self.is_callable == other.is_callable && self.casing == other.casing
    }
}

impl TObject {
    pub fn same(&self, other: &TObject) -> (same: bool)
        ensures
            same == (self.model() == other.model()),
        decreases *self,
    {
        match (self, other) {
            (TObject::Any, TObject::Any) => true,
            (TObject::Named(a), TObject::Named(b)) => a.same(b),
            (TObject::Enum(a), TObject::Enum(b)) => same_word(a.name.as_slice(), b.name.as_slice()) && same_word_option(&a.case, &b.case),
            _ => false,
        }
    }
}

impl TNamedObject {
    pub fn same(&self, other: &TNamedObject) -> (same: bool)
        ensures
            same == (self.model() == other.model()),
        decreases *self,
    {
        same_word(self.name.as_slice(), other.name.as_slice()) && self.is_this == other.is_this && (match (&self.type_parameters, &other.type_parameters) {
            (Some(a), Some(b)) => same_unions(a, b),
            (None, None) => true,
            _ => false,
        }) && (match (&self.intersection_types, &other.intersection_types) {
            (Some(a), Some(b)) => same_atomics(a, b),
            (None, None) => true,
            _ => false,
        })
    }
}

impl TArray {
    pub fn same(&self, other: &TArray) -> (same: bool)
        ensures
            same == (self.model() == other.model()),
        decreases *self,
    {
        match (self, other) {
            (TArray::List(a), TArray::List(b)) => a.same(b),
            (TArray::Keyed(a), TArray::Keyed(b)) => a.same(b),
            _ => false,
        }
    }
}

impl TList {
    pub fn same(&self, other: &TList) -> (same: bool)
        ensures
            same == (self.model() == other.model()),
        decreases *self,
    {
        self.known_count == other.known_count && self.non_empty == other.non_empty && self.element_type.same(
            &other.element_type,
        ) && (match (&self.known_elements, &other.known_elements) {
            (Some(a), Some(b)) => same_elements(a, b),
            (None, None) => true,
            _ => false,
        })
    }
}

impl ListElement {
    pub fn same(&self, other: &ListElement) -> (same: bool)
        ensures
            same == (self.model() == other.model()),
        decreases *self,
    {
        self.index == other.index && self.optional == other.optional && self.value.same(&other.value)
    }
}

impl ArrayKey {
    pub fn same(&self, other: &ArrayKey) -> (same: bool)
        ensures
            same == (self@ == other@),
    {
        match (self, other) {
            (ArrayKey::Integer(a), ArrayKey::Integer(b)) => *a == *b,
            (ArrayKey::String(a), ArrayKey::String(b)) => same_word(a.as_slice(), b.as_slice()),
            (ArrayKey::ClassString(a), ArrayKey::ClassString(b)) => same_word(a.as_slice(), b.as_slice()),
            _ => false,
        }
    }
}

impl KeyedItem {
    pub fn same(&self, other: &KeyedItem) -> (same: bool)
        ensures
            same == (self.model() == other.model()),
        decreases *self,
    {
        self.key.same(&other.key) && self.optional == other.optional && self.value.same(&other.value)
    }
}

impl ArrayParameters {
    pub fn same(&self, other: &ArrayParameters) -> (same: bool)
        ensures
            same == (self.model() == other.model()),
        decreases *self,
    {
        self.key.same(&other.key) && self.value.same(&other.value)
    }
}

impl TKeyedArray {
    pub fn same(&self, other: &TKeyedArray) -> (same: bool)
        ensures
            same == (self.model() == other.model()),
        decreases *self,
    {
        self.non_empty == other.non_empty && (match (&self.known_items, &other.known_items) {
            (Some(a), Some(b)) => same_items(a, b),
            (None, None) => true,
            _ => false,
        }) && (match (&self.parameters, &other.parameters) {
            (Some(a), Some(b)) => a.same(b),
            (None, None) => true,
            _ => false,
        })
    }
}

impl TReference {
    pub fn same(&self, other: &TReference) -> (same: bool)
        ensures
            same == (self.model() == other.model()),
        decreases *self,
    {
        match (self, other) {
            (TReference::Symbol(a), TReference::Symbol(b)) => a.same(b),
            (TReference::Member(a), TReference::Member(b)) => {
                same_word(a.class_like_name.as_slice(), b.class_like_name.as_slice()) && same_word(
                    a.member.as_slice(),
                    b.member.as_slice(),
                )
            },
            _ => false,
        }
    }
}

impl TSymbolReference {
    pub fn same(&self, other: &TSymbolReference) -> (same: bool)
        ensures
            same == (self.model() == other.model()),
        decreases *self,
    {
        same_word(self.name.as_slice(), other.name.as_slice()) && (match (&self.parameters, &other.parameters) {
            (Some(a), Some(b)) => same_unions(a, b),
            (None, None) => true,
            _ => false,
        }) && (match (&self.intersection_types, &other.intersection_types) {
            (Some(a), Some(b)) => same_atomics(a, b),
            (None, None) => true,
            _ => false,
        })
    }
}

} // verus!
