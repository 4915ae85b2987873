//! Copies of types.

use vstd::prelude::*;

use crate::ttype::atomics_model;
use crate::ttype::elements_model;
use crate::ttype::items_model;
use crate::ttype::unions_model;
use crate::ttype::word_option;
use crate::ttype::ArrayKey;
use crate::ttype::ArrayParameters;
use crate::ttype::KeyedItem;
use crate::ttype::ListElement;
use crate::ttype::TArray;
use crate::ttype::TAtomic;
use crate::ttype::TEnum;
use crate::ttype::TKeyedArray;
use crate::ttype::TList;
use crate::ttype::TMemberReference;
use crate::ttype::TNamedObject;
use crate::ttype::TObject;
use crate::ttype::TReference;
use crate::ttype::TScalar;
use crate::ttype::TString;
use crate::ttype::TStringLiteral;
use crate::ttype::TSymbolReference;
use crate::ttype::TUnion;
use crate::word::copy_word;
use crate::word::Word;

verus! {

pub fn copy_word_option(w: &Option<Word>) -> (copy: Option<Word>)
    ensures
        word_option(copy) == word_option(*w),
{
    match w {
        Some(w) => Some(copy_word(w.as_slice())),
        None => None,
    }
}

/// Copies of single types.
pub fn copy_atomics(items: &Vec<TAtomic>) -> (copy: Vec<TAtomic>)
    ensures
        atomics_model(copy) == atomics_model(*items),
    decreases *items,
{
    let mut copy: Vec<TAtomic> = Vec::new();
    let mut i: usize = 0;
    while i < items.len()
        invariant
            i <= items.len(),
            copy.len() == i,
            forall|j: int| 0 <= j < i ==> (#[trigger] copy@[j]).model() == items@[j].model(),
        decreases items.len() - i,
    {
        assert(decreases_to!(*items => items@[i as int]));
        copy.push(items[i].copy());
        i = i + 1;
    }
    assert(atomics_model(copy) =~= atomics_model(*items));
    copy
}

/// Copies of unions.
pub fn copy_unions(items: &Vec<TUnion>) -> (copy: Vec<TUnion>)
    ensures
        unions_model(copy) == unions_model(*items),
    decreases *items,
{
    let mut copy: Vec<TUnion> = Vec::new();
    let mut i: usize = 0;
    while i < items.len()
        invariant
            i <= items.len(),
            copy.len() == i,
            forall|j: int| 0 <= j < i ==> (#[trigger] copy@[j]).model() == items@[j].model(),
        decreases items.len() - i,
    {
        assert(decreases_to!(*items => items@[i as int]));
        copy.push(items[i].copy());
        i = i + 1;
    }
    assert(unions_model(copy) =~= unions_model(*items));
    copy
}

/// Copies of the elements of a list.
pub fn copy_elements(items: &Vec<ListElement>) -> (copy: Vec<ListElement>)
    ensures
        elements_model(copy) == elements_model(*items),
    decreases *items,
{
    let mut copy: Vec<ListElement> = Vec::new();
    let mut i: usize = 0;
    while i < items.len()
        invariant
            i <= items.len(),
            copy.len() == i,
            forall|j: int| 0 <= j < i ==> (#[trigger] copy@[j]).model() == items@[j].model(),
        decreases items.len() - i,
    {
        assert(decreases_to!(*items => items@[i as int]));
        copy.push(items[i].copy());
        i = i + 1;
    }
    assert(elements_model(copy) =~= elements_model(*items));
    copy
}

/// Copies of the items of a keyed array.
pub fn copy_items(items: &Vec<KeyedItem>) -> (copy: Vec<KeyedItem>)
    ensures
        items_model(copy) == items_model(*items),
    decreases *items,
{
    let mut copy: Vec<KeyedItem> = Vec::new();
    let mut i: usize = 0;
    while i < items.len()
        invariant
            i <= items.len(),
            copy.len() == i,
            forall|j: int| 0 <= j < i ==> (#[trigger] copy@[j]).model() == items@[j].model(),
        decreases items.len() - i,
    {
        assert(decreases_to!(*items => items@[i as int]));
        copy.push(items[i].copy());
        i = i + 1;
    }
    assert(items_model(copy) =~= items_model(*items));
    copy
}

impl TUnion {
    pub fn copy(&self) -> (copy: TUnion)
        ensures
            copy@ == self@,
        decreases *self,
    {
        TUnion { types: copy_atomics(&self.types) }
    }
}

impl TAtomic {
    pub fn copy(&self) -> (copy: TAtomic)
        ensures
            copy@ == self@,
        decreases *self,
    {
        match self {
            TAtomic::Mixed => TAtomic::Mixed,
            TAtomic::Never => TAtomic::Never,
            TAtomic::Void => TAtomic::Void,
            TAtomic::Null => TAtomic::Null,
            TAtomic::Scalar(s) => TAtomic::Scalar(s.copy()),
            TAtomic::Object(o) => TAtomic::Object(o.copy()),
            TAtomic::Resource(r) => TAtomic::Resource(*r),
            TAtomic::Array(a) => TAtomic::Array(a.copy()),
            TAtomic::Callable(span) => TAtomic::Callable(*span),
            TAtomic::Reference(r) => TAtomic::Reference(r.copy()),
            TAtomic::ValueOf(u) => TAtomic::ValueOf(u.copy()),
            TAtomic::Other(w) => TAtomic::Other(copy_word(w.as_slice())),
        }
    }
}

impl TScalar {
    pub fn copy(&self) -> (copy: TScalar)
        ensures
            copy.model() == self.model(),
    {
        match self {
            TScalar::Bool(b) => TScalar::Bool(*b),
            TScalar::Integer(i) => TScalar::Integer(*i),
            TScalar::Float(f) => TScalar::Float(*f),
            TScalar::String(s) => TScalar::String(s.copy()),
            TScalar::ClassLikeString(w) => TScalar::ClassLikeString(copy_word_option(w)),
            TScalar::ArrayKey => TScalar::ArrayKey,
            TScalar::Numeric => TScalar::Numeric,
        }
    }
}

impl TString {
    pub fn copy(&self) -> (copy: TString)
        ensures
            copy@ == self@,
    {
        TString {
            literal: match &self.literal {
                Some(TStringLiteral::Value(w)) => Some(TStringLiteral::Value(copy_word(w.as_slice()))),
                Some(TStringLiteral::Unspecified) => Some(TStringLiteral::Unspecified),
                None => None,
            },
            is_numeric: self.is_numeric,
            is_truthy: self.is_truthy,
            is_non_empty: self.is_non_empty,
            is_callable: self.is_callable,
            casing: self.casing,
        }
    }
}

impl TObject {
    pub fn copy(&self) -> (copy: TObject)
        ensures
            copy.model() == self.model(),
        decreases *self,
    {
        match self {
            TObject::Any => TObject::Any,
            TObject::Named(n) => TObject::Named(n.copy()),
            TObject::Enum(e) => TObject::Enum(
                TEnum { name: copy_word(e.name.as_slice()), case: copy_word_option(&e.case) },
            ),
        }
    }
}

impl TNamedObject {
    pub fn copy(&self) -> (copy: TNamedObject)
        ensures
            copy.model() == self.model(),
        decreases *self,
    {
        TNamedObject {
            name: copy_word(self.name.as_slice()),
            type_parameters: match &self.type_parameters {
                Some(v) => Some(copy_unions(v)),
                None => None,
            },
            is_this: self.is_this,
            intersection_types: match &self.intersection_types {
                Some(v) => Some(copy_atomics(v)),
                None => None,
            },
        }
    }
}

impl TArray {
    pub fn copy(&self) -> (copy: TArray)
        ensures
            copy.model() == self.model(),
        decreases *self,
    {
        match self {
            TArray::List(l) => TArray::List(l.copy()),
            TArray::Keyed(k) => TArray::Keyed(k.copy()),
        }
    }
}

impl TList {
    pub fn copy(&self) -> (copy: TList)
        ensures
            copy.model() == self.model(),
        decreases *self,
    {
        TList {
            known_count: self.known_count,
            known_elements: match &self.known_elements {
                Some(v) => Some(copy_elements(v)),
                None => None,
            },
            element_type: Box::new(self.element_type.copy()),
            non_empty: self.non_empty,
        }
    }
}

impl ListElement {
    pub fn copy(&self) -> (copy: ListElement)
        ensures
            copy.model() == self.model(),
        decreases *self,
    {
        ListElement { index: self.index, optional: self.optional, value: self.value.copy() }
    }
}

impl ArrayKey {
    pub fn copy(&self) -> (copy: ArrayKey)
        ensures
            copy@ == self@,
    {
        match self {
            ArrayKey::Integer(i) => ArrayKey::Integer(*i),
            ArrayKey::String(w) => ArrayKey::String(copy_word(w.as_slice())),
            ArrayKey::ClassString(w) => ArrayKey::ClassString(copy_word(w.as_slice())),
        }
    }
}

impl KeyedItem {
    pub fn copy(&self) -> (copy: KeyedItem)
        ensures
            copy.model() == self.model(),
        decreases *self,
    {
        KeyedItem { key: self.key.copy(), optional: self.optional, value: self.value.copy() }
    }
}

impl ArrayParameters {
    pub fn copy(&self) -> (copy: ArrayParameters)
        ensures
            copy.model() == self.model(),
        decreases *self,
    {
        ArrayParameters { key: self.key.copy(), value: self.value.copy() }
    }
}

impl TKeyedArray {
    pub fn copy(&self) -> (copy: TKeyedArray)
        ensures
            copy.model() == self.model(),
        decreases *self,
    {
        TKeyedArray {
            known_items: match &self.known_items {
                Some(v) => Some(copy_items(v)),
                None => None,
            },
            parameters: match &self.parameters {
                Some(p) => Some(Box::new(p.copy())),
                None => None,
            },
            non_empty: self.non_empty,
        }
    }
}

impl TReference {
    pub fn copy(&self) -> (copy: TReference)
        ensures
            copy.model() == self.model(),
        decreases *self,
    {
        match self {
            TReference::Symbol(s) => TReference::Symbol(s.copy()),
            TReference::Member(m) => TReference::Member(
                TMemberReference {
                    class_like_name: copy_word(m.class_like_name.as_slice()),
                    member: copy_word(m.member.as_slice()),
                },
            ),
        }
    }
}

impl TSymbolReference {
    pub fn copy(&self) -> (copy: TSymbolReference)
        ensures
            copy.model() == self.model(),
        decreases *self,
    {
        TSymbolReference {
            name: copy_word(self.name.as_slice()),
            parameters: match &self.parameters {
                Some(v) => Some(copy_unions(v)),
                None => None,
            },
            intersection_types: match &self.intersection_types {
                Some(v) => Some(copy_atomics(v)),
                None => None,
            },
        }
    }
}

} // verus!
