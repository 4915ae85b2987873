//! The types that values of the analysed program can have.

use vstd::prelude::*;

use crate::issue::Span;
use crate::word::Word;

verus! {

/// A union: a value has one of these types.
pub struct TUnion {
    pub types: Vec<TAtomic>,
}

pub enum TAtomic {
    Mixed,
    Never,
    Void,
    Null,
    Scalar(TScalar),
    Object(TObject),
    /// A resource, and whether it is known to be closed or open.
    Resource(Option<bool>),
    Array(TArray),
    /// A closure, by the place where it is written.
    Callable(Span),
    Reference(TReference),
    /// The value of a backed enum case.
    ValueOf(TUnion),
    /// A type of any other kind, by its identifier.
    Other(Word),
}

pub enum TScalar {
    /// A boolean, and its value where it is known.
    Bool(Option<bool>),
    Integer(TInteger),
    Float(TFloat),
    String(TString),
    /// A string that names a class-like, and the name where it is known.
    ClassLikeString(Option<Word>),
    ArrayKey,
    Numeric,
}

#[derive(Clone, Copy, Debug, PartialEq, Eq, Structural)]
pub enum TInteger {
    Literal(i64),
    From(i64),
    To(i64),
    Range(i64, i64),
    Unspecified,
}

#[derive(Clone, Copy, Debug, PartialEq, Eq, Structural)]
pub enum TFloat {
    /// A known number, by the bits of its IEEE 754 binary64 form.
    Literal(u64),
    Unspecified,
}

#[derive(Clone, Copy, Debug, PartialEq, Eq, Structural)]
pub enum TStringCasing {
    Lowercase,
    Uppercase,
    Unspecified,
}

pub enum TStringLiteral {
    Value(Word),
    Unspecified,
}

pub struct TString {
    pub literal: Option<TStringLiteral>,
    pub is_numeric: bool,
    pub is_truthy: bool,
    pub is_non_empty: bool,
    pub is_callable: bool,
    pub casing: TStringCasing,
}

pub enum TObject {
    Any,
    Named(TNamedObject),
    Enum(TEnum),
}

pub struct TNamedObject {
    pub name: Word,
    pub type_parameters: Option<Vec<TUnion>>,
    pub is_this: bool,
    pub intersection_types: Option<Vec<TAtomic>>,
}

pub struct TEnum {
    pub name: Word,
    pub case: Option<Word>,
}

pub enum TArray {
    List(TList),
    Keyed(TKeyedArray),
}

pub struct TList {
    pub known_count: Option<usize>,
    pub known_elements: Option<Vec<ListElement>>,
    pub element_type: Box<TUnion>,
    pub non_empty: bool,
}

/// What is known of one element of a list.
pub struct ListElement {
    pub index: usize,
    pub optional: bool,
    pub value: TUnion,
}

pub struct TKeyedArray {
    /// The items whose keys are known, in the order of their keys.
    pub known_items: Option<Vec<KeyedItem>>,
    /// The types of the other keys and of their values.
    pub parameters: Option<Box<ArrayParameters>>,
    pub non_empty: bool,
}

pub struct KeyedItem {
    pub key: ArrayKey,
    pub optional: bool,
    pub value: TUnion,
}

pub struct ArrayParameters {
    pub key: TUnion,
    pub value: TUnion,
}

pub enum ArrayKey {
    Integer(i64),
    String(Word),
    ClassString(Word),
}

pub enum TReference {
    /// A symbol that has not been looked up yet.
    Symbol(TSymbolReference),
    /// A member of a class-like.
    Member(TMemberReference),
}

pub struct TSymbolReference {
    pub name: Word,
    pub parameters: Option<Vec<TUnion>>,
    pub intersection_types: Option<Vec<TAtomic>>,
}

pub struct TMemberReference {
    pub class_like_name: Word,
    pub member: Word,
}

// ---- mathematical models ----

#[verifier::ext_equal]
pub struct UnionView {
    pub types: Seq<AtomicView>,
}

#[verifier::ext_equal]
pub enum AtomicView {
    Mixed,
    Never,
    Void,
    Null,
    Scalar(ScalarView),
    Object(ObjectView),
    Resource(Option<bool>),
    Array(ArrayView),
    Callable(Span),
    Reference(ReferenceView),
    ValueOf(UnionView),
    Other(Seq<u8>),
}

#[verifier::ext_equal]
pub enum ScalarView {
    Bool(Option<bool>),
    Integer(TInteger),
    Float(TFloat),
    String(StringView),
    ClassLikeString(Option<Seq<u8>>),
    ArrayKey,
    Numeric,
}

#[verifier::ext_equal]
pub enum LiteralView {
    Value(Seq<u8>),
    Unspecified,
}

#[verifier::ext_equal]
pub struct StringView {
    pub literal: Option<LiteralView>,
    pub is_numeric: bool,
    pub is_truthy: bool,
    pub is_non_empty: bool,
    pub is_callable: bool,
    pub casing: TStringCasing,
}

#[verifier::ext_equal]
pub enum ObjectView {
    Any,
    Named(NamedObjectView),
    Enum(EnumView),
}

#[verifier::ext_equal]
pub struct NamedObjectView {
    pub name: Seq<u8>,
    pub type_parameters: Option<Seq<UnionView>>,
    pub is_this: bool,
    pub intersection_types: Option<Seq<AtomicView>>,
}

#[verifier::ext_equal]
pub struct EnumView {
    pub name: Seq<u8>,
    pub case: Option<Seq<u8>>,
}

#[verifier::ext_equal]
pub enum ArrayView {
    List(ListView),
    Keyed(KeyedArrayView),
}

#[verifier::ext_equal]
pub struct ListView {
    pub known_count: Option<usize>,
    pub known_elements: Option<Seq<ListElementView>>,
    pub element_type: Box<UnionView>,
    pub non_empty: bool,
}

#[verifier::ext_equal]
pub struct ListElementView {
    pub index: usize,
    pub optional: bool,
    pub value: UnionView,
}

#[verifier::ext_equal]
pub struct KeyedArrayView {
    pub known_items: Option<Seq<KeyedItemView>>,
    pub parameters: Option<Box<ArrayParametersView>>,
    pub non_empty: bool,
}

#[verifier::ext_equal]
pub struct KeyedItemView {
    pub key: ArrayKeyView,
    pub optional: bool,
    pub value: UnionView,
}

#[verifier::ext_equal]
pub struct ArrayParametersView {
    pub key: UnionView,
    pub value: UnionView,
}

#[verifier::ext_equal]
pub enum ArrayKeyView {
    Integer(i64),
    String(Seq<u8>),
    ClassString(Seq<u8>),
}

#[verifier::ext_equal]
pub enum ReferenceView {
    Symbol(SymbolReferenceView),
    Member(MemberReferenceView),
}

#[verifier::ext_equal]
pub struct SymbolReferenceView {
    pub name: Seq<u8>,
    pub parameters: Option<Seq<UnionView>>,
    pub intersection_types: Option<Seq<AtomicView>>,
}

#[verifier::ext_equal]
pub struct MemberReferenceView {
    pub class_like_name: Seq<u8>,
    pub member: Seq<u8>,
}

pub open spec fn word_option(w: Option<Word>) -> Option<Seq<u8>> {
    match w {
        Some(w) => Some(w@),
        None => None,
    }
}

pub open spec fn atomics_model(types: Vec<TAtomic>) -> Seq<AtomicView>
    decreases types,
{
    Seq::new(
        types@.len(),
        |i: int|
            if 0 <= i < types@.len() {
                types@[i].model()
            } else {
                AtomicView::Never
            },
    )
}

pub open spec fn unions_model(types: Vec<TUnion>) -> Seq<UnionView>
    decreases types,
{
    Seq::new(
        types@.len(),
        |i: int|
            if 0 <= i < types@.len() {
                types@[i].model()
            } else {
                UnionView { types: Seq::empty() }
            },
    )
}

impl TUnion {
    pub open spec fn model(self) -> UnionView
        decreases self,
    {
        UnionView { types: atomics_model(self.types) }
    }
}

impl View for TUnion {
    type V = UnionView;

    open spec fn view(&self) -> UnionView {
        self.model()
    }
}

impl View for TAtomic {
    type V = AtomicView;

    open spec fn view(&self) -> AtomicView {
        self.model()
    }
}

impl TAtomic {
    pub open spec fn model(self) -> AtomicView
        decreases self,
    {
        match self {
            TAtomic::Mixed => AtomicView::Mixed,
            TAtomic::Never => AtomicView::Never,
            TAtomic::Void => AtomicView::Void,
            TAtomic::Null => AtomicView::Null,
            TAtomic::Scalar(s) => AtomicView::Scalar(s.model()),
            TAtomic::Object(o) => AtomicView::Object(o.model()),
            TAtomic::Resource(r) => AtomicView::Resource(r),
            TAtomic::Array(a) => AtomicView::Array(a.model()),
            TAtomic::Callable(span) => AtomicView::Callable(span),
            TAtomic::Reference(r) => AtomicView::Reference(r.model()),
            TAtomic::ValueOf(u) => AtomicView::ValueOf(u.model()),
            TAtomic::Other(w) => AtomicView::Other(w@),
        }
    }
}

impl TScalar {
    pub open spec fn model(self) -> ScalarView {
        match self {
            TScalar::Bool(b) => ScalarView::Bool(b),
            TScalar::Integer(i) => ScalarView::Integer(i),
            TScalar::Float(f) => ScalarView::Float(f),
            TScalar::String(s) => ScalarView::String(s@),
            TScalar::ClassLikeString(w) => ScalarView::ClassLikeString(word_option(w)),
            TScalar::ArrayKey => ScalarView::ArrayKey,
            TScalar::Numeric => ScalarView::Numeric,
        }
    }
}

impl View for TString {
    type V = StringView;

    open spec fn view(&self) -> StringView {
        StringView {
            literal: match self.literal {
                Some(TStringLiteral::Value(w)) => Some(LiteralView::Value(w@)),
                Some(TStringLiteral::Unspecified) => Some(LiteralView::Unspecified),
                None => None,
            },
            is_numeric: self.is_numeric,
            is_truthy: self.is_truthy,
            is_non_empty: self.is_non_empty,
            is_callable: self.is_callable,
            casing: self.casing,
        }
    }
}

impl TObject {
    pub open spec fn model(self) -> ObjectView
        decreases self,
    {
        match self {
            TObject::Any => ObjectView::Any,
            TObject::Named(n) => ObjectView::Named(n.model()),
            TObject::Enum(e) => ObjectView::Enum(EnumView { name: e.name@, case: word_option(e.case) }),
        }
    }
}

impl TNamedObject {
    pub open spec fn model(self) -> NamedObjectView
        decreases self,
    {
        NamedObjectView {
            name: self.name@,
            type_parameters: match self.type_parameters {
                Some(p) => Some(unions_model(p)),
                None => None,
            },
            is_this: self.is_this,
            intersection_types: match self.intersection_types {
                Some(t) => Some(atomics_model(t)),
                None => None,
            },
        }
    }
}

impl TArray {
    pub open spec fn model(self) -> ArrayView
        decreases self,
    {
        match self {
            TArray::List(l) => ArrayView::List(l.model()),
            TArray::Keyed(k) => ArrayView::Keyed(k.model()),
        }
    }
}

pub open spec fn elements_model(elements: Vec<ListElement>) -> Seq<ListElementView>
    decreases elements,
{
    Seq::new(
        elements@.len(),
        |i: int|
            if 0 <= i < elements@.len() {
                elements@[i].model()
            } else {
                arbitrary()
            },
    )
}

impl ListElement {
    pub open spec fn model(self) -> ListElementView
        decreases self,
    {
        ListElementView { index: self.index, optional: self.optional, value: self.value.model() }
    }
}

impl TList {
    pub open spec fn model(self) -> ListView
        decreases self,
    {
        ListView {
            known_count: self.known_count,
            known_elements: match self.known_elements {
                Some(e) => Some(elements_model(e)),
                None => None,
            },
            element_type: Box::new(self.element_type.model()),
            non_empty: self.non_empty,
        }
    }
}

impl View for ArrayKey {
    type V = ArrayKeyView;

    open spec fn view(&self) -> ArrayKeyView {
        match *self {
            ArrayKey::Integer(i) => ArrayKeyView::Integer(i),
            ArrayKey::String(w) => ArrayKeyView::String(w@),
            ArrayKey::ClassString(w) => ArrayKeyView::ClassString(w@),
        }
    }
}

pub open spec fn items_model(items: Vec<KeyedItem>) -> Seq<KeyedItemView>
    decreases items,
{
    Seq::new(
        items@.len(),
        |i: int|
            if 0 <= i < items@.len() {
                items@[i].model()
            } else {
                arbitrary()
            },
    )
}

impl KeyedItem {
    pub open spec fn model(self) -> KeyedItemView
        decreases self,
    {
        KeyedItemView { key: self.key@, optional: self.optional, value: self.value.model() }
    }
}

impl ArrayParameters {
    pub open spec fn model(self) -> ArrayParametersView
        decreases self,
    {
        ArrayParametersView { key: self.key.model(), value: self.value.model() }
    }
}

impl TKeyedArray {
    pub open spec fn model(self) -> KeyedArrayView
        decreases self,
    {
        KeyedArrayView {
            known_items: match self.known_items {
                Some(i) => Some(items_model(i)),
                None => None,
            },
            parameters: match self.parameters {
                Some(p) => Some(Box::new(p.model())),
                None => None,
            },
            non_empty: self.non_empty,
        }
    }
}

impl TReference {
    pub open spec fn model(self) -> ReferenceView
        decreases self,
    {
        match self {
            TReference::Symbol(s) => ReferenceView::Symbol(s.model()),
            TReference::Member(m) => ReferenceView::Member(
                MemberReferenceView { class_like_name: m.class_like_name@, member: m.member@ },
            ),
        }
    }
}

impl TSymbolReference {
    pub open spec fn model(self) -> SymbolReferenceView
        decreases self,
    {
        SymbolReferenceView {
            name: self.name@,
            parameters: match self.parameters {
                Some(p) => Some(unions_model(p)),
                None => None,
            },
            intersection_types: match self.intersection_types {
                Some(t) => Some(atomics_model(t)),
                None => None,
            },
        }
    }
}

} // verus!
