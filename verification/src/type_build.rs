//! The types that occur most often.

use vstd::prelude::*;

use crate::numeric::is_numeric;
use crate::numeric::str_is_numeric;
use crate::ttype::atomics_model;
use crate::ttype::ArrayParameters;
use crate::ttype::ArrayParametersView;
use crate::ttype::ArrayView;
use crate::ttype::AtomicView;
use crate::ttype::KeyedArrayView;
use crate::ttype::ListView;
use crate::ttype::LiteralView;
use crate::ttype::NamedObjectView;
use crate::ttype::ObjectView;
use crate::ttype::ScalarView;
use crate::ttype::StringView;
use crate::ttype::TArray;
use crate::ttype::TAtomic;
use crate::ttype::TFloat;
use crate::ttype::TInteger;
use crate::ttype::TKeyedArray;
use crate::ttype::TList;
use crate::ttype::TNamedObject;
use crate::ttype::TObject;
use crate::ttype::TScalar;
use crate::ttype::TString;
use crate::ttype::TStringCasing;
use crate::ttype::TStringLiteral;
use crate::ttype::TUnion;
use crate::ttype::UnionView;
use crate::word::Word;

verus! {

/// The union of one type.
pub open spec fn union_of(atomic: AtomicView) -> UnionView {
    UnionView { types: seq![atomic] }
}

pub fn wrap_atomic(atomic: TAtomic) -> (u: TUnion)
    ensures
        u@ == union_of(atomic@),
{
    let mut types: Vec<TAtomic> = Vec::new();
    types.push(atomic);
    let u = TUnion { types };
    assert(atomics_model(u.types) =~= seq![atomic@]);
    u
}

pub fn wrap_atomics(first: TAtomic, second: TAtomic) -> (u: TUnion)
    ensures
        u@ == (UnionView { types: seq![first@, second@] }),
{
    let mut types: Vec<TAtomic> = Vec::new();
    types.push(first);
    types.push(second);
    let u = TUnion { types };
    assert(atomics_model(u.types) =~= seq![first@, second@]);
    u
}

pub open spec fn int_atomic(i: TInteger) -> AtomicView {
    AtomicView::Scalar(ScalarView::Integer(i))
}

pub fn integer(i: TInteger) -> (a: TAtomic)
    ensures
        a@ == int_atomic(i),
{
    TAtomic::Scalar(TScalar::Integer(i))
}

pub open spec fn bool_atomic(b: Option<bool>) -> AtomicView {
    AtomicView::Scalar(ScalarView::Bool(b))
}

pub open spec fn float_atomic(f: TFloat) -> AtomicView {
    AtomicView::Scalar(ScalarView::Float(f))
}

pub open spec fn string_atomic(s: StringView) -> AtomicView {
    AtomicView::Scalar(ScalarView::String(s))
}

/// A string of which only these properties are known.
pub open spec fn string_with(
    literal: Option<LiteralView>,
    is_numeric: bool,
    is_truthy: bool,
    is_non_empty: bool,
    casing: TStringCasing,
) -> StringView {
    StringView { literal, is_numeric, is_truthy, is_non_empty, is_callable: false, casing }
}

pub open spec fn general_string() -> StringView {
    string_with(None, false, false, false, TStringCasing::Unspecified)
}

pub open spec fn general_non_empty_string() -> StringView {
    string_with(None, false, false, true, TStringCasing::Unspecified)
}

pub open spec fn is_upper(b: u8) -> bool {
    65 <= b <= 90
}

pub open spec fn is_lower(b: u8) -> bool {
    97 <= b <= 122
}

/// The case of the letters of a string: lower where no letter is in upper case, upper where no
/// letter is in lower case.
pub open spec fn casing_of(w: Seq<u8>) -> TStringCasing {
    if forall|i: int| 0 <= i < w.len() ==> !is_upper(#[trigger] w[i]) {
        TStringCasing::Lowercase
    } else if forall|i: int| 0 <= i < w.len() ==> !is_lower(#[trigger] w[i]) {
        TStringCasing::Uppercase
    } else {
        TStringCasing::Unspecified
    }
}

pub fn string_casing(w: &[u8]) -> (casing: TStringCasing)
    ensures
        casing == casing_of(w@),
{
    let mut has_upper: bool = false;
    let mut has_lower: bool = false;
    let mut i: usize = 0;
    while i < w.len()
        invariant
            i <= w.len(),
            has_upper == exists|j: int| 0 <= j < i && is_upper(#[trigger] w@[j]),
            has_lower == exists|j: int| 0 <= j < i && is_lower(#[trigger] w@[j]),
        decreases w.len() - i,
    {
        if 65 <= w[i] && w[i] <= 90 {
            assert(is_upper(w@[i as int]));
            has_upper = true;
        }
        if 97 <= w[i] && w[i] <= 122 {
            assert(is_lower(w@[i as int]));
            has_lower = true;
        }
        i = i + 1;
    }
    if !has_upper {
        TStringCasing::Lowercase
    } else if !has_lower {
        TStringCasing::Uppercase
    } else {
        TStringCasing::Unspecified
    }
}

/// The string that is known to be `w`.
pub open spec fn literal_string(w: Seq<u8>) -> StringView {
    string_with(
        Some(LiteralView::Value(w)),
        is_numeric(w),
        w.len() > 0 && w != seq![48u8],
        w.len() > 0,
        casing_of(w),
    )
}

impl TString {
    pub fn known_literal(w: Word) -> (s: TString)
        ensures
            s@ == literal_string(w@),
    {
        let is_zero: bool = w.len() == 1 && w[0] == 48;
        assert(is_zero == (w@ == seq![48u8])) by {
            if is_zero {
                assert(w@ =~= seq![48u8]);
            }
        }
        TString {
            is_numeric: str_is_numeric(w.as_slice()),
            is_truthy: w.len() > 0 && !is_zero,
            is_non_empty: w.len() > 0,
            is_callable: false,
            casing: string_casing(w.as_slice()),
            literal: Some(TStringLiteral::Value(w)),
        }
    }

    /// A string that comes from literals but whose value is not kept.
    pub fn unspecified_literal_with_props(
        is_numeric: bool,
        is_truthy: bool,
        is_non_empty: bool,
        casing: TStringCasing,
    ) -> (s: TString)
        ensures
            s@ == string_with(Some(LiteralView::Unspecified), is_numeric, is_truthy, is_non_empty, casing),
    {
        TString {
            literal: Some(TStringLiteral::Unspecified),
            is_numeric,
            is_truthy,
            is_non_empty,
            is_callable: false,
            casing,
        }
    }

    pub fn general_with_props(
        is_numeric: bool,
        is_truthy: bool,
        is_non_empty: bool,
        casing: TStringCasing,
    ) -> (s: TString)
        ensures
            s@ == string_with(None, is_numeric, is_truthy, is_non_empty, casing),
    {
        TString { literal: None, is_numeric, is_truthy, is_non_empty, is_callable: false, casing }
    }
}

pub fn wrap_string(s: TString) -> (u: TUnion)
    ensures
        u@ == union_of(string_atomic(s@)),
{
    wrap_atomic(TAtomic::Scalar(TScalar::String(s)))
}

pub fn get_true() -> (u: TUnion)
    ensures
        u@ == union_of(bool_atomic(Some(true))),
{
    wrap_atomic(TAtomic::Scalar(TScalar::Bool(Some(true))))
}

pub fn get_false() -> (u: TUnion)
    ensures
        u@ == union_of(bool_atomic(Some(false))),
{
    wrap_atomic(TAtomic::Scalar(TScalar::Bool(Some(false))))
}

pub fn get_bool() -> (u: TUnion)
    ensures
        u@ == union_of(bool_atomic(None)),
{
    wrap_atomic(TAtomic::Scalar(TScalar::Bool(None)))
}

pub fn get_null() -> (u: TUnion)
    ensures
        u@ == union_of(AtomicView::Null),
{
    wrap_atomic(TAtomic::Null)
}

pub fn get_mixed() -> (u: TUnion)
    ensures
        u@ == union_of(AtomicView::Mixed),
{
    wrap_atomic(TAtomic::Mixed)
}

pub fn get_never() -> (u: TUnion)
    ensures
        u@ == union_of(AtomicView::Never),
{
    wrap_atomic(TAtomic::Never)
}

pub fn get_void() -> (u: TUnion)
    ensures
        u@ == union_of(AtomicView::Void),
{
    wrap_atomic(TAtomic::Void)
}

pub fn get_object() -> (u: TUnion)
    ensures
        u@ == union_of(AtomicView::Object(ObjectView::Any)),
{
    wrap_atomic(TAtomic::Object(TObject::Any))
}

/// A resource that is open.
pub fn get_open_resource() -> (u: TUnion)
    ensures
        u@ == union_of(AtomicView::Resource(Some(false))),
{
    wrap_atomic(TAtomic::Resource(Some(false)))
}

pub fn wrap_integer(i: TInteger) -> (u: TUnion)
    ensures
        u@ == union_of(int_atomic(i)),
{
    wrap_atomic(integer(i))
}

pub fn get_int() -> (u: TUnion)
    ensures
        u@ == union_of(int_atomic(TInteger::Unspecified)),
{
    wrap_integer(TInteger::Unspecified)
}

pub fn get_literal_int(i: i64) -> (u: TUnion)
    ensures
        u@ == union_of(int_atomic(TInteger::Literal(i))),
{
    wrap_integer(TInteger::Literal(i))
}

pub fn get_positive_int() -> (u: TUnion)
    ensures
        u@ == union_of(int_atomic(TInteger::From(1))),
{
    wrap_integer(TInteger::From(1))
}

pub fn get_non_negative_int() -> (u: TUnion)
    ensures
        u@ == union_of(int_atomic(TInteger::From(0))),
{
    wrap_integer(TInteger::From(0))
}

pub fn wrap_float(f: TFloat) -> (u: TUnion)
    ensures
        u@ == union_of(float_atomic(f)),
{
    wrap_atomic(TAtomic::Scalar(TScalar::Float(f)))
}

pub fn get_float() -> (u: TUnion)
    ensures
        u@ == union_of(float_atomic(TFloat::Unspecified)),
{
    wrap_float(TFloat::Unspecified)
}

/// An integer or a float.
pub open spec fn int_or_float() -> UnionView {
    UnionView { types: seq![int_atomic(TInteger::Unspecified), float_atomic(TFloat::Unspecified)] }
}

pub fn get_int_or_float() -> (u: TUnion)
    ensures
        u@ == int_or_float(),
{
    wrap_atomics(integer(TInteger::Unspecified), TAtomic::Scalar(TScalar::Float(TFloat::Unspecified)))
}

pub fn get_string() -> (u: TUnion)
    ensures
        u@ == union_of(string_atomic(general_string())),
{
    wrap_string(TString::general_with_props(false, false, false, TStringCasing::Unspecified))
}

pub fn get_non_empty_string() -> (u: TUnion)
    ensures
        u@ == union_of(string_atomic(general_non_empty_string())),
{
    wrap_string(TString::general_with_props(false, false, true, TStringCasing::Unspecified))
}

pub fn get_literal_string(w: Word) -> (u: TUnion)
    ensures
        u@ == union_of(string_atomic(literal_string(w@))),
{
    wrap_string(TString::known_literal(w))
}

pub fn get_empty_string() -> (u: TUnion)
    ensures
        u@ == union_of(string_atomic(literal_string(Seq::empty()))),
{
    get_literal_string(Vec::new())
}

pub fn get_arraykey() -> (u: TUnion)
    ensures
        u@ == union_of(AtomicView::Scalar(ScalarView::ArrayKey)),
{
    wrap_atomic(TAtomic::Scalar(TScalar::ArrayKey))
}

/// An array with keys and values of any type.
pub open spec fn mixed_keyed_array() -> UnionView {
    union_of(
        AtomicView::Array(
            ArrayView::Keyed(
                KeyedArrayView {
                    known_items: None,
                    parameters: Some(
                        Box::new(
                            ArrayParametersView {
                                key: union_of(AtomicView::Scalar(ScalarView::ArrayKey)),
                                value: union_of(AtomicView::Mixed),
                            },
                        ),
                    ),
                    non_empty: false,
                },
            ),
        ),
    )
}

pub fn get_mixed_keyed_array() -> (u: TUnion)
    ensures
        u@ == mixed_keyed_array(),
{
    proof {
        reveal_with_fuel(TAtomic::model, 4);
    }
    wrap_atomic(
        TAtomic::Array(
            TArray::Keyed(
                TKeyedArray {
                    known_items: None,
                    parameters: Some(Box::new(ArrayParameters { key: get_arraykey(), value: get_mixed() })),
                    non_empty: false,
                },
            ),
        ),
    )
}

/// A list of which only the type of its elements, and whether it can be empty, is known.
pub open spec fn list_of(element: UnionView, non_empty: bool) -> UnionView {
    union_of(
        AtomicView::Array(
            ArrayView::List(
                ListView { known_count: None, known_elements: None, element_type: Box::new(element), non_empty },
            ),
        ),
    )
}

fn wrap_list(element: TUnion, non_empty: bool) -> (u: TUnion)
    ensures
        u@ == list_of(element@, non_empty),
{
    wrap_atomic(
        TAtomic::Array(
            TArray::List(
                TList { known_count: None, known_elements: None, element_type: Box::new(element), non_empty },
            ),
        ),
    )
}

pub fn get_list(element: TUnion) -> (u: TUnion)
    ensures
        u@ == list_of(element@, false),
{
    wrap_list(element, false)
}

pub fn get_non_empty_list(element: TUnion) -> (u: TUnion)
    ensures
        u@ == list_of(element@, true),
{
    wrap_list(element, true)
}

/// An object of the class `name`.
pub open spec fn named_object(name: Seq<u8>) -> AtomicView {
    AtomicView::Object(
        ObjectView::Named(
            NamedObjectView { name, type_parameters: None, is_this: false, intersection_types: None },
        ),
    )
}

pub fn get_named_object(name: Word) -> (u: TUnion)
    ensures
        u@ == union_of(named_object(name@)),
{
    wrap_atomic(
        TAtomic::Object(
            TObject::Named(
                TNamedObject { name, type_parameters: None, is_this: false, intersection_types: None },
            ),
        ),
    )
}

} // verus!
