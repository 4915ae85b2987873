//! How the types of the parts of an expression give the type of the whole.

use vstd::prelude::*;

use crate::arithmetic::apply_arithmetic;
use crate::arithmetic::apply_bitwise;
use crate::arithmetic::arithmetic_result;
use crate::arithmetic::bitwise_result;
use crate::arithmetic::wrapped_negation;
use crate::arithmetic::wrapping_negation;
use crate::arithmetic::ArithmeticOperator;
use crate::arithmetic::BitwiseOperator;
use crate::expression::Construct;
use crate::expression::Literal;
use crate::expression::StringPart;
use crate::expression::UnaryPrefixOperator;
use crate::numeric::is_numeric;
use crate::numeric::str_is_numeric;
use crate::ttype::ArrayKey;
use crate::ttype::ArrayKeyView;
use crate::ttype::AtomicView;
use crate::ttype::LiteralView;
use crate::ttype::ObjectView;
use crate::ttype::ScalarView;
use crate::ttype::StringView;
use crate::ttype::TAtomic;
use crate::ttype::TFloat;
use crate::ttype::TInteger;
use crate::ttype::TScalar;
use crate::ttype::TString;
use crate::ttype::TStringCasing;
use crate::ttype::TStringLiteral;
use crate::ttype::TUnion;
use crate::ttype::UnionView;
use crate::type_build::bool_atomic;
use crate::type_build::casing_of;
use crate::type_build::float_atomic;
use crate::type_build::general_string;
use crate::type_build::get_bool;
use crate::type_build::get_false;
use crate::type_build::get_float;
use crate::type_build::get_int;
use crate::type_build::get_int_or_float;
use crate::type_build::get_literal_int;
use crate::type_build::get_literal_string;
use crate::type_build::get_mixed_keyed_array;
use crate::type_build::get_null;
use crate::type_build::get_object;
use crate::type_build::get_string;
use crate::type_build::get_true;
use crate::type_build::get_void;
use crate::type_build::int_atomic;
use crate::type_build::int_or_float;
use crate::type_build::literal_string;
use crate::type_build::mixed_keyed_array;
use crate::type_build::string_atomic;
use crate::type_build::string_casing;
use crate::type_build::string_with;
use crate::type_build::union_of;
use crate::type_build::wrap_float;
use crate::type_build::wrap_string;
use crate::word::concat;
use crate::word::copy_word;

verus! {

// ---- what a type says of a value ----

/// The integer that a value of this type is known to be.
pub open spec fn known_int(t: UnionView) -> Option<i64> {
    if t.types.len() == 1 {
        match t.types[0] {
            AtomicView::Scalar(ScalarView::Integer(TInteger::Literal(i))) => Some(i),
            _ => None,
        }
    } else {
        None
    }
}

/// The float that a value of this type is known to be, by its bits.
pub open spec fn known_float(t: UnionView) -> Option<u64> {
    if t.types.len() == 1 {
        match t.types[0] {
            AtomicView::Scalar(ScalarView::Float(TFloat::Literal(bits))) => Some(bits),
            _ => None,
        }
    } else {
        None
    }
}

/// The key that a value of this type is known to be.
pub open spec fn known_key(t: UnionView) -> Option<ArrayKeyView> {
    if t.types.len() == 1 {
        match t.types[0] {
            AtomicView::Scalar(ScalarView::Integer(TInteger::Literal(i))) => Some(ArrayKeyView::Integer(i)),
            AtomicView::Scalar(ScalarView::String(s)) => match s.literal {
                Some(LiteralView::Value(w)) => Some(ArrayKeyView::String(w)),
                _ => None,
            },
            AtomicView::Scalar(ScalarView::ClassLikeString(Some(w))) => Some(ArrayKeyView::ClassString(w)),
            _ => None,
        }
    } else {
        None
    }
}

pub open spec fn is_numeric_atomic(t: AtomicView) -> bool {
    match t {
        AtomicView::Scalar(ScalarView::Integer(_)) => true,
        AtomicView::Scalar(ScalarView::Float(_)) => true,
        AtomicView::Scalar(ScalarView::Numeric) => true,
        AtomicView::Scalar(ScalarView::String(s)) => s.is_numeric,
        _ => false,
    }
}

/// Each value of this type is a number or a numeric string.
pub open spec fn is_numeric_type(t: UnionView) -> bool {
    t.types.len() > 0 && forall|i: int| 0 <= i < t.types.len() ==> is_numeric_atomic(#[trigger] t.types[i])
}

pub fn known_int_value(t: &TUnion) -> (i: Option<i64>)
    ensures
        i == known_int(t@),
{
    assert(t@.types.len() == t.types@.len());
    if t.types.len() != 1 {
        return None;
    }
    assert(t@.types[0] == t.types@[0].model());
    match &t.types[0] {
        TAtomic::Scalar(TScalar::Integer(TInteger::Literal(i))) => Some(*i),
        _ => None,
    }
}

fn known_float_bits(t: &TUnion) -> (bits: Option<u64>)
    ensures
        bits == known_float(t@),
{
    assert(t@.types.len() == t.types@.len());
    if t.types.len() != 1 {
        return None;
    }
    assert(t@.types[0] == t.types@[0].model());
    match &t.types[0] {
        TAtomic::Scalar(TScalar::Float(TFloat::Literal(bits))) => Some(*bits),
        _ => None,
    }
}

pub fn known_array_key(t: &TUnion) -> (key: Option<ArrayKey>)
    ensures
        match key {
            Some(k) => known_key(t@) == Some(k@),
            None => known_key(t@) is None,
        },
{
    assert(t@.types.len() == t.types@.len());
    if t.types.len() != 1 {
        return None;
    }
    assert(t@.types[0] == t.types@[0].model());
    match &t.types[0] {
        TAtomic::Scalar(TScalar::Integer(TInteger::Literal(i))) => Some(ArrayKey::Integer(*i)),
        TAtomic::Scalar(TScalar::String(s)) => match &s.literal {
            Some(TStringLiteral::Value(w)) => Some(ArrayKey::String(copy_word(w.as_slice()))),
            _ => None,
        },
        TAtomic::Scalar(TScalar::ClassLikeString(Some(w))) => Some(ArrayKey::ClassString(copy_word(w.as_slice()))),
        _ => None,
    }
}

fn check_numeric_atomic(t: &TAtomic) -> (numeric: bool)
    ensures
        numeric == is_numeric_atomic(t@),
{
    match t {
        TAtomic::Scalar(TScalar::Integer(_)) => true,
        TAtomic::Scalar(TScalar::Float(_)) => true,
        TAtomic::Scalar(TScalar::Numeric) => true,
        TAtomic::Scalar(TScalar::String(s)) => s.is_numeric,
        _ => false,
    }
}

fn check_numeric_type(t: &TUnion) -> (numeric: bool)
    ensures
        numeric == is_numeric_type(t@),
{
    assert(t@.types.len() == t.types@.len());
    if t.types.len() == 0 {
        return false;
    }
    let mut i: usize = 0;
    while i < t.types.len()
        invariant
            i <= t.types@.len(),
            t@.types.len() == t.types@.len(),
            forall|j: int| 0 <= j < i ==> is_numeric_atomic(#[trigger] t@.types[j]),
        decreases t.types@.len() - i,
    {
        assert(t@.types[i as int] == t.types@[i as int]@);
        if !check_numeric_atomic(&t.types[i]) {
            return false;
        }
        i = i + 1;
    }
    true
}

// ---- literals ----

/// From this length on the value of a string is not kept.
pub const MAX_LITERAL_LENGTH: usize = 1000;

/// The type of a literal.
pub open spec fn literal_type(literal: Literal) -> UnionView {
    match literal {
        Literal::String(Some(value)) => union_of(
            string_atomic(
                if value@.len() < MAX_LITERAL_LENGTH {
                    literal_string(value@)
                } else {
                    string_with(
                        Some(LiteralView::Unspecified),
                        is_numeric(value@),
                        true,
                        true,
                        casing_of(value@),
                    )
                },
            ),
        ),
        Literal::String(None) => union_of(string_atomic(general_string())),
        Literal::Integer(Some(value)) => union_of(int_atomic(TInteger::Literal(value as i64))),
        Literal::Integer(None) => int_or_float(),
        Literal::Float => union_of(float_atomic(TFloat::Unspecified)),
        Literal::True => union_of(bool_atomic(Some(true))),
        Literal::False => union_of(bool_atomic(Some(false))),
        Literal::Null => union_of(AtomicView::Null),
    }
}

pub fn infer_literal(literal: &Literal) -> (t: TUnion)
    ensures
        t@ == literal_type(*literal),
{
    match literal {
        Literal::String(Some(value)) => {
            if value.len() < MAX_LITERAL_LENGTH {
                get_literal_string(copy_word(value.as_slice()))
            } else {
                wrap_string(
                    TString::unspecified_literal_with_props(
                        str_is_numeric(value.as_slice()),
                        true,
                        true,
                        string_casing(value.as_slice()),
                    ),
                )
            }
        },
        Literal::String(None) => get_string(),
        Literal::Integer(Some(value)) => get_literal_int(*value as i64),
        Literal::Integer(None) => get_int_or_float(),
        Literal::Float => get_float(),
        Literal::True => get_true(),
        Literal::False => get_false(),
        Literal::Null => get_null(),
    }
}

/// Some part of an interpolated string is text.
pub open spec fn has_content(parts: Seq<StringPart>) -> bool {
    exists|i: int| 0 <= i < parts.len() && is_content(#[trigger] parts[i])
}

pub open spec fn is_content(part: StringPart) -> bool {
    match part {
        StringPart::Literal(raw) => raw@.len() > 0,
        StringPart::Other => false,
    }
}

pub fn check_content(parts: &Vec<StringPart>) -> (content: bool)
    ensures
        content == has_content(parts@),
{
    let mut i: usize = 0;
    while i < parts.len()
        invariant
            i <= parts@.len(),
            forall|j: int| 0 <= j < i ==> !is_content(#[trigger] parts@[j]),
        decreases parts@.len() - i,
    {
        if let StringPart::Literal(raw) = &parts[i] {
            if raw.len() > 0 {
                assert(is_content(parts@[i as int]));
                return true;
            }
        }
        i = i + 1;
    }
    false
}

// ---- operators ----

/// The bits of a float with the other sign.
pub open spec fn negated_bits(bits: u64) -> u64 {
    bits ^ 0x8000_0000_0000_0000u64
}

/// The type of a number with a sign before it.
pub open spec fn signed_type(t: UnionView, negative: bool) -> UnionView {
    match known_int(t) {
        Some(i) => union_of(
            int_atomic(
                TInteger::Literal(
                    if negative {
                        wrapped_negation(i)
                    } else {
                        i
                    },
                ),
            ),
        ),
        None => match known_float(t) {
            Some(bits) => union_of(
                float_atomic(
                    TFloat::Literal(
                        if negative {
                            negated_bits(bits)
                        } else {
                            bits
                        },
                    ),
                ),
            ),
            None => if is_numeric_type(t) {
                int_or_float()
            } else {
                t
            },
        },
    }
}

fn infer_signed(t: TUnion, negative: bool) -> (signed: TUnion)
    ensures
        signed@ == signed_type(t@, negative),
{
    if let Some(i) = known_int_value(&t) {
        return get_literal_int(
            if negative {
                wrapping_negation(i)
            } else {
                i
            },
        );
    }
    if let Some(bits) = known_float_bits(&t) {
        return wrap_float(
            TFloat::Literal(
                if negative {
                    bits ^ 0x8000_0000_0000_0000u64
                } else {
                    bits
                },
            ),
        );
    }
    if check_numeric_type(&t) {
        get_int_or_float()
    } else {
        t
    }
}

/// The type that an operator before an operand gives.
pub open spec fn unary_type(operator: UnaryPrefixOperator, t: UnionView) -> Option<UnionView> {
    match operator {
        UnaryPrefixOperator::Plus => Some(signed_type(t, false)),
        UnaryPrefixOperator::Negation => Some(signed_type(t, true)),
        UnaryPrefixOperator::Not => Some(union_of(bool_atomic(None))),
        UnaryPrefixOperator::ArrayCast => Some(mixed_keyed_array()),
        UnaryPrefixOperator::BoolCast => Some(union_of(bool_atomic(None))),
        UnaryPrefixOperator::BooleanCast => Some(union_of(bool_atomic(None))),
        UnaryPrefixOperator::DoubleCast => Some(union_of(float_atomic(TFloat::Unspecified))),
        UnaryPrefixOperator::RealCast => Some(union_of(float_atomic(TFloat::Unspecified))),
        UnaryPrefixOperator::FloatCast => Some(union_of(float_atomic(TFloat::Unspecified))),
        UnaryPrefixOperator::IntCast => Some(union_of(int_atomic(TInteger::Unspecified))),
        UnaryPrefixOperator::IntegerCast => Some(union_of(int_atomic(TInteger::Unspecified))),
        UnaryPrefixOperator::ObjectCast => Some(union_of(AtomicView::Object(ObjectView::Any))),
        UnaryPrefixOperator::UnsetCast => Some(union_of(AtomicView::Null)),
        UnaryPrefixOperator::StringCast => Some(union_of(string_atomic(general_string()))),
        UnaryPrefixOperator::BinaryCast => Some(union_of(string_atomic(general_string()))),
        UnaryPrefixOperator::VoidCast => Some(union_of(AtomicView::Void)),
        UnaryPrefixOperator::Other => None,
    }
}

pub fn infer_unary(operator: UnaryPrefixOperator, t: TUnion) -> (result: Option<TUnion>)
    ensures
        match result {
            Some(u) => unary_type(operator, t@) == Some(u@),
            None => unary_type(operator, t@) is None,
        },
{
    match operator {
        UnaryPrefixOperator::Plus => Some(infer_signed(t, false)),
        UnaryPrefixOperator::Negation => Some(infer_signed(t, true)),
        UnaryPrefixOperator::Not => Some(get_bool()),
        UnaryPrefixOperator::ArrayCast => Some(get_mixed_keyed_array()),
        UnaryPrefixOperator::BoolCast => Some(get_bool()),
        UnaryPrefixOperator::BooleanCast => Some(get_bool()),
        UnaryPrefixOperator::DoubleCast => Some(get_float()),
        UnaryPrefixOperator::RealCast => Some(get_float()),
        UnaryPrefixOperator::FloatCast => Some(get_float()),
        UnaryPrefixOperator::IntCast => Some(get_int()),
        UnaryPrefixOperator::IntegerCast => Some(get_int()),
        UnaryPrefixOperator::ObjectCast => Some(get_object()),
        UnaryPrefixOperator::UnsetCast => Some(get_null()),
        UnaryPrefixOperator::StringCast => Some(get_string()),
        UnaryPrefixOperator::BinaryCast => Some(get_string()),
        UnaryPrefixOperator::VoidCast => Some(get_void()),
        UnaryPrefixOperator::Other => None,
    }
}

/// The string that the first type of a union is, if it is one.
pub open spec fn first_string(t: UnionView) -> Option<StringView> {
    if t.types.len() > 0 {
        match t.types[0] {
            AtomicView::Scalar(ScalarView::String(s)) => Some(s),
            _ => None,
        }
    } else {
        None
    }
}

pub open spec fn common_casing(a: TStringCasing, b: TStringCasing) -> TStringCasing {
    if a == b {
        a
    } else {
        TStringCasing::Unspecified
    }
}

/// One string after the other: known where both are, and otherwise with the properties that follow
/// from those of the two.
pub open spec fn concatenated_string(a: StringView, b: StringView) -> StringView {
    match (a.literal, b.literal) {
        (Some(LiteralView::Value(v)), Some(LiteralView::Value(w))) => literal_string(v + w),
        _ => string_with(
            if a.literal is Some && b.literal is Some {
                Some(LiteralView::Unspecified)
            } else {
                None
            },
            false,
            a.is_truthy || b.is_truthy,
            a.is_non_empty || b.is_non_empty,
            common_casing(a.casing, b.casing),
        ),
    }
}

/// The type of two operands, one written after the other.
pub open spec fn concatenation_type(a: Option<UnionView>, b: Option<UnionView>) -> UnionView {
    let general = union_of(string_atomic(general_string()));
    match (a, b) {
        (Some(a), Some(b)) => match (first_string(a), first_string(b)) {
            (Some(a), Some(b)) => union_of(string_atomic(concatenated_string(a, b))),
            _ => general,
        },
        _ => general,
    }
}

fn make_concatenated(a: &TString, b: &TString) -> (s: TString)
    ensures
        s@ == concatenated_string(a@, b@),
{
    if let Some(TStringLiteral::Value(v)) = &a.literal {
        if let Some(TStringLiteral::Value(w)) = &b.literal {
            return TString::known_literal(concat(v.as_slice(), w.as_slice()));
        }
    }
    let is_truthy: bool = a.is_truthy || b.is_truthy;
    let is_non_empty: bool = a.is_non_empty || b.is_non_empty;
    let casing: TStringCasing = match (a.casing, b.casing) {
        (TStringCasing::Lowercase, TStringCasing::Lowercase) => TStringCasing::Lowercase,
        (TStringCasing::Uppercase, TStringCasing::Uppercase) => TStringCasing::Uppercase,
        _ => TStringCasing::Unspecified,
    };
    if a.literal.is_some() && b.literal.is_some() {
        TString::unspecified_literal_with_props(false, is_truthy, is_non_empty, casing)
    } else {
        TString::general_with_props(false, is_truthy, is_non_empty, casing)
    }
}

pub fn infer_concatenation(a: &TUnion, b: &TUnion) -> (t: TUnion)
    ensures
        t@ == concatenation_type(Some(a@), Some(b@)),
{
    assert(a@.types.len() == a.types@.len());
    assert(b@.types.len() == b.types@.len());
    if a.types.len() == 0 || b.types.len() == 0 {
        return get_string();
    }
    assert(a@.types[0] == a.types@[0].model());
    assert(b@.types[0] == b.types@[0].model());
    if let TAtomic::Scalar(TScalar::String(s)) = &a.types[0] {
        if let TAtomic::Scalar(TScalar::String(r)) = &b.types[0] {
            return wrap_string(make_concatenated(s, r));
        }
    }
    get_string()
}

/// The integers that two operands are known to be.
pub open spec fn known_ints(a: Option<UnionView>, b: Option<UnionView>) -> Option<(i64, i64)> {
    match (a, b) {
        (Some(a), Some(b)) => match (known_int(a), known_int(b)) {
            (Some(i), Some(j)) => Some((i, j)),
            _ => None,
        },
        _ => None,
    }
}

pub fn known_int_values(a: &Option<TUnion>, b: &Option<TUnion>) -> (ints: Option<(i64, i64)>)
    ensures
        ints == known_ints(
            match *a {
                Some(t) => Some(t@),
                None => None,
            },
            match *b {
                Some(t) => Some(t@),
                None => None,
            },
        ),
{
    match (a, b) {
        (Some(a), Some(b)) => match (known_int_value(a), known_int_value(b)) {
            (Some(i), Some(j)) => Some((i, j)),
            _ => None,
        },
        _ => None,
    }
}

/// The type that an operator on bits gives.
pub open spec fn bitwise_type(operator: BitwiseOperator, ints: Option<(i64, i64)>) -> UnionView {
    let result = match ints {
        Some((i, j)) => bitwise_result(operator, i, j),
        None => None,
    };
    union_of(
        int_atomic(
            match result {
                Some(value) => TInteger::Literal(value),
                None => TInteger::Unspecified,
            },
        ),
    )
}

pub fn infer_bitwise(operator: BitwiseOperator, ints: Option<(i64, i64)>) -> (t: TUnion)
    ensures
        t@ == bitwise_type(operator, ints),
{
    if let Some((i, j)) = ints {
        if let Some(value) = apply_bitwise(operator, i, j) {
            return get_literal_int(value);
        }
    }
    get_int()
}

/// The type that an operator on numbers gives.
pub open spec fn arithmetic_type(operator: ArithmeticOperator, ints: Option<(i64, i64)>) -> UnionView {
    let result = match ints {
        Some((i, j)) => arithmetic_result(operator, i, j),
        None => None,
    };
    match result {
        Some(value) => union_of(int_atomic(TInteger::Literal(value))),
        None => int_or_float(),
    }
}

pub fn infer_arithmetic(operator: ArithmeticOperator, ints: Option<(i64, i64)>) -> (t: TUnion)
    ensures
        t@ == arithmetic_type(operator, ints),
{
    if let Some((i, j)) = ints {
        if let Some(value) = apply_arithmetic(operator, i, j) {
            return get_literal_int(value);
        }
    }
    get_int_or_float()
}

/// The type of a construct of the language.
pub open spec fn construct_type(construct: Construct) -> Option<UnionView> {
    match construct {
        Construct::Isset => Some(union_of(bool_atomic(None))),
        Construct::Empty => Some(union_of(bool_atomic(None))),
        Construct::Print => Some(union_of(int_atomic(TInteger::Literal(1)))),
        Construct::Other => None,
    }
}

pub fn infer_construct(construct: Construct) -> (t: Option<TUnion>)
    ensures
        match t {
            Some(u) => construct_type(construct) == Some(u@),
            None => construct_type(construct) is None,
        },
{
    match construct {
        Construct::Isset => Some(get_bool()),
        Construct::Empty => Some(get_bool()),
        Construct::Print => Some(get_literal_int(1)),
        Construct::Other => None,
    }
}

} // verus!
