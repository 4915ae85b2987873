//! What holds of the types of constant expressions as a whole: a type holds the value that its
//! expression has when the program runs.

use vstd::arithmetic::power::pow;
use vstd::prelude::*;

use crate::arithmetic::arithmetic_result;
use crate::arithmetic::ArithmeticOperator;
use crate::arithmetic::BitwiseOperator;
use crate::expression::BinaryOperator;
use crate::expression::Construct;
use crate::expression::Expression;
use crate::expression::Literal;
use crate::expression::MagicConstant;
use crate::expression::StringPart;
use crate::expression::UnaryPrefixOperator;
use crate::inference::infer_type;
use crate::inference::InferenceView;
use crate::ttype::AtomicView;
use crate::ttype::ArrayView;
use crate::ttype::LiteralView;
use crate::ttype::ObjectView;
use crate::ttype::ScalarView;
use crate::ttype::StringView;
use crate::ttype::TFloat;
use crate::ttype::TInteger;
use crate::ttype::TStringCasing;
use crate::ttype::UnionView;
use crate::word::lowercase;
use crate::word::lowercase_byte;
use crate::word::text;

verus! {

// ---- values ----

/// A value of the analysed program.
pub enum Value {
    Null,
    Bool(bool),
    Integer(int),
    String(Seq<u8>),
}

/// A string has the properties that a type promises.
pub open spec fn string_has(s: StringView, value: Seq<u8>) -> bool {
    &&& s.literal matches Some(LiteralView::Value(known)) ==> known == value
    &&& s.is_non_empty ==> value.len() > 0
    &&& s.is_truthy ==> value.len() > 0 && value != seq![48u8]
    &&& s.casing == TStringCasing::Lowercase ==> forall|i: int|
        0 <= i < value.len() ==> !(65 <= #[trigger] value[i] <= 90)
    &&& s.casing == TStringCasing::Uppercase ==> forall|i: int|
        0 <= i < value.len() ==> !(97 <= #[trigger] value[i] <= 122)
}

/// A value is one of this type.
pub open spec fn holds(t: AtomicView, value: Value) -> bool {
    match (t, value) {
        (AtomicView::Mixed, _) => true,
        (AtomicView::Null, Value::Null) => true,
        (AtomicView::Scalar(ScalarView::Bool(known)), Value::Bool(b)) => known is None || known == Some(b),
        (AtomicView::Scalar(ScalarView::Integer(known)), Value::Integer(i)) => match known {
            TInteger::Literal(n) => n == i,
            TInteger::From(n) => n <= i,
            TInteger::To(n) => i <= n,
            TInteger::Range(low, high) => low <= i <= high,
            TInteger::Unspecified => true,
        },
        (AtomicView::Scalar(ScalarView::String(s)), Value::String(w)) => string_has(s, w),
        _ => false,
    }
}

/// A value is one of a type of several parts.
pub open spec fn union_holds(t: UnionView, value: Value) -> bool {
    exists|i: int| 0 <= i < t.types.len() && holds(#[trigger] t.types[i], value)
}

pub open spec fn fits(i: int) -> bool {
    i64::MIN <= i <= i64::MAX
}

/// An integer, where it can be held.
pub open spec fn integer_value(i: int) -> Option<Value> {
    if fits(i) {
        Some(Value::Integer(i))
    } else {
        None
    }
}

/// What an operator on two integers gives when the program runs, where that is an integer.
pub open spec fn computed(operator: ArithmeticOperator, a: int, b: int) -> Option<Value> {
    match operator {
        ArithmeticOperator::Addition => integer_value(a + b),
        ArithmeticOperator::Subtraction => integer_value(a - b),
        ArithmeticOperator::Multiplication => integer_value(a * b),
        ArithmeticOperator::Division => if b != 0 && a % b == 0 {
            integer_value(a / b)
        } else {
            None
        },
        ArithmeticOperator::Modulo => if b == 0 || (a == i64::MIN && b == -1) {
            None
        } else if a >= 0 {
            Some(Value::Integer(a % b))
        } else {
            Some(Value::Integer(-((-a) % b)))
        },
        ArithmeticOperator::Exponentiation => if 0 <= b <= u32::MAX {
            integer_value(pow(a, b as nat))
        } else {
            None
        },
    }
}

/// What an operator on the bits of two integers gives when the program runs.
pub open spec fn computed_bits(operator: BitwiseOperator, a: i64, b: i64) -> Option<Value> {
    match operator {
        BitwiseOperator::And => Some(Value::Integer((a & b) as int)),
        BitwiseOperator::Or => Some(Value::Integer((a | b) as int)),
        BitwiseOperator::Xor => Some(Value::Integer((a ^ b) as int)),
        BitwiseOperator::LeftShift => if b < 0 {
            None
        } else if b >= 64 {
            Some(Value::Integer(0))
        } else {
            Some(Value::Integer((a << b) as int))
        },
        BitwiseOperator::RightShift => if b < 0 {
            None
        } else if b >= 64 {
            Some(
                Value::Integer(
                    if a < 0 {
                        -1
                    } else {
                        0
                    },
                ),
            )
        } else {
            Some(Value::Integer((a >> b) as int))
        },
    }
}

/// A name without the separator at its beginning.
pub open spec fn without_separator(name: Seq<u8>) -> Seq<u8> {
    if name.len() > 0 && name[0] == 92 {
        name.skip(1)
    } else {
        name
    }
}

/// The value of an expression when the program runs, as far as it is plain: literals, the constants
/// `true`, `false` and `null`, and operators on such values.
pub open spec fn value_of(e: Expression) -> Option<Value>
    decreases e,
{
    match e {
        Expression::Literal(Literal::True) => Some(Value::Bool(true)),
        Expression::Literal(Literal::False) => Some(Value::Bool(false)),
        Expression::Literal(Literal::Null) => Some(Value::Null),
        Expression::Literal(Literal::Integer(Some(i))) => integer_value(i as int),
        Expression::Literal(Literal::String(Some(w))) => Some(Value::String(w@)),
        Expression::ConstantAccess(name) => {
            let written = without_separator(
                if name.is_imported {
                    name.resolved@
                } else {
                    name.value@
                },
            );
            if lowercase(written) == lowercase(text("true")) {
                Some(Value::Bool(true))
            } else if lowercase(written) == lowercase(text("false")) {
                Some(Value::Bool(false))
            } else if lowercase(written) == lowercase(text("null")) {
                Some(Value::Null)
            } else {
                None
            }
        },
        Expression::UnaryPrefix(UnaryPrefixOperator::Plus, operand) => match value_of(*operand) {
            Some(Value::Integer(i)) => Some(Value::Integer(i)),
            _ => None,
        },
        Expression::UnaryPrefix(UnaryPrefixOperator::Negation, operand) => match value_of(*operand) {
            Some(Value::Integer(i)) => integer_value(-i),
            _ => None,
        },
        Expression::UnaryPrefix(UnaryPrefixOperator::Not, operand) => match value_of(*operand) {
            Some(Value::Bool(b)) => Some(Value::Bool(!b)),
            _ => None,
        },
        Expression::Binary(BinaryOperator::StringConcat, lhs, rhs) => match (value_of(*lhs), value_of(*rhs)) {
            (Some(Value::String(a)), Some(Value::String(b))) => Some(Value::String(a + b)),
            _ => None,
        },
        Expression::Binary(BinaryOperator::Arithmetic(operator), lhs, rhs) => match (
            value_of(*lhs),
            value_of(*rhs),
        ) {
            (Some(Value::Integer(a)), Some(Value::Integer(b))) => computed(operator, a, b),
            _ => None,
        },
        Expression::Binary(BinaryOperator::Bitwise(operator), lhs, rhs) => match (value_of(*lhs), value_of(*rhs)) {
            (Some(Value::Integer(a)), Some(Value::Integer(b))) => computed_bits(operator, a as i64, b as i64),
            _ => None,
        },
        _ => None,
    }
}

/// No string that is written in the expression is too long to be kept.
pub open spec fn is_short(e: Expression) -> bool
    decreases e,
{
    match e {
        Expression::Literal(Literal::String(Some(w))) => w@.len() < 1000,
        Expression::UnaryPrefix(_, operand) => is_short(*operand),
        Expression::Binary(_, lhs, rhs) => is_short(*lhs) && is_short(*rhs),
        _ => true,
    }
}

/// What the type of an expression with this value looks like.
spec fn is_type_of(t: UnionView, value: Value, short: bool) -> bool {
    &&& t.types.len() == 1
    &&& match value {
        Value::Null => t.types[0] == AtomicView::Null,
        Value::Bool(b) => t.types[0] matches AtomicView::Scalar(ScalarView::Bool(known)) && (known is None || known
            == Some(b)),
        Value::Integer(i) => fits(i) && t.types[0] == AtomicView::Scalar(
            ScalarView::Integer(TInteger::Literal(i as i64)),
        ),
        Value::String(w) => t.types[0] matches AtomicView::Scalar(ScalarView::String(s)) && string_has(s, w) && (short
            ==> s.literal == Some(LiteralView::Value(w))),
    }
}

proof fn lemma_arithmetic(operator: ArithmeticOperator, a: i64, b: i64)
    requires
        computed(operator, a as int, b as int) is Some,
    ensures
        match computed(operator, a as int, b as int) {
            Some(Value::Integer(i)) => fits(i) && arithmetic_result(operator, a, b) == Some(i as i64),
            _ => false,
        },
{
    let x = a as int;
    let d = b as int;
    match operator {
        ArithmeticOperator::Division => {
            assert(d != 0 && x % d == 0);
            let q = x / d;
            vstd::arithmetic::div_mod::lemma_fundamental_div_mod(x, d);
            assert(x == d * q);
            lemma_exact_division(x, d, q);
            if d == -1 {
                assert(d * q == -q) by (nonlinear_arith)
                    requires
                        d == -1,
                ;
            }
            assert(a.checked_rem(b) == Some(0i64));
            assert(a.checked_div(b) == Some(q as i64));
        },
        ArithmeticOperator::Modulo => {
            lemma_remainder(x, d);
        },
        _ => {},
    }
}

/// Division and remainder without rest.
proof fn lemma_exact_division(x: int, d: int, q: int)
    requires
        d != 0,
        x == d * q,
    ensures
        x > 0 && d > 0 ==> x / d == q && x % d == 0,
        x < 0 && d < 0 ==> (x * -1) / (d * -1) == q && (x * -1) % (d * -1) == 0,
        x < 0 && d > 0 ==> ((x * -1) / d) * -1 == q && (x * -1) % d == 0,
        x > 0 && d < 0 ==> (x / (d * -1)) * -1 == q && x % (d * -1) == 0,
        x == 0 ==> q == 0,
{
    if x == 0 {
        assert(q == 0) by (nonlinear_arith)
            requires
                0 == d * q,
                d != 0,
        ;
    }
    if x > 0 && d > 0 {
        assert(x == q * d + 0) by (nonlinear_arith)
            requires
                x == d * q,
        ;
        vstd::arithmetic::div_mod::lemma_fundamental_div_mod_converse(x, d, q, 0);
    }
    if x < 0 && d < 0 {
        assert(x * -1 == q * (d * -1) + 0) by (nonlinear_arith)
            requires
                x == d * q,
        ;
        vstd::arithmetic::div_mod::lemma_fundamental_div_mod_converse(x * -1, d * -1, q, 0);
    }
    if x < 0 && d > 0 {
        assert(x * -1 == (q * -1) * d + 0) by (nonlinear_arith)
            requires
                x == d * q,
        ;
        vstd::arithmetic::div_mod::lemma_fundamental_div_mod_converse(x * -1, d, q * -1, 0);
    }
    if x > 0 && d < 0 {
        assert(x == (q * -1) * (d * -1) + 0) by (nonlinear_arith)
            requires
                x == d * q,
        ;
        vstd::arithmetic::div_mod::lemma_fundamental_div_mod_converse(x, d * -1, q * -1, 0);
    }
}

/// The sign of a divisor makes no difference to a remainder.
proof fn lemma_remainder(x: int, d: int)
    requires
        d != 0,
    ensures
        x >= 0 && d < 0 ==> x % d == x % (d * -1),
        x < 0 && d < 0 ==> (-x) % d == (x * -1) % (d * -1),
        x >= 0 ==> 0 <= x % d <= x,
        x < 0 ==> 0 <= (-x) % d <= -x,
        x == 0 ==> x % d == 0,
{
    let m = if x >= 0 {
        x
    } else {
        -x
    };
    let e = if d > 0 {
        d
    } else {
        -d
    };
    let q = m / e;
    let r = m % e;
    vstd::arithmetic::div_mod::lemma_fundamental_div_mod(m, e);
    assert(0 <= r < e) by (nonlinear_arith)
        requires
            e > 0,
            r == m % e,
    ;
    assert(q >= 0) by (nonlinear_arith)
        requires
            m >= 0,
            e > 0,
            q == m / e,
    ;
    assert(e * q >= 0) by (nonlinear_arith)
        requires
            e > 0,
            q >= 0,
    ;
    if d < 0 {
        assert(m % d == r) by (nonlinear_arith)
            requires
                m == e * q + r,
                0 <= r < e,
                d == -e,
                e > 0,
        ;
    }
}

proof fn lemma_value(v: InferenceView, e: Expression)
    requires
        value_of(e) is Some,
    ensures
        infer_type(v, e) is Some,
        is_type_of(infer_type(v, e)->0, value_of(e)->0, is_short(e)),
    decreases e,
{
    match e {
        Expression::Literal(Literal::String(Some(w))) => {
            lemma_long(w@);
        },
        Expression::ConstantAccess(name) => {
            lemma_plain_name(
                without_separator(
                    if name.is_imported {
                        name.resolved@
                    } else {
                        name.value@
                    },
                ),
            );
        },
        Expression::UnaryPrefix(operator, operand) => {
            lemma_value(v, *operand);
        },
        Expression::Binary(operator, lhs, rhs) => {
            lemma_value(v, *lhs);
            lemma_value(v, *rhs);
            match (operator, value_of(*lhs), value_of(*rhs)) {
                (
                    BinaryOperator::Arithmetic(operator),
                    Some(Value::Integer(a)),
                    Some(Value::Integer(b)),
                ) => lemma_arithmetic(operator, a as i64, b as i64),
                (BinaryOperator::StringConcat, Some(Value::String(a)), Some(Value::String(b))) => lemma_concat(a, b),
                _ => {},
            }
        },
        _ => {},
    }
}

proof fn lemma_long(w: Seq<u8>)
    ensures
        w.len() >= 1000 ==> w != seq![48u8],
{
}

proof fn lemma_concat(a: Seq<u8>, b: Seq<u8>)
    ensures
        a.len() > 0 && a != seq![48u8] ==> a + b != seq![48u8],
        b.len() > 0 && b != seq![48u8] ==> a + b != seq![48u8],
        forall|i: int| 0 <= i < a.len() ==> #[trigger] (a + b)[i] == a[i],
        forall|i: int| a.len() <= i < a.len() + b.len() ==> #[trigger] (a + b)[i] == b[i - a.len()],
{
    if a.len() > 0 && a != seq![48u8] && a + b == seq![48u8] {
        assert((a + b).len() == 1);
        assert(a =~= seq![48u8]) by {
            assert((a + b)[0] == a[0]);
        }
    }
    if b.len() > 0 && b != seq![48u8] && a + b == seq![48u8] {
        assert((a + b).len() == 1);
        assert(b =~= seq![48u8]) by {
            assert((a + b)[0] == b[0]);
        }
    }
}

proof fn lemma_plain_name(name: Seq<u8>)
    requires
        lowercase(name) == lowercase(text("true")) || lowercase(name) == lowercase(text("false")) || lowercase(name)
            == lowercase(text("null")),
    ensures
        name.len() > 0,
        name[0] != 92,
        lowercase(text("true")) != lowercase(text("false")),
        lowercase(text("true")) != lowercase(text("null")),
        lowercase(text("false")) != lowercase(text("null")),
{
    reveal_strlit("true");
    reveal_strlit("false");
    reveal_strlit("null");
    vstd::string::is_ascii_spec_bytes("true");
    vstd::string::is_ascii_spec_bytes("false");
    vstd::string::is_ascii_spec_bytes("null");
    assert(text("true").len() == 4 && text("false").len() == 5 && text("null").len() == 4);
    assert(text("true")[0] == 116 && text("false")[0] == 102 && text("null")[0] == 110);
    assert(lowercase(name)[0] == lowercase(text("true"))[0] || lowercase(name)[0] == lowercase(text("false"))[0]
        || lowercase(name)[0] == lowercase(text("null"))[0]);
    assert(lowercase(text("true"))[0] == 116 && lowercase(text("null"))[0] == 110);
    assert(lowercase(text("false"))[0] == 102 && lowercase(text("false")).len() == 5);
    assert(lowercase(name).len() == name.len());
    assert(lowercase(text("true")).len() == 4 && lowercase(text("null")).len() == 4);
    assert(name.len() > 0);
    assert(lowercase(name)[0] == lowercase_byte(name[0]));
}

/// The type of an expression holds the value that the expression has when the program runs: where
/// that value is plain, a type is inferred, and the value is one of it.
pub proof fn types_hold_their_values(v: InferenceView, e: Expression)
    requires
        value_of(e) is Some,
    ensures
        infer_type(v, e) is Some,
        union_holds(infer_type(v, e)->0, value_of(e)->0),
{
    lemma_value(v, e);
    let t = infer_type(v, e)->0;
    assert(holds(t.types[0], value_of(e)->0));
}

/// The value of a literal, or of one of the constants `true`, `false` and `null`, is the only one of
/// its type, unless it is a string that is too long to be kept.
pub proof fn literals_have_one_value(v: InferenceView, e: Expression, other: Value)
    requires
        e is Literal || e is ConstantAccess,
        value_of(e) is Some,
        is_short(e),
        union_holds(infer_type(v, e)->0, other),
    ensures
        other == value_of(e)->0,
{
    lemma_value(v, e);
    let t = infer_type(v, e)->0;
    let i = choose|i: int| 0 <= i < t.types.len() && holds(#[trigger] t.types[i], other);
    assert(i == 0);
    if e is ConstantAccess {
        lemma_plain_name(
            without_separator(
                if e->ConstantAccess_0.is_imported {
                    e->ConstantAccess_0.resolved@
                } else {
                    e->ConstantAccess_0.value@
                },
            ),
        );
    }
}

/// Where two expressions have the same integer for their value, they have the same type, which
/// holds nothing else; so do literals and constants with the same value.
pub proof fn same_values_have_the_same_type(v: InferenceView, a: Expression, b: Expression)
    requires
        value_of(a) is Some,
        value_of(a) == value_of(b),
        value_of(a)->0 is Integer || ((a is Literal || a is ConstantAccess) && (b is Literal || b is ConstantAccess)),
    ensures
        infer_type(v, a) == infer_type(v, b),
{
    lemma_value(v, a);
    lemma_value(v, b);
    let s = infer_type(v, a)->0;
    let t = infer_type(v, b)->0;
    if !(value_of(a)->0 is Integer) {
        if let Expression::ConstantAccess(name) = a {
            lemma_plain_name(
                without_separator(
                    if name.is_imported {
                        name.resolved@
                    } else {
                        name.value@
                    },
                ),
            );
        }
        if let Expression::ConstantAccess(name) = b {
            lemma_plain_name(
                without_separator(
                    if name.is_imported {
                        name.resolved@
                    } else {
                        name.value@
                    },
                ),
            );
        }
    }
    assert(s.types =~= t.types);
}

/// The type with one part.
pub open spec fn only(t: AtomicView) -> UnionView {
    UnionView { types: seq![t] }
}

/// A string of which nothing is known, or only that it is not empty.
pub open spec fn some_string(is_non_empty: bool) -> AtomicView {
    AtomicView::Scalar(
        ScalarView::String(
            StringView {
                literal: None,
                is_numeric: false,
                is_truthy: false,
                is_non_empty,
                is_callable: false,
                casing: TStringCasing::Unspecified,
            },
        ),
    )
}

/// A number whose value is not known is an integer or a float: a literal that is too large, and
/// what an operator on numbers gives unless both operands are known and the result is an integer.
pub proof fn unknown_numbers_are_integers_or_floats(
    v: InferenceView,
    operator: ArithmeticOperator,
    lhs: Expression,
    rhs: Expression,
)
    requires
        infer_type(v, lhs) is None || infer_type(v, rhs) is None || infer_type(v, lhs)->0.types.len() != 1 || infer_type(
            v,
            rhs,
        )->0.types.len() != 1 || !(infer_type(v, lhs)->0.types[0] matches AtomicView::Scalar(
            ScalarView::Integer(TInteger::Literal(_)),
        )) || !(infer_type(v, rhs)->0.types[0] matches AtomicView::Scalar(ScalarView::Integer(TInteger::Literal(_)))),
    ensures
        infer_type(
            v,
            Expression::Binary(BinaryOperator::Arithmetic(operator), Box::new(lhs), Box::new(rhs)),
        ) == Some(
            UnionView {
                types: seq![
                    AtomicView::Scalar(ScalarView::Integer(TInteger::Unspecified)),
                    AtomicView::Scalar(ScalarView::Float(TFloat::Unspecified)),
                ],
            },
        ),
        infer_type(v, Expression::Literal(Literal::Integer(None))) == Some(
            UnionView {
                types: seq![
                    AtomicView::Scalar(ScalarView::Integer(TInteger::Unspecified)),
                    AtomicView::Scalar(ScalarView::Float(TFloat::Unspecified)),
                ],
            },
        ),
        infer_type(v, Expression::Literal(Literal::Float)) == Some(
            only(AtomicView::Scalar(ScalarView::Float(TFloat::Unspecified))),
        ),
{
}

/// Whatever its operand is, a cast gives a value of the type that it names, and `!` a boolean. An
/// operand without a type leaves the whole without one.
pub proof fn casts_give_the_type_that_they_name(v: InferenceView, operator: UnaryPrefixOperator, operand: Expression)
    ensures
        infer_type(v, operand) is None ==> infer_type(
            v,
            Expression::UnaryPrefix(operator, Box::new(operand)),
        ) is None,
        infer_type(v, operand) is Some ==> {
            let t = infer_type(v, Expression::UnaryPrefix(operator, Box::new(operand)));
            match operator {
                UnaryPrefixOperator::Not | UnaryPrefixOperator::BoolCast | UnaryPrefixOperator::BooleanCast => t
                    == Some(only(AtomicView::Scalar(ScalarView::Bool(None)))),
                UnaryPrefixOperator::DoubleCast | UnaryPrefixOperator::RealCast | UnaryPrefixOperator::FloatCast => t
                    == Some(only(AtomicView::Scalar(ScalarView::Float(TFloat::Unspecified)))),
                UnaryPrefixOperator::IntCast | UnaryPrefixOperator::IntegerCast => t == Some(
                    only(AtomicView::Scalar(ScalarView::Integer(TInteger::Unspecified))),
                ),
                UnaryPrefixOperator::StringCast | UnaryPrefixOperator::BinaryCast => t == Some(
                    only(some_string(false)),
                ),
                UnaryPrefixOperator::ObjectCast => t == Some(only(AtomicView::Object(ObjectView::Any))),
                UnaryPrefixOperator::UnsetCast => t == Some(only(AtomicView::Null)),
                UnaryPrefixOperator::VoidCast => t == Some(only(AtomicView::Void)),
                UnaryPrefixOperator::ArrayCast => t matches Some(u) && is_array_of_anything(u),
                UnaryPrefixOperator::Other => t is None,
                UnaryPrefixOperator::Plus | UnaryPrefixOperator::Negation => t is Some,
            }
        },
{
}

/// An array that may hold anything under any key, or nothing.
pub open spec fn is_array_of_anything(t: UnionView) -> bool {
    &&& t.types.len() == 1
    &&& match t.types[0] {
        AtomicView::Array(ArrayView::Keyed(array)) => {
            &&& array.known_items is None
            &&& !array.non_empty
            &&& match array.parameters {
                Some(p) => p.key == only(AtomicView::Scalar(ScalarView::ArrayKey)) && p.value == only(
                    AtomicView::Mixed,
                ),
                None => false,
            }
        },
        _ => false,
    }
}

/// A sign before a number that is not known leaves it a number that is not known; before a float
/// that is known, `+` changes nothing and `-` the sign alone; before what is no number, nothing.
pub proof fn signs_keep_numbers(v: InferenceView, negative: bool, operand: Expression, bits: u64)
    requires
        infer_type(v, operand) is Some,
    ensures
        ({
            let t = infer_type(v, operand)->0;
            let operator = if negative {
                UnaryPrefixOperator::Negation
            } else {
                UnaryPrefixOperator::Plus
            };
            let signed = infer_type(v, Expression::UnaryPrefix(operator, Box::new(operand)));
            &&& t == only(AtomicView::Scalar(ScalarView::Integer(TInteger::Unspecified))) || t == only(
                AtomicView::Scalar(ScalarView::Float(TFloat::Unspecified)),
            ) ==> signed == Some(
                UnionView {
                    types: seq![
                        AtomicView::Scalar(ScalarView::Integer(TInteger::Unspecified)),
                        AtomicView::Scalar(ScalarView::Float(TFloat::Unspecified)),
                    ],
                },
            )
            &&& t.types.len() == 1 && !(t.types[0] is Scalar) ==> signed == Some(t)
            &&& t == only(AtomicView::Scalar(ScalarView::Float(TFloat::Literal(bits)))) ==> signed == Some(
                only(
                    AtomicView::Scalar(
                        ScalarView::Float(
                            TFloat::Literal(
                                if negative {
                                    bits ^ 0x8000_0000_0000_0000u64
                                } else {
                                    bits
                                },
                            ),
                        ),
                    ),
                ),
            )
        }),
{
    let t = infer_type(v, operand)->0;
    if t.types.len() == 1 {
        assert(t.types =~= seq![t.types[0]]);
    }
    if t == only(AtomicView::Scalar(ScalarView::Integer(TInteger::Unspecified))) || t == only(
        AtomicView::Scalar(ScalarView::Float(TFloat::Unspecified)),
    ) {
        assert(crate::inference_rules::is_numeric_type(t));
    }
    if t.types.len() == 1 && !(t.types[0] is Scalar) {
        assert(!crate::inference_rules::is_numeric_atomic(t.types[0]));
        assert(!crate::inference_rules::is_numeric_type(t));
    }
}

/// One string after another that are not both known is a string: it is not empty where one of them
/// is not, and it is in one case where both are.
pub proof fn concatenations_are_strings(v: InferenceView, lhs: Expression, rhs: Expression)
    ensures
        ({
            let t = infer_type(v, Expression::Binary(BinaryOperator::StringConcat, Box::new(lhs), Box::new(rhs)));
            &&& t is Some
            &&& t->0.types.len() == 1
            &&& t->0.types[0] matches AtomicView::Scalar(ScalarView::String(s)) && {
                match (infer_type(v, lhs), infer_type(v, rhs)) {
                    (Some(a), Some(b)) if a.types.len() == 1 && b.types.len() == 1 => match (a.types[0], b.types[0]) {
                        (AtomicView::Scalar(ScalarView::String(x)), AtomicView::Scalar(ScalarView::String(y))) => {
                            match (x.literal, y.literal) {
                                (Some(LiteralView::Value(p)), Some(LiteralView::Value(q))) => s.literal == Some(
                                    LiteralView::Value(p + q),
                                ) && s.is_non_empty == (p.len() + q.len() > 0),
                                _ => {
                                    &&& s.is_non_empty == (x.is_non_empty || y.is_non_empty)
                                    &&& s.is_truthy == (x.is_truthy || y.is_truthy)
                                    &&& s.literal is Some == (x.literal is Some && y.literal is Some)
                                    &&& !(s.literal matches Some(LiteralView::Value(_)))
                                    &&& x.casing == y.casing ==> s.casing == x.casing
                                    &&& x.casing != y.casing ==> s.casing == TStringCasing::Unspecified
                                    &&& !s.is_numeric && !s.is_callable
                                },
                            }
                        },
                        _ => AtomicView::Scalar(ScalarView::String(s)) == some_string(false),
                    },
                    (Some(_), Some(_)) => true,
                    _ => AtomicView::Scalar(ScalarView::String(s)) == some_string(false),
                }
            }
        }),
{
}

/// Operators on bits give integers.
pub proof fn bits_are_integers(v: InferenceView, operator: BitwiseOperator, lhs: Expression, rhs: Expression)
    ensures
        ({
            let t = infer_type(
                v,
                Expression::Binary(BinaryOperator::Bitwise(operator), Box::new(lhs), Box::new(rhs)),
            );
            &&& t is Some
            &&& t->0.types.len() == 1
            &&& t->0.types[0] matches AtomicView::Scalar(ScalarView::Integer(_))
            &&& infer_type(v, lhs) is None || infer_type(v, rhs) is None ==> t->0 == only(
                AtomicView::Scalar(ScalarView::Integer(TInteger::Unspecified)),
            )
        }),
{
}

/// A string with parts to be filled in is not empty where one of its written parts is not.
pub proof fn interpolated_strings_have_their_text(v: InferenceView, parts: Vec<StringPart>)
    ensures
        infer_type(v, Expression::CompositeString(parts)) == Some(
            only(
                some_string(
                    exists|i: int|
                        0 <= i < parts@.len() && (#[trigger] parts@[i] matches StringPart::Literal(raw) && raw@.len()
                            > 0),
                ),
            ),
        ),
{
    if crate::inference_rules::has_content(parts@) {
        let i = choose|i: int| 0 <= i < parts@.len() && crate::inference_rules::is_content(#[trigger] parts@[i]);
        assert(parts@[i] matches StringPart::Literal(raw) && raw@.len() > 0);
    }
    if exists|i: int| 0 <= i < parts@.len() && (#[trigger] parts@[i] matches StringPart::Literal(raw) && raw@.len() > 0) {
        let i = choose|i: int|
            0 <= i < parts@.len() && (#[trigger] parts@[i] matches StringPart::Literal(raw) && raw@.len() > 0);
        assert(crate::inference_rules::is_content(parts@[i]));
    }
}

/// `isset` and `empty` give a boolean, `print` gives one.
pub proof fn constructs_give_what_they_say(v: InferenceView, construct: Construct)
    ensures
        match construct {
            Construct::Isset | Construct::Empty => infer_type(v, Expression::Construct(construct)) == Some(
                only(AtomicView::Scalar(ScalarView::Bool(None))),
            ),
            Construct::Print => infer_type(v, Expression::Construct(construct)) == Some(
                only(AtomicView::Scalar(ScalarView::Integer(TInteger::Literal(1)))),
            ),
            Construct::Other => infer_type(v, Expression::Construct(construct)) is None,
        },
{
}

/// The text that the only part of a type is known to be.
pub open spec fn is_text(t: Option<UnionView>, w: Seq<u8>) -> bool {
    t matches Some(u) && u.types.len() == 1 && (u.types[0] matches AtomicView::Scalar(ScalarView::String(s)) && s.literal
        == Some(LiteralView::Value(w)))
}

/// The constants that stand for the place where they are written: the line is counted from one, the
/// file, its directory and the namespace are known where they can be.
pub proof fn places_are_known(v: InferenceView, constant: MagicConstant)
    ensures
        ({
            let t = infer_type(v, Expression::MagicConstant(constant));
            match constant {
                MagicConstant::Line(line) => t == Some(
                    only(AtomicView::Scalar(ScalarView::Integer(TInteger::Literal((line + 1) as i64)))),
                ),
                MagicConstant::File => match v.path {
                    Some(path) => is_text(t, path),
                    None => t == Some(only(some_string(true))),
                },
                MagicConstant::Directory => match v.directory {
                    Some(directory) => is_text(t, directory),
                    None => t == Some(only(some_string(true))),
                },
                MagicConstant::Namespace => match v.namespace {
                    Some(namespace) => is_text(t, namespace),
                    None => is_text(t, Seq::empty()),
                },
                _ => t == Some(only(some_string(false))),
            }
        }),
{
}

/// A string that is written out is known, unless it is too long; then what can be told of it is
/// kept. One that cannot be read is any string.
pub proof fn written_strings_are_known(v: InferenceView, w: Option<crate::word::Word>)
    ensures
        ({
            let t = infer_type(v, Expression::Literal(Literal::String(w)));
            match w {
                Some(w) => {
                    &&& w@.len() < 1000 ==> is_text(t, w@)
                    &&& w@.len() >= 1000 ==> (t matches Some(u) && u.types.len() == 1 && (u.types[0] matches
                        AtomicView::Scalar(ScalarView::String(s)) && s.literal == Some(LiteralView::Unspecified)
                        && s.is_non_empty && s.is_truthy && !s.is_callable))
                },
                None => t == Some(only(some_string(false))),
            }
        }),
{
}

/// A closure and an arrow function are known by the place where they are written.
pub proof fn closures_are_known_by_their_place(v: InferenceView, span: crate::issue::Span)
    ensures
        infer_type(v, Expression::Closure(span)) == Some(only(AtomicView::Callable(span))),
        infer_type(v, Expression::ArrowFunction(span)) == Some(only(AtomicView::Callable(span))),
{
}

} // verus!
