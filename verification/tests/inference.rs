//! The types of constant expressions.

use mago::arithmetic::apply_arithmetic;
use mago::arithmetic::apply_bitwise;
use mago::arithmetic::checked_power;
use mago::arithmetic::wrapping_negation;
use mago::arithmetic::ArithmeticOperator;
use mago::arithmetic::BitwiseOperator;
use mago::collections::WordMap;
use mago::expression::is_keyed_array_expression;
use mago::expression::is_list_array_expression;
use mago::expression::ArrayElement;
use mago::expression::BinaryOperator;
use mago::expression::ConstantName;
use mago::expression::Construct;
use mago::expression::Expression;
use mago::expression::Literal;
use mago::expression::MagicConstant;
use mago::expression::StringPart;
use mago::expression::UnaryPrefixOperator;
use mago::inference::infer;
use mago::inference::infer_with_class_constants;
use mago::inference::infer_with_constants;
use mago::inference::FileContext;
use mago::issue::Span;
use mago::metadata::ClassLikeConstantMetadata;
use mago::metadata::ConstantMetadata;
use mago::metadata::MetadataFlags;
use mago::predefined::get_literal_constant_type;
use mago::predefined::get_platform_constant_type;
use mago::ttype::ArrayKey;
use mago::ttype::TArray;
use mago::ttype::TAtomic;
use mago::ttype::TInteger;
use mago::ttype::TReference;
use mago::ttype::TScalar;
use mago::ttype::TStringCasing;
use mago::ttype::TStringLiteral;
use mago::ttype::TUnion;
use mago::type_build::get_bool;
use mago::type_build::get_false;
use mago::type_build::get_float;
use mago::type_build::get_int;
use mago::type_build::get_int_or_float;
use mago::type_build::get_literal_int;
use mago::type_build::get_literal_string;
use mago::type_build::get_mixed_keyed_array;
use mago::type_build::get_non_empty_string;
use mago::type_build::get_null;
use mago::type_build::get_string;
use mago::type_build::get_true;
use mago::word::Word;

fn w(s: &str) -> Word {
    s.as_bytes().to_vec()
}

fn span() -> Span {
    Span { file: 1, start: 3, end: 7 }
}

fn file() -> FileContext {
    FileContext {
        path: Some(w("/ws/src/a.php")),
        directory: Some(w("/ws/src")),
        namespace: Some(w("App")),
    }
}

fn type_of(expression: Expression) -> TUnion {
    infer(&file(), &expression, Some(&w("App\\User"))).unwrap()
}

fn untyped(expression: Expression) -> bool {
    infer(&file(), &expression, None).is_none()
}

fn number(i: u64) -> Expression {
    Expression::Literal(Literal::Integer(Some(i)))
}

fn string(s: &str) -> Expression {
    Expression::Literal(Literal::String(Some(w(s))))
}

fn binary(operator: BinaryOperator, a: Expression, b: Expression) -> Expression {
    Expression::Binary(operator, Box::new(a), Box::new(b))
}

fn prefix(operator: UnaryPrefixOperator, operand: Expression) -> Expression {
    Expression::UnaryPrefix(operator, Box::new(operand))
}

fn constant(name: &str) -> Expression {
    Expression::ConstantAccess(ConstantName { value: w(name), resolved: w(name), is_imported: false })
}

fn class_constant(class: Expression, name: &str) -> Expression {
    Expression::ClassConstant(Box::new(class), Some(w(name)))
}

#[test]
fn literal_constants_in_any_form() {
    assert!(get_literal_constant_type(b"true").unwrap().same(&get_true()));
    assert!(get_literal_constant_type(b"\\TRUE").unwrap().same(&get_true()));
    assert!(get_literal_constant_type(b"False").unwrap().same(&get_false()));
    assert!(get_literal_constant_type(b"\\nuLL").unwrap().same(&get_null()));
    assert!(get_literal_constant_type(b"\\\\true").is_none());
    assert!(get_literal_constant_type(b"truth").is_none());
    assert!(get_literal_constant_type(b"").is_none());
}

#[test]
fn platform_constants_have_ranges() {
    assert!(get_platform_constant_type(b"PHP_MAXPATHLEN").unwrap().same(&get_int()));
    assert!(get_platform_constant_type(b"PHP_OS").unwrap().same(&get_non_empty_string()));
    assert!(get_platform_constant_type(b"NAN").unwrap().same(&get_float()));
    assert!(get_platform_constant_type(b"php_os").is_none());
    assert!(get_platform_constant_type(b"MY_CONSTANT").is_none());
}

#[test]
fn magic_constants() {
    let magic = |constant| type_of(Expression::MagicConstant(constant));
    assert!(magic(MagicConstant::Line(41)).same(&get_literal_int(42)));
    assert!(magic(MagicConstant::File).same(&get_literal_string(w("/ws/src/a.php"))));
    assert!(magic(MagicConstant::Directory).same(&get_literal_string(w("/ws/src"))));
    assert!(magic(MagicConstant::Namespace).same(&get_literal_string(w("App"))));
    assert!(magic(MagicConstant::Class).same(&get_string()));
    let unknown = FileContext { path: None, directory: None, namespace: None };
    let file = infer(&unknown, &Expression::MagicConstant(MagicConstant::File), None).unwrap();
    assert!(file.same(&get_non_empty_string()));
    let namespace = infer(&unknown, &Expression::MagicConstant(MagicConstant::Namespace), None).unwrap();
    assert!(namespace.same(&get_literal_string(w(""))));
}

#[test]
fn literals() {
    assert!(type_of(number(7)).same(&get_literal_int(7)));
    assert!(type_of(Expression::Literal(Literal::Integer(None))).same(&get_int_or_float()));
    assert!(type_of(Expression::Literal(Literal::Float)).same(&get_float()));
    assert!(type_of(Expression::Literal(Literal::Null)).same(&get_null()));
    assert!(type_of(Expression::Literal(Literal::String(None))).same(&get_string()));
    assert!(type_of(string("abc")).same(&get_literal_string(w("abc"))));
}

#[test]
fn long_strings_keep_their_properties_only() {
    let long = "a".repeat(5000);
    let t = type_of(string(&long));
    match &t.types[0] {
        TAtomic::Scalar(TScalar::String(s)) => {
            assert!(matches!(s.literal, Some(TStringLiteral::Unspecified)));
            assert!(s.is_truthy && s.is_non_empty && !s.is_numeric);
            assert_eq!(s.casing, TStringCasing::Lowercase);
        }
        _ => panic!("not a string"),
    }
}

#[test]
fn interpolated_strings() {
    let with_text = Expression::CompositeString(vec![StringPart::Other, StringPart::Literal(w("x"))]);
    assert!(type_of(with_text).same(&get_non_empty_string()));
    let without = Expression::CompositeString(vec![StringPart::Other, StringPart::Literal(w(""))]);
    assert!(type_of(without).same(&get_string()));
}

#[test]
fn signs_and_casts() {
    assert!(type_of(prefix(UnaryPrefixOperator::Negation, number(5))).same(&get_literal_int(-5)));
    assert!(type_of(prefix(UnaryPrefixOperator::Plus, number(5))).same(&get_literal_int(5)));
    assert!(type_of(prefix(UnaryPrefixOperator::Not, number(5))).same(&get_bool()));
    assert!(type_of(prefix(UnaryPrefixOperator::IntCast, string("x"))).same(&get_int()));
    assert!(type_of(prefix(UnaryPrefixOperator::FloatCast, string("x"))).same(&get_float()));
    assert!(type_of(prefix(UnaryPrefixOperator::ArrayCast, string("x"))).same(&get_mixed_keyed_array()));
    assert!(untyped(prefix(UnaryPrefixOperator::Other, number(5))));
    assert!(untyped(prefix(UnaryPrefixOperator::Negation, Expression::Other)));
}

#[test]
fn concatenation() {
    let concat = |a, b| type_of(binary(BinaryOperator::StringConcat, a, b));
    assert!(concat(string("ab"), string("cd")).same(&get_literal_string(w("abcd"))));
    assert!(concat(string("ab"), number(1)).same(&get_string()));
    assert!(concat(string("ab"), Expression::Other).same(&get_string()));
}

#[test]
fn arithmetic_on_known_integers() {
    let compute = |operator, a, b| type_of(binary(BinaryOperator::Arithmetic(operator), number(a), number(b)));
    assert!(compute(ArithmeticOperator::Addition, 2, 3).same(&get_literal_int(5)));
    assert!(compute(ArithmeticOperator::Subtraction, 2, 3).same(&get_literal_int(-1)));
    assert!(compute(ArithmeticOperator::Multiplication, 4, 3).same(&get_literal_int(12)));
    assert!(compute(ArithmeticOperator::Division, 12, 3).same(&get_literal_int(4)));
    assert!(compute(ArithmeticOperator::Division, 13, 3).same(&get_int_or_float()));
    assert!(compute(ArithmeticOperator::Division, 13, 0).same(&get_int_or_float()));
    assert!(compute(ArithmeticOperator::Modulo, 13, 3).same(&get_literal_int(1)));
    assert!(compute(ArithmeticOperator::Exponentiation, 2, 10).same(&get_literal_int(1024)));
    let unknown = binary(BinaryOperator::Arithmetic(ArithmeticOperator::Addition), number(1), Expression::Other);
    assert!(type_of(unknown).same(&get_int_or_float()));
    assert!(untyped(binary(BinaryOperator::Other, number(1), number(2))));
}

#[test]
fn integers_that_cannot_be_held() {
    assert_eq!(apply_arithmetic(ArithmeticOperator::Addition, i64::MAX, 1), None);
    assert_eq!(apply_arithmetic(ArithmeticOperator::Multiplication, i64::MIN, -1), None);
    assert_eq!(apply_arithmetic(ArithmeticOperator::Modulo, -7, 3), Some(-1));
    assert_eq!(apply_arithmetic(ArithmeticOperator::Division, -6, 3), Some(-2));
    assert_eq!(apply_arithmetic(ArithmeticOperator::Exponentiation, 2, -1), None);
    assert_eq!(checked_power(2, 62), Some(1 << 62));
    assert_eq!(checked_power(2, 63), None);
    assert_eq!(checked_power(-2, 63), Some(i64::MIN));
    assert_eq!(checked_power(0, 0), Some(1));
    assert_eq!(wrapping_negation(i64::MIN), i64::MIN);
    assert_eq!(wrapping_negation(3), -3);
}

#[test]
fn operators_on_bits() {
    assert_eq!(apply_bitwise(BitwiseOperator::And, 6, 3), Some(2));
    assert_eq!(apply_bitwise(BitwiseOperator::Or, 6, 3), Some(7));
    assert_eq!(apply_bitwise(BitwiseOperator::Xor, 6, 3), Some(5));
    assert_eq!(apply_bitwise(BitwiseOperator::LeftShift, 1, 4), Some(16));
    assert_eq!(apply_bitwise(BitwiseOperator::LeftShift, 1, 64), Some(0));
    assert_eq!(apply_bitwise(BitwiseOperator::LeftShift, 1, -1), None);
    assert_eq!(apply_bitwise(BitwiseOperator::RightShift, -8, 1), Some(-4));
    assert_eq!(apply_bitwise(BitwiseOperator::RightShift, -8, 70), Some(-1));
    assert_eq!(apply_bitwise(BitwiseOperator::RightShift, 8, 70), Some(0));
    let unknown = binary(BinaryOperator::Bitwise(BitwiseOperator::And), number(1), Expression::Other);
    assert!(type_of(unknown).same(&get_int()));
}

#[test]
fn constructs() {
    assert!(type_of(Expression::Construct(Construct::Isset)).same(&get_bool()));
    assert!(type_of(Expression::Construct(Construct::Print)).same(&get_literal_int(1)));
    assert!(untyped(Expression::Construct(Construct::Other)));
}

#[test]
fn constants_that_are_known() {
    let mut constants = WordMap::new();
    constants.insert(
        w("app\\LIMIT"),
        ConstantMetadata {
            name: w("App\\LIMIT"),
            span: span(),
            flags: MetadataFlags::empty(),
            attributes: Vec::new(),
            type_metadata: None,
            inferred_type: Some(get_literal_int(9)),
        },
    );
    let expression = constant("App\\LIMIT");
    let t = infer_with_constants(&file(), &expression, None, Some(&constants)).unwrap();
    assert!(t.same(&get_literal_int(9)));
    assert!(infer(&file(), &expression, None).is_none());
    assert!(type_of(constant("\\true")).same(&get_true()));
    assert!(infer_with_constants(&file(), &constant("App\\limit"), None, Some(&constants)).is_none());
}

#[test]
fn constants_of_classes() {
    let user = || Expression::Identifier(w("App\\User"));
    let name = type_of(class_constant(user(), "CLASS"));
    match &name.types[0] {
        TAtomic::Scalar(TScalar::ClassLikeString(Some(class))) => assert_eq!(class, &w("App\\User")),
        _ => panic!("not the name of a class"),
    }
    let flag = type_of(class_constant(Expression::Identifier(w("Attribute")), "TARGET_ALL"));
    assert!(flag.same(&get_literal_int(127)));
    let member = type_of(class_constant(user(), "LIMIT"));
    match &member.types[0] {
        TAtomic::Reference(TReference::Member(reference)) => {
            assert_eq!(reference.class_like_name, w("App\\User"));
            assert_eq!(reference.member, w("LIMIT"));
        }
        _ => panic!("not a member"),
    }
    let mut own = WordMap::new();
    own.insert(
        w("LIMIT"),
        ClassLikeConstantMetadata {
            name: w("LIMIT"),
            span: span(),
            inferred_type: Some(TAtomic::Scalar(TScalar::Integer(TInteger::Literal(3)))),
        },
    );
    let expression = class_constant(Expression::SelfKeyword, "LIMIT");
    let t = infer_with_class_constants(&file(), &expression, Some(&w("App\\User")), &own).unwrap();
    assert!(t.same(&get_literal_int(3)));
    assert!(untyped(class_constant(Expression::SelfKeyword, "LIMIT")));
}

#[test]
fn values_of_enum_cases() {
    let case = class_constant(Expression::Identifier(w("App\\Suit")), "Hearts");
    let value = Expression::Property(Box::new(case), Some(w("value")));
    assert!(matches!(type_of(value).types[0], TAtomic::ValueOf(_)));
    let case = class_constant(Expression::Identifier(w("App\\Suit")), "Hearts");
    assert!(untyped(Expression::Property(Box::new(case), Some(w("name")))));
}

#[test]
fn empty_arrays_may_hold_anything() {
    assert!(type_of(Expression::Array(Vec::new())).same(&get_mixed_keyed_array()));
    assert!(type_of(Expression::LegacyArray(Vec::new())).same(&get_mixed_keyed_array()));
}

#[test]
fn arrays_of_values_are_lists() {
    let t = type_of(Expression::Array(vec![ArrayElement::Value(number(1)), ArrayElement::Value(Expression::Other)]));
    match &t.types[0] {
        TAtomic::Array(TArray::List(list)) => {
            assert_eq!(list.known_count, Some(2));
            assert!(list.non_empty);
            let elements = list.known_elements.as_ref().unwrap();
            assert!(elements[0].value.same(&get_literal_int(1)));
            assert_eq!(elements[1].index, 1);
            assert!(matches!(elements[1].value.types[0], TAtomic::Mixed));
        }
        _ => panic!("not a list"),
    }
}

#[test]
fn keyed_arrays_order_their_keys() {
    let pair = |key, value| ArrayElement::KeyValue(key, value);
    let t = type_of(Expression::Array(vec![
        pair(string("b"), number(1)),
        pair(string("a"), number(2)),
        pair(number(3), number(3)),
        pair(string("b"), number(4)),
        pair(Expression::Other, string("x")),
    ]));
    match &t.types[0] {
        TAtomic::Array(TArray::Keyed(array)) => {
            let items = array.known_items.as_ref().unwrap();
            assert_eq!(items.len(), 3);
            assert!(matches!(items[0].key, ArrayKey::Integer(3)));
            assert!(matches!(&items[1].key, ArrayKey::String(s) if s == b"a"));
            assert!(matches!(&items[2].key, ArrayKey::String(s) if s == b"b"));
            assert!(items[2].value.same(&get_literal_int(4)));
            assert!(array.non_empty);
            let others = array.parameters.as_ref().unwrap();
            assert!(others.value.same(&get_literal_string(w("x"))));
        }
        _ => panic!("not an array"),
    }
}

#[test]
fn large_and_mixed_arrays_have_no_type() {
    let many = |n: u64| (0..n).map(|i| ArrayElement::KeyValue(number(i), number(i))).collect::<Vec<_>>();
    assert!(!untyped(Expression::Array(many(100))));
    assert!(untyped(Expression::Array(many(101))));
    let mixed = vec![ArrayElement::Value(number(1)), ArrayElement::KeyValue(number(2), number(3))];
    assert!(untyped(Expression::Array(mixed)));
    assert!(untyped(Expression::Array(vec![ArrayElement::Other])));
}

#[test]
fn kinds_of_array_expressions() {
    let list = Expression::Array(vec![ArrayElement::Value(number(1))]);
    assert!(is_list_array_expression(&list) && !is_keyed_array_expression(&list));
    let keyed = Expression::LegacyArray(vec![ArrayElement::KeyValue(number(1), number(2))]);
    assert!(!is_list_array_expression(&keyed) && is_keyed_array_expression(&keyed));
    let empty = Expression::Array(Vec::new());
    assert!(is_list_array_expression(&empty) && is_keyed_array_expression(&empty));
    assert!(!is_list_array_expression(&number(1)) && !is_keyed_array_expression(&number(1)));
}

#[test]
fn closures_are_known_by_their_place() {
    assert!(matches!(type_of(Expression::Closure(span())).types[0], TAtomic::Callable(s) if s == span()));
    assert!(matches!(type_of(Expression::ArrowFunction(span())).types[0], TAtomic::Callable(_)));
    assert!(untyped(Expression::Other));
}
