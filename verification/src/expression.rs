//! Expressions whose types can be told without running anything.

use vstd::prelude::*;

use crate::arithmetic::ArithmeticOperator;
use crate::arithmetic::BitwiseOperator;
use crate::issue::Span;
use crate::word::Word;

verus! {

pub enum MagicConstant {
    /// The line in which the constant stands, counted from zero.
    Line(u32),
    File,
    Directory,
    Namespace,
    Trait,
    Class,
    Function,
    Method,
    Property,
}

pub enum Literal {
    /// A string; one that cannot be read has no value.
    String(Option<Word>),
    /// An integer; one that is too large has no value.
    Integer(Option<u64>),
    Float,
    True,
    False,
    Null,
}

pub enum StringPart {
    Literal(Word),
    Other,
}

#[derive(Clone, Copy, Debug, PartialEq, Eq, Structural)]
pub enum UnaryPrefixOperator {
    Plus,
    Negation,
    Not,
    ArrayCast,
    BoolCast,
    BooleanCast,
    DoubleCast,
    RealCast,
    FloatCast,
    IntCast,
    IntegerCast,
    ObjectCast,
    UnsetCast,
    StringCast,
    BinaryCast,
    VoidCast,
    Other,
}

#[derive(Clone, Copy, Debug, PartialEq, Eq, Structural)]
pub enum BinaryOperator {
    StringConcat,
    Bitwise(BitwiseOperator),
    Arithmetic(ArithmeticOperator),
    Other,
}

#[derive(Clone, Copy, Debug, PartialEq, Eq, Structural)]
pub enum Construct {
    Isset,
    Empty,
    Print,
    Other,
}

/// The name of a constant: as it is written, as it is resolved, and whether it is imported.
pub struct ConstantName {
    pub value: Word,
    pub resolved: Word,
    pub is_imported: bool,
}

pub enum ArrayElement {
    Value(Expression),
    KeyValue(Expression, Expression),
    Other,
}

pub enum Expression {
    MagicConstant(MagicConstant),
    Literal(Literal),
    CompositeString(Vec<StringPart>),
    UnaryPrefix(UnaryPrefixOperator, Box<Expression>),
    Binary(BinaryOperator, Box<Expression>, Box<Expression>),
    Construct(Construct),
    ConstantAccess(ConstantName),
    /// A constant of a class; where it is not given by an identifier, it has no name.
    ClassConstant(Box<Expression>, Option<Word>),
    /// A property of an object; where it is not given by an identifier, it has no name.
    Property(Box<Expression>, Option<Word>),
    Array(Vec<ArrayElement>),
    LegacyArray(Vec<ArrayElement>),
    Closure(Span),
    ArrowFunction(Span),
    /// A name, resolved.
    Identifier(Word),
    SelfKeyword,
    StaticKeyword,
    Other,
}

/// The elements are values without keys.
pub open spec fn are_values(elements: Seq<ArrayElement>) -> bool {
    forall|i: int| 0 <= i < elements.len() ==> #[trigger] elements[i] is Value
}

/// The elements are values with keys.
pub open spec fn are_key_values(elements: Seq<ArrayElement>) -> bool {
    forall|i: int| 0 <= i < elements.len() ==> #[trigger] elements[i] is KeyValue
}

fn all_values(elements: &Vec<ArrayElement>) -> (all: bool)
    ensures
        all == are_values(elements@),
{
    let mut i: usize = 0;
    while i < elements.len()
        invariant
            i <= elements@.len(),
            forall|j: int| 0 <= j < i ==> #[trigger] elements@[j] is Value,
        decreases elements@.len() - i,
    {
        match &elements[i] {
            ArrayElement::Value(_) => {},
            _ => {
                assert(!(elements@[i as int] is Value));
                return false;
            },
        }
        i = i + 1;
    }
    true
}

fn all_key_values(elements: &Vec<ArrayElement>) -> (all: bool)
    ensures
        all == are_key_values(elements@),
{
    let mut i: usize = 0;
    while i < elements.len()
        invariant
            i <= elements@.len(),
            forall|j: int| 0 <= j < i ==> #[trigger] elements@[j] is KeyValue,
        decreases elements@.len() - i,
    {
        match &elements[i] {
            ArrayElement::KeyValue(_, _) => {},
            _ => {
                assert(!(elements@[i as int] is KeyValue));
                return false;
            },
        }
        i = i + 1;
    }
    true
}

/// Whether an expression is an array of values without keys.
pub fn is_list_array_expression(expression: &Expression) -> (is_list: bool)
    ensures
        is_list == match *expression {
            Expression::Array(elements) => are_values(elements@),
            Expression::LegacyArray(elements) => are_values(elements@),
            _ => false,
        },
{
    match expression {
        Expression::Array(elements) => all_values(elements),
        Expression::LegacyArray(elements) => all_values(elements),
        _ => false,
    }
}

/// Whether an expression is an array of values with keys.
pub fn is_keyed_array_expression(expression: &Expression) -> (is_keyed: bool)
    ensures
        is_keyed == match *expression {
            Expression::Array(elements) => are_key_values(elements@),
            Expression::LegacyArray(elements) => are_key_values(elements@),
            _ => false,
        },
{
    match expression {
        Expression::Array(elements) => all_key_values(elements),
        Expression::LegacyArray(elements) => all_key_values(elements),
        _ => false,
    }
}

} // verus!
