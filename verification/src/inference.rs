//! The types of expressions, as far as they can be told without running anything.

use vstd::prelude::*;

use crate::arithmetic::division_overflows;
use crate::arithmetic::ArithmeticOperator;
use crate::collections::option_view;
use crate::collections::WordMap;
use crate::expression::are_key_values;
use crate::expression::are_values;
use crate::expression::is_keyed_array_expression;
use crate::expression::is_list_array_expression;
use crate::expression::ArrayElement;
use crate::expression::BinaryOperator;
use crate::expression::ConstantName;
use crate::expression::Expression;
use crate::expression::MagicConstant;
use crate::inference_rules::arithmetic_type;
use crate::inference_rules::bitwise_type;
use crate::inference_rules::check_content;
use crate::inference_rules::concatenation_type;
use crate::inference_rules::construct_type;
use crate::inference_rules::first_string;
use crate::inference_rules::has_content;
use crate::inference_rules::infer_arithmetic;
use crate::inference_rules::infer_bitwise;
use crate::inference_rules::infer_concatenation;
use crate::inference_rules::infer_construct;
use crate::inference_rules::infer_literal;
use crate::inference_rules::infer_unary;
use crate::inference_rules::known_array_key;
use crate::inference_rules::known_int_values;
use crate::inference_rules::known_ints;
use crate::inference_rules::known_key;
use crate::inference_rules::literal_type;
use crate::inference_rules::unary_type;
use crate::keyed_items::insert_known_item;
use crate::keyed_items::known_item_is_added;
use crate::keyed_items::ordered_items;
use crate::keyed_items::with_known_item;
use crate::metadata::ClassLikeConstantMetadata;
use crate::metadata::ClassLikeConstantView;
use crate::metadata::ConstantMetadata;
use crate::metadata::ConstantView;
use crate::predefined::get_literal_constant_type;
use crate::predefined::get_platform_constant_type;
use crate::predefined::literal_constant_type;
use crate::predefined::platform_constant_type;
use crate::ttype::atomics_model;
use crate::ttype::elements_model;
use crate::ttype::items_model;
use crate::ttype::ArrayParameters;
use crate::ttype::ArrayParametersView;
use crate::ttype::ArrayView;
use crate::ttype::AtomicView;
use crate::ttype::KeyedArrayView;
use crate::ttype::KeyedItem;
use crate::ttype::KeyedItemView;
use crate::ttype::ListElement;
use crate::ttype::ListElementView;
use crate::ttype::ListView;
use crate::ttype::MemberReferenceView;
use crate::ttype::ReferenceView;
use crate::ttype::ScalarView;
use crate::ttype::TArray;
use crate::ttype::TAtomic;
use crate::ttype::TInteger;
use crate::ttype::TKeyedArray;
use crate::ttype::TList;
use crate::ttype::TMemberReference;
use crate::ttype::TReference;
use crate::ttype::TScalar;
use crate::ttype::TUnion;
use crate::ttype::UnionView;
use crate::type_build::general_non_empty_string;
use crate::type_build::general_string;
use crate::type_build::get_arraykey;
use crate::type_build::get_empty_string;
use crate::type_build::get_literal_int;
use crate::type_build::get_literal_string;
use crate::type_build::get_mixed;
use crate::type_build::get_mixed_keyed_array;
use crate::type_build::get_never;
use crate::type_build::get_non_empty_string;
use crate::type_build::get_string;
use crate::type_build::int_atomic;
use crate::type_build::literal_string;
use crate::type_build::mixed_keyed_array;
use crate::type_build::string_atomic;
use crate::type_build::union_of;
use crate::type_build::wrap_atomic;
use crate::word::ascii_lowercase_constant_name_word;
use crate::word::copy_word;
use crate::word::eq_ignore_ascii_case;
use crate::word::lowercase;
use crate::word::lowercase_constant_name;
use crate::word::strip_leading_separator;
use crate::word::text;
use crate::word::without_leading_separator;
use crate::word::word_is;
use crate::word::Word;

verus! {

/// The file in which an expression stands: its path, the directory of that path, each where it is
/// known and is text, and the namespace of the place.
pub struct FileContext {
    pub path: Option<Word>,
    pub directory: Option<Word>,
    pub namespace: Option<Word>,
}

/// All that the type of an expression can depend on.
#[verifier::ext_equal]
pub struct InferenceView {
    pub path: Option<Seq<u8>>,
    pub directory: Option<Seq<u8>>,
    pub namespace: Option<Seq<u8>>,
    pub enclosing_class: Option<Seq<u8>>,
    pub constants: Option<Map<Seq<u8>, ConstantView>>,
    pub class_constants: Option<Map<Seq<u8>, ClassLikeConstantView>>,
}

/// Where the types of expressions come from.
pub open spec fn sources(
    file: FileContext,
    enclosing_class: Option<&Word>,
    constants: Option<&WordMap<ConstantMetadata>>,
    class_constants: Option<&WordMap<ClassLikeConstantMetadata>>,
) -> InferenceView {
    InferenceView {
        path: option_view(file.path),
        directory: option_view(file.directory),
        namespace: option_view(file.namespace),
        enclosing_class: option_view(enclosing_class),
        constants: option_view(constants),
        class_constants: option_view(class_constants),
    }
}

// ---- constants ----

/// The type of a text, or of one that is only known not to be empty.
pub open spec fn path_type(path: Option<Seq<u8>>) -> UnionView {
    match path {
        Some(path) => union_of(string_atomic(literal_string(path))),
        None => union_of(string_atomic(general_non_empty_string())),
    }
}

fn infer_path(path: &Option<Word>) -> (t: TUnion)
    ensures
        t@ == path_type(option_view(*path)),
{
    match path {
        Some(path) => get_literal_string(copy_word(path.as_slice())),
        None => get_non_empty_string(),
    }
}

pub open spec fn magic_constant_type(v: InferenceView, constant: MagicConstant) -> UnionView {
    match constant {
        MagicConstant::Line(line) => union_of(int_atomic(TInteger::Literal((line + 1) as i64))),
        MagicConstant::File => path_type(v.path),
        MagicConstant::Directory => path_type(v.directory),
        MagicConstant::Namespace => union_of(
            string_atomic(
                literal_string(
                    match v.namespace {
                        Some(namespace) => namespace,
                        None => Seq::empty(),
                    },
                ),
            ),
        ),
        _ => union_of(string_atomic(general_string())),
    }
}

fn infer_magic_constant(file: &FileContext, constant: &MagicConstant, Ghost(v): Ghost<InferenceView>) -> (t: TUnion)
    requires
        v.path == option_view(file.path),
        v.directory == option_view(file.directory),
        v.namespace == option_view(file.namespace),
    ensures
        t@ == magic_constant_type(v, *constant),
{
    match constant {
        MagicConstant::Line(line) => get_literal_int(*line as i64 + 1),
        MagicConstant::File => infer_path(&file.path),
        MagicConstant::Directory => infer_path(&file.directory),
        MagicConstant::Namespace => match &file.namespace {
            Some(namespace) => get_literal_string(copy_word(namespace.as_slice())),
            None => get_empty_string(),
        },
        _ => get_string(),
    }
}

/// The name under which a constant is looked for among those of the language: an imported one is
/// looked for as it is resolved, another one as it is written.
pub open spec fn predefined_name(name: ConstantName) -> Seq<u8> {
    if name.is_imported {
        name.resolved@
    } else {
        without_leading_separator(name.value@)
    }
}

/// The type of a constant: of one that the language defines, or of one that is known.
pub open spec fn constant_type(
    name: ConstantName,
    constants: Option<Map<Seq<u8>, ConstantView>>,
) -> Option<UnionView> {
    let predefined = predefined_name(name);
    if literal_constant_type(predefined) is Some {
        literal_constant_type(predefined)
    } else if platform_constant_type(predefined) is Some {
        platform_constant_type(predefined)
    } else {
        match constants {
            Some(known) => if known.contains_key(lowercase_constant_name(name.resolved@)) {
                known[lowercase_constant_name(name.resolved@)].inferred_type
            } else {
                None
            },
            None => None,
        }
    }
}

pub fn infer_constant(name: &ConstantName, constants: Option<&WordMap<ConstantMetadata>>) -> (t: Option<TUnion>)
    ensures
        option_view(t) == constant_type(*name, option_view(constants)),
{
    let predefined: &[u8] = if name.is_imported {
        name.resolved.as_slice()
    } else {
        strip_leading_separator(name.value.as_slice())
    };
    if let Some(t) = get_literal_constant_type(predefined) {
        return Some(t);
    }
    if let Some(t) = get_platform_constant_type(predefined) {
        return Some(t);
    }
    if let Some(known) = constants {
        if let Some(constant) = known.get(&ascii_lowercase_constant_name_word(name.resolved.as_slice())) {
            return match &constant.inferred_type {
                Some(t) => Some(t.copy()),
                None => None,
            };
        }
    }
    None
}

/// The flags of the class `Attribute`, by the names of its constants.
pub open spec fn attribute_flag(name: Seq<u8>) -> Option<i64> {
    if name == text("TARGET_CLASS") {
        Some(1)
    } else if name == text("TARGET_FUNCTION") {
        Some(2)
    } else if name == text("TARGET_METHOD") {
        Some(4)
    } else if name == text("TARGET_PROPERTY") {
        Some(8)
    } else if name == text("TARGET_CLASS_CONSTANT") {
        Some(16)
    } else if name == text("TARGET_PARAMETER") {
        Some(32)
    } else if name == text("TARGET_CONSTANT") {
        Some(64)
    } else if name == text("TARGET_ALL") {
        Some(127)
    } else if name == text("IS_REPEATABLE") {
        Some(128)
    } else {
        None
    }
}

fn get_attribute_flag(name: &[u8]) -> (bits: Option<i64>)
    ensures
        bits == attribute_flag(name@),
{
    if word_is(name, "TARGET_CLASS") {
        Some(1)
    } else if word_is(name, "TARGET_FUNCTION") {
        Some(2)
    } else if word_is(name, "TARGET_METHOD") {
        Some(4)
    } else if word_is(name, "TARGET_PROPERTY") {
        Some(8)
    } else if word_is(name, "TARGET_CLASS_CONSTANT") {
        Some(16)
    } else if word_is(name, "TARGET_PARAMETER") {
        Some(32)
    } else if word_is(name, "TARGET_CONSTANT") {
        Some(64)
    } else if word_is(name, "TARGET_ALL") {
        Some(127)
    } else if word_is(name, "IS_REPEATABLE") {
        Some(128)
    } else {
        None
    }
}

/// The class whose constant is meant.
pub open spec fn class_of(v: InferenceView, class: Expression) -> Option<Seq<u8>> {
    match class {
        Expression::Identifier(name) => Some(name@),
        Expression::SelfKeyword => v.enclosing_class,
        Expression::StaticKeyword => v.enclosing_class,
        _ => None,
    }
}

/// The type that the enclosing class is known to give to one of its constants.
pub open spec fn own_constant_type(v: InferenceView, class: Seq<u8>, name: Seq<u8>) -> Option<AtomicView> {
    match v.class_constants {
        Some(known) => if v.enclosing_class is Some && lowercase(class) == lowercase(v.enclosing_class->0)
            && known.contains_key(name) {
            known[name].inferred_type
        } else {
            None
        },
        None => None,
    }
}

/// A member of a class-like that is still to be looked up.
pub open spec fn member_reference(class: Seq<u8>, name: Seq<u8>) -> AtomicView {
    AtomicView::Reference(ReferenceView::Member(MemberReferenceView { class_like_name: class, member: name }))
}

/// The type of a constant of a class.
pub open spec fn class_constant_type(v: InferenceView, class: Seq<u8>, name: Seq<u8>) -> UnionView {
    match own_constant_type(v, class, name) {
        Some(t) => union_of(t),
        None => if lowercase(name) == lowercase(text("class")) {
            union_of(AtomicView::Scalar(ScalarView::ClassLikeString(Some(class))))
        } else if lowercase(class) == lowercase(text("Attribute")) && attribute_flag(name) is Some {
            union_of(int_atomic(TInteger::Literal(attribute_flag(name)->0)))
        } else {
            union_of(member_reference(class, name))
        },
    }
}

fn make_member_reference(class: &Word, name: &Word) -> (t: TAtomic)
    ensures
        t@ == member_reference(class@, name@),
{
    TAtomic::Reference(
        TReference::Member(
            TMemberReference { class_like_name: copy_word(class.as_slice()), member: copy_word(name.as_slice()) },
        ),
    )
}

fn infer_class_constant(
    enclosing_class: Option<&Word>,
    class_constants: Option<&WordMap<ClassLikeConstantMetadata>>,
    class: &Word,
    name: &Word,
    Ghost(v): Ghost<InferenceView>,
) -> (t: TUnion)
    requires
        v.enclosing_class == option_view(enclosing_class),
        v.class_constants == option_view(class_constants),
    ensures
        t@ == class_constant_type(v, class@, name@),
{
    if let Some(known) = class_constants {
        if let Some(enclosing) = enclosing_class {
            if eq_ignore_ascii_case(class.as_slice(), enclosing.as_slice()) {
                if let Some(constant) = known.get(name) {
                    if let Some(t) = &constant.inferred_type {
                        return wrap_atomic(t.copy());
                    }
                }
            }
        }
    }
    if eq_ignore_ascii_case(name.as_slice(), "class".as_bytes()) {
        return wrap_atomic(TAtomic::Scalar(TScalar::ClassLikeString(Some(copy_word(class.as_slice())))));
    }
    if eq_ignore_ascii_case(class.as_slice(), "Attribute".as_bytes()) {
        if let Some(bits) = get_attribute_flag(name.as_slice()) {
            return get_literal_int(bits);
        }
    }
    wrap_atomic(make_member_reference(class, name))
}

/// The type of the property `name` of an object of type `t`, which the expression `object` gives:
/// only the value of an enum case is known, and only where the case is given by its name.
pub open spec fn property_type(object: Expression, name: Option<Word>, t: Option<UnionView>) -> Option<UnionView> {
    match (object, name) {
        (Expression::ClassConstant(class, Some(case)), Some(name)) => match *class {
            Expression::Identifier(class_name) => if lowercase(name@) == lowercase(text("value")) && t == Some(
                union_of(member_reference(class_name@, case@)),
            ) {
                Some(union_of(AtomicView::ValueOf(t->0)))
            } else {
                None
            },
            _ => None,
        },
        _ => None,
    }
}

// ---- expressions ----

/// A value of any type stands for one that is not known.
pub open spec fn or_mixed(t: Option<UnionView>) -> UnionView {
    match t {
        Some(t) => t,
        None => union_of(AtomicView::Mixed),
    }
}

/// An array with at most this many items is looked at item by item.
pub const MAX_KNOWN_ITEMS: usize = 100;

/// The items of an array: those whose keys are known, and the types of the values of the others.
#[verifier::ext_equal]
pub struct KeyedState {
    pub known: Seq<KeyedItemView>,
    pub unknown: Seq<AtomicView>,
    pub any_unknown: bool,
}

/// The array that the items make up.
pub open spec fn keyed_array_type(s: KeyedState) -> UnionView {
    union_of(
        AtomicView::Array(
            ArrayView::Keyed(
                KeyedArrayView {
                    known_items: if s.known.len() > 0 {
                        Some(s.known)
                    } else {
                        None
                    },
                    parameters: if s.any_unknown {
                        Some(
                            Box::new(
                                ArrayParametersView {
                                    key: union_of(AtomicView::Scalar(ScalarView::ArrayKey)),
                                    value: UnionView { types: s.unknown },
                                },
                            ),
                        )
                    } else {
                        None
                    },
                    non_empty: s.known.len() > 0,
                },
            ),
        ),
    )
}

/// The list that these elements make up.
pub open spec fn list_type(elements: Seq<ListElementView>) -> UnionView {
    union_of(
        AtomicView::Array(
            ArrayView::List(
                ListView {
                    known_count: Some(elements.len() as usize),
                    known_elements: Some(elements),
                    element_type: Box::new(union_of(AtomicView::Never)),
                    non_empty: true,
                },
            ),
        ),
    )
}

/// The elements of a list: the types of the first `n`.
pub open spec fn list_elements(v: InferenceView, elements: Vec<ArrayElement>, n: nat) -> Seq<ListElementView>
    decreases elements, n,
{
    if n == 0 || n > elements@.len() {
        Seq::empty()
    } else {
        list_elements(v, elements, (n - 1) as nat).push(
            ListElementView {
                index: (n - 1) as usize,
                optional: false,
                value: match elements@[n - 1] {
                    ArrayElement::Value(value) => or_mixed(infer_type(v, value)),
                    _ => union_of(AtomicView::Mixed),
                },
            },
        )
    }
}

/// The state after one more item.
pub open spec fn with_keyed_item(s: KeyedState, key: Option<UnionView>, value: UnionView) -> Option<KeyedState> {
    let known = match key {
        Some(t) => known_key(t),
        None => None,
    };
    match known {
        Some(key) => {
            let items = with_known_item(s.known, KeyedItemView { key, optional: false, value });
            if items.len() > MAX_KNOWN_ITEMS {
                None
            } else {
                Some(KeyedState { known: items, ..s })
            }
        },
        None => Some(KeyedState { unknown: s.unknown + value.types, any_unknown: true, ..s }),
    }
}

/// The items of an array: the state after the first `n`, where there are not too many.
pub open spec fn keyed_state(v: InferenceView, elements: Vec<ArrayElement>, n: nat) -> Option<KeyedState>
    decreases elements, n,
{
    if n == 0 || n > elements@.len() {
        Some(KeyedState { known: Seq::empty(), unknown: Seq::empty(), any_unknown: false })
    } else {
        match keyed_state(v, elements, (n - 1) as nat) {
            Some(s) => match elements@[n - 1] {
                ArrayElement::KeyValue(key, value) => with_keyed_item(
                    s,
                    infer_type(v, key),
                    or_mixed(infer_type(v, value)),
                ),
                _ => None,
            },
            None => None,
        }
    }
}

/// The type of an array that is written out. An empty one can hold anything.
pub open spec fn array_type(v: InferenceView, elements: Vec<ArrayElement>) -> Option<UnionView>
    decreases elements, elements@.len() + 1,
{
    if elements@.len() == 0 {
        Some(mixed_keyed_array())
    } else if are_values(elements@) {
        Some(list_type(list_elements(v, elements, elements@.len())))
    } else if are_key_values(elements@) {
        match keyed_state(v, elements, elements@.len()) {
            Some(s) => Some(keyed_array_type(s)),
            None => None,
        }
    } else {
        None
    }
}

/// The type of an expression, where it can be told.
pub open spec fn infer_type(v: InferenceView, e: Expression) -> Option<UnionView>
    decreases e, 0nat,
{
    match e {
        Expression::MagicConstant(constant) => Some(magic_constant_type(v, constant)),
        Expression::Literal(literal) => Some(literal_type(literal)),
        Expression::CompositeString(parts) => Some(
            union_of(
                string_atomic(
                    if has_content(parts@) {
                        general_non_empty_string()
                    } else {
                        general_string()
                    },
                ),
            ),
        ),
        Expression::UnaryPrefix(operator, operand) => match infer_type(v, *operand) {
            Some(t) => unary_type(operator, t),
            None => None,
        },
        Expression::Binary(operator, lhs, rhs) => {
            let l = infer_type(v, *lhs);
            let r = infer_type(v, *rhs);
            match operator {
                BinaryOperator::StringConcat => Some(concatenation_type(l, r)),
                BinaryOperator::Bitwise(operator) => Some(bitwise_type(operator, known_ints(l, r))),
                BinaryOperator::Arithmetic(operator) => Some(arithmetic_type(operator, known_ints(l, r))),
                BinaryOperator::Other => None,
            }
        },
        Expression::Construct(construct) => construct_type(construct),
        Expression::ConstantAccess(name) => constant_type(name, v.constants),
        Expression::ClassConstant(class, name) => match (class_of(v, *class), name) {
            (Some(class), Some(name)) => Some(class_constant_type(v, class, name@)),
            _ => None,
        },
        Expression::Property(object, name) => property_type(*object, name, infer_type(v, *object)),
        Expression::Array(elements) => array_type(v, elements),
        Expression::LegacyArray(elements) => array_type(v, elements),
        Expression::Closure(span) => Some(union_of(AtomicView::Callable(span))),
        Expression::ArrowFunction(span) => Some(union_of(AtomicView::Callable(span))),
        _ => None,
    }
}

/// An array is typed by its elements, however it is written.
pub proof fn arrays_are_typed_by_their_elements(v: InferenceView, elements: Vec<ArrayElement>)
    ensures
        infer_type(v, Expression::Array(elements)) == array_type(v, elements),
        infer_type(v, Expression::LegacyArray(elements)) == array_type(v, elements),
{
}

/// An empty array may hold anything under any key.
pub proof fn empty_arrays_may_hold_anything(v: InferenceView, elements: Vec<ArrayElement>)
    requires
        elements@.len() == 0,
    ensures
        array_type(v, elements) == Some(mixed_keyed_array()),
{
}

/// An array of values is a list that is not empty, of as many elements as there are values.
pub proof fn arrays_of_values_are_lists(v: InferenceView, elements: Vec<ArrayElement>)
    requires
        elements@.len() > 0,
        are_values(elements@),
    ensures
        array_type(v, elements) == Some(list_type(list_elements(v, elements, elements@.len()))),
        list_elements(v, elements, elements@.len()).len() == elements@.len(),
{
    lemma_list_elements(v, elements, elements@.len());
}

proof fn lemma_list_elements(v: InferenceView, elements: Vec<ArrayElement>, n: nat)
    requires
        n <= elements@.len(),
    ensures
        list_elements(v, elements, n).len() == n,
    decreases n,
{
    if n > 0 {
        lemma_list_elements(v, elements, (n - 1) as nat);
    }
}

/// The keys that are known of an array are in order, and none of them is there twice.
pub proof fn known_keys_are_ordered(v: InferenceView, elements: Vec<ArrayElement>, n: nat)
    ensures
        keyed_state(v, elements, n) matches Some(s) ==> ordered_items(s.known),
    decreases n,
{
    if 0 < n <= elements@.len() {
        known_keys_are_ordered(v, elements, (n - 1) as nat);
        if let Some(s) = keyed_state(v, elements, (n - 1) as nat) {
            if let ArrayElement::KeyValue(key, value) = elements@[n - 1] {
                lemma_item_keeps_order(s, infer_type(v, key), or_mixed(infer_type(v, value)));
            }
        }
    }
}

proof fn lemma_item_keeps_order(s: KeyedState, key: Option<UnionView>, value: UnionView)
    requires
        ordered_items(s.known),
    ensures
        with_keyed_item(s, key, value) matches Some(next) ==> ordered_items(next.known),
{
    if let Some(t) = key {
        if let Some(k) = known_key(t) {
            known_item_is_added(s.known, KeyedItemView { key: k, optional: false, value });
        }
    }
}

/// The first `n` elements of an array can be computed, as far as they are looked at.
pub open spec fn elements_computable(v: InferenceView, elements: Vec<ArrayElement>, n: nat) -> bool
    decreases elements, n,
{
    if n == 0 || n > elements@.len() {
        true
    } else {
        &&& elements_computable(v, elements, (n - 1) as nat)
        &&& match elements@[n - 1] {
            ArrayElement::Value(value) => are_values(elements@) ==> computable(v, value),
            ArrayElement::KeyValue(key, value) => are_key_values(elements@) && keyed_state(
                v,
                elements,
                (n - 1) as nat,
            ) is Some ==> computable(v, key) && computable(v, value),
            ArrayElement::Other => true,
        }
    }
}

/// No step of the inference goes beyond what can be computed: no division or remainder of the
/// least integer by minus one, and no string from a type without any part.
pub open spec fn computable(v: InferenceView, e: Expression) -> bool
    decreases e, 0nat,
{
    match e {
        Expression::UnaryPrefix(_, operand) => computable(v, *operand),
        Expression::Binary(operator, lhs, rhs) => {
            let l = infer_type(v, *lhs);
            let r = infer_type(v, *rhs);
            match operator {
                BinaryOperator::StringConcat => {
                    &&& computable(v, *lhs)
                    &&& l is Some ==> computable(v, *rhs)
                    &&& l is Some && r is Some ==> l->0.types.len() > 0 && (first_string(l->0) is Some ==> r->0.types.len()
                        > 0)
                },
                BinaryOperator::Bitwise(_) => computable(v, *lhs) && computable(v, *rhs),
                BinaryOperator::Arithmetic(operator) => {
                    &&& computable(v, *lhs)
                    &&& computable(v, *rhs)
                    &&& match known_ints(l, r) {
                        Some((i, j)) => (operator == ArithmeticOperator::Division || operator
                            == ArithmeticOperator::Modulo) ==> !division_overflows(i, j),
                        None => true,
                    }
                },
                BinaryOperator::Other => true,
            }
        },
        Expression::Array(elements) => elements_computable(v, elements, elements@.len()),
        Expression::LegacyArray(elements) => elements_computable(v, elements, elements@.len()),
        _ => true,
    }
}

/// What the elements of a whole array hold of its beginning.
proof fn lemma_elements_computable(v: InferenceView, elements: Vec<ArrayElement>, n: nat, k: nat)
    requires
        elements_computable(v, elements, n),
        k <= n <= elements@.len(),
    ensures
        elements_computable(v, elements, k),
    decreases n - k,
{
    if k < n {
        lemma_elements_computable(v, elements, (n - 1) as nat, k);
    }
}

/// Where no state is left after some items, none is left after more.
proof fn lemma_keyed_state_stops(v: InferenceView, elements: Vec<ArrayElement>, k: nat, n: nat)
    requires
        k <= n <= elements@.len(),
        keyed_state(v, elements, k) is None,
    ensures
        keyed_state(v, elements, n) is None,
    decreases n - k,
{
    if k < n {
        lemma_keyed_state_stops(v, elements, k, (n - 1) as nat);
    }
}

fn infer_list(
    file: &FileContext,
    elements: &Vec<ArrayElement>,
    enclosing_class: Option<&Word>,
    constants: Option<&WordMap<ConstantMetadata>>,
    class_constants: Option<&WordMap<ClassLikeConstantMetadata>>,
) -> (t: TUnion)
    requires
        are_values(elements@),
        elements@.len() > 0,
        elements_computable(
            sources(*file, enclosing_class, constants, class_constants),
            *elements,
            elements@.len(),
        ),
    ensures
        t@ == list_type(
            list_elements(
                sources(*file, enclosing_class, constants, class_constants),
                *elements,
                elements@.len(),
            ),
        ),
    decreases *elements, elements@.len() + 1,
{
    let ghost v = sources(*file, enclosing_class, constants, class_constants);
    let mut known: Vec<ListElement> = Vec::new();
    let mut i: usize = 0;
    assert(elements_model(known) =~= list_elements(v, *elements, 0));
    while i < elements.len()
        invariant
            i <= elements@.len(),
            v == sources(*file, enclosing_class, constants, class_constants),
            are_values(elements@),
            elements_computable(v, *elements, elements@.len()),
            known@.len() == i,
            elements_model(known) == list_elements(v, *elements, i as nat),
        decreases elements@.len() - i,
    {
        proof {
            lemma_elements_computable(v, *elements, elements@.len(), (i + 1) as nat);
            assert(elements@[i as int] is Value);
            assert(decreases_to!(*elements => elements@[i as int]));
        }
        let ghost before = elements_model(known);
        let value: TUnion = match &elements[i] {
            ArrayElement::Value(value) => {
                match infer_with_constant_sources(file, value, enclosing_class, constants, class_constants) {
                    Some(t) => t,
                    None => get_mixed(),
                }
            },
            _ => get_mixed(),
        };
        let element = ListElement { index: i, optional: false, value };
        let ghost added = element.model();
        known.push(element);
        assert(elements_model(known) =~= before.push(added));
        i = i + 1;
    }
    let count: usize = known.len();
    proof {
        reveal_with_fuel(TAtomic::model, 4);
    }
    let list = TList {
        known_count: Some(count),
        known_elements: Some(known),
        element_type: Box::new(get_never()),
        non_empty: true,
    };
    wrap_atomic(TAtomic::Array(TArray::List(list)))
}

/// The types of a union are added to a list of types.
fn extend_types(types: &mut Vec<TAtomic>, t: &TUnion)
    ensures
        atomics_model(*final(types)) == atomics_model(*old(types)) + t@.types,
{
    let ghost before = atomics_model(*types);
    let mut i: usize = 0;
    assert(before =~= before + t@.types.take(0));
    while i < t.types.len()
        invariant
            i <= t.types@.len(),
            t@.types.len() == t.types@.len(),
            atomics_model(*types) == before + t@.types.take(i as int),
        decreases t.types@.len() - i,
    {
        let ghost earlier = atomics_model(*types);
        let added = t.types[i].copy();
        assert(added@ == t@.types[i as int]);
        types.push(added);
        assert(atomics_model(*types) =~= earlier.push(t@.types[i as int]));
        i = i + 1;
        assert(atomics_model(*types) =~= before + t@.types.take(i as int));
    }
    assert(t@.types.take(i as int) =~= t@.types);
}

fn make_keyed_array(known: Vec<KeyedItem>, unknown: Vec<TAtomic>, any_unknown: bool) -> (t: TUnion)
    ensures
        t@ == keyed_array_type(
            KeyedState { known: items_model(known), unknown: atomics_model(unknown), any_unknown },
        ),
{
    assert(items_model(known).len() == known@.len());
    proof {
        reveal_with_fuel(TAtomic::model, 4);
    }
    let non_empty: bool = known.len() > 0;
    let ghost s = KeyedState { known: items_model(known), unknown: atomics_model(unknown), any_unknown };
    let known_items: Option<Vec<KeyedItem>> = if non_empty {
        Some(known)
    } else {
        None
    };
    let parameters: Option<Box<ArrayParameters>> = if any_unknown {
        Some(Box::new(ArrayParameters { key: get_arraykey(), value: TUnion { types: unknown } }))
    } else {
        None
    };
    let array = TKeyedArray { known_items, parameters, non_empty };
    wrap_atomic(TAtomic::Array(TArray::Keyed(array)))
}

fn infer_keyed_array(
    file: &FileContext,
    elements: &Vec<ArrayElement>,
    enclosing_class: Option<&Word>,
    constants: Option<&WordMap<ConstantMetadata>>,
    class_constants: Option<&WordMap<ClassLikeConstantMetadata>>,
) -> (t: Option<TUnion>)
    requires
        are_key_values(elements@),
        elements_computable(
            sources(*file, enclosing_class, constants, class_constants),
            *elements,
            elements@.len(),
        ),
    ensures
        option_view(t) == match keyed_state(
            sources(*file, enclosing_class, constants, class_constants),
            *elements,
            elements@.len(),
        ) {
            Some(s) => Some(keyed_array_type(s)),
            None => None,
        },
    decreases *elements, elements@.len() + 1,
{
    let ghost v = sources(*file, enclosing_class, constants, class_constants);
    let mut known: Vec<KeyedItem> = Vec::new();
    let mut unknown: Vec<TAtomic> = Vec::new();
    let mut any_unknown: bool = false;
    let mut i: usize = 0;
    assert(items_model(known) =~= Seq::empty());
    assert(atomics_model(unknown) =~= Seq::empty());
    while i < elements.len()
        invariant
            i <= elements@.len(),
            v == sources(*file, enclosing_class, constants, class_constants),
            are_key_values(elements@),
            elements_computable(v, *elements, elements@.len()),
            keyed_state(v, *elements, i as nat) == Some(
                KeyedState { known: items_model(known), unknown: atomics_model(unknown), any_unknown },
            ),
        decreases elements@.len() - i,
    {
        proof {
            lemma_elements_computable(v, *elements, elements@.len(), (i + 1) as nat);
            assert(elements@[i as int] is KeyValue);
            assert(decreases_to!(*elements => elements@[i as int]));
        }
        let ghost s = keyed_state(v, *elements, i as nat)->0;
        let ArrayElement::KeyValue(key, value) = &elements[i] else {
            return None;
        };
        let value_type: TUnion = match infer_with_constant_sources(
            file,
            value,
            enclosing_class,
            constants,
            class_constants,
        ) {
            Some(t) => t,
            None => get_mixed(),
        };
        let key_type = infer_with_constant_sources(file, key, enclosing_class, constants, class_constants);
        let known_key_value = match &key_type {
            Some(t) => known_array_key(t),
            None => None,
        };
        let ghost after = with_keyed_item(s, option_view(key_type), value_type@);
        assert(keyed_state(v, *elements, (i + 1) as nat) == after);
        match known_key_value {
            Some(key) => {
                let item = KeyedItem { key, optional: false, value: value_type };
                insert_known_item(&mut known, item);
                assert(items_model(known).len() == known@.len());
                if known.len() > MAX_KNOWN_ITEMS {
                    proof {
                        lemma_keyed_state_stops(v, *elements, (i + 1) as nat, elements@.len());
                    }
                    return None;
                }
            },
            None => {
                extend_types(&mut unknown, &value_type);
                any_unknown = true;
            },
        }
        i = i + 1;
    }
    Some(make_keyed_array(known, unknown, any_unknown))
}

/// The class whose constant is meant.
fn find_class<'a>(enclosing_class: Option<&'a Word>, class: &'a Expression, Ghost(v): Ghost<InferenceView>) -> (name: Option<
    &'a Word,
>)
    requires
        v.enclosing_class == option_view(enclosing_class),
    ensures
        option_view(name) == class_of(v, *class),
{
    match class {
        Expression::Identifier(name) => Some(name),
        Expression::SelfKeyword => enclosing_class,
        Expression::StaticKeyword => enclosing_class,
        _ => None,
    }
}

/// The type of a property of an object.
fn infer_property(object: &Expression, name: &Option<Word>, t: Option<TUnion>) -> (result: Option<TUnion>)
    ensures
        option_view(result) == property_type(*object, *name, option_view(t)),
{
    let Some(name) = name else {
        return None;
    };
    if !eq_ignore_ascii_case(name.as_slice(), "value".as_bytes()) {
        return None;
    }
    let Expression::ClassConstant(class, Some(case)) = object else {
        return None;
    };
    let Expression::Identifier(class_name) = &**class else {
        return None;
    };
    let Some(t) = t else {
        return None;
    };
    let expected: TUnion = wrap_atomic(make_member_reference(class_name, case));
    if t.same(&expected) {
        Some(wrap_atomic(TAtomic::ValueOf(t)))
    } else {
        None
    }
}

/// The type of two operands with an operator between them.
fn infer_binary(
    file: &FileContext,
    expression: &Expression,
    enclosing_class: Option<&Word>,
    constants: Option<&WordMap<ConstantMetadata>>,
    class_constants: Option<&WordMap<ClassLikeConstantMetadata>>,
) -> (t: Option<TUnion>)
    requires
        *expression is Binary,
        computable(sources(*file, enclosing_class, constants, class_constants), *expression),
    ensures
        option_view(t) == infer_type(sources(*file, enclosing_class, constants, class_constants), *expression),
    decreases *expression, 0nat,
{
    let Expression::Binary(operator, lhs, rhs) = expression else {
        return None;
    };
    match operator {
        BinaryOperator::StringConcat => {
            let Some(l) = infer_with_constant_sources(file, lhs, enclosing_class, constants, class_constants) else {
                return Some(get_string());
            };
            let Some(r) = infer_with_constant_sources(file, rhs, enclosing_class, constants, class_constants) else {
                return Some(get_string());
            };
            Some(infer_concatenation(&l, &r))
        },
        BinaryOperator::Bitwise(operator) => {
            let l = infer_with_constant_sources(file, lhs, enclosing_class, constants, class_constants);
            let r = infer_with_constant_sources(file, rhs, enclosing_class, constants, class_constants);
            Some(infer_bitwise(*operator, known_int_values(&l, &r)))
        },
        BinaryOperator::Arithmetic(operator) => {
            let l = infer_with_constant_sources(file, lhs, enclosing_class, constants, class_constants);
            let r = infer_with_constant_sources(file, rhs, enclosing_class, constants, class_constants);
            Some(infer_arithmetic(*operator, known_int_values(&l, &r)))
        },
        BinaryOperator::Other => None,
    }
}

/// The type of an array that is written out.
fn infer_array(
    file: &FileContext,
    expression: &Expression,
    elements: &Vec<ArrayElement>,
    enclosing_class: Option<&Word>,
    constants: Option<&WordMap<ConstantMetadata>>,
    class_constants: Option<&WordMap<ClassLikeConstantMetadata>>,
) -> (t: Option<TUnion>)
    requires
        *expression == Expression::Array(*elements) || *expression == Expression::LegacyArray(*elements),
        elements_computable(
            sources(*file, enclosing_class, constants, class_constants),
            *elements,
            elements@.len(),
        ),
    ensures
        option_view(t) == array_type(sources(*file, enclosing_class, constants, class_constants), *elements),
    decreases *elements, elements@.len() + 2,
{
    if elements.len() == 0 {
        Some(get_mixed_keyed_array())
    } else if is_list_array_expression(expression) {
        Some(infer_list(file, elements, enclosing_class, constants, class_constants))
    } else if is_keyed_array_expression(expression) {
        infer_keyed_array(file, elements, enclosing_class, constants, class_constants)
    } else {
        None
    }
}

/// The type of an expression, where it can be told. Constants are looked up in `constants`, and
/// those of the enclosing class in `class_constants`.
pub fn infer_with_constant_sources(
    file: &FileContext,
    expression: &Expression,
    enclosing_class: Option<&Word>,
    constants: Option<&WordMap<ConstantMetadata>>,
    class_constants: Option<&WordMap<ClassLikeConstantMetadata>>,
) -> (t: Option<TUnion>)
    requires
        computable(sources(*file, enclosing_class, constants, class_constants), *expression),
    ensures
        option_view(t) == infer_type(sources(*file, enclosing_class, constants, class_constants), *expression),
    decreases *expression, 1nat,
{
    let ghost v = sources(*file, enclosing_class, constants, class_constants);
    match expression {
        Expression::MagicConstant(constant) => Some(infer_magic_constant(file, constant, Ghost(v))),
        Expression::Literal(literal) => Some(infer_literal(literal)),
        Expression::CompositeString(parts) => Some(
            if check_content(parts) {
                get_non_empty_string()
            } else {
                get_string()
            },
        ),
        Expression::UnaryPrefix(operator, operand) => {
            match infer_with_constant_sources(file, operand, enclosing_class, constants, class_constants) {
                Some(t) => infer_unary(*operator, t),
                None => None,
            }
        },
        Expression::Binary(_, _, _) => infer_binary(file, expression, enclosing_class, constants, class_constants),
        Expression::Construct(construct) => infer_construct(*construct),
        Expression::ConstantAccess(name) => infer_constant(name, constants),
        Expression::ClassConstant(class, name) => {
            match (find_class(enclosing_class, class, Ghost(v)), name) {
                (Some(class), Some(name)) => Some(
                    infer_class_constant(enclosing_class, class_constants, class, name, Ghost(v)),
                ),
                _ => None,
            }
        },
        Expression::Property(object, name) => match &**object {
            Expression::ClassConstant(_, _) => infer_property(
                object,
                name,
                infer_with_constant_sources(file, object, enclosing_class, constants, class_constants),
            ),
            _ => None,
        },
        Expression::Array(elements) => infer_array(
            file,
            expression,
            elements,
            enclosing_class,
            constants,
            class_constants,
        ),
        Expression::LegacyArray(elements) => infer_array(
            file,
            expression,
            elements,
            enclosing_class,
            constants,
            class_constants,
        ),
        Expression::Closure(span) => Some(wrap_atomic(TAtomic::Callable(*span))),
        Expression::ArrowFunction(span) => Some(wrap_atomic(TAtomic::Callable(*span))),
        _ => None,
    }
}

/// The type of an expression in which no constant is known but those of the language.
pub fn infer(file: &FileContext, expression: &Expression, enclosing_class: Option<&Word>) -> (t: Option<TUnion>)
    requires
        computable(sources(*file, enclosing_class, None, None), *expression),
    ensures
        option_view(t) == infer_type(sources(*file, enclosing_class, None, None), *expression),
{
    infer_with_constant_sources(file, expression, enclosing_class, None, None)
}

/// The type of an expression in which these constants are known.
pub fn infer_with_constants(
    file: &FileContext,
    expression: &Expression,
    enclosing_class: Option<&Word>,
    constants: Option<&WordMap<ConstantMetadata>>,
) -> (t: Option<TUnion>)
    requires
        computable(sources(*file, enclosing_class, constants, None), *expression),
    ensures
        option_view(t) == infer_type(sources(*file, enclosing_class, constants, None), *expression),
{
    infer_with_constant_sources(file, expression, enclosing_class, constants, None)
}

/// The type of an expression in which these constants of the enclosing class are known.
pub fn infer_with_class_constants(
    file: &FileContext,
    expression: &Expression,
    enclosing_class: Option<&Word>,
    class_constants: &WordMap<ClassLikeConstantMetadata>,
) -> (t: Option<TUnion>)
    requires
        computable(sources(*file, enclosing_class, None, Some(class_constants)), *expression),
    ensures
        option_view(t) == infer_type(sources(*file, enclosing_class, None, Some(class_constants)), *expression),
{
    infer_with_constant_sources(file, expression, enclosing_class, None, Some(class_constants))
}

} // verus!
