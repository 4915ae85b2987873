//! What the types of arrays and of constants say of them.

use vstd::prelude::*;

use crate::expression::are_key_values;
use crate::expression::are_values;
use crate::expression::ArrayElement;
use crate::expression::ConstantName;
use crate::expression::Expression;
use crate::inference::array_type;
use crate::inference::infer_type;
use crate::inference::keyed_state;
use crate::inference::known_keys_are_ordered;
use crate::inference::list_elements;
use crate::inference::or_mixed;
use crate::inference::with_keyed_item;
use crate::inference::InferenceView;
use crate::inference::KeyedState;
use crate::inference_laws::is_array_of_anything;
use crate::inference_laws::only;
use crate::inference_rules::known_key;
use crate::keyed_items::known_item_is_added;
use crate::keyed_items::with_known_item;
use crate::ttype::ArrayKeyView;
use crate::ttype::ArrayView;
use crate::ttype::AtomicView;
use crate::ttype::KeyedArrayView;
use crate::ttype::KeyedItemView;
use crate::ttype::ListView;
use crate::ttype::LiteralView;
use crate::ttype::MemberReferenceView;
use crate::ttype::ReferenceView;
use crate::ttype::ScalarView;
use crate::ttype::TInteger;
use crate::ttype::UnionView;
use crate::word::lowercase;
use crate::word::lowercase_constant_name;
use crate::word::text;
use crate::word::Word;

verus! {

// ---- lists ----

/// An array is written out, in one of two ways.
pub open spec fn is_array_of(e: Expression, elements: Vec<ArrayElement>) -> bool {
    e == Expression::Array(elements) || e == Expression::LegacyArray(elements)
}

/// The type of an expression, or any type.
pub open spec fn type_or_any(v: InferenceView, e: Expression) -> UnionView {
    match infer_type(v, e) {
        Some(t) => t,
        None => only(AtomicView::Mixed),
    }
}

/// A list has the types of the values in their places, and holds no others.
pub open spec fn is_list_of(v: InferenceView, list: ListView, elements: Seq<ArrayElement>) -> bool {
    &&& list.non_empty
    &&& *list.element_type == only(AtomicView::Never)
    &&& list.known_count == Some(elements.len() as usize)
    &&& list.known_elements matches Some(known) && known.len() == elements.len() && forall|i: int|
        0 <= i < known.len() ==> {
            &&& (#[trigger] known[i]).index == i
            &&& !known[i].optional
            &&& known[i].value == type_or_any(v, elements[i]->Value_0)
        }
}

proof fn lemma_list(v: InferenceView, elements: Vec<ArrayElement>, n: nat)
    requires
        n <= elements@.len() <= usize::MAX,
        forall|i: int| 0 <= i < elements@.len() ==> #[trigger] elements@[i] is Value,
    ensures
        list_elements(v, elements, n).len() == n,
        forall|i: int|
            0 <= i < n ==> {
                &&& (#[trigger] list_elements(v, elements, n)[i]).index == i
                &&& !list_elements(v, elements, n)[i].optional
                &&& list_elements(v, elements, n)[i].value == type_or_any(v, elements@[i]->Value_0)
            },
    decreases n,
{
    if n > 0 {
        lemma_list(v, elements, (n - 1) as nat);
        assert(elements@[n - 1] is Value);
        assert(only(AtomicView::Mixed) == or_mixed(None));
    }
}

/// An array of values without keys is a list with the type of each value in its place. An empty
/// array may hold anything.
pub proof fn values_make_a_list(v: InferenceView, e: Expression, elements: Vec<ArrayElement>)
    requires
        is_array_of(e, elements),
        forall|i: int| 0 <= i < elements@.len() ==> #[trigger] elements@[i] is Value,
    ensures
        elements@.len() == 0 ==> (infer_type(v, e) matches Some(t) && is_array_of_anything(t)),
        elements@.len() > 0 ==> (infer_type(v, e) matches Some(t) && t.types.len() == 1 && (
        t.types[0] matches AtomicView::Array(ArrayView::List(list)) && is_list_of(v, list, elements@))),
{
    let count = elements.len();
    assert(infer_type(v, e) == array_type(v, elements));
    if elements@.len() > 0 {
        lemma_list(v, elements, elements@.len());
        assert(are_values(elements@));
    }
}

/// Values with keys and values without them are not told apart.
pub proof fn mixed_arrays_have_no_type(v: InferenceView, e: Expression, elements: Vec<ArrayElement>, i: int, j: int)
    requires
        is_array_of(e, elements),
        0 <= i < elements@.len(),
        0 <= j < elements@.len(),
        !(elements@[i] is Value),
        !(elements@[j] is KeyValue),
    ensures
        infer_type(v, e) is None,
{
    assert(infer_type(v, e) == array_type(v, elements));
    assert(!are_values(elements@));
    assert(!are_key_values(elements@));
}

// ---- arrays with keys ----

/// A value of this type is the key.
pub open spec fn is_key(t: Option<UnionView>, key: ArrayKeyView) -> bool {
    t matches Some(t) && t.types.len() == 1 && match t.types[0] {
        AtomicView::Scalar(ScalarView::Integer(TInteger::Literal(i))) => key == ArrayKeyView::Integer(i),
        AtomicView::Scalar(ScalarView::String(s)) => s.literal matches Some(LiteralView::Value(w)) && key
            == ArrayKeyView::String(w),
        AtomicView::Scalar(ScalarView::ClassLikeString(Some(w))) => key == ArrayKeyView::ClassString(w),
        _ => false,
    }
}

/// The item at a place of an array has this key.
pub open spec fn has_key(v: InferenceView, element: ArrayElement, key: ArrayKeyView) -> bool {
    element matches ArrayElement::KeyValue(k, _) && is_key(infer_type(v, k), key)
}

/// The item at a place of an array has a key that is not known.
pub open spec fn has_no_key(v: InferenceView, element: ArrayElement) -> bool {
    forall|key: ArrayKeyView| !#[trigger] has_key(v, element, key)
}

/// What is known of an item.
pub open spec fn item_of(v: InferenceView, element: ArrayElement, key: ArrayKeyView) -> KeyedItemView {
    KeyedItemView { key, optional: false, value: type_or_any(v, element->KeyValue_1) }
}

/// The item at a place is the last of the first `n` with its key.
pub open spec fn is_last_with_key(
    v: InferenceView,
    elements: Seq<ArrayElement>,
    n: int,
    i: int,
    key: ArrayKeyView,
) -> bool {
    &&& 0 <= i < n
    &&& has_key(v, elements[i], key)
    &&& forall|j: int| i < j < n ==> !has_key(v, #[trigger] elements[j], key)
}

/// The known items are the last ones of each key, and no others.
pub open spec fn holds_items(
    v: InferenceView,
    elements: Seq<ArrayElement>,
    n: int,
    known: Seq<KeyedItemView>,
) -> bool {
    &&& forall|i: int, key: ArrayKeyView| #[trigger]
        is_last_with_key(v, elements, n, i, key) ==> known.contains(item_of(v, elements[i], key))
    &&& forall|item: KeyedItemView| #[trigger]
        known.contains(item) ==> exists|i: int| #[trigger]
            is_last_with_key(v, elements, n, i, item.key) && item == item_of(v, elements[i], item.key)
}

/// The other values are those of the items whose keys are not known.
pub open spec fn holds_others(v: InferenceView, elements: Seq<ArrayElement>, n: int, others: Seq<AtomicView>) -> bool {
    &&& forall|i: int, t: AtomicView|
        0 <= i < n && has_no_key(v, #[trigger] elements[i]) && #[trigger] type_or_any(
            v,
            elements[i]->KeyValue_1,
        ).types.contains(t) ==> others.contains(t)
    &&& forall|t: AtomicView| #[trigger]
        others.contains(t) ==> exists|i: int|
            0 <= i < n && has_no_key(v, #[trigger] elements[i]) && type_or_any(
                v,
                elements[i]->KeyValue_1,
            ).types.contains(t)
}

spec fn is_state_of(v: InferenceView, elements: Seq<ArrayElement>, n: int, s: KeyedState) -> bool {
    &&& holds_items(v, elements, n, s.known)
    &&& holds_others(v, elements, n, s.unknown)
    &&& s.any_unknown <==> exists|i: int| 0 <= i < n && has_no_key(v, #[trigger] elements[i])
    &&& s.known.len() <= 100
    &&& s.known.len() <= n
}

proof fn lemma_key(v: InferenceView, element: ArrayElement)
    requires
        element is KeyValue,
    ensures
        ({
            let t = infer_type(v, element->KeyValue_0);
            let known = match t {
                Some(t) => known_key(t),
                None => None,
            };
            &&& known matches Some(key) ==> has_key(v, element, key)
            &&& forall|key: ArrayKeyView| #[trigger] has_key(v, element, key) ==> known == Some(key)
            &&& known is None <==> has_no_key(v, element)
        }),
{
    let t = infer_type(v, element->KeyValue_0);
    let known = match t {
        Some(t) => known_key(t),
        None => None,
    };
    if let Some(key) = known {
        assert(has_key(v, element, key));
    }
}

proof fn lemma_item_count(items: Seq<KeyedItemView>, item: KeyedItemView)
    ensures
        with_known_item(items, item).len() <= items.len() + 1,
    decreases items.len(),
{
    if items.len() > 0 {
        lemma_item_count(items.drop_last(), item);
    }
}

proof fn lemma_known_step(
    v: InferenceView,
    elements: Seq<ArrayElement>,
    n: int,
    known: Seq<KeyedItemView>,
    key: ArrayKeyView,
)
    requires
        0 < n <= elements.len(),
        elements[n - 1] is KeyValue,
        has_key(v, elements[n - 1], key),
        holds_items(v, elements, n - 1, known),
        crate::keyed_items::ordered_items(known),
    ensures
        holds_items(v, elements, n, with_known_item(known, item_of(v, elements[n - 1], key))),
{
    let item = item_of(v, elements[n - 1], key);
    let after = with_known_item(known, item);
    known_item_is_added(known, item);
    lemma_key(v, elements[n - 1]);
    assert forall|i: int, k: ArrayKeyView| #[trigger] is_last_with_key(v, elements, n, i, k) implies after.contains(
        item_of(v, elements[i], k),
    ) by {
        if i == n - 1 {
            assert(k == key);
        } else {
            assert(!has_key(v, elements[n - 1], k));
            assert(is_last_with_key(v, elements, n - 1, i, k));
        }
    }
    assert forall|x: KeyedItemView| #[trigger] after.contains(x) implies exists|i: int| #[trigger]
        is_last_with_key(v, elements, n, i, x.key) && x == item_of(v, elements[i], x.key) by {
        if x.key == key {
            assert(x == item) by {
                let a = choose|a: int| 0 <= a < after.len() && after[a] == x;
                let b = choose|b: int| 0 <= b < after.len() && after[b] == item;
                if a < b {
                    assert(after[a].key != after[b].key);
                } else if b < a {
                    assert(after[b].key != after[a].key);
                }
            }
            assert(is_last_with_key(v, elements, n, n - 1, key));
        } else {
            assert(known.contains(x));
            let i = choose|i: int| #[trigger]
                is_last_with_key(v, elements, n - 1, i, x.key) && x == item_of(v, elements[i], x.key);
            assert(!has_key(v, elements[n - 1], x.key));
            assert(is_last_with_key(v, elements, n, i, x.key));
        }
    }
}

proof fn lemma_others_step(v: InferenceView, elements: Seq<ArrayElement>, n: int, others: Seq<AtomicView>)
    requires
        0 < n <= elements.len(),
        holds_others(v, elements, n - 1, others),
    ensures
        has_no_key(v, elements[n - 1]) ==> holds_others(
            v,
            elements,
            n,
            others + type_or_any(v, elements[n - 1]->KeyValue_1).types,
        ),
        !has_no_key(v, elements[n - 1]) ==> holds_others(v, elements, n, others),
{
    if has_no_key(v, elements[n - 1]) {
        let added = type_or_any(v, elements[n - 1]->KeyValue_1).types;
        let after = others + added;
        assert forall|t: AtomicView| #[trigger] after.contains(t) <==> others.contains(t) || added.contains(t) by {
            if after.contains(t) {
                let k = choose|k: int| 0 <= k < after.len() && after[k] == t;
                if k < others.len() {
                    assert(others[k] == t);
                } else {
                    assert(added[k - others.len()] == t);
                }
            }
            if others.contains(t) {
                let k = choose|k: int| 0 <= k < others.len() && others[k] == t;
                assert(after[k] == t);
            }
            if added.contains(t) {
                let k = choose|k: int| 0 <= k < added.len() && added[k] == t;
                assert(after[others.len() + k] == t);
            }
        }
        assert forall|t: AtomicView| #[trigger] after.contains(t) implies exists|i: int|
            0 <= i < n && has_no_key(v, #[trigger] elements[i]) && type_or_any(
                v,
                elements[i]->KeyValue_1,
            ).types.contains(t) by {
            if others.contains(t) {
                let i = choose|i: int|
                    0 <= i < n - 1 && has_no_key(v, #[trigger] elements[i]) && type_or_any(
                        v,
                        elements[i]->KeyValue_1,
                    ).types.contains(t);
                assert(has_no_key(v, elements[i]));
            } else {
                assert(has_no_key(v, elements[n - 1]));
            }
        }
    }
}

proof fn lemma_keyed(v: InferenceView, elements: Vec<ArrayElement>, n: nat)
    requires
        n <= elements@.len(),
        forall|i: int| 0 <= i < elements@.len() ==> #[trigger] elements@[i] is KeyValue,
    ensures
        keyed_state(v, elements, n) matches Some(s) ==> is_state_of(v, elements@, n as int, s),
        n <= 100 ==> keyed_state(v, elements, n) is Some,
    decreases n,
{
    if n > 0 {
        let m = (n - 1) as nat;
        lemma_keyed(v, elements, m);
        known_keys_are_ordered(v, elements, m);
        let element = elements@[n - 1];
        assert(element is KeyValue);
        lemma_key(v, element);
        if let Some(s) = keyed_state(v, elements, m) {
            let value = type_or_any(v, element->KeyValue_1);
            assert(value == or_mixed(infer_type(v, element->KeyValue_1)));
            let next = with_keyed_item(s, infer_type(v, element->KeyValue_0), value);
            assert(keyed_state(v, elements, n) == next);
            lemma_others_step(v, elements@, n as int, s.unknown);
            if has_no_key(v, element) {
                let after = next->0;
                assert forall|i: int, key: ArrayKeyView| #[trigger]
                    is_last_with_key(v, elements@, n as int, i, key) implies is_last_with_key(
                    v,
                    elements@,
                    n - 1,
                    i,
                    key,
                ) by {}
                assert forall|x: KeyedItemView| #[trigger] s.known.contains(x) implies exists|i: int| #[trigger]
                    is_last_with_key(v, elements@, n as int, i, x.key) && x == item_of(v, elements@[i], x.key) by {
                    let i = choose|i: int| #[trigger]
                        is_last_with_key(v, elements@, n - 1, i, x.key) && x == item_of(v, elements@[i], x.key);
                    assert(!has_key(v, element, x.key));
                    assert(is_last_with_key(v, elements@, n as int, i, x.key));
                }
                assert(has_no_key(v, elements@[n - 1]));
                assert(is_state_of(v, elements@, n as int, after));
            } else {
                let key = known_key(infer_type(v, element->KeyValue_0)->0)->0;
                lemma_known_step(v, elements@, n as int, s.known, key);
                lemma_item_count(s.known, item_of(v, element, key));
            }
        }
    }
}

/// An array has the items that it says: of two with one key the last counts. The values under keys
/// that are not known are among its other values.
pub open spec fn is_keyed_of(v: InferenceView, array: KeyedArrayView, elements: Seq<ArrayElement>) -> bool {
    let n = elements.len() as int;
    &&& array.non_empty == array.known_items is Some
    &&& array.known_items matches Some(known) ==> 0 < known.len() <= 100 && holds_items(v, elements, n, known)
    &&& array.known_items is None ==> forall|i: int| 0 <= i < n ==> has_no_key(v, #[trigger] elements[i])
    &&& array.parameters matches Some(p) ==> p.key == only(AtomicView::Scalar(ScalarView::ArrayKey)) && holds_others(
        v,
        elements,
        n,
        p.value.types,
    )
    &&& array.parameters is Some <==> exists|i: int| 0 <= i < n && has_no_key(v, #[trigger] elements[i])
}

/// An array of values with keys is known by its keys. One with so few items that all can be looked at
/// always has a type.
pub proof fn keys_make_an_array(v: InferenceView, e: Expression, elements: Vec<ArrayElement>)
    requires
        is_array_of(e, elements),
        elements@.len() > 0,
        forall|i: int| 0 <= i < elements@.len() ==> #[trigger] elements@[i] is KeyValue,
    ensures
        elements@.len() <= 100 ==> infer_type(v, e) is Some,
        infer_type(v, e) matches Some(t) ==> t.types.len() == 1 && (t.types[0] matches AtomicView::Array(
            ArrayView::Keyed(array),
        ) && is_keyed_of(v, array, elements@)),
{
    assert(infer_type(v, e) == array_type(v, elements));
    assert(elements@[0] is KeyValue);
    assert(!are_values(elements@));
    assert(are_key_values(elements@));
    lemma_keyed(v, elements, elements@.len());
    if let Some(s) = keyed_state(v, elements, elements@.len()) {
        if s.known.len() == 0 {
            assert forall|i: int| 0 <= i < elements@.len() implies has_no_key(v, #[trigger] elements@[i]) by {
                if !has_no_key(v, elements@[i]) {
                    let key = choose|key: ArrayKeyView| #[trigger] has_key(v, elements@[i], key);
                    lemma_some_last(v, elements@, elements@.len() as int, i, key);
                    let j = choose|j: int| #[trigger]
                        is_last_with_key(v, elements@, elements@.len() as int, j, key);
                    assert(s.known.contains(item_of(v, elements@[j], key)));
                }
            }
        }
    }
}

proof fn lemma_some_last(v: InferenceView, elements: Seq<ArrayElement>, n: int, i: int, key: ArrayKeyView)
    requires
        0 <= i < n <= elements.len(),
        has_key(v, elements[i], key),
    ensures
        exists|j: int| #[trigger] is_last_with_key(v, elements, n, j, key),
    decreases n - i,
{
    if exists|j: int| i < j < n && has_key(v, #[trigger] elements[j], key) {
        let j = choose|j: int| i < j < n && has_key(v, #[trigger] elements[j], key);
        lemma_some_last(v, elements, n, j, key);
    } else {
        assert(is_last_with_key(v, elements, n, i, key));
    }
}

// ---- constants ----

/// What is known of constants does not change those of the language; any other constant has the type
/// that it was given, and none where it was given none.
pub proof fn constants_have_their_types(v: InferenceView, name: ConstantName)
    ensures
        ({
            let bare = InferenceView { constants: None, ..v };
            let key = lowercase_constant_name(name.resolved@);
            let t = infer_type(v, Expression::ConstantAccess(name));
            let predefined = infer_type(bare, Expression::ConstantAccess(name));
            &&& predefined is Some ==> t == predefined
            &&& predefined is None ==> match v.constants {
                Some(known) => {
                    &&& known.contains_key(key) ==> t == known[key].inferred_type
                    &&& !known.contains_key(key) ==> t is None
                },
                None => t is None,
            }
        }),
{
}

/// The constants of other files, directories and classes do not matter to a constant.
pub proof fn constants_are_the_same_everywhere(v: InferenceView, w: InferenceView, name: ConstantName)
    requires
        v.constants == w.constants,
    ensures
        infer_type(v, Expression::ConstantAccess(name)) == infer_type(w, Expression::ConstantAccess(name)),
{
}

/// Which class an expression before a constant means.
pub open spec fn names_class(v: InferenceView, class: Expression, name: Seq<u8>) -> bool {
    match class {
        Expression::Identifier(w) => w@ == name,
        Expression::SelfKeyword => v.enclosing_class == Some(name),
        Expression::StaticKeyword => v.enclosing_class == Some(name),
        _ => false,
    }
}

/// The class in which an expression stands is known to give its constant this type.
pub open spec fn gives_type(v: InferenceView, class: Seq<u8>, name: Seq<u8>, t: AtomicView) -> bool {
    &&& v.enclosing_class matches Some(enclosing) && lowercase(enclosing) == lowercase(class)
    &&& v.class_constants matches Some(known) && known.contains_key(name) && known[name].inferred_type == Some(t)
}

/// A constant of the class in which an expression stands has the type that it is known to have. Of
/// any other class, `class` is its name, and another constant is still to be looked up there.
pub proof fn class_constants_have_their_types(v: InferenceView, class: Expression, class_name: Seq<u8>, name: Word)
    requires
        names_class(v, class, class_name),
    ensures
        ({
            let t = infer_type(v, Expression::ClassConstant(Box::new(class), Some(name)));
            &&& forall|own: AtomicView| #[trigger] gives_type(v, class_name, name@, own) ==> t == Some(only(own))
            &&& (forall|own: AtomicView| !#[trigger] gives_type(v, class_name, name@, own)) ==> {
                &&& lowercase(name@) == lowercase(text("class")) ==> t == Some(
                    only(AtomicView::Scalar(ScalarView::ClassLikeString(Some(class_name)))),
                )
                &&& lowercase(name@) != lowercase(text("class")) && lowercase(class_name) != lowercase(
                    text("Attribute"),
                ) ==> t == Some(
                    only(
                        AtomicView::Reference(
                            ReferenceView::Member(
                                MemberReferenceView { class_like_name: class_name, member: name@ },
                            ),
                        ),
                    ),
                )
            }
        }),
{
    if let Some(known) = v.class_constants {
        if known.contains_key(name@) {
            if let Some(own) = known[name@].inferred_type {
                assert(gives_type(v, class_name, name@, own) || v.enclosing_class is None || lowercase(
                    v.enclosing_class->0,
                ) != lowercase(class_name));
            }
        }
    }
}

/// An expression that names no class has no constants, and neither has `self` outside a class.
pub proof fn other_constants_have_no_type(v: InferenceView, class: Expression, name: Option<Word>)
    requires
        name is None || forall|class_name: Seq<u8>| !#[trigger] names_class(v, class, class_name),
    ensures
        infer_type(v, Expression::ClassConstant(Box::new(class), name)) is None,
{
    if name is Some {
        match class {
            Expression::Identifier(w) => {
                assert(names_class(v, class, w@));
            },
            Expression::SelfKeyword => {
                if v.enclosing_class is Some {
                    assert(names_class(v, class, v.enclosing_class->0));
                }
            },
            Expression::StaticKeyword => {
                if v.enclosing_class is Some {
                    assert(names_class(v, class, v.enclosing_class->0));
                }
            },
            _ => {},
        }
    }
}

/// The value of a case is of the type of the values of that case, where the case is still to be
/// looked up.
pub proof fn cases_have_values(v: InferenceView, class: Word, case: Word, name: Word)
    requires
        lowercase(name@) == lowercase(text("value")),
    ensures
        ({
            let object = Expression::ClassConstant(Box::new(Expression::Identifier(class)), Some(case));
            let still_open = only(
                AtomicView::Reference(
                    ReferenceView::Member(MemberReferenceView { class_like_name: class@, member: case@ }),
                ),
            );
            let t = infer_type(v, Expression::Property(Box::new(object), Some(name)));
            &&& infer_type(v, object) == Some(still_open) ==> t == Some(only(AtomicView::ValueOf(still_open)))
            &&& infer_type(v, object) != Some(still_open) ==> t is None
        }),
{
    let object = Expression::ClassConstant(Box::new(Expression::Identifier(class)), Some(case));
    assert(infer_type(v, Expression::Property(Box::new(object), Some(name))) == crate::inference::property_type(
        object,
        Some(name),
        infer_type(v, object),
    ));
}

/// Nothing is known of other properties.
pub proof fn other_properties_have_no_type(v: InferenceView, object: Expression, name: Option<Word>)
    requires
        match name {
            Some(name) => lowercase(name@) != lowercase(text("value")) || !(object is ClassConstant),
            None => true,
        },
    ensures
        infer_type(v, Expression::Property(Box::new(object), name)) is None,
{
    assert(infer_type(v, Expression::Property(Box::new(object), name)) == crate::inference::property_type(
        object,
        name,
        infer_type(v, object),
    ));
}

} // verus!
