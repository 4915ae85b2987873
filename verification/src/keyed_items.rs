//! The items of an array whose keys are known, in the order of their keys.

use vstd::prelude::*;

use crate::ttype::items_model;
use crate::ttype::ArrayKey;
use crate::ttype::ArrayKeyView;
use crate::ttype::KeyedItem;
use crate::ttype::KeyedItemView;
use crate::word::lemma_word_le;
use crate::word::same_word;
use crate::word::word_le;
use crate::word::word_le_check;

verus! {

/// The order of keys: integers come first, then strings, then the names of classes.
pub open spec fn key_le(a: ArrayKeyView, b: ArrayKeyView) -> bool {
    match (a, b) {
        (ArrayKeyView::Integer(i), ArrayKeyView::Integer(j)) => i <= j,
        (ArrayKeyView::Integer(_), _) => true,
        (ArrayKeyView::String(_), ArrayKeyView::Integer(_)) => false,
        (ArrayKeyView::String(v), ArrayKeyView::String(w)) => word_le(v, w),
        (ArrayKeyView::String(_), ArrayKeyView::ClassString(_)) => true,
        (ArrayKeyView::ClassString(v), ArrayKeyView::ClassString(w)) => word_le(v, w),
        (ArrayKeyView::ClassString(_), _) => false,
    }
}

/// The order of keys is a total order.
pub proof fn key_le_is_total_order(a: ArrayKeyView, b: ArrayKeyView, c: ArrayKeyView)
    ensures
        key_le(a, a),
        key_le(a, b) || key_le(b, a),
        key_le(a, b) && key_le(b, a) ==> a == b,
        key_le(a, b) && key_le(b, c) ==> key_le(a, c),
{
    let u = key_word(a);
    let v = key_word(b);
    let w = key_word(c);
    lemma_word_le(u, v, w);
}

spec fn key_word(key: ArrayKeyView) -> Seq<u8> {
    match key {
        ArrayKeyView::Integer(_) => Seq::empty(),
        ArrayKeyView::String(w) => w,
        ArrayKeyView::ClassString(w) => w,
    }
}

fn check_key_le(a: &ArrayKey, b: &ArrayKey) -> (le: bool)
    ensures
        le == key_le(a@, b@),
{
    match (a, b) {
        (ArrayKey::Integer(i), ArrayKey::Integer(j)) => *i <= *j,
        (ArrayKey::Integer(_), _) => true,
        (ArrayKey::String(_), ArrayKey::Integer(_)) => false,
        (ArrayKey::String(v), ArrayKey::String(w)) => word_le_check(v.as_slice(), w.as_slice()),
        (ArrayKey::String(_), ArrayKey::ClassString(_)) => true,
        (ArrayKey::ClassString(v), ArrayKey::ClassString(w)) => word_le_check(v.as_slice(), w.as_slice()),
        (ArrayKey::ClassString(_), _) => false,
    }
}

/// The items with one more, in the place of its key. It takes the place of one with the same key.
pub open spec fn with_known_item(items: Seq<KeyedItemView>, item: KeyedItemView) -> Seq<KeyedItemView>
    decreases items.len(),
{
    if items.len() == 0 {
        seq![item]
    } else if items.last().key == item.key {
        items.drop_last().push(item)
    } else if key_le(items.last().key, item.key) {
        items.push(item)
    } else {
        with_known_item(items.drop_last(), item).push(items.last())
    }
}

/// The keys are in order, and none is there twice.
pub open spec fn ordered_items(items: Seq<KeyedItemView>) -> bool {
    forall|i: int, j: int|
        0 <= i < j < items.len() ==> key_le((#[trigger] items[i]).key, (#[trigger] items[j]).key) && items[i].key
            != items[j].key
}

/// Adding an item keeps the keys in order and different from each other; the item is there, the
/// items with other keys stay, and nothing else comes in.
pub proof fn known_item_is_added(items: Seq<KeyedItemView>, item: KeyedItemView)
    requires
        ordered_items(items),
    ensures
        ordered_items(with_known_item(items, item)),
        with_known_item(items, item).contains(item),
        forall|k: KeyedItemView|
            k.key != item.key ==> (#[trigger] with_known_item(items, item).contains(k) <==> items.contains(k)),
    decreases items.len(),
{
    let after = with_known_item(items, item);
    if items.len() == 0 {
        assert(after[0] == item);
    } else {
        let rest = items.drop_last();
        let last = items.last();
        assert(ordered_items(rest));
        assert forall|k: KeyedItemView| items.contains(k) <==> (#[trigger] rest.contains(k) || k == last) by {
            if items.contains(k) {
                let i = choose|i: int| 0 <= i < items.len() && items[i] == k;
                if i < rest.len() {
                    assert(rest[i] == k);
                }
            }
            if rest.contains(k) {
                let i = choose|i: int| 0 <= i < rest.len() && rest[i] == k;
                assert(items[i] == k);
            }
            if k == last {
                assert(items[items.len() - 1] == k);
            }
        }
        if last.key == item.key {
            assert(after == rest.push(item));
            lemma_push_contains(rest, item);
            assert forall|i: int, j: int| 0 <= i < j < after.len() implies key_le(
                (#[trigger] after[i]).key,
                (#[trigger] after[j]).key,
            ) && after[i].key != after[j].key by {
                assert(items[i].key == after[i].key);
                assert(items[j].key == after[j].key);
            }
        } else if key_le(last.key, item.key) {
            assert(after == items.push(item));
            lemma_push_contains(items, item);
            assert forall|i: int, j: int| 0 <= i < j < after.len() implies key_le(
                (#[trigger] after[i]).key,
                (#[trigger] after[j]).key,
            ) && after[i].key != after[j].key by {
                key_le_is_total_order(items[i].key, last.key, item.key);
                if i < items.len() - 1 {
                    assert(key_le(items[i].key, items[items.len() - 1].key));
                    key_le_is_total_order(last.key, items[i].key, item.key);
                }
            }
        } else {
            known_item_is_added(rest, item);
            let inner = with_known_item(rest, item);
            assert(after == inner.push(last));
            lemma_push_contains(inner, last);
            key_le_is_total_order(item.key, last.key, item.key);
            assert forall|i: int, j: int| 0 <= i < j < after.len() implies key_le(
                (#[trigger] after[i]).key,
                (#[trigger] after[j]).key,
            ) && after[i].key != after[j].key by {
                if j == after.len() - 1 {
                    assert(inner.contains(inner[i]));
                    if inner[i].key != item.key {
                        assert(rest.contains(inner[i]));
                        let n = choose|n: int| 0 <= n < rest.len() && rest[n] == inner[i];
                        assert(items[n] == inner[i]);
                        assert(key_le(items[n].key, items[items.len() - 1].key));
                    }
                } else {
                    assert(inner[i] == after[i] && inner[j] == after[j]);
                }
            }
        }
    }
}

proof fn lemma_push_contains(items: Seq<KeyedItemView>, item: KeyedItemView)
    ensures
        forall|k: KeyedItemView| #[trigger] items.push(item).contains(k) <==> items.contains(k) || k == item,
{
    assert forall|k: KeyedItemView| #[trigger] items.push(item).contains(k) <==> items.contains(k) || k == item by {
        if items.contains(k) {
            let i = choose|i: int| 0 <= i < items.len() && items[i] == k;
            assert(items.push(item)[i] == k);
        }
        if k == item {
            assert(items.push(item)[items.len() as int] == k);
        }
    }
}

fn same_array_key(a: &ArrayKey, b: &ArrayKey) -> (same: bool)
    ensures
        same == (a@ == b@),
{
    match (a, b) {
        (ArrayKey::Integer(i), ArrayKey::Integer(j)) => *i == *j,
        (ArrayKey::String(v), ArrayKey::String(w)) => same_word(v.as_slice(), w.as_slice()),
        (ArrayKey::ClassString(v), ArrayKey::ClassString(w)) => same_word(v.as_slice(), w.as_slice()),
        _ => false,
    }
}

/// What is left of the insertion when the items from `place` on have been passed over.
proof fn lemma_insertion_step(items: Seq<KeyedItemView>, item: KeyedItemView, place: int)
    requires
        0 < place <= items.len(),
        items[place - 1].key != item.key,
        !key_le(items[place - 1].key, item.key),
    ensures
        with_known_item(items.take(place), item) == with_known_item(items.take(place - 1), item).push(items[place - 1]),
{
    assert(items.take(place).drop_last() =~= items.take(place - 1));
}

/// Adds an item in the place of its key.
pub fn insert_known_item(items: &mut Vec<KeyedItem>, item: KeyedItem)
    ensures
        items_model(*final(items)) == with_known_item(items_model(*old(items)), item.model()),
{
    let ghost before = items_model(*items);
    let ghost whole = with_known_item(before, item.model());
    let mut place: usize = items.len();
    assert(before.len() == items@.len());
    assert(before.take(place as int) =~= before);
    assert(before.skip(place as int) =~= Seq::empty());
    assert(whole =~= with_known_item(before.take(place as int), item.model()) + before.skip(place as int));
    while place > 0
        invariant
            place <= items@.len(),
            before == items_model(*items),
            before.len() == items@.len(),
            whole == with_known_item(before.take(place as int), item.model()) + before.skip(place as int),
        ensures
            place <= items@.len(),
            before == items_model(*items),
            whole == with_known_item(before.take(place as int), item.model()) + before.skip(place as int),
            place > 0 ==> before[place - 1].key == item.model().key || key_le(before[place - 1].key, item.model().key),
        decreases place,
    {
        assert(before[place - 1] == items@[place - 1].model());
        if same_array_key(&items[place - 1].key, &item.key) || check_key_le(&items[place - 1].key, &item.key) {
            break;
        }
        proof {
            lemma_insertion_step(before, item.model(), place as int);
            assert(before.skip(place - 1) =~= seq![before[place - 1]] + before.skip(place as int));
            assert(with_known_item(before.take(place - 1), item.model()).push(before[place - 1]) + before.skip(
                place as int,
            ) =~= with_known_item(before.take(place - 1), item.model()) + before.skip(place - 1));
        }
        place = place - 1;
    }
    let ghost first = before.take(place as int);
    if place > 0 {
        assert(first.last() == before[place - 1]);
        assert(before[place - 1] == items@[place - 1].model());
        if same_array_key(&items[place - 1].key, &item.key) {
            assert(with_known_item(first, item.model()) == first.drop_last().push(item.model()));
            let ghost old_items = items@;
            let ghost added = item.model();
            items.set(place - 1, item);
            assert(items_model(*items) =~= before.update(place - 1, added));
            assert(before.update(place - 1, added) =~= first.drop_last().push(added) + before.skip(place as int));
            return;
        }
    }
    assert(with_known_item(first, item.model()) =~= first.push(item.model()));
    let ghost added = item.model();
    items.insert(place, item);
    assert(items_model(*items) =~= before.insert(place as int, added));
    assert(before.insert(place as int, added) =~= first.push(added) + before.skip(place as int));
}

} // verus!
