//! Maps and sets that remember the order in which their keys came.

use vstd::prelude::*;

use crate::word::copy_word;
use crate::word::same_word;
use crate::word::Word;

verus! {

/// The views of the items of a sequence.
pub open spec fn views<T: View>(items: Seq<T>) -> Seq<T::V> {
    Seq::new(items.len(), |i: int| items[i]@)
}

/// The view of a value that may be absent.
pub open spec fn option_view<T: View>(value: Option<T>) -> Option<T::V> {
    match value {
        Some(v) => Some(v@),
        None => None,
    }
}

/// Adding an item adds its view.
pub broadcast proof fn lemma_views_push<T: View>(items: Seq<T>, item: T)
    ensures
        #[trigger] views(items.push(item)) == views(items).push(item@),
{
    assert(views(items.push(item)) =~= views(items).push(item@));
}

/// A value by which something can be found again.
pub trait Key: View + Sized {
    fn same_key(&self, other: &Self) -> (same: bool)
        ensures
            same == (self@ == other@),
    ;

    fn copy_key(&self) -> (copy: Self)
        ensures
            copy@ == self@,
    ;
}

impl Key for Word {
    fn same_key(&self, other: &Self) -> (same: bool) {
        same_word(self.as_slice(), other.as_slice())
    }

    fn copy_key(&self) -> (copy: Self) {
        copy_word(self.as_slice())
    }
}

/// A member of a symbol: the name of the symbol and that of its member.
pub type SymbolIdentifier = (Word, Word);

impl Key for SymbolIdentifier {
    fn same_key(&self, other: &Self) -> (same: bool) {
        self.0.same_key(&other.0) && self.1.same_key(&other.1)
    }

    fn copy_key(&self) -> (copy: Self) {
        (self.0.copy_key(), self.1.copy_key())
    }
}

/// The map that a list of entries stands for: a later entry hides an earlier one.
pub open spec fn entries_map<K: Key, V: View>(entries: Seq<(K, V)>) -> Map<K::V, V::V>
    decreases entries.len(),
{
    if entries.len() == 0 {
        Map::empty()
    } else {
        entries_map(entries.drop_last()).insert(entries.last().0@, entries.last().1@)
    }
}

proof fn lemma_entries_dom<K: Key, V: View>(entries: Seq<(K, V)>)
    ensures
        forall|k: K::V| #[trigger]
            entries_map(entries).contains_key(k) <==> exists|i: int|
                0 <= i < entries.len() && #[trigger] entries[i].0@ == k,
    decreases entries.len(),
{
    if entries.len() > 0 {
        let rest = entries.drop_last();
        lemma_entries_dom(rest);
        assert forall|k: K::V| #[trigger] entries_map(entries).contains_key(k) implies exists|i: int|
            0 <= i < entries.len() && #[trigger] entries[i].0@ == k by {
            if k == entries.last().0@ {
                assert(entries[entries.len() - 1].0@ == k);
            } else {
                assert(entries_map(rest).contains_key(k));
                let i = choose|i: int| 0 <= i < rest.len() && #[trigger] rest[i].0@ == k;
                assert(entries[i].0@ == k);
            }
        }
        assert forall|k: K::V|
            (exists|i: int| 0 <= i < entries.len() && #[trigger] entries[i].0@ == k) implies #[trigger] entries_map(
            entries,
        ).contains_key(k) by {
            let i = choose|i: int| 0 <= i < entries.len() && #[trigger] entries[i].0@ == k;
            if i < rest.len() {
                assert(rest[i].0@ == k);
                assert(entries_map(rest).contains_key(k));
            }
        }
    }
}

proof fn lemma_entries_lookup<K: Key, V: View>(entries: Seq<(K, V)>, i: int)
    requires
        0 <= i < entries.len(),
        forall|j: int| i < j < entries.len() ==> #[trigger] entries[j].0@ != entries[i].0@,
    ensures
        entries_map(entries).contains_key(entries[i].0@),
        entries_map(entries)[entries[i].0@] == entries[i].1@,
    decreases entries.len(),
{
    if i < entries.len() - 1 {
        let rest = entries.drop_last();
        assert(entries[entries.len() - 1].0@ != entries[i].0@);
        assert forall|j: int| i < j < rest.len() implies #[trigger] rest[j].0@ != rest[i].0@ by {
            assert(entries[j].0@ != entries[i].0@);
        }
        lemma_entries_lookup(rest, i);
    }
}

proof fn lemma_entries_update<K: Key, V: View>(entries: Seq<(K, V)>, i: int, entry: (K, V))
    requires
        0 <= i < entries.len(),
        entry.0@ == entries[i].0@,
        forall|j: int| i < j < entries.len() ==> #[trigger] entries[j].0@ != entries[i].0@,
    ensures
        entries_map(entries.update(i, entry)) == entries_map(entries).insert(entry.0@, entry.1@),
    decreases entries.len(),
{
    let changed = entries.update(i, entry);
    if i < entries.len() - 1 {
        let rest = entries.drop_last();
        assert(entries[entries.len() - 1].0@ != entries[i].0@);
        assert forall|j: int| i < j < rest.len() implies #[trigger] rest[j].0@ != rest[i].0@ by {
            assert(entries[j].0@ != entries[i].0@);
        }
        lemma_entries_update(rest, i, entry);
        assert(changed.drop_last() =~= rest.update(i, entry));
        assert(entries_map(changed) =~= entries_map(entries).insert(entry.0@, entry.1@));
    } else {
        assert(changed.drop_last() =~= entries.drop_last());
        assert(entries_map(changed) =~= entries_map(entries).insert(entry.0@, entry.1@));
    }
}

proof fn lemma_insert_remove<K, V>(map: Map<K, V>, inserted: K, value: V, removed: K)
    ensures
        map.insert(inserted, value).remove(removed) == if inserted == removed {
            map.remove(removed)
        } else {
            map.remove(removed).insert(inserted, value)
        },
{
    if inserted == removed {
        assert(map.insert(inserted, value).remove(removed) =~= map.remove(removed));
    } else {
        assert(map.insert(inserted, value).remove(removed) =~= map.remove(removed).insert(inserted, value));
    }
}

proof fn lemma_entries_remove<K: Key, V: View>(entries: Seq<(K, V)>, i: int)
    requires
        0 <= i < entries.len(),
    ensures
        entries_map(entries.remove(i)).remove(entries[i].0@) == entries_map(entries).remove(entries[i].0@),
    decreases entries.len(),
{
    let key = entries[i].0@;
    let rest = entries.drop_last();
    if i < entries.len() - 1 {
        lemma_entries_remove(rest, i);
        assert(entries.remove(i).drop_last() =~= rest.remove(i));
        assert(entries.remove(i).last() == entries.last());
        let last = entries.last();
        lemma_insert_remove(entries_map(rest), last.0@, last.1@, key);
        lemma_insert_remove(entries_map(rest.remove(i)), last.0@, last.1@, key);
    } else {
        assert(entries.remove(i) =~= rest);
        lemma_insert_remove(entries_map(rest), key, entries.last().1@, key);
    }
}

/// Leaving out an item that a filter drops changes nothing of what it keeps.
proof fn lemma_filter_without<A>(items: Seq<A>, pred: spec_fn(A) -> bool, i: int)
    requires
        0 <= i < items.len(),
        !pred(items[i]),
    ensures
        items.remove(i).filter(pred) == items.filter(pred),
    decreases items.len(),
{
    reveal(Seq::filter);
    let rest = items.drop_last();
    if i < items.len() - 1 {
        lemma_filter_without(rest, pred, i);
        assert(items.remove(i).drop_last() =~= rest.remove(i));
        assert(items.remove(i).last() == items.last());
    } else {
        assert(items.remove(i) =~= rest);
    }
}

/// A filter that every item passes keeps them all.
proof fn lemma_filter_all<A>(items: Seq<A>, pred: spec_fn(A) -> bool)
    requires
        forall|i: int| 0 <= i < items.len() ==> pred(#[trigger] items[i]),
    ensures
        items.filter(pred) == items,
    decreases items.len(),
{
    reveal(Seq::filter);
    if items.len() > 0 {
        let rest = items.drop_last();
        assert forall|i: int| 0 <= i < rest.len() implies pred(#[trigger] rest[i]) by {
            assert(rest[i] == items[i]);
        }
        lemma_filter_all(rest, pred);
        assert(pred(items[items.len() - 1]));
        assert(rest.push(items.last()) =~= items);
    } else {
        assert(items.filter(pred) =~= items);
    }
}

/// The keys of a map, in the order of their insertion, once `key` is among them.
pub open spec fn keys_with<K, V>(keys: Seq<K>, map: Map<K, V>, key: K) -> Seq<K> {
    if map.contains_key(key) {
        keys
    } else {
        keys.push(key)
    }
}

/// A map whose keys keep the order in which they were first inserted.
pub struct OrderedMap<K: Key, V: View> {
    entries: Vec<(K, V)>,
}

pub type WordMap<V> = OrderedMap<Word, V>;

pub type SymbolMap<V> = OrderedMap<SymbolIdentifier, V>;

impl<K: Key, V: View> View for OrderedMap<K, V> {
    type V = Map<K::V, V::V>;

    closed spec fn view(&self) -> Map<K::V, V::V> {
        entries_map(self.entries@)
    }
}

impl<K: Key, V: View> OrderedMap<K, V> {
    /// The keys, in the order in which they were first inserted.
    pub closed spec fn keys(&self) -> Seq<K::V> {
        Seq::new(self.entries@.len(), |i: int| self.entries@[i].0@)
    }

    /// The keys are those that the map holds.
    pub proof fn lemma_keys(&self)
        ensures
            forall|k: K::V| #[trigger] self@.contains_key(k) <==> self.keys().contains(k),
            self.keys().len() <= usize::MAX,
            self@.dom().finite(),
    {
        lemma_entries_dom(self.entries@);
        let keys = self.keys();
        assert forall|k: K::V| #[trigger] self@.contains_key(k) implies keys.contains(k) by {
            let i = choose|i: int| 0 <= i < self.entries@.len() && #[trigger] self.entries@[i].0@ == k;
            assert(keys[i] == k);
        }
        assert forall|k: K::V| keys.contains(k) implies #[trigger] self@.contains_key(k) by {
            let i = choose|i: int| 0 <= i < keys.len() && keys[i] == k;
            assert(self.entries@[i].0@ == k);
        }
        assert(self@.dom() =~= keys.to_set());
        assert(self.entries.len() == self.entries@.len());
    }

    pub fn new() -> (m: Self)
        ensures
            m@ == Map::<K::V, V::V>::empty(),
            m.keys() == Seq::<K::V>::empty(),
    {
        let m = OrderedMap { entries: Vec::new() };
        assert(m.keys() =~= Seq::<K::V>::empty());
        m
    }

    pub fn len(&self) -> (n: usize)
        ensures
            n == self.keys().len(),
    {
        self.entries.len()
    }

    pub fn is_empty(&self) -> (empty: bool)
        ensures
            empty == (self.keys().len() == 0),
            empty == (self@ == Map::<K::V, V::V>::empty()),
    {
        proof {
            self.lemma_keys();
            if self.entries@.len() > 0 {
                assert(self.keys()[0] == self.entries@[0].0@);
                assert(self.keys().contains(self.entries@[0].0@));
                assert(self@.contains_key(self.entries@[0].0@));
            } else {
                assert(self@ =~= Map::<K::V, V::V>::empty());
            }
        }
        self.entries.len() == 0
    }

    /// The key at a place in the order of insertion.
    pub fn key_at(&self, i: usize) -> (k: &K)
        requires
            i < self.keys().len(),
        ensures
            k@ == self.keys()[i as int],
    {
        &self.entries[i].0
    }

    /// The place of the last entry with this key, where there is one.
    fn position(&self, key: &K) -> (p: Option<usize>)
        ensures
            match p {
                Some(i) => {
                    &&& i < self.entries@.len()
                    &&& self.entries@[i as int].0@ == key@
                    &&& forall|j: int| i < j < self.entries@.len() ==> #[trigger] self.entries@[j].0@ != key@
                },
                None => forall|j: int| 0 <= j < self.entries@.len() ==> #[trigger] self.entries@[j].0@ != key@,
            },
    {
        let mut i: usize = self.entries.len();
        while i > 0
            invariant
                i <= self.entries@.len(),
                forall|j: int| i <= j < self.entries@.len() ==> #[trigger] self.entries@[j].0@ != key@,
            decreases i,
        {
            i = i - 1;
            if self.entries[i].0.same_key(key) {
                return Some(i);
            }
        }
        None
    }

    pub fn contains_key(&self, key: &K) -> (found: bool)
        ensures
            found == self@.contains_key(key@),
    {
        proof {
            lemma_entries_dom(self.entries@);
        }
        self.position(key).is_some()
    }

    pub fn get(&self, key: &K) -> (value: Option<&V>)
        ensures
            match value {
                Some(v) => self@.contains_key(key@) && v@ == self@[key@],
                None => !self@.contains_key(key@),
            },
    {
        proof {
            lemma_entries_dom(self.entries@);
        }
        match self.position(key) {
            Some(i) => {
                proof {
                    lemma_entries_lookup(self.entries@, i as int);
                }
                Some(&self.entries[i].1)
            },
            None => None,
        }
    }

    pub fn get_mut(&mut self, key: &K) -> (value: Option<&mut V>)
        ensures
            match value {
                Some(v) => {
                    &&& old(self)@.contains_key(key@)
                    &&& v@ == old(self)@[key@]
                    &&& final(self)@ == old(self)@.insert(key@, final(v)@)
                    &&& final(self).keys() == old(self).keys()
                },
                None => !old(self)@.contains_key(key@) && *final(self) == *old(self),
            },
    {
        proof {
            lemma_entries_dom(self.entries@);
        }
        match self.position(key) {
            Some(i) => {
                let ghost entries = self.entries@;
                let ghost keys = self.keys();
                let v = &mut self.entries[i].1;
                proof {
                    lemma_entries_lookup(entries, i as int);
                    lemma_entries_update(entries, i as int, (entries[i as int].0, *final(v)));
                    let changed = entries.update(i as int, (entries[i as int].0, *final(v)));
                    assert(Seq::new(changed.len(), |j: int| changed[j].0@) =~= keys);
                }
                Some(v)
            },
            None => None,
        }
    }

    /// Binds `key` to `value`. A key that was there before keeps its place.
    pub fn insert(&mut self, key: K, value: V)
        ensures
            final(self)@ == old(self)@.insert(key@, value@),
            final(self).keys() == keys_with(old(self).keys(), old(self)@, key@),
    {
        proof {
            lemma_entries_dom(self.entries@);
        }
        match self.position(&key) {
            Some(i) => {
                proof {
                    lemma_entries_update(self.entries@, i as int, (key, value));
                }
                self.entries.set(i, (key, value));
                assert(self.keys() =~= old(self).keys());
            },
            None => {
                let ghost before = self.entries@;
                self.entries.push((key, value));
                assert(self.entries@.drop_last() =~= before);
                assert(self.keys() =~= old(self).keys().push(key@));
            },
        }
    }

    /// Takes `key` out of the map.
    pub fn remove(&mut self, key: &K)
        ensures
            final(self)@ == old(self)@.remove(key@),
            final(self).keys() == old(self).keys().filter(|k: K::V| k != key@),
    {
        let ghost pred = |k: K::V| k != key@;
        let ghost keys = self.keys().filter(pred);
        let ghost map = self@.remove(key@);
        let mut i: usize = 0;
        while i < self.entries.len()
            invariant
                i <= self.entries@.len(),
                pred == (|k: K::V| k != key@),
                forall|j: int| 0 <= j < i ==> #[trigger] self.entries@[j].0@ != key@,
                entries_map(self.entries@).remove(key@) == map,
                self.keys().filter(pred) == keys,
            decreases self.entries@.len() - i,
        {
            if self.entries[i].0.same_key(key) {
                let ghost entries = self.entries@;
                let ghost before = self.keys();
                self.entries.remove(i);
                proof {
                    lemma_entries_remove(entries, i as int);
                    lemma_filter_without(before, pred, i as int);
                    assert(self.keys() =~= before.remove(i as int));
                }
            } else {
                i = i + 1;
            }
        }
        proof {
            lemma_entries_dom(self.entries@);
            assert(entries_map(self.entries@).remove(key@) =~= entries_map(self.entries@));
            lemma_filter_all(self.keys(), pred);
        }
    }

    pub fn clear(&mut self)
        ensures
            final(self)@ == Map::<K::V, V::V>::empty(),
            final(self).keys() == Seq::<K::V>::empty(),
    {
        self.entries.clear();
        assert(self.keys() =~= Seq::<K::V>::empty());
    }
}

/// `items` with `item` added at the end, where it was not there before.
pub open spec fn with_item<A>(items: Seq<A>, item: A) -> Seq<A> {
    if items.contains(item) {
        items
    } else {
        items.push(item)
    }
}

/// A set whose items keep the order in which they were first inserted.
pub struct OrderedSet<K: Key> {
    items: Vec<K>,
}

pub type WordSet = OrderedSet<Word>;

pub type SymbolSet = OrderedSet<SymbolIdentifier>;

impl<K: Key> View for OrderedSet<K> {
    type V = Seq<K::V>;

    closed spec fn view(&self) -> Seq<K::V> {
        Seq::new(self.items@.len(), |i: int| self.items@[i]@)
    }
}

impl<K: Key> OrderedSet<K> {
    /// The items of the set, without their order.
    pub open spec fn members(&self) -> Set<K::V> {
        self@.to_set()
    }

    pub fn new() -> (s: Self)
        ensures
            s@ == Seq::<K::V>::empty(),
    {
        let s = OrderedSet { items: Vec::new() };
        assert(s@ =~= Seq::<K::V>::empty());
        s
    }

    pub fn len(&self) -> (n: usize)
        ensures
            n == self@.len(),
    {
        self.items.len()
    }

    pub fn is_empty(&self) -> (empty: bool)
        ensures
            empty == (self@.len() == 0),
    {
        self.items.len() == 0
    }

    pub fn at(&self, i: usize) -> (item: &K)
        requires
            i < self@.len(),
        ensures
            item@ == self@[i as int],
    {
        &self.items[i]
    }

    pub fn contains(&self, item: &K) -> (found: bool)
        ensures
            found == self@.contains(item@),
    {
        let mut i: usize = 0;
        while i < self.items.len()
            invariant
                i <= self.items@.len(),
                forall|j: int| 0 <= j < i ==> self@[j] != item@,
            decreases self.items@.len() - i,
        {
            if self.items[i].same_key(item) {
                assert(self@[i as int] == item@);
                return true;
            }
            i = i + 1;
        }
        false
    }

    /// Adds an item; the result says whether it was not there before.
    pub fn insert(&mut self, item: K) -> (added: bool)
        ensures
            added == !old(self)@.contains(item@),
            final(self)@ == with_item(old(self)@, item@),
    {
        if self.contains(&item) {
            false
        } else {
            self.items.push(item);
            assert(self@ =~= old(self)@.push(item@));
            true
        }
    }

    /// Takes the item away that was added last.
    pub fn remove_last(&mut self)
        requires
            old(self)@.len() > 0,
        ensures
            final(self)@ == old(self)@.drop_last(),
    {
        let _ = self.items.pop();
        assert(self@ =~= old(self)@.drop_last());
    }

    pub fn clear(&mut self)
        ensures
            final(self)@ == Seq::<K::V>::empty(),
    {
        self.items.clear();
        assert(self@ =~= Seq::<K::V>::empty());
    }

    pub fn copy(&self) -> (c: Self)
        ensures
            c@ == self@,
    {
        let mut c: Self = OrderedSet { items: Vec::new() };
        let mut i: usize = 0;
        while i < self.items.len()
            invariant
                i <= self.items@.len(),
                c@ == self@.take(i as int),
            decreases self.items@.len() - i,
        {
            let ghost before = c@;
            c.items.push(self.items[i].copy_key());
            assert(c@ =~= before.push(self@[i as int]));
            i = i + 1;
            assert(c@ =~= self@.take(i as int));
        }
        assert(self@.take(i as int) =~= self@);
        c
    }
}

impl<K: Key> OrderedSet<K> {
    /// Adds each item of another set.
    pub fn extend(&mut self, other: &OrderedSet<K>)
        ensures
            final(self).members() == old(self).members().union(other.members()),
    {
        let ghost before = self.members();
        let mut i: usize = 0;
        assert(self.members() =~= before.union(other@.take(0).to_set()));
        while i < other.items.len()
            invariant
                i <= other.items@.len(),
                other.items@.len() == other@.len(),
                self.members() == before.union(other@.take(i as int).to_set()),
            decreases other.items@.len() - i,
        {
            proof {
                lemma_with_item_members(self@, other@[i as int]);
                lemma_take_members(other@, i as int);
            }
            let _ = self.insert(other.items[i].copy_key());
            i = i + 1;
            assert(self.members() =~= before.union(other@.take(i as int).to_set()));
        }
        assert(other@.take(i as int) =~= other@);
    }
}

/// The items of a longer beginning of a sequence.
pub proof fn lemma_take_members<A>(items: Seq<A>, i: int)
    requires
        0 <= i < items.len(),
    ensures
        items.take(i + 1).to_set() == items.take(i).to_set().insert(items[i]),
{
    let shorter = items.take(i);
    let longer = items.take(i + 1);
    assert forall|a: A| #[trigger] longer.to_set().contains(a) == shorter.to_set().insert(items[i]).contains(a) by {
        if longer.contains(a) {
            let j = choose|j: int| 0 <= j < longer.len() && longer[j] == a;
            if j < i {
                assert(shorter[j] == a);
            }
        }
        if shorter.contains(a) {
            let j = choose|j: int| 0 <= j < shorter.len() && shorter[j] == a;
            assert(longer[j] == a);
        }
        if a == items[i] {
            assert(longer[i] == a);
        }
    }
    assert(longer.to_set() =~= shorter.to_set().insert(items[i]));
}

/// What a set holds after an item has been added to it.
pub proof fn lemma_with_item<A>(items: Seq<A>, item: A, other: A)
    ensures
        with_item(items, item).contains(other) <==> items.contains(other) || other == item,
        items.no_duplicates() ==> with_item(items, item).no_duplicates(),
{
    if !items.contains(item) {
        let now = items.push(item);
        if items.contains(other) {
            let i = choose|i: int| 0 <= i < items.len() && items[i] == other;
            assert(now[i] == other);
        }
        if other == item {
            assert(now[items.len() as int] == other);
        }
        if now.contains(other) {
            let i = choose|i: int| 0 <= i < now.len() && now[i] == other;
            if i < items.len() {
                assert(items[i] == other);
            }
        }
    }
}

/// The items of a set after one has been added.
pub proof fn lemma_with_item_members<A>(items: Seq<A>, item: A)
    ensures
        with_item(items, item).to_set() == items.to_set().insert(item),
{
    let after = with_item(items, item);
    assert forall|a: A| after.to_set().contains(a) == #[trigger] items.to_set().insert(item).contains(a) by {
        lemma_with_item(items, item, a);
    }
    assert(after.to_set() =~= items.to_set().insert(item));
}

} // verus!
