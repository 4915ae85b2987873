//! Names and other byte strings.

use vstd::prelude::*;
use vstd::relations::total_ordering;
use vstd::slice::slice_to_vec;
use vstd::string::*;

use crate::collections::views;

verus! {

/// A name: the bytes of an identifier, in the order in which they were written.
pub type Word = Vec<u8>;

/// The bytes of a piece of text.
pub open spec fn text(s: &str) -> Seq<u8> {
    s.spec_bytes()
}

/// The byte that separates the parts of a qualified name.
pub const NAMESPACE_SEPARATOR: u8 = 92;

/// The word that holds the bytes of `s`.
pub fn word(s: &str) -> (w: Word)
    ensures
        w@ == text(s),
{
    slice_to_vec(s.as_bytes())
}

/// A copy of `w`.
pub fn copy_word(w: &[u8]) -> (copy: Word)
    ensures
        copy@ == w@,
{
    slice_to_vec(w)
}

/// A copy of each of some words.
pub fn copy_words(words: &Vec<Word>) -> (copy: Vec<Word>)
    ensures
        views(copy@) == views(words@),
{
    let mut copy: Vec<Word> = Vec::new();
    let mut i: usize = 0;
    while i < words.len()
        invariant
            i <= words@.len(),
            copy@.len() == i,
            forall|j: int| 0 <= j < i ==> #[trigger] copy@[j]@ == words@[j]@,
        decreases words@.len() - i,
    {
        copy.push(copy_word(words[i].as_slice()));
        i = i + 1;
    }
    assert(views(copy@) =~= views(words@));
    copy
}

/// Whether two words hold the same bytes.
pub fn same_word(a: &[u8], b: &[u8]) -> (same: bool)
    ensures
        same == (a@ == b@),
{
    if a.len() != b.len() {
        return false;
    }
    let mut i: usize = 0;
    while i < a.len()
        invariant
            a.len() == b.len(),
            i <= a.len(),
            forall|j: int| 0 <= j < i ==> a@[j] == b@[j],
        decreases a.len() - i,
    {
        if a[i] != b[i] {
            return false;
        }
        i = i + 1;
    }
    assert(a@ =~= b@);
    true
}

/// Whether a word holds the bytes of `s`.
pub fn word_is(w: &[u8], s: &str) -> (same: bool)
    ensures
        same == (w@ == text(s)),
{
    same_word(w, s.as_bytes())
}

/// A byte with an upper-case ASCII letter turned into its lower-case letter.
pub open spec fn lowercase_byte(b: u8) -> u8 {
    if 65 <= b <= 90 {
        (b + 32) as u8
    } else {
        b
    }
}

/// A word with each upper-case ASCII letter turned into its lower-case letter.
pub open spec fn lowercase(w: Seq<u8>) -> Seq<u8> {
    w.map_values(|b: u8| lowercase_byte(b))
}

pub fn ascii_lowercase_byte(b: u8) -> (l: u8)
    ensures
        l == lowercase_byte(b),
{
    if 65 <= b && b <= 90 {
        b + 32
    } else {
        b
    }
}

/// The word with its ASCII letters in lower case.
pub fn ascii_lowercase_word(w: &[u8]) -> (l: Word)
    ensures
        l@ == lowercase(w@),
{
    let mut l: Word = Vec::new();
    let mut i: usize = 0;
    while i < w.len()
        invariant
            i <= w.len(),
            l@ == lowercase(w@.take(i as int)),
        decreases w.len() - i,
    {
        l.push(ascii_lowercase_byte(w[i]));
        i = i + 1;
        assert(l@ =~= lowercase(w@.take(i as int)));
    }
    assert(w@.take(i as int) =~= w@);
    l
}

/// Whether two words hold the same bytes when the case of ASCII letters is ignored.
pub fn eq_ignore_ascii_case(a: &[u8], b: &[u8]) -> (same: bool)
    ensures
        same == (lowercase(a@) == lowercase(b@)),
{
    if a.len() != b.len() {
        assert(lowercase(a@).len() != lowercase(b@).len());
        return false;
    }
    let mut i: usize = 0;
    while i < a.len()
        invariant
            a.len() == b.len(),
            i <= a.len(),
            forall|j: int| 0 <= j < i ==> lowercase(a@)[j] == lowercase(b@)[j],
        decreases a.len() - i,
    {
        if ascii_lowercase_byte(a[i]) != ascii_lowercase_byte(b[i]) {
            assert(lowercase(a@)[i as int] != lowercase(b@)[i as int]);
            return false;
        }
        i = i + 1;
    }
    assert(lowercase(a@) =~= lowercase(b@));
    true
}

/// Lower-casing a word twice is the same as lower-casing it once.
pub proof fn lowercase_is_idempotent(w: Seq<u8>)
    ensures
        lowercase(lowercase(w)) == lowercase(w),
{
    assert(lowercase(lowercase(w)) =~= lowercase(w));
}

/// A word without the separator that it may begin with.
pub open spec fn without_leading_separator(w: Seq<u8>) -> Seq<u8> {
    if w.len() > 0 && w[0] == NAMESPACE_SEPARATOR {
        w.skip(1)
    } else {
        w
    }
}

pub fn strip_leading_separator(w: &[u8]) -> (s: &[u8])
    ensures
        s@ == without_leading_separator(w@),
{
    if w.len() > 0 && w[0] == NAMESPACE_SEPARATOR {
        let s = vstd::slice::slice_subrange(w, 1, w.len());
        assert(s@ =~= w@.skip(1));
        s
    } else {
        w
    }
}

/// The index of the last separator in the first `end` bytes of `w`, or -1.
pub open spec fn last_separator(w: Seq<u8>, end: int) -> int
    decreases end,
{
    if end <= 0 {
        -1
    } else if w[end - 1] == NAMESPACE_SEPARATOR {
        end - 1
    } else {
        last_separator(w, end - 1)
    }
}

/// The position of the last namespace separator of `w`, where there is one.
pub fn find_last_separator(w: &[u8]) -> (position: Option<usize>)
    ensures
        match position {
            Some(p) => p < w.len() && p == last_separator(w@, w@.len() as int),
            None => last_separator(w@, w@.len() as int) == -1,
        },
{
    let mut end: usize = w.len();
    while end > 0
        invariant
            end <= w.len(),
            last_separator(w@, end as int) == last_separator(w@, w@.len() as int),
        decreases end,
    {
        if w[end - 1] == NAMESPACE_SEPARATOR {
            return Some(end - 1);
        }
        end = end - 1;
    }
    None
}

/// What follows the last namespace separator of `w`.
pub open spec fn short_name(w: Seq<u8>) -> Seq<u8> {
    w.skip(last_separator(w, w.len() as int) + 1)
}

/// The name of a constant with its namespace, but not the constant itself, in lower case.
pub open spec fn lowercase_constant_name(w: Seq<u8>) -> Seq<u8> {
    let cut = last_separator(w, w.len() as int) + 1;
    lowercase(w.take(cut)) + w.skip(cut)
}

pub fn ascii_lowercase_constant_name_word(w: &[u8]) -> (l: Word)
    ensures
        l@ == lowercase_constant_name(w@),
{
    let cut: usize = match find_last_separator(w) {
        Some(p) => p + 1,
        None => 0,
    };
    let mut l: Word = Vec::new();
    let mut i: usize = 0;
    while i < w.len()
        invariant
            i <= w.len(),
            cut <= w.len(),
            l@.len() == i,
            forall|j: int| 0 <= j < i ==> l@[j] == if j < cut { lowercase_byte(w@[j]) } else { w@[j] },
        decreases w.len() - i,
    {
        if i < cut {
            l.push(ascii_lowercase_byte(w[i]));
        } else {
            l.push(w[i]);
        }
        i = i + 1;
    }
    assert(l@ =~= lowercase_constant_name(w@));
    l
}

/// The bytes of `a` followed by those of `b`.
pub fn concat(a: &[u8], b: &[u8]) -> (c: Word)
    ensures
        c@ == a@ + b@,
{
    let mut c: Word = slice_to_vec(a);
    c.extend_from_slice(b);
    assert(c@ =~= a@ + b@);
    c
}

/// A name between two pieces of text.
pub open spec fn phrase(before: &str, name: Seq<u8>, after: &str) -> Seq<u8> {
    text(before) + name + text(after)
}

pub fn make_phrase(before: &str, name: &[u8], after: &str) -> (p: Word)
    ensures
        p@ == phrase(before, name@, after),
{
    concat(concat(before.as_bytes(), name).as_slice(), after.as_bytes())
}

/// The words of `items`, with `separator` between each two of them.
pub open spec fn joined(items: Seq<Seq<u8>>, separator: Seq<u8>) -> Seq<u8>
    decreases items.len(),
{
    if items.len() == 0 {
        Seq::empty()
    } else if items.len() == 1 {
        items[0]
    } else {
        joined(items.drop_last(), separator) + separator + items.last()
    }
}

pub fn join(items: &Vec<Word>, separator: &str) -> (j: Word)
    ensures
        j@ == joined(views(items@), text(separator)),
{
    let mut j: Word = Vec::new();
    let mut i: usize = 0;
    assert(j@ =~= joined(views(items@).take(0), text(separator)));
    while i < items.len()
        invariant
            i <= items@.len(),
            j@ == joined(views(items@).take(i as int), text(separator)),
        decreases items@.len() - i,
    {
        let ghost before = j@;
        assert(views(items@).take(i + 1).drop_last() =~= views(items@).take(i as int));
        if i > 0 {
            j.extend_from_slice(separator.as_bytes());
        }
        j.extend_from_slice(items[i].as_slice());
        if i > 0 {
            assert(j@ =~= before + text(separator) + items@[i as int]@);
        } else {
            assert(j@ =~= items@[0]@);
        }
        i = i + 1;
    }
    assert(views(items@).take(i as int) =~= views(items@));
    j
}

/// The order of a dictionary over bytes is a total order.
pub proof fn word_le_is_total_order()
    ensures
        total_ordering(|a: Seq<u8>, b: Seq<u8>| word_le(a, b)),
{
    let le = |a: Seq<u8>, b: Seq<u8>| word_le(a, b);
    assert forall|a: Seq<u8>| #[trigger] le(a, a) by {
        lemma_word_le(a, a, a);
    }
    assert forall|a: Seq<u8>, b: Seq<u8>| #[trigger] le(a, b) && #[trigger] le(b, a) implies a == b by {
        lemma_word_le(a, b, a);
    }
    assert forall|a: Seq<u8>, b: Seq<u8>, c: Seq<u8>| #[trigger] le(a, b) && #[trigger] le(b, c) implies le(a, c) by {
        lemma_word_le(a, b, c);
    }
    assert forall|a: Seq<u8>, b: Seq<u8>| #[trigger] le(a, b) || #[trigger] le(b, a) by {
        lemma_word_le(a, b, a);
    }
}

/// The laws of a total order, for three words.
pub proof fn lemma_word_le(a: Seq<u8>, b: Seq<u8>, c: Seq<u8>)
    ensures
        word_le(a, a),
        word_le(a, b) && word_le(b, a) ==> a == b,
        word_le(a, b) || word_le(b, a),
        word_le(a, b) && word_le(b, c) ==> word_le(a, c),
    decreases a.len() + b.len() + c.len(),
{
    if a.len() > 0 {
        if b.len() > 0 && c.len() > 0 {
            lemma_word_le(a.skip(1), b.skip(1), c.skip(1));
        } else if b.len() > 0 {
            lemma_word_le(a.skip(1), b.skip(1), c);
        } else {
            lemma_word_le(a.skip(1), b, c);
        }
        if b.len() > 0 && a[0] == b[0] && a.skip(1) == b.skip(1) {
            assert forall|i: int| 0 <= i < a.len() implies a[i] == b[i] by {
                if i > 0 {
                    assert(a.skip(1)[i - 1] == b.skip(1)[i - 1]);
                }
            }
            assert(a.skip(1).len() == b.skip(1).len());
            assert(a =~= b);
        }
    } else if b.len() == 0 {
        assert(a =~= b);
    }
}

/// Whether `a` comes before `b`, or is `b`, in the order of a dictionary over bytes.
pub open spec fn word_le(a: Seq<u8>, b: Seq<u8>) -> bool
    decreases a.len(),
{
    if a.len() == 0 {
        true
    } else if b.len() == 0 {
        false
    } else if a[0] != b[0] {
        a[0] < b[0]
    } else {
        word_le(a.skip(1), b.skip(1))
    }
}

/// Whether `a` comes before `b`, or is `b`.
pub fn word_le_check(a: &[u8], b: &[u8]) -> (le: bool)
    ensures
        le == word_le(a@, b@),
{
    let mut i: usize = 0;
    assert(a@.skip(0) =~= a@);
    assert(b@.skip(0) =~= b@);
    while i < a.len() && i < b.len()
        invariant
            i <= a.len(),
            i <= b.len(),
            word_le(a@, b@) == word_le(a@.skip(i as int), b@.skip(i as int)),
        decreases a.len() - i,
    {
        assert(a@.skip(i as int)[0] == a@[i as int]);
        assert(b@.skip(i as int)[0] == b@[i as int]);
        if a[i] != b[i] {
            return a[i] < b[i];
        }
        assert(a@.skip(i as int).skip(1) =~= a@.skip(i + 1));
        assert(b@.skip(i as int).skip(1) =~= b@.skip(i + 1));
        i = i + 1;
    }
    i == a.len()
}

} // verus!
