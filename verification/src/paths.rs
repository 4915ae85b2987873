//! Paths of files, as the bytes that are written.

use vstd::prelude::*;
use vstd::slice::slice_subrange;

use crate::collections::lemma_views_push;
use crate::collections::views;
use crate::word::concat;
use crate::word::copy_word;
use crate::word::same_word;
use crate::word::Word;

verus! {

/// The byte that separates the parts of a path.
pub const SEPARATOR: u8 = 47;

/// The byte that parts the extension from the rest of a name.
pub const DOT: u8 = 46;

// ---- components ----

/// The stretches of the first `end` bytes of a path between separators, the last of them open.
pub open spec fn stretches(path: Seq<u8>, end: nat) -> Seq<(int, int)>
    decreases end,
{
    if end == 0 {
        seq![(0int, 0int)]
    } else {
        let rest = stretches(path, (end - 1) as nat);
        if path[end - 1] == SEPARATOR {
            rest.push((end as int, end as int))
        } else {
            rest.drop_last().push((rest.last().0, end as int))
        }
    }
}

/// The bytes of a stretch.
pub open spec fn part(path: Seq<u8>, stretch: (int, int)) -> Seq<u8> {
    path.subrange(stretch.0, stretch.1)
}

/// A stretch that counts: it is not empty, and it is not a dot, unless the path begins with it.
pub open spec fn counts(path: Seq<u8>, stretch: (int, int)) -> bool {
    part(path, stretch).len() > 0 && (part(path, stretch) != seq![DOT] || stretch.0 == 0)
}

/// The stretches of a path that count.
pub open spec fn counted(path: Seq<u8>) -> Seq<(int, int)> {
    stretches(path, path.len()).filter(|s: (int, int)| counts(path, s))
}

pub open spec fn is_absolute_path(path: Seq<u8>) -> bool {
    path.len() > 0 && path[0] == SEPARATOR
}

/// The components of a path: the root, where it begins there, and its parts.
pub open spec fn components(path: Seq<u8>) -> Seq<Seq<u8>> {
    let parts = counted(path).map_values(|s: (int, int)| part(path, s));
    if is_absolute_path(path) {
        seq![seq![SEPARATOR]] + parts
    } else {
        parts
    }
}

pub proof fn lemma_stretches(path: Seq<u8>, end: nat)
    requires
        end <= path.len(),
    ensures
        stretches(path, end).len() > 0,
        stretches(path, end).last().1 == end,
        forall|i: int|
            0 <= i < stretches(path, end).len() ==> 0 <= (#[trigger] stretches(path, end)[i]).0 <= stretches(
                path,
                end,
            )[i].1 <= end,
    decreases end,
{
    if end > 0 {
        lemma_stretches(path, (end - 1) as nat);
    }
}

/// Each stretch that counts is one of the path.
proof fn lemma_counted(path: Seq<u8>)
    ensures
        forall|i: int|
            0 <= i < counted(path).len() ==> 0 <= (#[trigger] counted(path)[i]).0 < counted(path)[i].1 <= path.len(),
{
    lemma_stretches(path, path.len());
    let all = stretches(path, path.len());
    let pred = |s: (int, int)| counts(path, s);
    lemma_filter_from(all, pred);
    assert forall|i: int| 0 <= i < counted(path).len() implies 0 <= (#[trigger] counted(path)[i]).0 < counted(
        path,
    )[i].1 <= path.len() by {
        let s = counted(path)[i];
        assert(all.contains(s) && pred(s));
        let j = choose|j: int| 0 <= j < all.len() && all[j] == s;
        assert(0 <= all[j].0 <= all[j].1 <= path.len());
    }
}

/// What a filter leaves was there before, and meets the condition.
proof fn lemma_filter_from<A>(items: Seq<A>, pred: spec_fn(A) -> bool)
    ensures
        forall|i: int|
            0 <= i < items.filter(pred).len() ==> items.contains(#[trigger] items.filter(pred)[i]) && pred(
                items.filter(pred)[i],
            ),
    decreases items.len(),
{
    reveal(Seq::filter);
    if items.len() > 0 {
        let rest = items.drop_last();
        lemma_filter_from(rest, pred);
        assert forall|i: int| 0 <= i < items.filter(pred).len() implies items.contains(
            #[trigger] items.filter(pred)[i],
        ) && pred(items.filter(pred)[i]) by {
            if i < rest.filter(pred).len() {
                let a = rest.filter(pred)[i];
                assert(rest.contains(a));
                let j = choose|j: int| 0 <= j < rest.len() && rest[j] == a;
                assert(items[j] == a);
            } else {
                assert(items[items.len() - 1] == items.last());
            }
        }
    }
}

/// Whether a stretch of a path counts.
fn check_counts(path: &[u8], start: usize, end: usize) -> (holds: bool)
    requires
        start <= end <= path@.len(),
    ensures
        holds == counts(path@, (start as int, end as int)),
{
    let ghost bytes = part(path@, (start as int, end as int));
    if start == end {
        return false;
    }
    let is_dot: bool = end - start == 1 && path[start] == DOT;
    assert(is_dot == (bytes == seq![DOT])) by {
        assert(bytes[0] == path@[start as int]);
        if is_dot {
            assert(bytes =~= seq![DOT]);
        }
    }
    !is_dot || start == 0
}

spec fn stretch_views(items: Seq<(usize, usize)>) -> Seq<(int, int)> {
    items.map_values(|s: (usize, usize)| (s.0 as int, s.1 as int))
}

/// The stretches of a path that count.
fn find_counted(path: &[u8]) -> (found: Vec<(usize, usize)>)
    ensures
        stretch_views(found@) == counted(path@),
{
    let ghost p = path@;
    let ghost pred = |s: (int, int)| counts(p, s);
    let mut found: Vec<(usize, usize)> = Vec::new();
    let mut start: usize = 0;
    let mut i: usize = 0;
    proof {
        reveal(Seq::filter);
        assert(stretches(p, 0).drop_last() =~= Seq::<(int, int)>::empty());
        assert(stretch_views(found@) =~= stretches(p, 0).drop_last().filter(pred));
    }
    while i < path.len()
        invariant
            start <= i <= path@.len(),
            p == path@,
            pred == (|s: (int, int)| counts(p, s)),
            stretches(p, i as nat).len() > 0,
            stretches(p, i as nat).last() == (start as int, i as int),
            stretch_views(found@) == stretches(p, i as nat).drop_last().filter(pred),
        decreases path@.len() - i,
    {
        let ghost before = stretches(p, i as nat);
        let ghost kept = stretch_views(found@);
        if path[i] == SEPARATOR {
            proof {
                reveal(Seq::filter);
                assert(stretches(p, (i + 1) as nat).drop_last() =~= before);
                assert(pred(before.last()) == counts(p, (start as int, i as int)));
            }
            if check_counts(path, start, i) {
                found.push((start, i));
                assert(stretch_views(found@) =~= kept.push((start as int, i as int)));
            }
            start = i + 1;
        } else {
            assert(stretches(p, (i + 1) as nat).drop_last() =~= before.drop_last());
        }
        i = i + 1;
    }
    let ghost before = stretches(p, i as nat);
    let ghost kept = stretch_views(found@);
    proof {
        reveal(Seq::filter);
        assert(pred(before.last()) == counts(p, (start as int, i as int)));
    }
    if check_counts(path, start, path.len()) {
        found.push((start, path.len()));
        assert(stretch_views(found@) =~= kept.push((start as int, i as int)));
    }
    found
}

pub fn is_absolute(path: &[u8]) -> (absolute: bool)
    ensures
        absolute == is_absolute_path(path@),
{
    path.len() > 0 && path[0] == SEPARATOR
}

/// The components of a path.
pub fn path_components(path: &[u8]) -> (parts: Vec<Word>)
    ensures
        views(parts@) == components(path@),
{
    broadcast use lemma_views_push;

    let ghost p = path@;
    let found: Vec<(usize, usize)> = find_counted(path);
    proof {
        lemma_counted(p);
    }
    let ghost rest = counted(p).map_values(|s: (int, int)| part(p, s));
    let mut parts: Vec<Word> = Vec::new();
    let ghost root: Seq<Seq<u8>> = if is_absolute_path(p) {
        seq![seq![SEPARATOR]]
    } else {
        Seq::empty()
    };
    if is_absolute(path) {
        let mut separator: Word = Vec::new();
        separator.push(SEPARATOR);
        assert(separator@ =~= seq![SEPARATOR]);
        parts.push(separator);
        assert(views(parts@) =~= root);
    } else {
        assert(views(parts@) =~= root);
    }
    let mut i: usize = 0;
    assert(views(parts@) =~= root + rest.take(0));
    while i < found.len()
        invariant
            i <= found@.len(),
            p == path@,
            stretch_views(found@) == counted(p),
            found@.len() == counted(p).len(),
            rest == counted(p).map_values(|s: (int, int)| part(p, s)),
            forall|j: int|
                0 <= j < counted(p).len() ==> 0 <= (#[trigger] counted(p)[j]).0 < counted(p)[j].1 <= p.len(),
            views(parts@) == root + rest.take(i as int),
        decreases found@.len() - i,
    {
        let ghost before = views(parts@);
        assert(counted(p)[i as int] == stretch_views(found@)[i as int]);
        let (start, end): (usize, usize) = found[i];
        let bytes: Word = copy_word(slice_subrange(path, start, end));
        assert(bytes@ == rest[i as int]);
        parts.push(bytes);
        assert(views(parts@) == before.push(rest[i as int]));
        i = i + 1;
        assert(views(parts@) =~= root + rest.take(i as int));
    }
    assert(rest.take(i as int) =~= rest);
    assert(views(parts@) =~= components(p));
    parts
}

// ---- relations ----

/// The components of `base` come first among those of `path`.
pub open spec fn path_starts_with(path: Seq<u8>, base: Seq<u8>) -> bool {
    components(base).is_prefix_of(components(path))
}

/// Whether the first words of a list are those of another list.
fn begins_with(words: &Vec<Word>, beginning: &Vec<Word>) -> (holds: bool)
    ensures
        holds == views(beginning@).is_prefix_of(views(words@)),
{
    if beginning.len() > words.len() {
        return false;
    }
    let mut i: usize = 0;
    while i < beginning.len()
        invariant
            i <= beginning@.len() <= words@.len(),
            forall|j: int| 0 <= j < i ==> views(beginning@)[j] == views(words@)[j],
        decreases beginning@.len() - i,
    {
        if !same_word(beginning[i].as_slice(), words[i].as_slice()) {
            assert(views(beginning@)[i as int] != views(words@)[i as int]);
            assert(views(beginning@).is_prefix_of(views(words@)) ==> views(beginning@)[i as int] == views(
                words@,
            ).subrange(0, beginning@.len() as int)[i as int]);
            return false;
        }
        i = i + 1;
    }
    assert(views(beginning@) =~= views(words@).subrange(0, beginning@.len() as int));
    true
}

/// Whether a path is that of `base`, or of something below it.
pub fn starts_with(path: &[u8], base: &[u8]) -> (holds: bool)
    ensures
        holds == path_starts_with(path@, base@),
{
    begins_with(&path_components(path), &path_components(base))
}

/// A path begins with itself.
pub proof fn path_starts_with_itself(path: Seq<u8>)
    ensures
        path_starts_with(path, path),
{
    let parts = components(path);
    assert(parts =~= parts.subrange(0, parts.len() as int));
}

/// What begins with a path also begins with what that path begins with.
pub proof fn path_starts_with_is_transitive(path: Seq<u8>, base: Seq<u8>, root: Seq<u8>)
    requires
        path_starts_with(path, base),
        path_starts_with(base, root),
    ensures
        path_starts_with(path, root),
{
    let p = components(path);
    let b = components(base);
    let r = components(root);
    assert(p.subrange(0, r.len() as int) =~= b.subrange(0, r.len() as int));
}

/// The number of components of the shortest ancestor of a path: the root, or nothing.
pub open spec fn shortest_ancestor(path: Seq<u8>) -> int {
    if is_absolute_path(path) {
        1
    } else {
        0
    }
}

/// One of `paths` is `path` or an ancestor of it.
pub open spec fn is_at_or_below(path: Seq<u8>, paths: Seq<Seq<u8>>) -> bool {
    exists|i: int|
        0 <= i < paths.len() && components(#[trigger] paths[i]).len() >= shortest_ancestor(path) && path_starts_with(
            path,
            paths[i],
        )
}

/// Whether one of some paths is this path or an ancestor of it.
pub fn at_or_below_any(path: &[u8], paths: &Vec<Word>) -> (holds: bool)
    ensures
        holds == is_at_or_below(path@, views(paths@)),
{
    let parts: Vec<Word> = path_components(path);
    let shortest: usize = if is_absolute(path) {
        1
    } else {
        0
    };
    let ghost all = views(paths@);
    let mut i: usize = 0;
    while i < paths.len()
        invariant
            i <= paths@.len(),
            all == views(paths@),
            shortest == shortest_ancestor(path@),
            views(parts@) == components(path@),
            forall|j: int|
                0 <= j < i ==> !(components(#[trigger] all[j]).len() >= shortest_ancestor(path@) && path_starts_with(
                    path@,
                    all[j],
                )),
        decreases paths@.len() - i,
    {
        assert(all[i as int] == paths@[i as int]@);
        let candidate: Vec<Word> = path_components(paths[i].as_slice());
        assert(components(all[i as int]).len() == candidate@.len());
        if candidate.len() >= shortest && begins_with(&parts, &candidate) {
            return true;
        }
        i = i + 1;
    }
    false
}

// ---- names ----

/// The name of a file: the last component, unless that is the root or leads elsewhere.
pub open spec fn file_name(path: Seq<u8>) -> Option<Seq<u8>> {
    let found = counted(path);
    if found.len() == 0 || is_dots(part(path, found.last())) {
        None
    } else {
        Some(part(path, found.last()))
    }
}

/// The path of the place itself, or of the one above.
pub open spec fn is_dots(name: Seq<u8>) -> bool {
    name == seq![DOT] || name == seq![DOT, DOT]
}

/// The index of the last dot in the first `end` bytes of a name, or -1.
pub open spec fn last_dot(name: Seq<u8>, end: int) -> int
    decreases end,
{
    if end <= 0 {
        -1
    } else if name[end - 1] == DOT {
        end - 1
    } else {
        last_dot(name, end - 1)
    }
}

/// What follows the last dot of the name of a file. A dot at the beginning begins no extension.
pub open spec fn path_extension(path: Seq<u8>) -> Option<Seq<u8>> {
    match file_name(path) {
        Some(name) => if last_dot(name, name.len() as int) > 0 {
            Some(name.skip(last_dot(name, name.len() as int) + 1))
        } else {
            None
        },
        None => None,
    }
}

fn find_last_dot(name: &[u8]) -> (position: Option<usize>)
    ensures
        match position {
            Some(p) => p < name@.len() && p == last_dot(name@, name@.len() as int),
            None => last_dot(name@, name@.len() as int) == -1,
        },
{
    let mut end: usize = name.len();
    while end > 0
        invariant
            end <= name@.len(),
            last_dot(name@, end as int) == last_dot(name@, name@.len() as int),
        decreases end,
    {
        if name[end - 1] == DOT {
            return Some(end - 1);
        }
        end = end - 1;
    }
    None
}

fn check_dots(name: &[u8]) -> (holds: bool)
    ensures
        holds == is_dots(name@),
{
    let one: bool = name.len() == 1 && name[0] == DOT;
    let two: bool = name.len() == 2 && name[0] == DOT && name[1] == DOT;
    assert(one == (name@ == seq![DOT])) by {
        if one {
            assert(name@ =~= seq![DOT]);
        }
    }
    assert(two == (name@ == seq![DOT, DOT])) by {
        if two {
            assert(name@ =~= seq![DOT, DOT]);
        } else if name@ == seq![DOT, DOT] {
            assert(name@[0] == DOT && name@[1] == DOT);
        }
    }
    one || two
}

/// The extension of the name of a file.
pub fn extension(path: &[u8]) -> (found: Option<Word>)
    ensures
        match found {
            Some(e) => path_extension(path@) == Some(e@),
            None => path_extension(path@) is None,
        },
{
    let counted_parts: Vec<(usize, usize)> = find_counted(path);
    proof {
        lemma_counted(path@);
        assert(counted_parts@.len() == counted(path@).len());
    }
    if counted_parts.len() == 0 {
        return None;
    }
    assert(stretch_views(counted_parts@)[counted_parts@.len() - 1] == counted(path@).last());
    let (start, end): (usize, usize) = counted_parts[counted_parts.len() - 1];
    let name = slice_subrange(path, start, end);
    if check_dots(name) {
        return None;
    }
    match find_last_dot(name) {
        Some(p) => if p > 0 {
            let e: Word = copy_word(slice_subrange(name, p + 1, name.len()));
            assert(e@ =~= name@.skip(p + 1));
            Some(e)
        } else {
            None
        },
        None => None,
    }
}

/// A path as it is seen from `base`: what is written after the components of `base`, or all of it
/// where the path does not begin with them.
pub open spec fn path_below(path: Seq<u8>, base: Seq<u8>) -> Seq<u8> {
    let n = components(base).len() - shortest_ancestor(path);
    let found = counted(path);
    if !path_starts_with(path, base) {
        path
    } else if components(base).len() == 0 && is_absolute_path(path) {
        seq![SEPARATOR] + path.subrange(
            1,
            if found.len() > 0 {
                found.last().1
            } else {
                1
            },
        )
    } else if n >= found.len() {
        Seq::empty()
    } else {
        path.subrange(found[n].0, found.last().1)
    }
}

/// The path as it is seen from `base`.
pub fn strip_prefix(path: &[u8], base: &[u8]) -> (rest: Word)
    ensures
        rest@ == path_below(path@, base@),
{
    let parts: Vec<Word> = path_components(path);
    let base_parts: Vec<Word> = path_components(base);
    if !begins_with(&parts, &base_parts) {
        return copy_word(path);
    }
    let found: Vec<(usize, usize)> = find_counted(path);
    proof {
        lemma_counted(path@);
        assert(found@.len() == counted(path@).len());
        assert(base_parts@.len() == components(base@).len());
        if found@.len() > 0 {
            assert(stretch_views(found@)[found@.len() - 1] == counted(path@).last());
        }
    }
    let absolute: bool = is_absolute(path);
    if base_parts.len() == 0 && absolute {
        let end: usize = if found.len() > 0 {
            found[found.len() - 1].1
        } else {
            1
        };
        let rest: Word = copy_word(slice_subrange(path, 0, end));
        assert(rest@ =~= seq![SEPARATOR] + path@.subrange(1, end as int));
        return rest;
    }
    let n: usize = if absolute {
        base_parts.len() - 1
    } else {
        base_parts.len()
    };
    if n >= found.len() {
        let rest: Word = Vec::new();
        assert(rest@ =~= Seq::empty());
        return rest;
    }
    assert(stretch_views(found@)[n as int] == counted(path@)[n as int]);
    let start: usize = found[n].0;
    let end: usize = found[found.len() - 1].1;
    proof {
        lemma_counted_ordered(path@, n as int, counted(path@).len() - 1);
    }
    copy_word(slice_subrange(path, start, end))
}

proof fn lemma_stretches_ordered(path: Seq<u8>, end: nat)
    requires
        end <= path.len(),
    ensures
        forall|i: int, j: int|
            0 <= i < j < stretches(path, end).len() ==> (#[trigger] stretches(path, end)[i]).1 < (
            #[trigger] stretches(path, end)[j]).0,
    decreases end,
{
    if end > 0 {
        lemma_stretches_ordered(path, (end - 1) as nat);
        lemma_stretches(path, (end - 1) as nat);
        let rest = stretches(path, (end - 1) as nat);
        let now = stretches(path, end);
        assert forall|i: int, j: int| 0 <= i < j < now.len() implies (#[trigger] now[i]).1 < (#[trigger] now[j]).0 by {
            if path[end - 1] == SEPARATOR {
                if j == now.len() - 1 {
                    assert(now[i] == rest[i]);
                    assert(rest[i].1 <= end - 1);
                } else {
                    assert(now[i] == rest[i] && now[j] == rest[j]);
                }
            } else {
                assert(now[i] == rest[i]);
                assert(now[j].0 == rest[j].0);
                assert(rest[i].1 < rest[j].0);
            }
        }
    }
}

/// A filter keeps the order of what it leaves.
proof fn lemma_filter_ordered(items: Seq<(int, int)>, pred: spec_fn((int, int)) -> bool)
    requires
        forall|i: int, j: int| 0 <= i < j < items.len() ==> (#[trigger] items[i]).1 < (#[trigger] items[j]).0,
    ensures
        forall|i: int, j: int|
            0 <= i < j < items.filter(pred).len() ==> (#[trigger] items.filter(pred)[i]).1 < (#[trigger] items.filter(
                pred,
            )[j]).0,
    decreases items.len(),
{
    reveal(Seq::filter);
    if items.len() > 0 {
        let rest = items.drop_last();
        lemma_filter_ordered(rest, pred);
        lemma_filter_from(rest, pred);
        let kept = items.filter(pred);
        assert forall|i: int, j: int| 0 <= i < j < kept.len() implies (#[trigger] kept[i]).1 < (
        #[trigger] kept[j]).0 by {
            let earlier = rest.filter(pred);
            if j < earlier.len() {
                assert(kept[i] == earlier[i] && kept[j] == earlier[j]);
            } else {
                assert(kept[i] == earlier[i]);
                assert(rest.contains(earlier[i]));
                let k = choose|k: int| 0 <= k < rest.len() && rest[k] == earlier[i];
                assert(items[k] == kept[i]);
                assert(items[items.len() - 1] == kept[j]);
            }
        }
    }
}

proof fn lemma_counted_ordered(path: Seq<u8>, i: int, j: int)
    requires
        0 <= i <= j < counted(path).len(),
    ensures
        0 <= counted(path)[i].0 <= counted(path)[j].1 <= path.len(),
{
    lemma_counted(path);
    lemma_stretches_ordered(path, path.len());
    lemma_filter_ordered(stretches(path, path.len()), |s: (int, int)| counts(path, s));
    if i < j {
        assert(counted(path)[i].1 < counted(path)[j].0);
    }
}

/// A path below another one, unless it stands for itself.
pub open spec fn joined_path(base: Seq<u8>, path: Seq<u8>) -> Seq<u8> {
    if is_absolute_path(path) || base.len() == 0 {
        path
    } else if base.last() == SEPARATOR {
        base + path
    } else {
        base.push(SEPARATOR) + path
    }
}

pub fn join_path(base: &[u8], path: &[u8]) -> (joined: Word)
    ensures
        joined@ == joined_path(base@, path@),
{
    if is_absolute(path) || base.len() == 0 {
        return copy_word(path);
    }
    if base[base.len() - 1] == SEPARATOR {
        return concat(base, path);
    }
    let mut first: Word = copy_word(base);
    first.push(SEPARATOR);
    concat(first.as_slice(), path)
}

} // verus!
