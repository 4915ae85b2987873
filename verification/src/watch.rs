//! Which changes of files matter, and what they mean for the files that are analysed.

use vstd::prelude::*;

use crate::collections::lemma_views_push;
use crate::collections::views;
use crate::database::calculate_pattern_specificity;
use crate::database::find_glob_byte;
use crate::database::first_glob_byte;
use crate::database::is_glob;
use crate::database::is_glob_byte;
use crate::database::pattern_specificity;
use crate::database::Exclusion;
use crate::database::ExclusionView;
use crate::globs::BACKSLASH;
use crate::paths::components;
use crate::paths::join_path;
use crate::paths::joined_path;
use crate::paths::path_components;
use crate::paths::SEPARATOR;
use crate::word::copy_word;
use crate::word::same_word;
use crate::word::text;
use crate::word::word;
use crate::word::Word;

verus! {

// ---- options ----

/// The number of milliseconds between two looks at the files, where nothing else is said.
pub const DEFAULT_POLL_INTERVAL_MS: u64 = 1000;

/// How files are watched.
#[derive(Debug, Clone)]
pub struct WatchOptions {
    /// The number of milliseconds between two looks at the files, where the system does not tell
    /// of changes by itself.
    pub poll_interval: Option<u64>,
    pub additional_excludes: Vec<Exclusion>,
}

#[verifier::ext_equal]
pub struct WatchOptionsView {
    pub poll_interval: Option<u64>,
    pub additional_excludes: Seq<ExclusionView>,
}

impl View for WatchOptions {
    type V = WatchOptionsView;

    open spec fn view(&self) -> WatchOptionsView {
        WatchOptionsView {
            poll_interval: self.poll_interval,
            additional_excludes: views(self.additional_excludes@),
        }
    }
}

impl Default for WatchOptions {
    fn default() -> (options: WatchOptions)
        ensures
            options@ == (WatchOptionsView {
                poll_interval: Some(DEFAULT_POLL_INTERVAL_MS),
                additional_excludes: Seq::empty(),
            }),
    {
        let options = WatchOptions {
            poll_interval: Some(DEFAULT_POLL_INTERVAL_MS),
            additional_excludes: Vec::new(),
        };
        assert(options@.additional_excludes =~= Seq::empty());
        options
    }
}

// ---- what to watch ----

/// A byte that parts the components of a pattern.
pub open spec fn is_separator(b: u8) -> bool {
    b == SEPARATOR || b == BACKSLASH
}

/// The number of bytes that are left of the first `end` once separators at their end are taken off.
pub open spec fn trimmed_end(pattern: Seq<u8>, end: int) -> int
    decreases end,
{
    if end > 0 && is_separator(pattern[end - 1]) {
        trimmed_end(pattern, end - 1)
    } else {
        end
    }
}

/// The number of bytes that are left of the first `end` once what follows the last separator is
/// taken off, and that separator with those right before it.
pub open spec fn directory_end(pattern: Seq<u8>, end: int) -> int
    decreases end,
{
    if end > 0 && !is_separator(pattern[end - 1]) {
        directory_end(pattern, end - 1)
    } else {
        trimmed_end(pattern, end)
    }
}

/// The directory that holds all that a pattern can name: the directory portion of what is written
/// before the first byte that makes it a pattern. Where that is empty, it is the root if the pattern
/// begins with `/`, and the workspace itself otherwise. A path is its own directory.
pub open spec fn watch_path(pattern: Seq<u8>) -> Seq<u8> {
    let end = directory_end(pattern, first_glob_byte(pattern, 0));
    if !is_glob(pattern) {
        pattern
    } else if end > 0 {
        pattern.take(end)
    } else if pattern[0] == SEPARATOR {
        text("/")
    } else {
        text(".")
    }
}

fn check_separator(b: u8) -> (separates: bool)
    ensures
        separates == is_separator(b),
{
    b == SEPARATOR || b == BACKSLASH
}

/// Finds the directory that holds all that a pattern can name.
pub fn extract_watch_path(pattern: &[u8]) -> (path: Word)
    ensures
        path@ == watch_path(pattern@),
{
    let first: usize = find_glob_byte(pattern);
    if first == pattern.len() {
        return copy_word(pattern);
    }
    let mut end: usize = first;
    while end > 0 && !check_separator(pattern[end - 1])
        invariant
            end <= first < pattern@.len(),
            directory_end(pattern@, end as int) == directory_end(pattern@, first as int),
        decreases end,
    {
        end = end - 1;
    }
    while end > 0 && check_separator(pattern[end - 1])
        invariant
            end <= first < pattern@.len(),
            trimmed_end(pattern@, end as int) == directory_end(pattern@, first as int),
        decreases end,
    {
        end = end - 1;
    }
    if end > 0 {
        let path: Word = copy_word(vstd::slice::slice_subrange(pattern, 0, end));
        assert(path@ =~= pattern@.take(end as int));
        path
    } else if pattern[0] == SEPARATOR {
        word("/")
    } else {
        word(".")
    }
}

/// No separator comes after a byte that is none.
pub open spec fn separators_come_first(s: Seq<u8>) -> bool {
    forall|i: int, j: int| 0 <= i < j < s.len() && is_separator(#[trigger] s[j]) ==> is_separator(#[trigger] s[i])
}

proof fn lemma_directory_end(pattern: Seq<u8>, end: int)
    requires
        0 <= end <= pattern.len(),
    ensures
        0 <= directory_end(pattern, end) <= end,
        directory_end(pattern, end) > 0 ==> directory_end(pattern, end) < end && is_separator(
            pattern[directory_end(pattern, end)],
        ) && !is_separator(pattern[directory_end(pattern, end) - 1]),
        directory_end(pattern, end) == 0 ==> separators_come_first(pattern.take(end)),
    decreases end,
{
    if end > 0 {
        if is_separator(pattern[end - 1]) {
            lemma_trimmed_end(pattern, end);
        } else {
            lemma_directory_end(pattern, end - 1);
        }
    }
}

proof fn lemma_trimmed_end(pattern: Seq<u8>, end: int)
    requires
        0 < end <= pattern.len(),
        is_separator(pattern[end - 1]),
    ensures
        0 <= trimmed_end(pattern, end) < end,
        is_separator(pattern[trimmed_end(pattern, end)]),
        trimmed_end(pattern, end) > 0 ==> !is_separator(pattern[trimmed_end(pattern, end) - 1]),
        forall|i: int| trimmed_end(pattern, end) <= i < end ==> is_separator(#[trigger] pattern[i]),
    decreases end,
{
    if end > 1 && is_separator(pattern[end - 2]) {
        lemma_trimmed_end(pattern, end - 1);
    } else {
        assert(trimmed_end(pattern, end - 1) == end - 1);
    }
}

proof fn lemma_first_glob_byte(pattern: Seq<u8>, start: int)
    requires
        0 <= start <= pattern.len(),
    ensures
        start <= first_glob_byte(pattern, start) <= pattern.len(),
        forall|i: int| start <= i < first_glob_byte(pattern, start) ==> !is_glob_byte(#[trigger] pattern[i]),
    decreases pattern.len() - start,
{
    if start < pattern.len() && !is_glob_byte(pattern[start]) {
        lemma_first_glob_byte(pattern, start + 1);
    }
}

/// What is watched for a pattern is a directory, and never cuts a name in two: it is a part of what
/// is written that ends right before a separator and is itself no pattern. Where no name comes
/// before a separator, it is the root if the pattern begins with `/`, and the workspace otherwise.
pub proof fn patterns_are_watched_by_directory(pattern: Seq<u8>)
    requires
        is_glob(pattern),
    ensures
        ({
            let path = watch_path(pattern);
            let first = first_glob_byte(pattern, 0);
            ||| path == text("/") && pattern[0] == SEPARATOR && separators_come_first(pattern.take(first))
            ||| path == text(".") && pattern[0] != SEPARATOR && separators_come_first(pattern.take(first))
            ||| {
                &&& 0 < path.len() < first
                &&& path == pattern.take(path.len() as int)
                &&& is_separator(pattern[path.len() as int])
                &&& !is_separator(path.last())
                &&& forall|i: int| 0 <= i < path.len() ==> !is_glob_byte(#[trigger] path[i])
            }
        }),
{
    let first = first_glob_byte(pattern, 0);
    lemma_first_glob_byte(pattern, 0);
    lemma_directory_end(pattern, first);
}

/// A directory that is watched, and how narrowly the pattern that it comes from names files.
pub type BasePath = (Word, usize);

pub open spec fn base_views(bases: Seq<BasePath>) -> Seq<(Seq<u8>, usize)> {
    Seq::new(bases.len(), |i: int| (bases[i].0@, bases[i].1))
}

/// The directory that a pattern stands for in a workspace, and how narrowly it names files.
pub open spec fn base_path(workspace: Seq<u8>, pattern: Seq<u8>) -> (Seq<u8>, usize) {
    (joined_path(workspace, watch_path(pattern)), pattern_specificity(pattern))
}

/// The directories that some patterns stand for.
pub open spec fn base_paths(workspace: Seq<u8>, patterns: Seq<Seq<u8>>) -> Seq<(Seq<u8>, usize)> {
    patterns.map_values(|pattern: Seq<u8>| base_path(workspace, pattern))
}

pub fn find_base_paths(workspace: &[u8], patterns: &Vec<Word>) -> (bases: Vec<BasePath>)
    ensures
        base_views(bases@) == base_paths(workspace@, views(patterns@)),
{
    let ghost expected = base_paths(workspace@, views(patterns@));
    let mut bases: Vec<BasePath> = Vec::new();
    let mut i: usize = 0;
    assert(base_views(bases@) =~= expected.take(0));
    while i < patterns.len()
        invariant
            i <= patterns@.len(),
            expected == base_paths(workspace@, views(patterns@)),
            base_views(bases@) == expected.take(i as int),
        decreases patterns@.len() - i,
    {
        let ghost before = bases@;
        assert(views(patterns@)[i as int] == patterns@[i as int]@);
        let specificity: usize = calculate_pattern_specificity(patterns[i].as_slice());
        let directory: Word = extract_watch_path(patterns[i].as_slice());
        bases.push((join_path(workspace, directory.as_slice()), specificity));
        i = i + 1;
        assert(base_views(bases@) =~= base_views(before).push(expected[i - 1]));
        assert(base_views(bases@) =~= expected.take(i as int));
    }
    assert(expected.take(i as int) =~= expected);
    bases
}

/// One of some paths has the same components as this one.
pub open spec fn is_among(path: Seq<u8>, paths: Seq<Seq<u8>>) -> bool {
    exists|i: int| 0 <= i < paths.len() && components(#[trigger] paths[i]) == components(path)
}

/// Whether two lists hold the same words.
fn same_words(a: &Vec<Word>, b: &Vec<Word>) -> (same: bool)
    ensures
        same == (views(a@) == views(b@)),
{
    if a.len() != b.len() {
        assert(views(a@).len() != views(b@).len());
        return false;
    }
    let mut i: usize = 0;
    while i < a.len()
        invariant
            i <= a@.len() == b@.len(),
            forall|j: int| 0 <= j < i ==> views(a@)[j] == views(b@)[j],
        decreases a@.len() - i,
    {
        if !same_word(a[i].as_slice(), b[i].as_slice()) {
            assert(views(a@)[i as int] != views(b@)[i as int]);
            return false;
        }
        i = i + 1;
    }
    assert(views(a@) =~= views(b@));
    true
}

pub fn check_among(path: &[u8], paths: &Vec<Word>) -> (found: bool)
    ensures
        found == is_among(path@, views(paths@)),
{
    let ghost all = views(paths@);
    let parts: Vec<Word> = path_components(path);
    let mut i: usize = 0;
    while i < paths.len()
        invariant
            i <= paths@.len(),
            all == views(paths@),
            views(parts@) == components(path@),
            forall|j: int| 0 <= j < i ==> components(#[trigger] all[j]) != components(path@),
        decreases paths@.len() - i,
    {
        assert(all[i as int] == paths@[i as int]@);
        if same_words(&path_components(paths[i].as_slice()), &parts) {
            return true;
        }
        i = i + 1;
    }
    false
}

/// The paths of some directories, each once.
pub open spec fn distinct_paths(bases: Seq<(Seq<u8>, usize)>) -> Seq<Seq<u8>>
    decreases bases.len(),
{
    if bases.len() == 0 {
        Seq::empty()
    } else {
        let rest = distinct_paths(bases.drop_last());
        if is_among(bases.last().0, rest) {
            rest
        } else {
            rest.push(bases.last().0)
        }
    }
}

/// Adds the paths of some directories that are not there yet.
fn add_distinct_paths(paths: &mut Vec<Word>, before: Ghost<Seq<(Seq<u8>, usize)>>, bases: &Vec<BasePath>)
    requires
        views(old(paths)@) == distinct_paths(before@),
    ensures
        views(final(paths)@) == distinct_paths(before@ + base_views(bases@)),
{
    broadcast use lemma_views_push;

    let ghost all = base_views(bases@);
    let mut i: usize = 0;
    assert(before@ + all.take(0) =~= before@);
    while i < bases.len()
        invariant
            i <= bases@.len(),
            all == base_views(bases@),
            views(paths@) == distinct_paths(before@ + all.take(i as int)),
        decreases bases@.len() - i,
    {
        let ghost now = before@ + all.take(i + 1);
        assert(now.drop_last() =~= before@ + all.take(i as int));
        assert(now.last() == all[i as int]);
        if !check_among(bases[i].0.as_slice(), paths) {
            paths.push(copy_word(bases[i].0.as_slice()));
        }
        i = i + 1;
    }
    assert(all.take(i as int) =~= all);
}

/// The directories to watch, each once.
pub fn find_watch_paths(hosts: &Vec<BasePath>, included: &Vec<BasePath>, patches: &Vec<BasePath>) -> (paths: Vec<Word>)
    ensures
        views(paths@) == distinct_paths(base_views(hosts@) + base_views(included@) + base_views(patches@)),
{
    let mut paths: Vec<Word> = Vec::new();
    assert(views(paths@) =~= distinct_paths(Seq::empty()));
    add_distinct_paths(&mut paths, Ghost(Seq::empty()), hosts);
    assert(Seq::empty() + base_views(hosts@) =~= base_views(hosts@));
    add_distinct_paths(&mut paths, Ghost(base_views(hosts@)), included);
    add_distinct_paths(&mut paths, Ghost(base_views(hosts@) + base_views(included@)), patches);
    paths
}

/// No two of the directories to watch are the same, and each configured one is among them.
pub proof fn watch_paths_are_distinct(bases: Seq<(Seq<u8>, usize)>)
    ensures
        forall|i: int, j: int|
            0 <= i < j < distinct_paths(bases).len() ==> components(#[trigger] distinct_paths(bases)[i]) != components(
                #[trigger] distinct_paths(bases)[j],
            ),
        forall|i: int| 0 <= i < bases.len() ==> is_among((#[trigger] bases[i]).0, distinct_paths(bases)),
    decreases bases.len(),
{
    if bases.len() > 0 {
        let before = bases.drop_last();
        let rest = distinct_paths(before);
        let now = distinct_paths(bases);
        watch_paths_are_distinct(before);
        assert forall|i: int, j: int| 0 <= i < j < now.len() implies components(#[trigger] now[i]) != components(
            #[trigger] now[j],
        ) by {
            if j < rest.len() {
                assert(now[i] == rest[i] && now[j] == rest[j]);
            } else {
                assert(now[i] == rest[i]);
                assert(now[j] == bases.last().0);
            }
        }
        assert forall|i: int| 0 <= i < bases.len() implies is_among((#[trigger] bases[i]).0, now) by {
            if i < before.len() {
                assert(before[i] == bases[i]);
                assert(is_among(before[i].0, rest));
                let j = choose|j: int| 0 <= j < rest.len() && components(#[trigger] rest[j]) == components(before[i].0);
                assert(now[j] == rest[j]);
            } else if !is_among(bases.last().0, rest) {
                assert(now[now.len() - 1] == bases.last().0);
            }
        }
    }
}

} // verus!
