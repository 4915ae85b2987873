//! Changes of files: which of them matter, and which type a file has that is found.

use vstd::prelude::*;

use crate::collections::lemma_views_push;
use crate::collections::views;
use crate::database::resolve_file_type;
use crate::database::resolved_file_type;
use crate::database::FileId;
use crate::database::FileType;
use crate::exclusions::are_matches;
use crate::exclusions::match_paths;
use crate::exclusions::Exclusions;
use crate::globs::globs_of;
use crate::paths::at_or_below_any;
use crate::paths::extension;
use crate::paths::is_at_or_below;
use crate::paths::path_below;
use crate::paths::path_extension;
use crate::paths::path_starts_with;
use crate::paths::starts_with;
use crate::paths::strip_prefix;
use crate::watch::base_views;
use crate::watch::check_among;
use crate::watch::is_among;
use crate::watch::BasePath;
use crate::word::copy_word;
use crate::word::same_word;
use crate::word::Word;

verus! {

// ---- events ----

/// What happened to some files.
#[derive(Debug, Clone, Copy, PartialEq, Eq, Structural)]
pub enum EventKind {
    Any,
    Access,
    Create,
    /// Something other than what is written in them changed.
    ModifyMetadata,
    Modify,
    Remove,
    Other,
}

/// That something happened to some files.
pub struct FileEvent {
    pub kind: EventKind,
    pub paths: Vec<Word>,
}

/// A file that was added, changed or removed.
pub struct ChangedFile {
    pub id: FileId,
    pub path: Word,
}

#[verifier::ext_equal]
pub struct ChangeView {
    pub id: Seq<u8>,
    pub path: Seq<u8>,
}

impl View for ChangedFile {
    type V = ChangeView;

    open spec fn view(&self) -> ChangeView {
        ChangeView { id: self.id@, path: self.path@ }
    }
}

/// Files were added, changed or removed.
pub open spec fn is_change(kind: EventKind) -> bool {
    kind is Create || kind is Modify || kind is Remove
}

/// The extension of a path is one of those that are asked for.
pub open spec fn has_extension(path: Seq<u8>, extensions: Seq<Seq<u8>>) -> bool {
    match path_extension(path) {
        Some(e) => extensions.contains(e),
        None => false,
    }
}

/// A path begins with one of some others.
pub open spec fn starts_with_any(path: Seq<u8>, bases: Seq<Seq<u8>>) -> bool {
    exists|i: int| 0 <= i < bases.len() && path_starts_with(path, #[trigger] bases[i])
}

/// What decides whether a change matters.
#[verifier::ext_equal]
pub struct WatchRules {
    pub workspace: Seq<u8>,
    pub excluded_paths: Seq<Seq<u8>>,
    pub extensions: Seq<Seq<u8>>,
    pub explicit_paths: Seq<Seq<u8>>,
}

impl WatchRules {
    /// A change of this file matters: its extension is asked for, and it is in a directory that is
    /// watched for its own sake, or else nothing excludes it.
    pub open spec fn is_relevant(self, path: Seq<u8>, matched: bool) -> bool {
        &&& has_extension(path, self.extensions)
        &&& starts_with_any(path, self.explicit_paths) || (!matched && !is_at_or_below(path, self.excluded_paths))
    }

    /// The files, among some, whose changes matter. `matched` says of each whether an exclusion
    /// pattern matches it.
    pub open spec fn relevant_files(self, paths: Seq<Seq<u8>>, matched: Seq<bool>) -> Seq<ChangeView>
        decreases paths.len(),
    {
        if paths.len() == 0 {
            Seq::empty()
        } else {
            let rest = self.relevant_files(paths.drop_last(), matched);
            let path = paths.last();
            if self.is_relevant(path, matched[paths.len() - 1]) {
                rest.push(ChangeView { id: path_below(path, self.workspace), path })
            } else {
                rest
            }
        }
    }

    /// What an event says of files whose changes matter.
    pub open spec fn changes(self, kind: EventKind, paths: Seq<Seq<u8>>, matched: Seq<bool>) -> Option<Seq<ChangeView>> {
        let files = self.relevant_files(paths, matched);
        if is_change(kind) && files.len() > 0 {
            Some(files)
        } else {
            None
        }
    }
}

pub open spec fn changes_view(changes: Option<Vec<ChangedFile>>) -> Option<Seq<ChangeView>> {
    match changes {
        Some(files) => Some(views(files@)),
        None => None,
    }
}

fn check_extension(path: &[u8], extensions: &Vec<Word>) -> (holds: bool)
    ensures
        holds == has_extension(path@, views(extensions@)),
{
    let ghost all = views(extensions@);
    match extension(path) {
        Some(e) => {
            let mut i: usize = 0;
            while i < extensions.len()
                invariant
                    i <= extensions@.len(),
                    all == views(extensions@),
                    path_extension(path@) == Some(e@),
                    forall|j: int| 0 <= j < i ==> all[j] != e@,
                decreases extensions@.len() - i,
            {
                if same_word(extensions[i].as_slice(), e.as_slice()) {
                    assert(all[i as int] == e@);
                    return true;
                }
                i = i + 1;
            }
            assert(!all.contains(e@));
            false
        },
        None => false,
    }
}

fn check_starts_with_any(path: &[u8], bases: &Vec<Word>) -> (holds: bool)
    ensures
        holds == starts_with_any(path@, views(bases@)),
{
    let ghost all = views(bases@);
    let mut i: usize = 0;
    while i < bases.len()
        invariant
            i <= bases@.len(),
            all == views(bases@),
            forall|j: int| 0 <= j < i ==> !path_starts_with(path@, #[trigger] all[j]),
        decreases bases@.len() - i,
    {
        assert(all[i as int] == bases@[i as int]@);
        if starts_with(path, bases[i].as_slice()) {
            return true;
        }
        i = i + 1;
    }
    false
}

/// What an event says of files whose changes matter, once it is known of each path whether an
/// exclusion pattern matches it.
pub fn changes_of_event(
    event: &FileEvent,
    matched: &Vec<bool>,
    workspace: &[u8],
    excluded_paths: &Vec<Word>,
    extensions: &Vec<Word>,
    explicit_watch_paths: &Vec<Word>,
) -> (changes: Option<Vec<ChangedFile>>)
    requires
        matched@.len() == event.paths@.len(),
    ensures
        changes_view(changes) == (WatchRules {
            workspace: workspace@,
            excluded_paths: views(excluded_paths@),
            extensions: views(extensions@),
            explicit_paths: views(explicit_watch_paths@),
        }).changes(event.kind, views(event.paths@), matched@),
{
    broadcast use lemma_views_push;

    let ghost rules = WatchRules {
        workspace: workspace@,
        excluded_paths: views(excluded_paths@),
        extensions: views(extensions@),
        explicit_paths: views(explicit_watch_paths@),
    };
    match event.kind {
        EventKind::Other | EventKind::Any | EventKind::Access | EventKind::ModifyMetadata => {
            return None;
        },
        EventKind::Create | EventKind::Modify | EventKind::Remove => {},
    }
    let ghost all = views(event.paths@);
    let mut files: Vec<ChangedFile> = Vec::new();
    let mut i: usize = 0;
    assert(views(files@) =~= rules.relevant_files(all.take(0), matched@));
    while i < event.paths.len()
        invariant
            i <= event.paths@.len() == matched@.len(),
            all == views(event.paths@),
            rules == (WatchRules {
                workspace: workspace@,
                excluded_paths: views(excluded_paths@),
                extensions: views(extensions@),
                explicit_paths: views(explicit_watch_paths@),
            }),
            views(files@) == rules.relevant_files(all.take(i as int), matched@),
        decreases event.paths@.len() - i,
    {
        assert(all.take(i + 1).drop_last() =~= all.take(i as int));
        assert(all.take(i + 1).last() == event.paths@[i as int]@);
        let path = event.paths[i].as_slice();
        if check_extension(path, extensions) {
            let relevant: bool = if check_starts_with_any(path, explicit_watch_paths) {
                true
            } else {
                !matched[i] && !at_or_below_any(path, excluded_paths)
            };
            if relevant {
                files.push(ChangedFile { id: strip_prefix(path, workspace), path: copy_word(path) });
            }
        }
        i = i + 1;
    }
    assert(all.take(i as int) =~= all);
    if files.len() == 0 {
        None
    } else {
        Some(files)
    }
}

/// What an event says of files whose changes matter: whether a pattern matches a path is asked of
/// the set of patterns.
pub fn handle_event(
    event: &FileEvent,
    workspace: &[u8],
    exclusions: &Exclusions,
    extensions: &Vec<Word>,
    explicit_watch_paths: &Vec<Word>,
) -> (changes: Option<Vec<ChangedFile>>)
    ensures
        exists|matched: Seq<bool>| #[trigger]
            are_matches(matched, globs_of(exclusions.globs), views(event.paths@)) && changes_view(changes) == (WatchRules {
                workspace: workspace@,
                excluded_paths: views(exclusions.paths@),
                extensions: views(extensions@),
                explicit_paths: views(explicit_watch_paths@),
            }).changes(event.kind, views(event.paths@), matched),
{
    let matched: Vec<bool> = match_paths(&exclusions.globs, &event.paths);
    changes_of_event(event, &matched, workspace, &exclusions.paths, extensions, explicit_watch_paths)
}

/// The directories among some that an exclusion names: they are watched for their own sake.
pub open spec fn explicit_paths(paths: Seq<Seq<u8>>, matched: Seq<bool>, excluded: Seq<Seq<u8>>) -> Seq<Seq<u8>>
    decreases paths.len(),
{
    if paths.len() == 0 {
        Seq::empty()
    } else {
        let rest = explicit_paths(paths.drop_last(), matched, excluded);
        if matched[paths.len() - 1] || is_among(paths.last(), excluded) {
            rest.push(paths.last())
        } else {
            rest
        }
    }
}

/// Finds the directories that are watched though an exclusion names them.
pub fn find_explicit_paths(paths: &Vec<Word>, matched: &Vec<bool>, excluded: &Vec<Word>) -> (explicit: Vec<Word>)
    requires
        matched@.len() == paths@.len(),
    ensures
        views(explicit@) == explicit_paths(views(paths@), matched@, views(excluded@)),
{
    broadcast use lemma_views_push;

    let ghost all = views(paths@);
    let mut explicit: Vec<Word> = Vec::new();
    let mut i: usize = 0;
    assert(views(explicit@) =~= explicit_paths(all.take(0), matched@, views(excluded@)));
    while i < paths.len()
        invariant
            i <= paths@.len() == matched@.len(),
            all == views(paths@),
            views(explicit@) == explicit_paths(all.take(i as int), matched@, views(excluded@)),
        decreases paths@.len() - i,
    {
        assert(all.take(i + 1).drop_last() =~= all.take(i as int));
        assert(all.take(i + 1).last() == paths@[i as int]@);
        if matched[i] || check_among(paths[i].as_slice(), excluded) {
            explicit.push(copy_word(paths[i].as_slice()));
        }
        i = i + 1;
    }
    assert(all.take(i as int) =~= all);
    explicit
}

/// A file below a directory that is watched for its own sake is never left out, whatever the
/// exclusions say.
pub proof fn explicit_directories_are_watched(rules: WatchRules, path: Seq<u8>, matched: bool)
    requires
        has_extension(path, rules.extensions),
        starts_with_any(path, rules.explicit_paths),
    ensures
        rules.is_relevant(path, matched),
{
}

/// A file that a pattern or a path excludes is left out, unless it is below a directory that is
/// watched for its own sake.
pub proof fn excluded_files_are_left_out(rules: WatchRules, path: Seq<u8>, matched: bool)
    requires
        matched || is_at_or_below(path, rules.excluded_paths),
        !starts_with_any(path, rules.explicit_paths),
    ensures
        !rules.is_relevant(path, matched),
{
}

/// A file is told of if and only if the event names it and its change matters.
pub proof fn files_that_matter_are_told_of(
    rules: WatchRules,
    paths: Seq<Seq<u8>>,
    matched: Seq<bool>,
    change: ChangeView,
)
    ensures
        rules.relevant_files(paths, matched).contains(change) <==> exists|i: int|
            0 <= i < paths.len() && rules.is_relevant(#[trigger] paths[i], matched[i]) && change == (ChangeView {
                id: path_below(paths[i], rules.workspace),
                path: paths[i],
            }),
    decreases paths.len(),
{
    if paths.len() > 0 {
        let before = paths.drop_last();
        files_that_matter_are_told_of(rules, before, matched, change);
        let rest = rules.relevant_files(before, matched);
        let now = rules.relevant_files(paths, matched);
        let n: int = paths.len() - 1;
        let last = ChangeView { id: path_below(paths[n], rules.workspace), path: paths[n] };
        if now.contains(change) {
            let k = choose|k: int| 0 <= k < now.len() && now[k] == change;
            if k < rest.len() {
                assert(rest[k] == change);
                let i = choose|i: int|
                    0 <= i < before.len() && rules.is_relevant(#[trigger] before[i], matched[i]) && change
                        == (ChangeView { id: path_below(before[i], rules.workspace), path: before[i] });
                assert(paths[i] == before[i]);
            } else {
                assert(change == last);
                assert(rules.is_relevant(paths[n], matched[n]));
            }
        }
        if exists|i: int|
            0 <= i < paths.len() && rules.is_relevant(#[trigger] paths[i], matched[i]) && change == (ChangeView {
                id: path_below(paths[i], rules.workspace),
                path: paths[i],
            }) {
            let i = choose|i: int|
                0 <= i < paths.len() && rules.is_relevant(#[trigger] paths[i], matched[i]) && change == (ChangeView {
                    id: path_below(paths[i], rules.workspace),
                    path: paths[i],
                });
            if i < n {
                assert(before[i] == paths[i]);
                let k = choose|k: int| 0 <= k < rest.len() && rest[k] == change;
                assert(now[k] == change);
            } else {
                assert(now[now.len() - 1] == change);
            }
        }
    }
}

/// Only files whose extension is asked for are told of, each of them one that the event names.
pub proof fn only_named_files_are_told_of(rules: WatchRules, paths: Seq<Seq<u8>>, matched: Seq<bool>)
    ensures
        forall|i: int|
            0 <= i < rules.relevant_files(paths, matched).len() ==> {
                let change = #[trigger] rules.relevant_files(paths, matched)[i];
                &&& paths.contains(change.path)
                &&& has_extension(change.path, rules.extensions)
                &&& change.id == path_below(change.path, rules.workspace)
            },
    decreases paths.len(),
{
    if paths.len() > 0 {
        let before = paths.drop_last();
        only_named_files_are_told_of(rules, before, matched);
        let rest = rules.relevant_files(before, matched);
        let now = rules.relevant_files(paths, matched);
        assert forall|i: int| 0 <= i < now.len() implies {
            let change = #[trigger] now[i];
            &&& paths.contains(change.path)
            &&& has_extension(change.path, rules.extensions)
            &&& change.id == path_below(change.path, rules.workspace)
        } by {
            if i < rest.len() {
                assert(now[i] == rest[i]);
                let j = choose|j: int| 0 <= j < before.len() && before[j] == rest[i].path;
                assert(paths[j] == rest[i].path);
            } else {
                assert(paths[paths.len() - 1] == now[i].path);
            }
        }
    }
}

// ---- types of files that are found ----

/// The specificity of the most specific of some directories that a file is in.
pub open spec fn most_specific(bases: Seq<(Seq<u8>, usize)>, path: Seq<u8>) -> Option<usize>
    decreases bases.len(),
{
    if bases.len() == 0 {
        None
    } else {
        let rest = most_specific(bases.drop_last(), path);
        let (base, specificity) = bases.last();
        if path_starts_with(path, base) && (rest is None || specificity > rest->0) {
            Some(specificity)
        } else {
            rest
        }
    }
}

/// The most specific directory is one that the file is in, and none that it is in is more specific.
pub proof fn most_specific_is_the_greatest(bases: Seq<(Seq<u8>, usize)>, path: Seq<u8>)
    ensures
        match most_specific(bases, path) {
            Some(specificity) => {
                &&& exists|i: int|
                    0 <= i < bases.len() && path_starts_with(path, (#[trigger] bases[i]).0) && bases[i].1 == specificity
                &&& forall|i: int|
                    0 <= i < bases.len() && path_starts_with(path, (#[trigger] bases[i]).0) ==> bases[i].1 <= specificity
            },
            None => forall|i: int| 0 <= i < bases.len() ==> !path_starts_with(path, (#[trigger] bases[i]).0),
        },
    decreases bases.len(),
{
    if bases.len() > 0 {
        let before = bases.drop_last();
        most_specific_is_the_greatest(before, path);
        assert forall|i: int| 0 <= i < before.len() implies #[trigger] before[i] == bases[i] by {}
        assert forall|i: int| 0 <= i < bases.len() && i != bases.len() - 1 implies #[trigger] bases[i] == before[i] by {}
        assert(bases[bases.len() - 1] == bases.last());
        match most_specific(before, path) {
            Some(specificity) => {
                let i = choose|i: int|
                    0 <= i < before.len() && path_starts_with(path, (#[trigger] before[i]).0) && before[i].1
                        == specificity;
                assert(bases[i] == before[i]);
            },
            None => {},
        }
    }
}

fn find_most_specific(bases: &Vec<BasePath>, path: &[u8]) -> (specificity: Option<usize>)
    ensures
        specificity == most_specific(base_views(bases@), path@),
{
    let ghost all = base_views(bases@);
    let mut found: Option<usize> = None;
    let mut i: usize = 0;
    while i < bases.len()
        invariant
            i <= bases@.len(),
            all == base_views(bases@),
            found == most_specific(all.take(i as int), path@),
        decreases bases@.len() - i,
    {
        assert(all.take(i + 1).drop_last() =~= all.take(i as int));
        assert(all.take(i + 1).last() == (bases@[i as int].0@, bases@[i as int].1));
        if starts_with(path, bases[i].0.as_slice()) {
            found = match found {
                Some(f) => if bases[i].1 > f {
                    Some(bases[i].1)
                } else {
                    Some(f)
                },
                None => Some(bases[i].1),
            };
        }
        i = i + 1;
    }
    assert(all.take(i as int) =~= all);
    found
}

/// The type of a file that is found below some configured directories.
pub open spec fn added_file_type(
    path: Seq<u8>,
    hosts: Seq<(Seq<u8>, usize)>,
    patches: Seq<(Seq<u8>, usize)>,
    included: Seq<(Seq<u8>, usize)>,
) -> FileType {
    resolved_file_type(most_specific(hosts, path), most_specific(included, path), most_specific(patches, path))
}

/// Decides the type of a file by the most specific directory of each kind that it is in. The path
/// and the directories are free of links.
pub fn classify_added_file(
    path: &[u8],
    host_bases: &Vec<BasePath>,
    patch_bases: &Vec<BasePath>,
    include_bases: &Vec<BasePath>,
) -> (file_type: FileType)
    ensures
        file_type == added_file_type(
            path@,
            base_views(host_bases@),
            base_views(patch_bases@),
            base_views(include_bases@),
        ),
{
    resolve_file_type(
        find_most_specific(host_bases, path),
        find_most_specific(include_bases, path),
        find_most_specific(patch_bases, path),
    )
}

/// A file that is in none of the configured directories belongs to the project.
pub proof fn stray_files_belong_to_the_project(
    path: Seq<u8>,
    hosts: Seq<(Seq<u8>, usize)>,
    patches: Seq<(Seq<u8>, usize)>,
    included: Seq<(Seq<u8>, usize)>,
)
    requires
        forall|i: int| 0 <= i < hosts.len() ==> !path_starts_with(path, (#[trigger] hosts[i]).0),
        forall|i: int| 0 <= i < patches.len() ==> !path_starts_with(path, (#[trigger] patches[i]).0),
        forall|i: int| 0 <= i < included.len() ==> !path_starts_with(path, (#[trigger] included[i]).0),
    ensures
        added_file_type(path, hosts, patches, included) == FileType::Host,
{
    most_specific_is_the_greatest(hosts, path);
    most_specific_is_the_greatest(patches, path);
    most_specific_is_the_greatest(included, path);
}

// ---- the latest change of each file ----

/// The place of the change of a file among some, or their number.
pub open spec fn change_position(changes: Seq<ChangeView>, id: Seq<u8>, start: int) -> int
    decreases changes.len() - start,
{
    if start >= changes.len() {
        changes.len() as int
    } else if changes[start].id == id {
        start
    } else {
        change_position(changes, id, start + 1)
    }
}

/// A change in place of an earlier one of the same file.
pub open spec fn with_change(changes: Seq<ChangeView>, change: ChangeView) -> Seq<ChangeView> {
    let i = change_position(changes, change.id, 0);
    if i < changes.len() {
        changes.update(i, change)
    } else {
        changes.push(change)
    }
}

/// The last change of each file.
pub open spec fn latest_changes(changes: Seq<ChangeView>) -> Seq<ChangeView>
    decreases changes.len(),
{
    if changes.len() == 0 {
        Seq::empty()
    } else {
        with_change(latest_changes(changes.drop_last()), changes.last())
    }
}

proof fn lemma_change_position(changes: Seq<ChangeView>, id: Seq<u8>, start: int)
    requires
        0 <= start <= changes.len(),
    ensures
        start <= change_position(changes, id, start) <= changes.len(),
        change_position(changes, id, start) < changes.len() ==> changes[change_position(changes, id, start)].id == id,
        forall|i: int| start <= i < change_position(changes, id, start) ==> (#[trigger] changes[i]).id != id,
    decreases changes.len() - start,
{
    if start < changes.len() && changes[start].id != id {
        lemma_change_position(changes, id, start + 1);
    }
}

/// No file is told of twice.
pub proof fn latest_changes_are_distinct(changes: Seq<ChangeView>)
    ensures
        forall|i: int, j: int|
            0 <= i < j < latest_changes(changes).len() ==> (#[trigger] latest_changes(changes)[i]).id != (
            #[trigger] latest_changes(changes)[j]).id,
    decreases changes.len(),
{
    if changes.len() > 0 {
        let rest = latest_changes(changes.drop_last());
        latest_changes_are_distinct(changes.drop_last());
        lemma_change_position(rest, changes.last().id, 0);
    }
}

/// Of each file, the last change is told of.
pub proof fn latest_change_wins(changes: Seq<ChangeView>, i: int)
    requires
        0 <= i < changes.len(),
        forall|j: int| i < j < changes.len() ==> (#[trigger] changes[j]).id != changes[i].id,
    ensures
        latest_changes(changes).contains(changes[i]),
    decreases changes.len(),
{
    let before = changes.drop_last();
    let rest = latest_changes(before);
    let now = latest_changes(changes);
    lemma_change_position(rest, changes.last().id, 0);
    let p = change_position(rest, changes.last().id, 0);
    if i < changes.len() - 1 {
        assert(changes[changes.len() - 1].id != changes[i].id);
        assert forall|j: int| i < j < before.len() implies (#[trigger] before[j]).id != before[i].id by {
            assert(changes[j].id != changes[i].id);
        }
        latest_change_wins(before, i);
        let k = choose|k: int| 0 <= k < rest.len() && rest[k] == before[i];
        assert(now[k] == changes[i]);
    } else if p < rest.len() {
        assert(now[p] == changes[i]);
    } else {
        assert(now[now.len() - 1] == changes[i]);
    }
}

/// Nothing is told of but what happened.
pub proof fn latest_changes_happened(changes: Seq<ChangeView>)
    ensures
        forall|i: int| 0 <= i < latest_changes(changes).len() ==> changes.contains(#[trigger] latest_changes(changes)[i]),
    decreases changes.len(),
{
    if changes.len() > 0 {
        let before = changes.drop_last();
        let rest = latest_changes(before);
        let now = latest_changes(changes);
        latest_changes_happened(before);
        lemma_change_position(rest, changes.last().id, 0);
        assert forall|i: int| 0 <= i < now.len() implies changes.contains(#[trigger] now[i]) by {
            if now[i] == changes.last() {
                assert(changes[changes.len() - 1] == now[i]);
            } else {
                assert(now[i] == rest[i]);
                let j = choose|j: int| 0 <= j < before.len() && before[j] == rest[i];
                assert(changes[j] == now[i]);
            }
        }
    }
}

fn find_change(changes: &Vec<ChangedFile>, id: &FileId) -> (position: usize)
    ensures
        position == change_position(views(changes@), id@, 0),
        position <= changes@.len(),
{
    let ghost all = views(changes@);
    let mut i: usize = 0;
    while i < changes.len()
        invariant
            i <= changes@.len(),
            all == views(changes@),
            change_position(all, id@, i as int) == change_position(all, id@, 0),
        decreases changes@.len() - i,
    {
        assert(all[i as int] == changes@[i as int]@);
        if same_word(changes[i].id.as_slice(), id.as_slice()) {
            return i;
        }
        i = i + 1;
    }
    i
}

/// Keeps the last change of each file.
pub fn keep_latest_changes(changes: &Vec<ChangedFile>) -> (latest: Vec<ChangedFile>)
    ensures
        views(latest@) == latest_changes(views(changes@)),
{
    broadcast use lemma_views_push;

    let ghost all = views(changes@);
    let mut latest: Vec<ChangedFile> = Vec::new();
    let mut i: usize = 0;
    assert(views(latest@) =~= latest_changes(all.take(0)));
    while i < changes.len()
        invariant
            i <= changes@.len(),
            all == views(changes@),
            views(latest@) == latest_changes(all.take(i as int)),
        decreases changes@.len() - i,
    {
        assert(all.take(i + 1).drop_last() =~= all.take(i as int));
        assert(all.take(i + 1).last() == changes@[i as int]@);
        let ghost before = latest@;
        let position: usize = find_change(&latest, &changes[i].id);
        let change = ChangedFile {
            id: copy_word(changes[i].id.as_slice()),
            path: copy_word(changes[i].path.as_slice()),
        };
        assert(change@ == changes@[i as int]@);
        if position < latest.len() {
            latest.set(position, change);
            assert(views(latest@) =~= views(before).update(position as int, change@));
        } else {
            latest.push(change);
        }
        i = i + 1;
    }
    assert(all.take(i as int) =~= all);
    latest
}

/// The names of the files that changed.
pub open spec fn change_ids(changes: Seq<ChangeView>) -> Seq<Seq<u8>> {
    changes.map_values(|change: ChangeView| change.id)
}

pub fn collect_change_ids(changes: &Vec<ChangedFile>) -> (ids: Vec<FileId>)
    ensures
        views(ids@) == change_ids(views(changes@)),
{
    let ghost all = change_ids(views(changes@));
    let mut ids: Vec<FileId> = Vec::new();
    let mut i: usize = 0;
    while i < changes.len()
        invariant
            i <= changes@.len(),
            all == change_ids(views(changes@)),
            ids@.len() == i,
            forall|j: int| 0 <= j < i ==> (#[trigger] ids@[j])@ == all[j],
        decreases changes@.len() - i,
    {
        ids.push(copy_word(changes[i].id.as_slice()));
        i = i + 1;
    }
    assert(views(ids@) =~= all);
    ids
}

} // verus!
