//! What paths, patterns and changes of files mean.

use vstd::prelude::*;

use crate::changes::added_file_type;
use crate::changes::files_that_matter_are_told_of;
use crate::changes::latest_change_wins;
use crate::changes::latest_changes_happened;
use crate::changes::most_specific;
use crate::changes::most_specific_is_the_greatest;
use crate::changes::ChangeView;
use crate::changes::EventKind;
use crate::changes::WatchRules;
use crate::collections::views;
use crate::database::is_glob;
use crate::database::pattern_specificity;
use crate::database::plain_components;
use crate::database::FileType;
use crate::paths::components;
use crate::paths::counted;
use crate::paths::counts;
use crate::paths::file_name;
use crate::paths::last_dot;
use crate::paths::lemma_stretches;
use crate::paths::part;
use crate::paths::path_below;
use crate::paths::path_extension;
use crate::paths::path_starts_with;
use crate::paths::stretches;
use crate::watcher::next_wait_step;
use crate::watcher::Received;
use crate::watcher::WaitStepView;
use crate::watcher::WatcherView;

verus! {

// ---- names ----

/// A byte that parts names.
pub open spec fn has_byte(s: Seq<u8>, b: u8) -> bool {
    exists|i: int| 0 <= i < s.len() && #[trigger] s[i] == b
}

/// A name without `/`, and not `.`, which stands for the place itself.
pub open spec fn is_name(name: Seq<u8>) -> bool {
    &&& name.len() > 0
    &&& !has_byte(name, 47)
    &&& name != seq![46u8]
}

proof fn lemma_same_stretches(path: Seq<u8>, dir: Seq<u8>, end: nat)
    requires
        end <= dir.len() <= path.len(),
        dir == path.take(dir.len() as int),
    ensures
        stretches(path, end) == stretches(dir, end),
    decreases end,
{
    if end > 0 {
        lemma_same_stretches(path, dir, (end - 1) as nat);
        assert(path[end - 1] == dir[end - 1]);
    }
}

proof fn lemma_open_stretch(path: Seq<u8>, start: int, end: nat)
    requires
        0 < start <= end <= path.len(),
        path[start - 1] == 47,
        forall|i: int| start <= i < end ==> #[trigger] path[i] != 47,
    ensures
        stretches(path, end) == stretches(path, (start - 1) as nat).push((start, end as int)),
    decreases end,
{
    if end > start {
        lemma_open_stretch(path, start, (end - 1) as nat);
        assert(path[end - 1] != 47);
        let before = stretches(path, (start - 1) as nat);
        assert(before.push((start, end - 1)).drop_last() =~= before);
    }
}

proof fn lemma_parts(path: Seq<u8>, dir: Seq<u8>, all: Seq<(int, int)>)
    requires
        dir.len() <= path.len(),
        dir == path.take(dir.len() as int),
        forall|i: int| 0 <= i < all.len() ==> 0 <= (#[trigger] all[i]).0 <= all[i].1 <= dir.len(),
    ensures
        all.filter(|s: (int, int)| counts(path, s)).map_values(|s: (int, int)| part(path, s)) == all.filter(
            |s: (int, int)| counts(dir, s),
        ).map_values(|s: (int, int)| part(dir, s)),
    decreases all.len(),
{
    reveal(Seq::filter);
    let in_path = |s: (int, int)| counts(path, s);
    let in_dir = |s: (int, int)| counts(dir, s);
    let of_path = |s: (int, int)| part(path, s);
    let of_dir = |s: (int, int)| part(dir, s);
    if all.len() > 0 {
        let rest = all.drop_last();
        let last = all.last();
        assert forall|i: int| 0 <= i < rest.len() implies 0 <= (#[trigger] rest[i]).0 <= rest[i].1 <= dir.len() by {
            assert(rest[i] == all[i]);
        }
        lemma_parts(path, dir, rest);
        assert(last == all[all.len() - 1]);
        assert(part(path, last) =~= part(dir, last));
        let a = rest.filter(in_path);
        let b = rest.filter(in_dir);
        assert(a.map_values(of_path) == b.map_values(of_dir));
        if in_path(last) {
            assert(a.push(last).map_values(of_path) =~= a.map_values(of_path).push(part(path, last)));
            assert(b.push(last).map_values(of_dir) =~= b.map_values(of_dir).push(part(dir, last)));
        }
    } else {
        assert(all.filter(in_path).map_values(of_path) =~= Seq::empty());
        assert(all.filter(in_dir).map_values(of_dir) =~= Seq::empty());
    }
}

/// A name below a directory is one component more than the directory has.
pub proof fn names_follow_their_directory(dir: Seq<u8>, name: Seq<u8>)
    requires
        dir.len() > 0,
        is_name(name),
    ensures
        components(dir.push(47) + name) == components(dir).push(name),
        path_starts_with(dir.push(47) + name, dir),
        !path_starts_with(dir, dir.push(47) + name),
{
    let path = dir.push(47) + name;
    let n = dir.len();
    let start: int = n as int + 1;
    let last = (start, path.len() as int);
    assert(path[n as int] == 47);
    assert forall|i: int| start <= i < path.len() implies #[trigger] path[i] != 47 by {
        assert(path[i] == name[i - start]);
    }
    lemma_open_stretch(path, start, path.len());
    assert(dir =~= path.take(n as int));
    lemma_same_stretches(path, dir, n);
    lemma_stretches(dir, n);
    let all = stretches(dir, n);
    lemma_parts(path, dir, all);
    let in_path = |s: (int, int)| counts(path, s);
    let of_path = |s: (int, int)| part(path, s);
    assert(part(path, last) =~= name);
    assert(in_path(last));
    reveal(Seq::filter);
    assert(all.push(last).drop_last() =~= all);
    assert(counted(path) == all.filter(in_path).push(last));
    assert(counted(path).map_values(of_path) =~= all.filter(in_path).map_values(of_path).push(name));
    assert(path[0] == dir[0]);
    assert(components(path) =~= components(dir).push(name));
    assert(components(dir) =~= components(path).subrange(0, components(dir).len() as int));
}

/// A name alone is the only component of its path.
pub proof fn names_are_components(name: Seq<u8>)
    requires
        name.len() > 0,
        !has_byte(name, 47),
    ensures
        components(name) == seq![name],
{
    lemma_single_stretch(name, name.len());
    let last = (0int, name.len() as int);
    let in_path = |s: (int, int)| counts(name, s);
    reveal(Seq::filter);
    assert(part(name, last) =~= name);
    assert(in_path(last));
    let all = seq![last];
    assert(all.drop_last() =~= Seq::empty());
    assert(Seq::<(int, int)>::empty().filter(in_path) =~= Seq::empty());
    assert(all.filter(in_path) =~= seq![last]);
    assert(name[0] != 47);
    assert(components(name) =~= seq![name]);
}

proof fn lemma_single_stretch(name: Seq<u8>, end: nat)
    requires
        end <= name.len(),
        !has_byte(name, 47),
    ensures
        stretches(name, end) == seq![(0int, end as int)],
    decreases end,
{
    if end > 0 {
        lemma_single_stretch(name, (end - 1) as nat);
        assert(name[end - 1] != 47);
        assert(stretches(name, end) =~= seq![(0int, end as int)]);
    }
}

proof fn lemma_last_dot(name: Seq<u8>, dot: int, end: int)
    requires
        -1 <= dot < end <= name.len(),
        dot >= 0 ==> name[dot] == 46,
        forall|i: int| dot < i < end ==> #[trigger] name[i] != 46,
    ensures
        last_dot(name, end) == dot,
    decreases end,
{
    if end - 1 > dot {
        assert(name[end - 1] != 46);
        lemma_last_dot(name, dot, end - 1);
    } else if dot >= 0 {
        assert(name[end - 1] == 46);
    }
}

proof fn lemma_file_name(dir: Seq<u8>, name: Seq<u8>)
    requires
        dir.len() > 0,
        is_name(name),
        name != seq![46u8, 46u8],
    ensures
        file_name(dir.push(47) + name) == Some(name),
{
    let path = dir.push(47) + name;
    names_follow_their_directory(dir, name);
    let of_path = |s: (int, int)| part(path, s);
    let found = counted(path).map_values(of_path);
    assert(components(path).last() == name);
    assert(components(path).len() > 0);
    if found.len() == 0 {
        assert(components(path) =~= seq![seq![47u8]]);
        assert(name[0] == 47);
    }
    assert(found.last() == name);
}

/// What follows the last dot of a name is its extension, whatever comes before; a name without a dot,
/// or with none but a leading one, has no extension.
pub proof fn names_have_extensions(dir: Seq<u8>, stem: Seq<u8>, ext: Seq<u8>)
    requires
        dir.len() > 0,
        stem.len() > 0,
        !has_byte(stem, 47),
        !has_byte(ext, 47),
        !has_byte(ext, 46),
    ensures
        (stem + seq![46u8] + ext) != seq![46u8, 46u8] ==> path_extension(dir.push(47) + (stem + seq![46u8] + ext))
            == Some(ext),
        !has_byte(stem.skip(1), 46) && stem != seq![46u8] ==> path_extension(dir.push(47) + stem) is None,
{
    let name = stem + seq![46u8] + ext;
    assert(!has_byte(name, 47)) by {
        if has_byte(name, 47) {
            let i = choose|i: int| 0 <= i < name.len() && #[trigger] name[i] == 47;
            if i < stem.len() {
                assert(stem[i] == 47);
            } else if i > stem.len() {
                assert(ext[i - stem.len() - 1] == 47);
            }
        }
    }
    assert(name.len() > 1);
    if name != seq![46u8, 46u8] {
        lemma_file_name(dir, name);
        assert forall|i: int| stem.len() < i < name.len() implies #[trigger] name[i] != 46 by {
            assert(name[i] == ext[i - stem.len() - 1]);
        }
        lemma_last_dot(name, stem.len() as int, name.len() as int);
        assert(name.skip(stem.len() as int + 1) =~= ext);
    }
    if !has_byte(stem.skip(1), 46) && stem != seq![46u8] {
        if stem == seq![46u8, 46u8] {
            assert(stem.skip(1)[0] == 46);
        }
        lemma_file_name(dir, stem);
        assert forall|i: int| 0 < i < stem.len() implies #[trigger] stem[i] != 46 by {
            assert(stem[i] == stem.skip(1)[i - 1]);
        }
        if stem[0] == 46 {
            lemma_last_dot(stem, 0, stem.len() as int);
        } else {
            assert forall|i: int| -1 < i < stem.len() implies #[trigger] stem[i] != 46 by {}
            lemma_last_dot(stem, -1, stem.len() as int);
        }
    }
}

// ---- patterns ----

proof fn lemma_plain(parts: Seq<Seq<u8>>)
    ensures
        plain_components(parts) <= parts.len(),
    decreases parts.len(),
{
    if parts.len() > 0 {
        lemma_plain(parts.drop_last());
    }
}

/// Of two patterns with as many components, a file is more specific than a directory, and a
/// directory more than a glob; of two files, or two directories, the longer is more specific.
pub proof fn narrower_patterns_are_more_specific(a: Seq<u8>, b: Seq<u8>)
    requires
        components(a).len() > 0,
        components(a).len() * 1000 <= usize::MAX,
        components(b).len() * 1000 <= usize::MAX,
        !is_glob(a),
    ensures
        path_extension(a) is Some && components(b).len() <= components(a).len() && (is_glob(b) || path_extension(b) is None)
            ==> pattern_specificity(b) < pattern_specificity(a),
        is_glob(b) && components(b).len() <= components(a).len() ==> pattern_specificity(b) < pattern_specificity(a),
        !is_glob(b) && (path_extension(a) is Some == path_extension(b) is Some) ==> (pattern_specificity(b)
            < pattern_specificity(a) <==> components(b).len() < components(a).len()),
{
    lemma_plain(components(b));
    let n = components(a).len();
    let k = components(b).len();
    let p = plain_components(components(b));
    assert(p * 10 <= k * 10 && k * 10 <= usize::MAX && k * 100 <= usize::MAX && n * 100 <= usize::MAX);
}

// ---- types of files ----

/// One of some directories that the file is in is at least so specific.
pub open spec fn some_base(bases: Seq<(Seq<u8>, usize)>, path: Seq<u8>, specificity: int) -> bool {
    exists|i: int|
        0 <= i < bases.len() && path_starts_with(path, (#[trigger] bases[i]).0) && bases[i].1 >= specificity
}

/// The most specific directory decides what a file is: a patch where one of patches is more specific
/// than all of the project, a part of a dependency where one of these is as specific, and otherwise a
/// file of the project.
pub proof fn most_specific_directories_decide(
    path: Seq<u8>,
    hosts: Seq<(Seq<u8>, usize)>,
    patches: Seq<(Seq<u8>, usize)>,
    included: Seq<(Seq<u8>, usize)>,
)
    ensures
        ({
            let t = added_file_type(path, hosts, patches, included);
            let patched = exists|i: int|
                0 <= i < patches.len() && path_starts_with(path, (#[trigger] patches[i]).0) && !some_base(
                    hosts,
                    path,
                    patches[i].1 as int,
                );
            let vendored = exists|i: int|
                0 <= i < included.len() && path_starts_with(path, (#[trigger] included[i]).0) && !some_base(
                    hosts,
                    path,
                    included[i].1 + 1,
                );
            &&& t == FileType::Patch <==> patched
            &&& t == FileType::Vendored <==> !patched && vendored
            &&& t == FileType::Host <==> !patched && !vendored
        }),
{
    most_specific_is_the_greatest(hosts, path);
    most_specific_is_the_greatest(patches, path);
    most_specific_is_the_greatest(included, path);
    assert forall|s: int| #[trigger] some_base(hosts, path, s) <==> match most_specific(hosts, path) {
        Some(greatest) => greatest >= s,
        None => false,
    } by {}
}

// ---- changes ----

/// The change of a file matters: its extension is asked for, and it is below a directory that is
/// watched for its own sake, or no pattern and no path excludes it.
pub open spec fn matters(rules: WatchRules, path: Seq<u8>, matched: bool) -> bool {
    &&& path_extension(path) matches Some(e) && rules.extensions.contains(e)
    &&& {
        ||| exists|k: int| 0 <= k < rules.explicit_paths.len() && path_starts_with(path, #[trigger] rules.explicit_paths[k])
        ||| !matched && !crate::paths::is_at_or_below(path, rules.excluded_paths)
    }
}

/// An event tells of a change exactly where files were created, modified or removed and it names one
/// whose change matters; then it tells of all of these, each under its name in the workspace.
pub proof fn events_tell_of_all_that_matters(
    rules: WatchRules,
    kind: EventKind,
    paths: Seq<Seq<u8>>,
    matched: Seq<bool>,
)
    ensures
        ({
            let told = rules.changes(kind, paths, matched);
            let any = exists|i: int| 0 <= i < paths.len() && matters(rules, #[trigger] paths[i], matched[i]);
            &&& told is Some <==> any && (kind is Create || kind is Modify || kind is Remove)
            &&& told matches Some(changes) ==> (forall|i: int|
                0 <= i < paths.len() && matters(rules, #[trigger] paths[i], matched[i]) ==> changes.contains(
                    ChangeView { id: path_below(paths[i], rules.workspace), path: paths[i] },
                )) && (forall|k: int|
                0 <= k < changes.len() ==> exists|i: int|
                    0 <= i < paths.len() && (#[trigger] changes[k]).path == #[trigger] paths[i] && matters(
                        rules,
                        paths[i],
                        matched[i],
                    ))
        }),
{
    let files = rules.relevant_files(paths, matched);
    assert forall|i: int| 0 <= i < paths.len() && matters(rules, #[trigger] paths[i], matched[i]) implies files.contains(
        ChangeView { id: path_below(paths[i], rules.workspace), path: paths[i] },
    ) by {
        let change = ChangeView { id: path_below(paths[i], rules.workspace), path: paths[i] };
        files_that_matter_are_told_of(rules, paths, matched, change);
        assert(rules.is_relevant(paths[i], matched[i]));
    }
    assert forall|k: int| 0 <= k < files.len() implies exists|i: int|
        0 <= i < paths.len() && (#[trigger] files[k]).path == #[trigger] paths[i] && matters(rules, paths[i], matched[i]) by {
        let change = files[k];
        assert(files.contains(change));
        files_that_matter_are_told_of(rules, paths, matched, change);
        let i = choose|i: int|
            0 <= i < paths.len() && rules.is_relevant(#[trigger] paths[i], matched[i]) && change == (ChangeView {
                id: path_below(paths[i], rules.workspace),
                path: paths[i],
            });
        assert(change.path == paths[i]);
        assert(matters(rules, paths[i], matched[i]));
    }
    if exists|i: int| 0 <= i < paths.len() && matters(rules, #[trigger] paths[i], matched[i]) {
        let i = choose|i: int| 0 <= i < paths.len() && matters(rules, #[trigger] paths[i], matched[i]);
        assert(files.contains(ChangeView { id: path_below(paths[i], rules.workspace), path: paths[i] }));
    }
    if files.len() > 0 {
        assert(files[0].path == files[0].path);
    }
}

/// While changes come, all of them are kept; once no more come, the last one of each file is taken
/// over, and nothing that did not happen.
pub proof fn no_change_is_lost(collected: Seq<ChangeView>, received: Received)
    ensures
        received matches Received::Changes(more) ==> (next_wait_step(Some(collected), received) matches Some(
            WaitStepView::Receive { collected: kept, timeout },
        ) && match kept {
            Some(kept) => kept == collected + views(more@) && kept.len() > 0,
            None => collected.len() == 0 && more@.len() == 0,
        }),
        received is TimedOut && collected.len() > 0 ==> (next_wait_step(Some(collected), received) matches Some(
            WaitStepView::Apply(changes),
        ) && (forall|i: int|
            0 <= i < collected.len() && (forall|j: int|
                i < j < collected.len() ==> (#[trigger] collected[j]).id != collected[i].id) ==> changes.contains(
                #[trigger] collected[i],
            )) && (forall|k: int| 0 <= k < changes.len() ==> collected.contains(#[trigger] changes[k]))),
        received is Disconnected ==> next_wait_step(Some(collected), received) is None,
        next_wait_step(None, received) == next_wait_step(Some(Seq::empty()), received),
{
    if received is TimedOut && collected.len() > 0 {
        let changes = crate::changes::latest_changes(collected);
        latest_changes_happened(collected);
        assert forall|i: int|
            0 <= i < collected.len() && (forall|j: int|
                i < j < collected.len() ==> (#[trigger] collected[j]).id != collected[i].id) implies changes.contains(
            #[trigger] collected[i],
        ) by {
            latest_change_wins(collected, i);
        }
    }
}

/// A file that is known keeps what it is when it changes; a new one is what its directory says.
pub proof fn files_keep_their_type(
    watcher: WatcherView,
    change: ChangeView,
    path: Seq<u8>,
    contents: Seq<u8>,
)
    requires
        change.id == path_below(change.path, watcher.database.configuration.workspace),
    ensures
        ({
            let files = watcher.database.files;
            let step = watcher.change_step(change.id, path, true);
            let after = watcher.with_change(change, step, Some(contents)).database.files;
            &&& after.contains_key(change.id)
            &&& files.contains_key(change.id) ==> after[change.id].file_type == files[change.id].file_type
                && after[change.id].path == files[change.id].path
            &&& !files.contains_key(change.id) ==> after[change.id].file_type == added_file_type(
                path,
                watcher.host_base_paths,
                watcher.patch_base_paths,
                watcher.include_base_paths,
            ) && after[change.id].path == Some(change.path)
        }),
{
}

} // verus!
