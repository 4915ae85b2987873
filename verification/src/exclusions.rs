//! What is left out of the analysis, by path and by pattern.

use vstd::prelude::*;

use crate::collections::lemma_views_push;
use crate::collections::views;
use crate::database::DatabaseError;
use crate::database::Exclusion;
use crate::database::ExclusionView;
use crate::globs::add_glob;
use crate::globs::added_globs;
use crate::globs::build_glob_set;
use crate::globs::glob_is_valid;
use crate::globs::glob_set_matches;
use crate::globs::glob_source;
use crate::globs::globs_of;
use crate::globs::is_portable_path;
use crate::globs::is_portable_pattern;
use crate::globs::may_match;
use crate::globs::new_glob_set_builder;
use crate::globs::surely_matches;
use crate::globs::GlobSettings;
use crate::word::copy_word;
use crate::word::Word;

verus! {

/// What is left out wherever files are watched.
pub open spec fn default_exclusions() -> Seq<ExclusionView> {
    seq![
        ExclusionView::Pattern("**/node_modules/**"@),
        ExclusionView::Pattern("**/.git/**"@),
        ExclusionView::Pattern("**/.idea/**"@),
        ExclusionView::Pattern("**/vendor/**"@),
    ]
}

/// All that is left out while files are watched.
pub open spec fn all_exclusions(configured: Seq<ExclusionView>, additional: Seq<ExclusionView>) -> Seq<ExclusionView> {
    default_exclusions() + configured + additional
}

/// The patterns among some exclusions.
pub open spec fn excluded_patterns(exclusions: Seq<ExclusionView>, settings: GlobSettings) -> Seq<
    (Seq<char>, bool, bool, bool, bool),
>
    decreases exclusions.len(),
{
    if exclusions.len() == 0 {
        Seq::empty()
    } else {
        let rest = excluded_patterns(exclusions.drop_last(), settings);
        match exclusions.last() {
            ExclusionView::Pattern(pattern) => rest.push(glob_source(pattern, settings)),
            ExclusionView::Path(_) => rest,
        }
    }
}

/// The paths among some exclusions.
pub open spec fn excluded_paths(exclusions: Seq<ExclusionView>) -> Seq<Seq<u8>>
    decreases exclusions.len(),
{
    if exclusions.len() == 0 {
        Seq::empty()
    } else {
        let rest = excluded_paths(exclusions.drop_last());
        match exclusions.last() {
            ExclusionView::Pattern(_) => rest,
            ExclusionView::Path(path) => rest.push(path),
        }
    }
}

/// A pattern is not known to be written wrongly. Of one with a backslash it is not known.
pub open spec fn is_acceptable(exclusion: ExclusionView, settings: GlobSettings) -> bool {
    match exclusion {
        ExclusionView::Pattern(pattern) => is_portable_pattern(pattern) ==> glob_is_valid(
            pattern,
            settings.case_insensitive,
            settings.literal_separator,
            settings.backslash_escape,
            settings.empty_alternates,
        ),
        ExclusionView::Path(_) => true,
    }
}

/// A pattern may be written wrongly.
pub open spec fn is_refusable(exclusion: ExclusionView, settings: GlobSettings) -> bool {
    match exclusion {
        ExclusionView::Pattern(pattern) => is_portable_pattern(pattern) ==> !glob_is_valid(
            pattern,
            settings.case_insensitive,
            settings.literal_separator,
            settings.backslash_escape,
            settings.empty_alternates,
        ),
        ExclusionView::Path(_) => false,
    }
}

proof fn lemma_patterns_concat(a: Seq<ExclusionView>, b: Seq<ExclusionView>, settings: GlobSettings)
    ensures
        excluded_patterns(a + b, settings) == excluded_patterns(a, settings) + excluded_patterns(b, settings),
        excluded_paths(a + b) == excluded_paths(a) + excluded_paths(b),
    decreases b.len(),
{
    if b.len() == 0 {
        assert(a + b =~= a);
        assert(excluded_patterns(a, settings) + excluded_patterns(b, settings) =~= excluded_patterns(a, settings));
        assert(excluded_paths(a) + excluded_paths(b) =~= excluded_paths(a));
    } else {
        lemma_patterns_concat(a, b.drop_last(), settings);
        assert((a + b).drop_last() =~= a + b.drop_last());
        assert((a + b).last() == b.last());
        assert(excluded_patterns(a + b, settings) =~= excluded_patterns(a, settings) + excluded_patterns(b, settings));
        assert(excluded_paths(a + b) =~= excluded_paths(a) + excluded_paths(b));
    }
}

/// Adds the patterns among some exclusions to a set that is being filled.
fn add_patterns(builder: &mut globset::GlobSetBuilder, exclusions: &Vec<Exclusion>, settings: GlobSettings) -> (added: Result<
    (),
    DatabaseError,
>)
    ensures
        match added {
            Ok(_) => {
                &&& added_globs(*final(builder)) == added_globs(*old(builder)) + excluded_patterns(
                    views(exclusions@),
                    settings,
                )
                &&& forall|i: int|
                    0 <= i < exclusions@.len() ==> is_acceptable(#[trigger] views(exclusions@)[i], settings)
            },
            Err(error) => error is Glob && exists|i: int|
                0 <= i < exclusions@.len() && is_refusable(#[trigger] views(exclusions@)[i], settings),
        },
{
    let ghost all = views(exclusions@);
    let ghost before = added_globs(*builder);
    let mut i: usize = 0;
    assert(before + excluded_patterns(all.take(0), settings) =~= before);
    while i < exclusions.len()
        invariant
            i <= exclusions@.len(),
            all == views(exclusions@),
            added_globs(*builder) == before + excluded_patterns(all.take(i as int), settings),
            forall|j: int| 0 <= j < i ==> is_acceptable(#[trigger] all[j], settings),
        decreases exclusions@.len() - i,
    {
        assert(all.take(i + 1).drop_last() =~= all.take(i as int));
        assert(all.take(i + 1).last() == exclusions@[i as int]@);
        assert(all[i as int] == exclusions@[i as int]@);
        let ghost patterns = excluded_patterns(all.take(i as int), settings);
        match &exclusions[i] {
            Exclusion::Pattern(pattern) => {
                match add_glob(builder, pattern.as_str(), settings) {
                    Ok(_) => {
                        assert(added_globs(*builder) =~= before + patterns.push(glob_source(pattern@, settings)));
                    },
                    Err(error) => {
                        assert(is_refusable(all[i as int], settings));
                        return Err(DatabaseError::Glob(error));
                    },
                }
            },
            Exclusion::Path(_) => {},
        }
        i = i + 1;
    }
    assert(all.take(i as int) =~= all);
    Ok(())
}

/// Adds copies of the paths among some exclusions.
fn add_paths(paths: &mut Vec<Word>, exclusions: &Vec<Exclusion>)
    ensures
        views(final(paths)@) == views(old(paths)@) + excluded_paths(views(exclusions@)),
{
    broadcast use lemma_views_push;

    let ghost all = views(exclusions@);
    let ghost before = views(paths@);
    let mut i: usize = 0;
    assert(before + excluded_paths(all.take(0)) =~= before);
    while i < exclusions.len()
        invariant
            i <= exclusions@.len(),
            all == views(exclusions@),
            views(paths@) == before + excluded_paths(all.take(i as int)),
        decreases exclusions@.len() - i,
    {
        assert(all.take(i + 1).drop_last() =~= all.take(i as int));
        assert(all.take(i + 1).last() == exclusions@[i as int]@);
        let ghost rest = excluded_paths(all.take(i as int));
        match &exclusions[i] {
            Exclusion::Path(path) => {
                let ghost held = paths@;
                let copied: Word = copy_word(path.as_slice());
                paths.push(copied);
                assert(views(paths@) == views(held).push(copied@));
                assert(views(paths@) =~= before + rest.push(path@));
            },
            Exclusion::Pattern(_) => {},
        }
        i = i + 1;
    }
    assert(all.take(i as int) =~= all);
}

/// What is left out wherever files are watched.
fn make_default_exclusions() -> (exclusions: Vec<Exclusion>)
    ensures
        views(exclusions@) == default_exclusions(),
{
    broadcast use lemma_views_push;

    let mut exclusions: Vec<Exclusion> = Vec::new();
    exclusions.push(Exclusion::Pattern(String::from_str("**/node_modules/**")));
    exclusions.push(Exclusion::Pattern(String::from_str("**/.git/**")));
    exclusions.push(Exclusion::Pattern(String::from_str("**/.idea/**")));
    exclusions.push(Exclusion::Pattern(String::from_str("**/vendor/**")));
    assert(views(exclusions@) =~= default_exclusions());
    exclusions
}

/// The exclusions in a form in which paths can be held against them.
pub struct Exclusions {
    pub globs: globset::GlobSet,
    pub paths: Vec<Word>,
}

/// The exclusions that are made up of a set of patterns, where it could be built, and of paths.
pub fn combine_exclusions(built: Result<globset::GlobSet, globset::Error>, paths: Vec<Word>) -> (combined: Result<
    Exclusions,
    DatabaseError,
>)
    ensures
        combined == match built {
            Ok(globs) => Ok(Exclusions { globs, paths }),
            Err(error) => Err(DatabaseError::Glob(error)),
        },
{
    match built {
        Ok(globs) => Ok(Exclusions { globs, paths }),
        Err(error) => Err(DatabaseError::Glob(error)),
    }
}

/// Makes ready what is left out while files are watched. Fails where a pattern is written wrongly,
/// and can fail where there are too many of them.
pub fn prepare_exclusions(configured: &Vec<Exclusion>, additional: &Vec<Exclusion>, settings: GlobSettings) -> (prepared: Result<
    Exclusions,
    DatabaseError,
>)
    ensures
        ({
            let all = all_exclusions(views(configured@), views(additional@));
            match prepared {
                Ok(exclusions) => {
                    &&& globs_of(exclusions.globs) == excluded_patterns(all, settings)
                    &&& views(exclusions.paths@) == excluded_paths(all)
                    &&& forall|i: int| 0 <= i < all.len() ==> is_acceptable(#[trigger] all[i], settings)
                },
                Err(error) => error is Glob,
            }
        }),
{
    let ghost first = default_exclusions();
    let ghost second = views(configured@);
    let ghost third = views(additional@);
    proof {
        lemma_patterns_concat(first, second, settings);
        lemma_patterns_concat(first + second, third, settings);
    }
    let defaults: Vec<Exclusion> = make_default_exclusions();
    let mut builder = new_glob_set_builder();
    add_patterns(&mut builder, &defaults, settings)?;
    assert(added_globs(builder) =~= excluded_patterns(first, settings));
    add_patterns(&mut builder, configured, settings)?;
    add_patterns(&mut builder, additional, settings)?;
    let mut paths: Vec<Word> = Vec::new();
    add_paths(&mut paths, &defaults);
    assert(views(paths@) =~= excluded_paths(first));
    add_paths(&mut paths, configured);
    add_paths(&mut paths, additional);
    proof {
        let all = all_exclusions(second, third);
        assert forall|i: int| 0 <= i < all.len() implies is_acceptable(#[trigger] all[i], settings) by {
            if i < first.len() {
                assert(all[i] == first[i]);
                assert(is_acceptable(views(defaults@)[i], settings));
            } else if i < first.len() + second.len() {
                assert(all[i] == second[i - first.len()]);
            } else {
                assert(all[i] == third[i - first.len() - second.len()]);
            }
        }
    }
    combine_exclusions(build_glob_set(&builder), paths)
}

/// What can be said on any system of whether one of some patterns matches a path: it does where one
/// surely matches, and does not where none may match.
pub open spec fn is_match(
    matched: bool,
    globs: Seq<(Seq<char>, bool, bool, bool, bool)>,
    path: Seq<u8>,
) -> bool {
    is_portable_path(path) ==> (surely_matches(globs, path) ==> matched) && (matched ==> may_match(globs, path))
}

/// For each of some paths: whether one of some patterns matches it, as far as that does not depend
/// on the system.
pub open spec fn are_matches(
    matched: Seq<bool>,
    globs: Seq<(Seq<char>, bool, bool, bool, bool)>,
    paths: Seq<Seq<u8>>,
) -> bool {
    &&& matched.len() == paths.len()
    &&& forall|i: int|
        0 <= i < paths.len() ==> is_match(matched[i], globs, #[trigger] paths[i])
}

/// Asks of each of some paths whether one of the patterns matches it.
pub fn match_paths(globs: &globset::GlobSet, paths: &Vec<Word>) -> (matched: Vec<bool>)
    ensures
        are_matches(matched@, globs_of(*globs), views(paths@)),
{
    let ghost all = views(paths@);
    let mut matched: Vec<bool> = Vec::new();
    let mut i: usize = 0;
    while i < paths.len()
        invariant
            i <= paths@.len(),
            all == views(paths@),
            matched@.len() == i,
            forall|j: int|
                0 <= j < i ==> is_match(matched@[j], globs_of(*globs), #[trigger] all[j]),
        decreases paths@.len() - i,
    {
        assert(all[i as int] == paths@[i as int]@);
        matched.push(glob_set_matches(globs, paths[i].as_slice()));
        i = i + 1;
    }
    matched
}

} // verus!
