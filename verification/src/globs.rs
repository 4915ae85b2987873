//! Sets of glob patterns.

use vstd::prelude::*;

verus! {

/// The byte that some systems take for a separator, and others for itself.
pub const BACKSLASH: u8 = 92;

/// How glob patterns are read.
#[derive(Debug, Clone, Copy, PartialEq, Eq)]
pub struct GlobSettings {
    pub case_insensitive: bool,
    pub literal_separator: bool,
    pub backslash_escape: bool,
    pub empty_alternates: bool,
}

/// An error of `globset`; nothing is known of what it holds.
#[verifier::external_type_specification]
#[verifier::external_body]
pub struct ExGlobError(globset::Error);

/// The set of patterns of `globset` that is still being filled.
#[verifier::external_type_specification]
#[verifier::external_body]
pub struct ExGlobSetBuilder(globset::GlobSetBuilder);

/// The set of patterns of `globset`.
#[verifier::external_type_specification]
#[verifier::external_body]
pub struct ExGlobSet(globset::GlobSet);

/// The patterns that were added to a builder, in this order. With each: whether it ignores case,
/// whether `*` and `?` leave separators alone, whether a backslash escapes, and whether an
/// alternate may be empty.
pub uninterp spec fn added_globs(builder: globset::GlobSetBuilder) -> Seq<(Seq<char>, bool, bool, bool, bool)>;

/// The patterns of a set, each with the settings that it was added with.
pub uninterp spec fn globs_of(set: globset::GlobSet) -> Seq<(Seq<char>, bool, bool, bool, bool)>;

/// Whether `globset::GlobBuilder::build` accepts a pattern under these settings.
pub uninterp spec fn glob_is_valid(
    pattern: Seq<char>,
    case_insensitive: bool,
    literal_separator: bool,
    backslash_escape: bool,
    empty_alternates: bool,
) -> bool;

/// Whether a pattern, read under these settings, matches a path.
pub uninterp spec fn glob_matches(
    pattern: Seq<char>,
    case_insensitive: bool,
    literal_separator: bool,
    backslash_escape: bool,
    empty_alternates: bool,
    path: Seq<u8>,
) -> bool;

/// A pattern and its settings, as a set of patterns holds them.
pub open spec fn glob_source(pattern: Seq<char>, settings: GlobSettings) -> (Seq<char>, bool, bool, bool, bool) {
    (
        pattern,
        settings.case_insensitive,
        settings.literal_separator,
        settings.backslash_escape,
        settings.empty_alternates,
    )
}

/// A pattern means the same on every system.
pub open spec fn is_portable_pattern(pattern: Seq<char>) -> bool {
    !pattern.contains('\\')
}

/// A path means the same on every system.
pub open spec fn is_portable_path(path: Seq<u8>) -> bool {
    !path.contains(BACKSLASH)
}

/// Every pattern of a set means the same on every system.
pub open spec fn are_portable(globs: Seq<(Seq<char>, bool, bool, bool, bool)>) -> bool {
    forall|i: int| 0 <= i < globs.len() ==> is_portable_pattern((#[trigger] globs[i]).0)
}

/// One of some patterns that mean the same on every system matches a path.
pub open spec fn surely_matches(globs: Seq<(Seq<char>, bool, bool, bool, bool)>, path: Seq<u8>) -> bool {
    exists|i: int|
        0 <= i < globs.len() && is_portable_pattern((#[trigger] globs[i]).0) && glob_matches(
            globs[i].0,
            globs[i].1,
            globs[i].2,
            globs[i].3,
            globs[i].4,
            path,
        )
}

/// One of some patterns matches a path, or is one that does not mean the same on every system.
pub open spec fn may_match(globs: Seq<(Seq<char>, bool, bool, bool, bool)>, path: Seq<u8>) -> bool {
    exists|i: int|
        0 <= i < globs.len() && (is_portable_pattern((#[trigger] globs[i]).0) ==> glob_matches(
            globs[i].0,
            globs[i].1,
            globs[i].2,
            globs[i].3,
            globs[i].4,
            path,
        ))
}

/// Where every pattern means the same on every system, what may match is what surely does.
pub proof fn portable_patterns_decide(globs: Seq<(Seq<char>, bool, bool, bool, bool)>, path: Seq<u8>)
    requires
        are_portable(globs),
    ensures
        surely_matches(globs, path) == any_matches(globs, path),
        may_match(globs, path) == any_matches(globs, path),
{
    if may_match(globs, path) {
        let i = choose|i: int|
            0 <= i < globs.len() && (is_portable_pattern((#[trigger] globs[i]).0) ==> glob_matches(
                globs[i].0,
                globs[i].1,
                globs[i].2,
                globs[i].3,
                globs[i].4,
                path,
            ));
        assert(is_portable_pattern(globs[i].0));
    }
}

/// One of some patterns matches a path.
pub open spec fn any_matches(globs: Seq<(Seq<char>, bool, bool, bool, bool)>, path: Seq<u8>) -> bool {
    exists|i: int|
        0 <= i < globs.len() && glob_matches(
            (#[trigger] globs[i]).0,
            globs[i].1,
            globs[i].2,
            globs[i].3,
            globs[i].4,
            path,
        )
}

/// Calls `globset::GlobSetBuilder::new`: a builder to which nothing was added.
#[verifier::external_body]
pub(crate) fn new_glob_set_builder() -> (builder: globset::GlobSetBuilder)
    ensures
        added_globs(builder).len() == 0,
{
    globset::GlobSetBuilder::new()
}

/// Calls `globset::GlobSetBuilder::add` with what `globset::GlobBuilder::build` makes of a pattern:
/// the pattern is added at the end, or the builder is left as it was where the pattern is not
/// valid. Which patterns are valid is said only of those without a backslash: the others are not
/// read alike on all systems.
#[verifier::external_body]
pub(crate) fn add_glob(builder: &mut globset::GlobSetBuilder, pattern: &str, settings: GlobSettings) -> (added: Result<
    (),
    globset::Error,
>)
    ensures
        match added {
            Ok(_) => added_globs(*final(builder)) == added_globs(*old(builder)).push(glob_source(pattern@, settings)),
            Err(_) => added_globs(*final(builder)) == added_globs(*old(builder)),
        },
        is_portable_pattern(pattern@) ==> (added is Ok) == glob_is_valid(
            pattern@,
            settings.case_insensitive,
            settings.literal_separator,
            settings.backslash_escape,
            settings.empty_alternates,
        ),
{
    let glob = globset::GlobBuilder::new(pattern)
        .case_insensitive(settings.case_insensitive)
        .literal_separator(settings.literal_separator)
        .backslash_escape(settings.backslash_escape)
        .empty_alternates(settings.empty_alternates)
        .build()?;
    builder.add(glob);
    Ok(())
}

/// Calls `globset::GlobSetBuilder::build`: a set of the patterns that were added. It can fail
/// where there are any, for their automaton can outgrow a limit that is counted in bytes; when
/// that happens is not said.
#[verifier::external_body]
pub(crate) fn build_glob_set(builder: &globset::GlobSetBuilder) -> (built: Result<globset::GlobSet, globset::Error>)
    ensures
        built matches Ok(set) ==> globs_of(set) == added_globs(*builder),
        added_globs(*builder).len() == 0 ==> built is Ok,
{
    builder.build()
}

/// Calls `globset::GlobSet::is_match_candidate` on the bytes of a path: whether one of the
/// patterns of the set matches it, each of them for itself. What a backslash stands for depends on
/// the system, so nothing is said of whether a pattern with one matches, nor where the path holds
/// one.
#[verifier::external_body]
pub(crate) fn glob_set_matches(set: &globset::GlobSet, path: &[u8]) -> (matched: bool)
    ensures
        is_portable_path(path@) && (exists|i: int|
            0 <= i < globs_of(*set).len() && is_portable_pattern((#[trigger] globs_of(*set)[i]).0) && glob_matches(
                globs_of(*set)[i].0,
                globs_of(*set)[i].1,
                globs_of(*set)[i].2,
                globs_of(*set)[i].3,
                globs_of(*set)[i].4,
                path@,
            )) ==> matched,
        is_portable_path(path@) && matched ==> (exists|i: int|
            0 <= i < globs_of(*set).len() && (is_portable_pattern((#[trigger] globs_of(*set)[i]).0) ==> glob_matches(
                globs_of(*set)[i].0,
                globs_of(*set)[i].1,
                globs_of(*set)[i].2,
                globs_of(*set)[i].3,
                globs_of(*set)[i].4,
                path@,
            ))),
{
    set.is_match_candidate(&globset::Candidate::from_bytes(path))
}

} // verus!
