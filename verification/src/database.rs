//! The files that are analysed, and where they come from.

use vstd::prelude::*;

use crate::collections::option_view;
use crate::collections::views;
use crate::collections::WordMap;
use crate::globs::GlobSettings;
use crate::paths::extension;
use crate::paths::path_below;
use crate::paths::path_components;
use crate::paths::path_extension;
use crate::paths::components;
use crate::paths::strip_prefix;
use crate::word::copy_word;
use crate::word::Word;

verus! {

// ---- kinds of files ----

/// How a file takes part in the analysis.
#[derive(Debug, Clone, Copy, PartialEq, Eq, Structural)]
pub enum FileType {
    /// Written in the project.
    Host,
    /// Corrects what is known of a file of a dependency.
    Patch,
    /// Part of a dependency.
    Vendored,
    /// Part of the language.
    Builtin,
}

/// The type of a file, by the specificity of the most specific pattern of each kind that names it:
/// a patch counts where it is more specific than the project's own patterns, and so does an
/// included file that is at least as specific as them.
pub open spec fn resolved_file_type(host: Option<usize>, included: Option<usize>, patch: Option<usize>) -> FileType {
    if patch is Some && (host is None || patch->0 > host->0) {
        FileType::Patch
    } else if included is Some && (host is None || included->0 >= host->0) {
        FileType::Vendored
    } else {
        FileType::Host
    }
}

/// Decides the type of a file that patterns of several kinds may name.
pub fn resolve_file_type(host: Option<usize>, included: Option<usize>, patch: Option<usize>) -> (file_type: FileType)
    ensures
        file_type == resolved_file_type(host, included, patch),
{
    let patched = match (patch, host) {
        (Some(p), Some(h)) => p > h,
        (Some(_), None) => true,
        (None, _) => false,
    };
    if patched {
        return FileType::Patch;
    }
    let vendored = match (included, host) {
        (Some(i), Some(h)) => i >= h,
        (Some(_), None) => true,
        (None, _) => false,
    };
    if vendored {
        FileType::Vendored
    } else {
        FileType::Host
    }
}

// ---- patterns ----

/// A byte that makes a pattern out of a path: `*`, `?`, `[` or `{`.
pub open spec fn is_glob_byte(b: u8) -> bool {
    b == 42 || b == 63 || b == 91 || b == 123
}

/// The number of bytes before the first one, from `start` on, that makes a pattern out of a path.
pub open spec fn first_glob_byte(pattern: Seq<u8>, start: int) -> int
    decreases pattern.len() - start,
{
    if start >= pattern.len() {
        pattern.len() as int
    } else if is_glob_byte(pattern[start]) {
        start
    } else {
        first_glob_byte(pattern, start + 1)
    }
}

/// What is written is a pattern, and no path.
pub open spec fn is_glob(pattern: Seq<u8>) -> bool {
    first_glob_byte(pattern, 0) < pattern.len()
}

pub fn find_glob_byte(pattern: &[u8]) -> (position: usize)
    ensures
        position == first_glob_byte(pattern@, 0),
        position <= pattern@.len(),
{
    let mut i: usize = 0;
    while i < pattern.len()
        invariant
            i <= pattern@.len(),
            first_glob_byte(pattern@, i as int) == first_glob_byte(pattern@, 0),
        decreases pattern@.len() - i,
    {
        let b: u8 = pattern[i];
        if b == 42 || b == 63 || b == 91 || b == 123 {
            return i;
        }
        i = i + 1;
    }
    i
}

/// The number of components of a pattern that are no patterns themselves.
pub open spec fn plain_components(parts: Seq<Seq<u8>>) -> nat
    decreases parts.len(),
{
    if parts.len() == 0 {
        0
    } else {
        plain_components(parts.drop_last()) + if is_glob(parts.last()) {
            0nat
        } else {
            1nat
        }
    }
}

fn count_plain_components(parts: &Vec<Word>) -> (count: usize)
    ensures
        count == plain_components(views(parts@)),
{
    let ghost all = views(parts@);
    let mut count: usize = 0;
    let mut i: usize = 0;
    while i < parts.len()
        invariant
            i <= parts@.len(),
            all == views(parts@),
            count <= i,
            count == plain_components(all.take(i as int)),
        decreases parts@.len() - i,
    {
        assert(all.take(i + 1).drop_last() =~= all.take(i as int));
        assert(all.take(i + 1).last() == parts@[i as int]@);
        if find_glob_byte(parts[i].as_slice()) == parts[i].len() {
            count = count + 1;
        }
        i = i + 1;
    }
    assert(all.take(i as int) =~= all);
    count
}

/// A product, or the largest number there is.
pub open spec fn limited_product(count: nat, factor: nat) -> usize {
    if count * factor > usize::MAX {
        usize::MAX
    } else {
        (count * factor) as usize
    }
}

/// How narrowly a pattern names files: a file more narrowly than a directory, a directory more
/// narrowly than a glob, and a longer path more narrowly than a shorter one.
pub open spec fn pattern_specificity(pattern: Seq<u8>) -> usize {
    if is_glob(pattern) {
        limited_product(plain_components(components(pattern)), 10)
    } else if path_extension(pattern) is Some {
        limited_product(components(pattern).len(), 1000)
    } else {
        limited_product(components(pattern).len(), 100)
    }
}

fn multiply_up_to_limit(count: usize, factor: usize) -> (product: usize)
    ensures
        product == limited_product(count as nat, factor as nat),
{
    match count.checked_mul(factor) {
        Some(product) => product,
        None => usize::MAX,
    }
}

/// Computes how narrowly a pattern names files.
pub fn calculate_pattern_specificity(pattern: &[u8]) -> (specificity: usize)
    ensures
        specificity == pattern_specificity(pattern@),
{
    let parts: Vec<Word> = path_components(pattern);
    assert(parts@.len() == components(pattern@).len());
    if find_glob_byte(pattern) < pattern.len() {
        multiply_up_to_limit(count_plain_components(&parts), 10)
    } else if extension(pattern).is_some() {
        multiply_up_to_limit(parts.len(), 1000)
    } else {
        multiply_up_to_limit(parts.len(), 100)
    }
}

// ---- configuration ----

/// What is left out of the analysis.
#[derive(Debug, Clone)]
pub enum Exclusion {
    /// A file, or a directory with all that is in it.
    Path(Word),
    /// All that a glob pattern matches.
    Pattern(String),
}

#[verifier::ext_equal]
pub enum ExclusionView {
    Path(Seq<u8>),
    Pattern(Seq<char>),
}

impl View for Exclusion {
    type V = ExclusionView;

    open spec fn view(&self) -> ExclusionView {
        match self {
            Exclusion::Path(path) => ExclusionView::Path(path@),
            Exclusion::Pattern(pattern) => ExclusionView::Pattern(pattern@),
        }
    }
}

/// Which files are analysed.
#[derive(Debug)]
pub struct DatabaseConfiguration {
    pub workspace: Word,
    /// Patterns of the project's own files.
    pub paths: Vec<Word>,
    /// Patterns of the files of dependencies.
    pub includes: Vec<Word>,
    /// Patterns of the files that correct what is known of dependencies.
    pub patches: Vec<Word>,
    pub excludes: Vec<Exclusion>,
    pub extensions: Vec<Word>,
    pub glob: GlobSettings,
}

#[verifier::ext_equal]
pub struct ConfigurationView {
    pub workspace: Seq<u8>,
    pub paths: Seq<Seq<u8>>,
    pub includes: Seq<Seq<u8>>,
    pub patches: Seq<Seq<u8>>,
    pub excludes: Seq<ExclusionView>,
    pub extensions: Seq<Seq<u8>>,
    pub glob: GlobSettings,
}

impl View for DatabaseConfiguration {
    type V = ConfigurationView;

    open spec fn view(&self) -> ConfigurationView {
        ConfigurationView {
            workspace: self.workspace@,
            paths: views(self.paths@),
            includes: views(self.includes@),
            patches: views(self.patches@),
            excludes: views(self.excludes@),
            extensions: views(self.extensions@),
            glob: self.glob,
        }
    }
}

// ---- files ----

/// The name by which a file is known, whatever the workspace is called. Two files are the same
/// where they have the same name.
pub type FileId = Word;

/// A file and what is written in it.
pub struct File {
    pub id: FileId,
    pub path: Option<Word>,
    pub file_type: FileType,
    pub contents: Word,
}

#[verifier::ext_equal]
pub struct FileView {
    pub id: Seq<u8>,
    pub path: Option<Seq<u8>>,
    pub file_type: FileType,
    pub contents: Seq<u8>,
}

impl View for File {
    type V = FileView;

    open spec fn view(&self) -> FileView {
        FileView {
            id: self.id@,
            path: option_view(self.path),
            file_type: self.file_type,
            contents: self.contents@,
        }
    }
}

impl FileView {
    /// The file of a workspace at a path.
    pub open spec fn at(workspace: Seq<u8>, path: Seq<u8>, file_type: FileType, contents: Seq<u8>) -> FileView {
        FileView { id: path_below(path, workspace), path: Some(path), file_type, contents }
    }
}

impl File {
    /// The file of a workspace at a path, once its contents are read.
    pub fn at(workspace: &[u8], path: &[u8], file_type: FileType, contents: Word) -> (file: File)
        ensures
            file@ == FileView::at(workspace@, path@, file_type, contents@),
    {
        File { id: strip_prefix(path, workspace), path: Some(copy_word(path)), file_type, contents }
    }

    fn copy(&self) -> (copy: File)
        ensures
            copy@ == self@,
    {
        File {
            id: copy_word(self.id.as_slice()),
            path: match &self.path {
                Some(path) => Some(copy_word(path.as_slice())),
                None => None,
            },
            file_type: self.file_type,
            contents: copy_word(self.contents.as_slice()),
        }
    }
}

// ---- databases ----

/// The files that are analysed.
pub struct Database {
    pub files: WordMap<File>,
    pub configuration: DatabaseConfiguration,
}

#[verifier::ext_equal]
pub struct DatabaseView {
    pub files: Map<Seq<u8>, FileView>,
    pub configuration: ConfigurationView,
}

impl View for Database {
    type V = DatabaseView;

    open spec fn view(&self) -> DatabaseView {
        DatabaseView { files: self.files@, configuration: self.configuration@ }
    }
}

/// The files of a database at one moment.
pub struct ReadDatabase {
    files: WordMap<File>,
}

impl View for ReadDatabase {
    type V = Map<Seq<u8>, FileView>;

    closed spec fn view(&self) -> Map<Seq<u8>, FileView> {
        self.files@
    }
}

impl ReadDatabase {
    pub fn get(&self, id: &FileId) -> (file: Option<&File>)
        ensures
            match file {
                Some(f) => self@.contains_key(id@) && f@ == self@[id@],
                None => !self@.contains_key(id@),
            },
    {
        self.files.get(id)
    }
}

impl DatabaseView {
    pub open spec fn add(self, file: FileView) -> DatabaseView {
        DatabaseView { files: self.files.insert(file.id, file), ..self }
    }

    pub open spec fn delete(self, id: Seq<u8>) -> DatabaseView {
        DatabaseView { files: self.files.remove(id), ..self }
    }

    pub open spec fn update(self, id: Seq<u8>, contents: Seq<u8>) -> DatabaseView {
        if self.files.contains_key(id) {
            DatabaseView { files: self.files.insert(id, FileView { contents, ..self.files[id] }), ..self }
        } else {
            self
        }
    }
}

impl Database {
    /// A database without files.
    pub fn new(configuration: DatabaseConfiguration) -> (database: Database)
        ensures
            database@.files == Map::<Seq<u8>, FileView>::empty(),
            database@.configuration == configuration@,
    {
        Database { files: WordMap::new(), configuration }
    }

    pub fn get(&self, id: &FileId) -> (file: Option<&File>)
        ensures
            match file {
                Some(f) => self@.files.contains_key(id@) && f@ == self@.files[id@],
                None => !self@.files.contains_key(id@),
            },
    {
        self.files.get(id)
    }

    /// Adds a file, in place of one with the same name.
    pub fn add(&mut self, file: File)
        ensures
            final(self)@ == old(self)@.add(file@),
    {
        let id: FileId = copy_word(file.id.as_slice());
        self.files.insert(id, file);
        assert(self@ =~= old(self)@.add(file@));
    }

    /// Takes a file out of the database.
    pub fn delete(&mut self, id: &FileId)
        ensures
            final(self)@ == old(self)@.delete(id@),
    {
        self.files.remove(id);
        assert(self@ =~= old(self)@.delete(id@));
    }

    /// Puts other contents into a file, and says whether there is such a file.
    pub fn update(&mut self, id: &FileId, contents: Word) -> (updated: bool)
        ensures
            updated == old(self)@.files.contains_key(id@),
            final(self)@ == old(self)@.update(id@, contents@),
    {
        match self.files.get_mut(id) {
            Some(file) => {
                file.contents = contents;
                true
            },
            None => false,
        }
    }

    /// A copy of the files as they are now.
    pub fn read_only(&self) -> (copy: ReadDatabase)
        ensures
            copy@ == self@.files,
    {
        let mut files: WordMap<File> = WordMap::new();
        let ghost keys = self.files.keys();
        proof {
            self.files.lemma_keys();
        }
        let mut i: usize = 0;
        while i < self.files.len()
            invariant
                i <= keys.len(),
                keys == self.files.keys(),
                forall|k: Seq<u8>| #[trigger] self.files@.contains_key(k) <==> keys.contains(k),
                forall|k: Seq<u8>| #[trigger]
                    files@.contains_key(k) <==> exists|j: int| 0 <= j < i && #[trigger] keys[j] == k,
                forall|k: Seq<u8>| #[trigger] files@.contains_key(k) ==> files@[k] == self.files@[k],
            decreases keys.len() - i,
        {
            let ghost before = files@;
            let key = self.files.key_at(i);
            assert(keys.contains(keys[i as int]));
            assert(self.files@.contains_key(key@));
            match self.files.get(key) {
                Some(file) => {
                    files.insert(copy_word(key.as_slice()), file.copy());
                },
                None => {},
            }
            i = i + 1;
            assert forall|k: Seq<u8>| #[trigger] files@.contains_key(k) implies exists|j: int|
                0 <= j < i && #[trigger] keys[j] == k by {
                if before.contains_key(k) {
                    let j = choose|j: int| 0 <= j < i - 1 && #[trigger] keys[j] == k;
                    assert(keys[j] == k);
                } else {
                    assert(keys[i - 1] == k);
                }
            }
            assert forall|k: Seq<u8>|
                (exists|j: int| 0 <= j < i && #[trigger] keys[j] == k) implies #[trigger] files@.contains_key(k) by {
                let j = choose|j: int| 0 <= j < i && #[trigger] keys[j] == k;
                if j < i - 1 {
                    assert(before.contains_key(k));
                }
            }
        }
        assert forall|k: Seq<u8>| #[trigger] files@.contains_key(k) <==> self.files@.contains_key(k) by {
            if self.files@.contains_key(k) {
                let j = choose|j: int| 0 <= j < keys.len() && keys[j] == k;
                assert(keys[j] == k);
            }
            if files@.contains_key(k) {
                let j = choose|j: int| 0 <= j < i && #[trigger] keys[j] == k;
                assert(keys.contains(k));
            }
        }
        assert(files@ =~= self.files@);
        ReadDatabase { files }
    }
}

/// Why watching fails.
#[derive(Debug)]
pub enum DatabaseError {
    /// A glob pattern is not valid, or the patterns are too many.
    Glob(globset::Error),
    /// Nothing is being watched.
    WatcherNotActive,
    /// A file that changed cannot be read; this is its path.
    FileNotRead(Word),
}

} // verus!
