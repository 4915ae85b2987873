//! Keeps a database up to date while its files change.
//!
//! The watcher decides; it does not touch the file system. Whoever drives it watches the
//! directories that it names, reads the files that it asks for, and hands it what came of that.

use vstd::prelude::*;

use crate::changes::added_file_type;
use crate::changes::change_ids;
use crate::changes::classify_added_file;
use crate::changes::collect_change_ids;
use crate::changes::explicit_paths;
use crate::changes::find_explicit_paths;
use crate::changes::keep_latest_changes;
use crate::changes::latest_change_wins;
use crate::changes::latest_changes;
use crate::changes::latest_changes_are_distinct;
use crate::changes::ChangeView;
use crate::changes::ChangedFile;
use crate::collections::option_view;
use crate::collections::views;
use crate::database::Database;
use crate::database::DatabaseConfiguration;
use crate::database::DatabaseError;
use crate::database::DatabaseView;
use crate::database::ConfigurationView;
use crate::database::File;
use crate::database::FileId;
use crate::database::FileType;
use crate::database::FileView;
use crate::database::ReadDatabase;
use crate::exclusions::all_exclusions;
use crate::exclusions::are_matches;
use crate::exclusions::excluded_paths;
use crate::exclusions::excluded_patterns;
use crate::exclusions::is_acceptable;
use crate::exclusions::match_paths;
use crate::exclusions::prepare_exclusions;
use crate::exclusions::Exclusions;
use crate::globs::globs_of;
use crate::paths::path_below;
use crate::watch::base_paths;
use crate::watch::base_views;
use crate::watch::distinct_paths;
use crate::watch::find_base_paths;
use crate::watch::find_watch_paths;
use crate::watch::BasePath;
use crate::watch::WatchOptions;
use crate::watch::WatchOptionsView;
use crate::watch::DEFAULT_POLL_INTERVAL_MS;
use crate::word::copy_word;
use crate::word::copy_words;
use crate::word::Word;

verus! {

/// The number of milliseconds to wait for a first change.
pub const WAIT_INTERNAL_MS: u64 = 100;

/// The number of milliseconds without a change after which no more are waited for.
pub const WAIT_DEBOUNCE_MS: u64 = 300;

/// The number of milliseconds between two readings of a file.
pub const STABILITY_CHECK_MS: u64 = 10;

// ---- plans ----

/// What is needed to start watching.
pub struct WatchPlan {
    pub workspace: Word,
    pub exclusions: Exclusions,
    pub extensions: Vec<Word>,
    pub host_base_paths: Vec<BasePath>,
    pub include_base_paths: Vec<BasePath>,
    pub patch_base_paths: Vec<BasePath>,
    /// The directories to watch, where they exist.
    pub watch_paths: Vec<Word>,
    /// Those of them that are watched though an exclusion names them.
    pub explicit_watch_paths: Vec<Word>,
    /// In milliseconds.
    pub poll_interval: u64,
}

/// The directories to watch under a configuration.
pub open spec fn configured_paths(configuration: ConfigurationView) -> Seq<Seq<u8>> {
    distinct_paths(
        base_paths(configuration.workspace, configuration.paths) + base_paths(
            configuration.workspace,
            configuration.includes,
        ) + base_paths(configuration.workspace, configuration.patches),
    )
}

impl WatchPlan {
    /// The plan is what a configuration and some options ask for, given what the plan leaves out.
    pub open spec fn covers(&self, configuration: ConfigurationView, options: WatchOptionsView) -> bool {
        &&& self.workspace@ == configuration.workspace
        &&& views(self.extensions@) == configuration.extensions
        &&& base_views(self.host_base_paths@) == base_paths(configuration.workspace, configuration.paths)
        &&& base_views(self.include_base_paths@) == base_paths(configuration.workspace, configuration.includes)
        &&& base_views(self.patch_base_paths@) == base_paths(configuration.workspace, configuration.patches)
        &&& views(self.watch_paths@) == configured_paths(configuration)
        &&& self.poll_interval == match options.poll_interval {
            Some(interval) => interval,
            None => DEFAULT_POLL_INTERVAL_MS,
        }
        &&& exists|matched: Seq<bool>| #[trigger]
            are_matches(matched, globs_of(self.exclusions.globs), views(self.watch_paths@)) && views(
                self.explicit_watch_paths@,
            ) == explicit_paths(views(self.watch_paths@), matched, views(self.exclusions.paths@))
    }

    /// The plan is what a configuration and some options ask for.
    pub open spec fn follows(&self, configuration: ConfigurationView, options: WatchOptionsView) -> bool {
        let excluded = all_exclusions(configuration.excludes, options.additional_excludes);
        &&& self.covers(configuration, options)
        &&& globs_of(self.exclusions.globs) == excluded_patterns(excluded, configuration.glob)
        &&& views(self.exclusions.paths@) == excluded_paths(excluded)
        &&& forall|i: int| 0 <= i < excluded.len() ==> is_acceptable(#[trigger] excluded[i], configuration.glob)
    }
}

/// Plans what to watch, once it is known what to leave out.
pub fn plan_watching(config: &DatabaseConfiguration, options: &WatchOptions, exclusions: Exclusions) -> (plan: WatchPlan)
    ensures
        plan.exclusions == exclusions,
        plan.covers(config@, options@),
{
    let host_base_paths: Vec<BasePath> = find_base_paths(config.workspace.as_slice(), &config.paths);
    let include_base_paths: Vec<BasePath> = find_base_paths(config.workspace.as_slice(), &config.includes);
    let patch_base_paths: Vec<BasePath> = find_base_paths(config.workspace.as_slice(), &config.patches);
    let watch_paths: Vec<Word> = find_watch_paths(&host_base_paths, &include_base_paths, &patch_base_paths);
    let matched: Vec<bool> = match_paths(&exclusions.globs, &watch_paths);
    let explicit_watch_paths: Vec<Word> = find_explicit_paths(&watch_paths, &matched, &exclusions.paths);
    let poll_interval: u64 = match options.poll_interval {
        Some(interval) => interval,
        None => DEFAULT_POLL_INTERVAL_MS,
    };
    let plan = WatchPlan {
        workspace: copy_word(config.workspace.as_slice()),
        exclusions,
        extensions: copy_words(&config.extensions),
        host_base_paths,
        include_base_paths,
        patch_base_paths,
        watch_paths,
        explicit_watch_paths,
        poll_interval,
    };
    assert(are_matches(matched@, globs_of(plan.exclusions.globs), views(plan.watch_paths@)));
    plan
}

/// Directories under the paths that are free of links, where those could be found.
pub open spec fn resolved_bases(bases: Seq<(Seq<u8>, usize)>, resolved: Seq<Option<Seq<u8>>>) -> Seq<(Seq<u8>, usize)> {
    Seq::new(
        bases.len(),
        |i: int|
            match resolved[i] {
                Some(path) => (path, bases[i].1),
                None => bases[i],
            },
    )
}

/// Puts in the paths that are free of links, where those could be found.
pub fn resolve_bases(bases: &Vec<BasePath>, resolved: &Vec<Option<Word>>) -> (result: Vec<BasePath>)
    requires
        resolved@.len() == bases@.len(),
    ensures
        base_views(result@) == resolved_bases(
            base_views(bases@),
            Seq::new(resolved@.len(), |i: int| option_view(resolved@[i])),
        ),
{
    let ghost paths = Seq::new(resolved@.len(), |i: int| option_view(resolved@[i]));
    let ghost expected = resolved_bases(base_views(bases@), paths);
    let mut result: Vec<BasePath> = Vec::new();
    let mut i: usize = 0;
    while i < bases.len()
        invariant
            i <= bases@.len() == resolved@.len(),
            paths == Seq::new(resolved@.len(), |i: int| option_view(resolved@[i])),
            expected == resolved_bases(base_views(bases@), paths),
            result@.len() == i,
            forall|j: int| 0 <= j < i ==> base_views(result@)[j] == expected[j],
        decreases bases@.len() - i,
    {
        let ghost before = result@;
        let path: Word = match &resolved[i] {
            Some(path) => copy_word(path.as_slice()),
            None => copy_word(bases[i].0.as_slice()),
        };
        result.push((path, bases[i].1));
        assert forall|j: int| 0 <= j < i + 1 implies base_views(result@)[j] == expected[j] by {
            if j < i {
                assert(base_views(before)[j] == expected[j]);
            }
        }
        i = i + 1;
    }
    assert(base_views(result@) =~= expected);
    result
}

// ---- waiting ----

/// What came of waiting for changes.
pub enum Received {
    Changes(Vec<ChangedFile>),
    TimedOut,
    Disconnected,
}

/// No change came, though one still could.
pub open spec fn tells_of_nothing(received: Received) -> bool {
    match received {
        Received::Changes(changes) => changes@.len() == 0,
        Received::TimedOut => true,
        Received::Disconnected => false,
    }
}

/// What to do next while changes are waited for.
pub enum WaitStep {
    /// Wait for changes, for this number of milliseconds.
    Receive { collected: Option<Vec<ChangedFile>>, timeout: u64 },
    /// Bring the database up to date with these changes, one by one.
    Apply(Vec<ChangedFile>),
}

#[verifier::ext_equal]
pub enum WaitStepView {
    Receive { collected: Option<Seq<ChangeView>>, timeout: u64 },
    Apply(Seq<ChangeView>),
}

pub open spec fn collected_view(collected: Option<Vec<ChangedFile>>) -> Option<Seq<ChangeView>> {
    match collected {
        Some(changes) => Some(views(changes@)),
        None => None,
    }
}

impl View for WaitStep {
    type V = WaitStepView;

    open spec fn view(&self) -> WaitStepView {
        match self {
            WaitStep::Receive { collected, timeout } => WaitStepView::Receive {
                collected: collected_view(*collected),
                timeout: *timeout,
            },
            WaitStep::Apply(changes) => WaitStepView::Apply(views(changes@)),
        }
    }
}

/// Waits on: for more changes where there are some, and for a first one where there are none.
pub open spec fn waiting_step(collected: Seq<ChangeView>) -> WaitStepView {
    if collected.len() == 0 {
        WaitStepView::Receive { collected: None, timeout: WAIT_INTERNAL_MS }
    } else {
        WaitStepView::Receive { collected: Some(collected), timeout: WAIT_DEBOUNCE_MS }
    }
}

/// The step that follows once changes came or failed to come: only where some came, and then no
/// more for a while, the waiting is over. None where nobody is left who could tell of changes.
pub open spec fn next_wait_step(collected: Option<Seq<ChangeView>>, received: Received) -> Option<WaitStepView> {
    let so_far = match collected {
        Some(changes) => changes,
        None => Seq::empty(),
    };
    match received {
        Received::Changes(more) => Some(waiting_step(so_far + views(more@))),
        Received::TimedOut => if so_far.len() == 0 {
            Some(waiting_step(so_far))
        } else {
            Some(WaitStepView::Apply(latest_changes(so_far)))
        },
        Received::Disconnected => None,
    }
}

fn make_waiting_step(collected: Vec<ChangedFile>) -> (step: WaitStep)
    ensures
        step@ == waiting_step(views(collected@)),
{
    if collected.len() == 0 {
        WaitStep::Receive { collected: None, timeout: WAIT_INTERNAL_MS }
    } else {
        WaitStep::Receive { collected: Some(collected), timeout: WAIT_DEBOUNCE_MS }
    }
}

/// Ends the waiting, once each change was taken over or could not be: names the files that
/// changed, or hands on why one of them could not be taken over.
pub fn conclude_wait(changes: &Vec<ChangedFile>, failure: Option<DatabaseError>) -> (ids: Result<
    Vec<FileId>,
    DatabaseError,
>)
    ensures
        match failure {
            Some(error) => ids == Err::<Vec<FileId>, DatabaseError>(error),
            None => ids matches Ok(ids) && views(ids@) == change_ids(views(changes@)),
        },
{
    match failure {
        Some(error) => Err(error),
        None => Ok(collect_change_ids(changes)),
    }
}

/// What a change asks for.
#[derive(Debug, Clone, Copy, PartialEq, Eq, Structural)]
pub enum ChangeStep {
    /// The file is not known and does not exist.
    Skip,
    /// The file is not known: read it, and add it with this type.
    Add(FileType),
    /// The file does not exist any more.
    Delete,
    /// The file is known: read it again.
    Reread,
}

/// The file has to be read for this step.
pub open spec fn needs_contents(step: ChangeStep) -> bool {
    step is Add || step is Reread
}

/// What a file holds that is read twice: what the second reading gave, where it succeeded.
pub fn stable_contents(first: Word, second: Option<Word>) -> (contents: Word)
    ensures
        contents@ == match second {
            Some(s) => s@,
            None => first@,
        },
{
    match second {
        Some(s) => s,
        None => first,
    }
}

// ---- the watcher ----

/// Follows the changes of files, and brings a database up to date with them.
pub struct DatabaseWatcher {
    database: Database,
    watching: bool,
    watched_paths: Vec<Word>,
    host_base_paths: Vec<BasePath>,
    patch_base_paths: Vec<BasePath>,
    include_base_paths: Vec<BasePath>,
}

#[verifier::ext_equal]
pub struct WatcherView {
    pub database: DatabaseView,
    pub watching: bool,
    pub watched_paths: Seq<Seq<u8>>,
    pub host_base_paths: Seq<(Seq<u8>, usize)>,
    pub patch_base_paths: Seq<(Seq<u8>, usize)>,
    pub include_base_paths: Seq<(Seq<u8>, usize)>,
}

impl View for DatabaseWatcher {
    type V = WatcherView;

    closed spec fn view(&self) -> WatcherView {
        WatcherView {
            database: self.database@,
            watching: self.watching,
            watched_paths: views(self.watched_paths@),
            host_base_paths: base_views(self.host_base_paths@),
            patch_base_paths: base_views(self.patch_base_paths@),
            include_base_paths: base_views(self.include_base_paths@),
        }
    }
}

impl WatcherView {
    /// A watcher that watches nothing.
    pub open spec fn idle(database: DatabaseView) -> WatcherView {
        WatcherView {
            database,
            watching: false,
            watched_paths: Seq::empty(),
            host_base_paths: Seq::empty(),
            patch_base_paths: Seq::empty(),
            include_base_paths: Seq::empty(),
        }
    }

    /// What a change of a file asks for. `path` is free of links.
    pub open spec fn change_step(self, id: Seq<u8>, path: Seq<u8>, exists_now: bool) -> ChangeStep {
        if self.database.files.contains_key(id) {
            if exists_now {
                ChangeStep::Reread
            } else {
                ChangeStep::Delete
            }
        } else if exists_now {
            ChangeStep::Add(
                added_file_type(path, self.host_base_paths, self.patch_base_paths, self.include_base_paths),
            )
        } else {
            ChangeStep::Skip
        }
    }

    /// The database once a change is taken over. `contents` is what was read, where the step asks
    /// for that.
    pub open spec fn with_change(self, change: ChangeView, step: ChangeStep, contents: Option<Seq<u8>>) -> WatcherView {
        let database = match (step, contents) {
            (ChangeStep::Add(file_type), Some(c)) => self.database.add(
                FileView::at(self.database.configuration.workspace, change.path, file_type, c),
            ),
            (ChangeStep::Reread, Some(c)) => self.database.update(change.id, c),
            (ChangeStep::Delete, _) => self.database.delete(change.id),
            _ => self.database,
        };
        WatcherView { database, ..self }
    }
}

impl DatabaseWatcher {
    /// A watcher that watches nothing yet.
    pub fn new(database: Database) -> (watcher: DatabaseWatcher)
        ensures
            watcher@ == WatcherView::idle(database@),
    {
        let watcher = DatabaseWatcher {
            database,
            watching: false,
            watched_paths: Vec::new(),
            host_base_paths: Vec::new(),
            patch_base_paths: Vec::new(),
            include_base_paths: Vec::new(),
        };
        assert(watcher@ =~= WatcherView::idle(database@));
        watcher
    }

    /// Plans what to watch. Nothing is watched any more until [`DatabaseWatcher::start`] says so.
    pub fn watch(&mut self, options: &WatchOptions) -> (plan: Result<WatchPlan, DatabaseError>)
        ensures
            final(self)@ == WatcherView::idle(old(self)@.database),
            match plan {
                Ok(p) => p.follows(old(self)@.database.configuration, options@),
                Err(error) => error is Glob,
            },
    {
        let _stopped: Vec<Word> = self.stop();
        let config = &self.database.configuration;
        let exclusions: Exclusions = prepare_exclusions(&config.excludes, &options.additional_excludes, config.glob)?;
        Ok(plan_watching(config, options, exclusions))
    }

    /// Takes note of the directories that are watched from now on.
    pub fn start(
        &mut self,
        watched_paths: Vec<Word>,
        host_base_paths: Vec<BasePath>,
        patch_base_paths: Vec<BasePath>,
        include_base_paths: Vec<BasePath>,
    )
        ensures
            final(self)@ == (WatcherView {
                database: old(self)@.database,
                watching: true,
                watched_paths: views(watched_paths@),
                host_base_paths: base_views(host_base_paths@),
                patch_base_paths: base_views(patch_base_paths@),
                include_base_paths: base_views(include_base_paths@),
            }),
    {
        self.watching = true;
        self.watched_paths = watched_paths;
        self.host_base_paths = host_base_paths;
        self.patch_base_paths = patch_base_paths;
        self.include_base_paths = include_base_paths;
    }

    /// Stops watching, and tells which directories were watched.
    pub fn stop(&mut self) -> (watched: Vec<Word>)
        ensures
            final(self)@ == WatcherView::idle(old(self)@.database),
            views(watched@) == if old(self)@.watching {
                old(self)@.watched_paths
            } else {
                Seq::empty()
            },
    {
        let watched: Vec<Word> = if self.watching {
            copy_words(&self.watched_paths)
        } else {
            Vec::new()
        };
        self.watching = false;
        self.watched_paths = Vec::new();
        self.host_base_paths = Vec::new();
        self.patch_base_paths = Vec::new();
        self.include_base_paths = Vec::new();
        proof {
            if !old(self).watching {
                assert(views(watched@) =~= Seq::empty());
            }
            assert(self@ =~= WatcherView::idle(old(self)@.database));
        }
        watched
    }

    /// Whether directories are watched.
    pub fn is_watching(&self) -> (watching: bool)
        ensures
            watching == self@.watching,
    {
        self.watching
    }

    /// Begins to wait for changes.
    pub fn wait(&self) -> (step: Result<WaitStep, DatabaseError>)
        ensures
            match step {
                Ok(s) => self@.watching && s@ == (WaitStepView::Receive { collected: None, timeout: WAIT_INTERNAL_MS }),
                Err(error) => !self@.watching && error is WatcherNotActive,
            },
    {
        if self.watching {
            Ok(WaitStep::Receive { collected: None, timeout: WAIT_INTERNAL_MS })
        } else {
            Err(DatabaseError::WatcherNotActive)
        }
    }

    /// Goes on waiting: `collected` are the changes that came so far.
    pub fn receive(&mut self, collected: Option<Vec<ChangedFile>>, received: Received) -> (step: Result<
        WaitStep,
        DatabaseError,
    >)
        ensures
            match step {
                Ok(s) => {
                    &&& next_wait_step(collected_view(collected), received) == Some(s@)
                    &&& final(self)@ == old(self)@
                },
                Err(error) => {
                    &&& next_wait_step(collected_view(collected), received) is None
                    &&& error is WatcherNotActive
                    &&& final(self)@ == WatcherView::idle(old(self)@.database)
                },
            },
    {
        let mut changes: Vec<ChangedFile> = match collected {
            Some(changes) => changes,
            None => Vec::new(),
        };
        proof {
            if collected is None {
                assert(views(changes@) =~= Seq::empty());
            }
        }
        match received {
            Received::Changes(more) => {
                let ghost first = changes@;
                let ghost second = more@;
                let mut more = more;
                changes.append(&mut more);
                assert(views(changes@) =~= views(first) + views(second));
                Ok(make_waiting_step(changes))
            },
            Received::TimedOut => if changes.len() == 0 {
                Ok(make_waiting_step(changes))
            } else {
                Ok(WaitStep::Apply(keep_latest_changes(&changes)))
            },
            Received::Disconnected => {
                let _stopped: Vec<Word> = self.stop();
                Err(DatabaseError::WatcherNotActive)
            },
        }
    }

    /// What a change asks for. `path` is that of the file, free of links.
    pub fn change_step(&self, change: &ChangedFile, path: &[u8], exists_now: bool) -> (step: ChangeStep)
        ensures
            step == self@.change_step(change@.id, path@, exists_now),
    {
        if self.database.get(&change.id).is_some() {
            if exists_now {
                ChangeStep::Reread
            } else {
                ChangeStep::Delete
            }
        } else if exists_now {
            ChangeStep::Add(
                classify_added_file(path, &self.host_base_paths, &self.patch_base_paths, &self.include_base_paths),
            )
        } else {
            ChangeStep::Skip
        }
    }

    /// Takes a change over into the database. `contents` is what was read of the file, where the
    /// step asked for that and it succeeded; where it did not, nothing is taken over.
    pub fn apply_change(&mut self, change: &ChangedFile, step: ChangeStep, contents: Option<Word>) -> (applied: Result<
        (),
        DatabaseError,
    >)
        ensures
            applied is Err <==> needs_contents(step) && contents is None,
            match applied {
                Ok(_) => final(self)@ == old(self)@.with_change(change@, step, option_view(contents)),
                Err(error) => {
                    &&& final(self)@ == old(self)@
                    &&& error matches DatabaseError::FileNotRead(path) && path@ == change@.path
                },
            },
    {
        match (step, contents) {
            (ChangeStep::Skip, _) => {},
            (ChangeStep::Add(file_type), Some(contents)) => {
                let file = File::at(
                    self.database.configuration.workspace.as_slice(),
                    change.path.as_slice(),
                    file_type,
                    contents,
                );
                self.database.add(file);
            },
            (ChangeStep::Delete, _) => {
                self.database.delete(&change.id);
            },
            (ChangeStep::Reread, Some(contents)) => {
                let _known: bool = self.database.update(&change.id, contents);
            },
            (ChangeStep::Add(_), None) | (ChangeStep::Reread, None) => {
                return Err(DatabaseError::FileNotRead(copy_word(change.path.as_slice())));
            },
        }
        Ok(())
    }

    /// The files, as they are known now.
    pub fn database(&self) -> (database: &Database)
        ensures
            database@ == self@.database,
    {
        &self.database
    }

    /// A copy of the files, as they are known now.
    pub fn read_only_database(&self) -> (database: ReadDatabase)
        ensures
            database@ == self@.database.files,
    {
        self.database.read_only()
    }

    /// The files, to be changed.
    pub fn database_mut(&mut self) -> (database: &mut Database)
        ensures
            database@ == old(self)@.database,
            final(self)@ == (WatcherView { database: final(database)@, ..old(self)@ }),
    {
        &mut self.database
    }

    /// Lends the files to a function that may change them.
    pub fn with_database_mut<F, R>(&mut self, f: F) -> (result: R) where F: for <'borrow>FnOnce(&'borrow mut Database) -> R
        requires
            forall|database: &mut Database| database@ == old(self)@.database ==> #[trigger] call_requires(f, (database,)),
        ensures
            exists|database: &mut Database| #[trigger] call_ensures(f, (database,), result) && database@ == old(self)@.database
                && final(self)@ == (WatcherView { database: final(database)@, ..old(self)@ }),
    {
        let database = &mut self.database;
        assert(database@ == old(self)@.database);
        f(database)
    }

    /// Stops watching, and gives the files away.
    pub fn into_database(self) -> (database: Database)
        ensures
            database@ == self@.database,
    {
        let mut watcher = self;
        let _stopped: Vec<Word> = watcher.stop();
        watcher.database
    }
}

// ---- laws ----

/// Once a change is taken over, the database knows the file exactly where it exists, and holds
/// what was read of it.
pub proof fn database_follows_the_files(
    watcher: WatcherView,
    change: ChangeView,
    path: Seq<u8>,
    exists_now: bool,
    contents: Seq<u8>,
)
    requires
        change.id == path_below(change.path, watcher.database.configuration.workspace),
    ensures
        ({
            let step = watcher.change_step(change.id, path, exists_now);
            let after = watcher.with_change(change, step, Some(contents)).database;
            &&& after.files.contains_key(change.id) == exists_now
            &&& exists_now ==> after.files[change.id].contents == contents
        }),
{
}

/// Taking a change over touches no other file, nor anything else of the watcher.
pub proof fn a_change_touches_one_file(
    watcher: WatcherView,
    change: ChangeView,
    step: ChangeStep,
    contents: Option<Seq<u8>>,
    other: Seq<u8>,
)
    requires
        change.id == path_below(change.path, watcher.database.configuration.workspace),
        other != change.id,
    ensures
        ({
            let after = watcher.with_change(change, step, contents);
            &&& after.database.files.contains_key(other) == watcher.database.files.contains_key(other)
            &&& watcher.database.files.contains_key(other) ==> after.database.files[other]
                == watcher.database.files[other]
            &&& after == (WatcherView { database: after.database, ..watcher })
            &&& after.database.configuration == watcher.database.configuration
        }),
{
}

/// A file that changed has to be read exactly where it exists: only then can its change fail to be
/// taken over.
pub proof fn existing_files_have_to_be_read(watcher: WatcherView, id: Seq<u8>, path: Seq<u8>, exists_now: bool)
    ensures
        needs_contents(watcher.change_step(id, path, exists_now)) == exists_now,
{
}

/// The waiting is over only once files changed: there is always one to name. Until then it goes on.
pub proof fn waiting_ends_with_changes(collected: Option<Seq<ChangeView>>, received: Received)
    ensures
        next_wait_step(collected, received) matches Some(WaitStepView::Apply(changes)) ==> change_ids(changes).len()
            > 0,
        (collected matches Some(changes) ==> changes.len() == 0) && tells_of_nothing(received) ==> next_wait_step(
            collected,
            received,
        ) == Some(WaitStepView::Receive { collected: None, timeout: WAIT_INTERNAL_MS }),
{
    if let Some(changes) = collected {
        if changes.len() > 0 {
            latest_change_wins(changes, changes.len() - 1);
        }
    }
}

/// No file is named twice among those that changed.
pub proof fn changed_ids_are_distinct(changes: Seq<ChangeView>)
    ensures
        change_ids(latest_changes(changes)).no_duplicates(),
{
    latest_changes_are_distinct(changes);
    let latest = latest_changes(changes);
    let ids = change_ids(latest);
    assert forall|i: int, j: int| 0 <= i < ids.len() && 0 <= j < ids.len() && i != j implies ids[i] != ids[j] by {
        if i < j {
            assert(latest[i].id != latest[j].id);
        } else {
            assert(latest[j].id != latest[i].id);
        }
    }
}

} // verus!
