//! Which changes of files matter, and what they change.

use std::path::Component;
use std::path::Path;

use mago::changes::changes_of_event;
use mago::changes::collect_change_ids;
use mago::changes::handle_event;
use mago::changes::keep_latest_changes;
use mago::changes::ChangedFile;
use mago::changes::EventKind;
use mago::changes::FileEvent;
use mago::database::calculate_pattern_specificity;
use mago::database::resolve_file_type;
use mago::database::Database;
use mago::database::DatabaseConfiguration;
use mago::database::DatabaseError;
use mago::database::Exclusion;
use mago::database::File;
use mago::database::FileType;
use mago::exclusions::match_paths;
use mago::exclusions::prepare_exclusions;
use mago::exclusions::Exclusions;
use mago::globs::GlobSettings;
use mago::paths::at_or_below_any;
use mago::paths::extension;
use mago::paths::is_absolute;
use mago::paths::join_path;
use mago::paths::path_components;
use mago::paths::starts_with;
use mago::paths::strip_prefix;
use mago::watch::extract_watch_path;
use mago::watch::find_base_paths;
use mago::watch::find_watch_paths;
use mago::watch::WatchOptions;
use mago::watcher::conclude_wait;
use mago::watcher::resolve_bases;
use mago::watcher::stable_contents;
use mago::watcher::ChangeStep;
use mago::watcher::DatabaseWatcher;
use mago::watcher::Received;
use mago::watcher::WaitStep;
use mago::watcher::WAIT_DEBOUNCE_MS;
use mago::watcher::WAIT_INTERNAL_MS;
use mago::word::Word;

fn w(s: &str) -> Word {
    s.as_bytes().to_vec()
}

fn words(items: &[&str]) -> Vec<Word> {
    items.iter().map(|item| w(item)).collect()
}

fn plain_globs() -> GlobSettings {
    GlobSettings {
        case_insensitive: false,
        literal_separator: false,
        backslash_escape: true,
        empty_alternates: false,
    }
}

fn configuration() -> DatabaseConfiguration {
    DatabaseConfiguration {
        workspace: w("/ws"),
        paths: words(&["src/**/*.php"]),
        includes: words(&["vendor/revolt", "/lib"]),
        patches: words(&["patches", "./patches"]),
        excludes: vec![Exclusion::Path(w("/ws/src/cache"))],
        extensions: words(&["php"]),
        glob: plain_globs(),
    }
}

fn watcher() -> DatabaseWatcher {
    DatabaseWatcher::new(Database::new(configuration()))
}

fn change(id: &str, path: &str) -> ChangedFile {
    ChangedFile { id: w(id), path: w(path) }
}

fn exclusions(paths: &[&str], patterns: &[&str], settings: GlobSettings) -> Result<Exclusions, DatabaseError> {
    let configured: Vec<Exclusion> = paths.iter().map(|p| Exclusion::Path(w(p))).collect();
    let additional: Vec<Exclusion> = patterns.iter().map(|p| Exclusion::Pattern(p.to_string())).collect();
    prepare_exclusions(&configured, &additional, settings)
}

#[test]
fn components_of_paths() {
    assert_eq!(path_components(b"/ws//src/./a.php/"), words(&["/", "ws", "src", "a.php"]));
    assert_eq!(path_components(b"./a/../b"), words(&[".", "a", "..", "b"]));
    assert_eq!(path_components(b""), words(&[]));
    assert_eq!(path_components(b"/"), words(&["/"]));
    assert!(is_absolute(b"/a") && !is_absolute(b"a") && !is_absolute(b""));
}

#[test]
fn components_agree_with_those_of_the_standard_library() {
    for path in ["/ws//src/./a.php/", "./a/../b", "", "/", ".", "..", "//", "a/.", "a//", "/.", "/./a", "a/b.c/.d"] {
        let expected: Vec<Word> = Path::new(path)
            .components()
            .map(|c| match c {
                Component::RootDir => w("/"),
                other => other.as_os_str().as_encoded_bytes().to_vec(),
            })
            .collect();
        assert_eq!(path_components(path.as_bytes()), expected);
        let expected = Path::new(path).extension().map(|e| e.as_encoded_bytes().to_vec());
        assert_eq!(extension(path.as_bytes()), expected);
        for base in ["/", "", "/ws", ".", "a", "./a", "a/b.c", "/ws/src/"] {
            assert_eq!(starts_with(path.as_bytes(), base.as_bytes()), Path::new(path).starts_with(base));
            let expected = Path::new(path).strip_prefix(base).unwrap_or(Path::new(path));
            assert_eq!(
                strip_prefix(path.as_bytes(), base.as_bytes()),
                expected.as_os_str().as_encoded_bytes().to_vec()
            );
            let expected = Path::new(base).join(path);
            assert_eq!(
                join_path(base.as_bytes(), path.as_bytes()),
                expected.as_os_str().as_encoded_bytes().to_vec()
            );
        }
    }
}

#[test]
fn extensions_of_paths() {
    assert_eq!(extension(b"/ws/a.tar.gz"), Some(w("gz")));
    assert_eq!(extension(b"/ws/.hidden"), None);
    assert_eq!(extension(b"/ws/a."), Some(w("")));
    assert_eq!(extension(b"/ws/a"), None);
    assert_eq!(extension(b"/ws/.."), None);
}

#[test]
fn prefixes_go_by_components() {
    assert!(starts_with(b"/ws/src/a.php", b"/ws/src/"));
    assert!(!starts_with(b"/ws/source/a.php", b"/ws/so"));
    assert!(starts_with(b"/ws/src", b"/ws/src"));
    assert_eq!(strip_prefix(b"/ws/src//a.php", b"/ws"), w("src//a.php"));
    assert_eq!(strip_prefix(b"/other/a.php", b"/ws"), w("/other/a.php"));
    assert_eq!(strip_prefix(b"/ws/", b"/ws"), w(""));
}

#[test]
fn ancestors_of_excluded_paths() {
    assert!(at_or_below_any(b"/ws/cache/x/a.php", &words(&["/ws/cache"])));
    assert!(at_or_below_any(b"/ws/cache", &words(&["/ws/cache/"])));
    assert!(!at_or_below_any(b"/ws/cached/a.php", &words(&["/ws/cache"])));
    assert!(!at_or_below_any(b"/ws/a.php", &words(&[""])));
    assert!(at_or_below_any(b"ws/a.php", &words(&[""])));
    assert!(at_or_below_any(b"/ws/a.php", &words(&["/"])));
}

#[test]
fn watch_paths_of_patterns() {
    assert_eq!(extract_watch_path(b"src/**/*.php"), w("src"));
    assert_eq!(extract_watch_path(b"lib/*/foo.php"), w("lib"));
    assert_eq!(extract_watch_path(b"tests/fixtures"), w("tests/fixtures"));
    assert_eq!(extract_watch_path(b"*.php"), w("."));
    assert_eq!(extract_watch_path(b"/*.php"), w("/"));
    assert_eq!(extract_watch_path(b"//a*"), w("/"));
    assert_eq!(extract_watch_path(b"\\*.php"), w("."));
    assert_eq!(extract_watch_path(b"\\/a*.php"), w("."));
    assert_eq!(extract_watch_path(b"/\\*.php"), w("/"));
    assert_eq!(extract_watch_path(b"\\src\\a*.php"), w("\\src"));
    assert_eq!(extract_watch_path(b"foo*.php"), w("."));
    assert_eq!(extract_watch_path(b"src/foo*.php"), w("src"));
    assert_eq!(extract_watch_path(b"/src/lib//foo*.php"), w("/src/lib"));
    assert_eq!(extract_watch_path(b"src//{a,b}"), w("src"));
    assert_eq!(extract_watch_path(b"src\\[ab].php"), w("src"));
    assert_eq!(extract_watch_path(b"src/a?.php"), w("src"));
}

#[test]
fn specificity_of_patterns() {
    assert_eq!(calculate_pattern_specificity(b"/ws/src/foo.php"), 4000);
    assert_eq!(calculate_pattern_specificity(b"/ws/src"), 300);
    assert_eq!(calculate_pattern_specificity(b"src"), 100);
    assert_eq!(calculate_pattern_specificity(b"src/**/*.php"), 10);
    assert_eq!(calculate_pattern_specificity(b"src/{a,b}/c"), 20);
    assert_eq!(calculate_pattern_specificity(b""), 0);
}

#[test]
fn file_types_by_specificity() {
    assert_eq!(resolve_file_type(None, None, None), FileType::Host);
    assert_eq!(resolve_file_type(Some(300), Some(300), None), FileType::Vendored);
    assert_eq!(resolve_file_type(Some(300), Some(200), None), FileType::Host);
    assert_eq!(resolve_file_type(Some(300), None, Some(300)), FileType::Host);
    assert_eq!(resolve_file_type(Some(300), None, Some(301)), FileType::Patch);
    assert_eq!(resolve_file_type(None, Some(900), Some(1)), FileType::Patch);
    assert_eq!(resolve_file_type(Some(300), Some(400), Some(200)), FileType::Vendored);
}

#[test]
fn default_options_poll_each_second() {
    let options = WatchOptions::default();
    assert_eq!(options.poll_interval, Some(1000));
    assert!(options.additional_excludes.is_empty());
}

#[test]
fn base_paths_are_in_the_workspace() {
    let bases = find_base_paths(b"/ws", &words(&["src/**/*.php", "/lib", "."]));
    assert_eq!(bases, vec![(w("/ws/src"), 10), (w("/lib"), 200), (w("/ws/."), 100)]);
    let bases = find_base_paths(b"/ws", &words(&["src/foo*.php", "/*.php"]));
    assert_eq!(bases[0].0, w("/ws/src"));
    assert_eq!(bases[1].0, w("/"));
}

#[test]
fn each_directory_is_watched_once() {
    let hosts = vec![(w("/ws/src"), 1)];
    let included = vec![(w("/ws/src/"), 2), (w("/lib"), 3)];
    let patches = vec![(w("/ws/./src"), 4), (w("/lib"), 5), (w("/p"), 6)];
    assert_eq!(find_watch_paths(&hosts, &included, &patches), words(&["/ws/src", "/lib", "/p"]));
}

#[test]
fn patterns_match_paths() {
    let found = exclusions(&[], &["**/*.gen.php"], plain_globs()).unwrap();
    let paths = words(&["/ws/a.gen.php", "/ws/a.php", "/ws/vendor/a.php", "/ws/.git/config", "/ws/x/node_modules/y"]);
    assert_eq!(match_paths(&found.globs, &paths), vec![true, false, true, true, true]);
}

#[test]
fn a_backslash_in_one_pattern_leaves_the_others_alone() {
    let found = exclusions(&[], &["**/a\\*b.php", "**/*.gen.php"], plain_globs()).unwrap();
    let paths = words(&["/ws/a.gen.php", "/ws/vendor/a.php", "/ws/a.php"]);
    assert_eq!(match_paths(&found.globs, &paths), vec![true, true, false]);
}

#[test]
fn patterns_follow_their_settings() {
    let path = words(&["/ws/A.PHP"]);
    let exact = exclusions(&[], &["**/*.php"], plain_globs()).unwrap();
    assert_eq!(match_paths(&exact.globs, &path), vec![false]);
    let settings = GlobSettings { case_insensitive: true, ..plain_globs() };
    let relaxed = exclusions(&[], &["**/*.php"], settings).unwrap();
    assert_eq!(match_paths(&relaxed.globs, &path), vec![true]);
    let deep = words(&["/ws/a/b.php"]);
    let across = exclusions(&[], &["/ws/*.php"], plain_globs()).unwrap();
    assert_eq!(match_paths(&across.globs, &deep), vec![true]);
    let settings = GlobSettings { literal_separator: true, ..plain_globs() };
    let within = exclusions(&[], &["/ws/*.php"], settings).unwrap();
    assert_eq!(match_paths(&within.globs, &deep), vec![false]);
    let settings = GlobSettings { empty_alternates: true, ..plain_globs() };
    let optional = exclusions(&[], &["/ws/a{,.gen}.php"], settings).unwrap();
    assert_eq!(match_paths(&optional.globs, &words(&["/ws/a.php", "/ws/a.gen.php"])), vec![true, true]);
}

#[test]
fn wrong_patterns_are_refused() {
    for pattern in ["{a,b", "[z-a]", "a}"] {
        assert!(matches!(exclusions(&[], &[pattern], plain_globs()), Err(DatabaseError::Glob(_))));
        let options = WatchOptions {
            poll_interval: None,
            additional_excludes: vec![Exclusion::Pattern(pattern.to_string())],
        };
        assert!(matches!(watcher().watch(&options), Err(DatabaseError::Glob(_))));
    }
}

#[test]
fn excluded_paths_are_collected_in_order() {
    let found = exclusions(&["/ws/b", "/ws/a"], &[], plain_globs()).unwrap();
    assert_eq!(found.paths, words(&["/ws/b", "/ws/a"]));
}

#[test]
fn plans_follow_the_configuration() {
    let mut watcher = watcher();
    let plan = watcher.watch(&WatchOptions { poll_interval: None, additional_excludes: Vec::new() }).unwrap();
    assert_eq!(plan.workspace, w("/ws"));
    assert_eq!(plan.host_base_paths, vec![(w("/ws/src"), 10)]);
    assert_eq!(plan.include_base_paths, vec![(w("/ws/vendor/revolt"), 200), (w("/lib"), 200)]);
    assert_eq!(plan.patch_base_paths, vec![(w("/ws/patches"), 100), (w("/ws/./patches"), 200)]);
    assert_eq!(plan.watch_paths, words(&["/ws/src", "/ws/vendor/revolt", "/lib", "/ws/patches"]));
    // The patterns that hold by default exclude all that is below a directory `vendor`.
    assert_eq!(plan.explicit_watch_paths, words(&["/ws/vendor/revolt"]));
    assert_eq!(plan.exclusions.paths, words(&["/ws/src/cache"]));
    assert_eq!(plan.extensions, words(&["php"]));
    assert_eq!(plan.poll_interval, 1000);
    assert!(!watcher.is_watching());
}

fn paths_of(changes: Option<Vec<ChangedFile>>) -> Option<Vec<(Word, Word)>> {
    changes.map(|files| files.into_iter().map(|file| (file.id, file.path)).collect())
}

fn event(kind: EventKind, paths: &[&str]) -> FileEvent {
    FileEvent { kind, paths: words(paths) }
}

#[test]
fn only_changes_are_handled() {
    let found = exclusions(&[], &[], plain_globs()).unwrap();
    let told = |kind| {
        handle_event(&event(kind, &["/ws/a.php"]), b"/ws", &found, &words(&["php"]), &Vec::new()).is_some()
    };
    for kind in [EventKind::Any, EventKind::Access, EventKind::ModifyMetadata, EventKind::Other] {
        assert!(!told(kind));
    }
    for kind in [EventKind::Create, EventKind::Modify, EventKind::Remove] {
        assert!(told(kind));
    }
}

#[test]
fn excluded_files_are_not_told_of() {
    let found = exclusions(&["/ws/cache"], &[], plain_globs()).unwrap();
    let changes = handle_event(
        &event(
            EventKind::Modify,
            &[
                "/ws/src/a.php",
                "/ws/src/a.txt",
                "/ws/src/php",
                "/ws/cache/b.php",
                "/ws/vendor/x/c.php",
                "/ws/vendor/revolt/d.php",
                "/elsewhere/e.php",
            ],
        ),
        b"/ws",
        &found,
        &words(&["php"]),
        &words(&["/ws/vendor/revolt"]),
    );
    assert_eq!(
        paths_of(changes),
        Some(vec![
            (w("src/a.php"), w("/ws/src/a.php")),
            (w("vendor/revolt/d.php"), w("/ws/vendor/revolt/d.php")),
            (w("/elsewhere/e.php"), w("/elsewhere/e.php")),
        ])
    );
    let nothing = handle_event(
        &event(EventKind::Modify, &["/ws/cache/b.php"]),
        b"/ws",
        &found,
        &words(&["php"]),
        &Vec::new(),
    );
    assert!(nothing.is_none());
}

#[test]
fn matched_files_are_not_told_of() {
    let events = event(EventKind::Create, &["/ws/a.php", "/ws/b.php"]);
    let none = Vec::new();
    let changes = changes_of_event(&events, &vec![true, false], b"/ws", &none, &words(&["php"]), &none);
    assert_eq!(paths_of(changes), Some(vec![(w("b.php"), w("/ws/b.php"))]));
    let all = changes_of_event(&events, &vec![true, true], b"/ws", &none, &words(&["php"]), &words(&["/ws"]));
    assert_eq!(paths_of(all).unwrap().len(), 2);
}

#[test]
fn latest_change_of_a_file_wins() {
    let changes = vec![change("a", "/old/a"), change("b", "/b"), change("a", "/new/a")];
    let latest = keep_latest_changes(&changes);
    assert_eq!(paths_of(Some(latest)), Some(vec![(w("a"), w("/new/a")), (w("b"), w("/b"))]));
    assert_eq!(collect_change_ids(&changes), words(&["a", "b", "a"]));
}

#[test]
fn waiting_needs_a_watcher() {
    let mut watcher = watcher();
    assert!(matches!(watcher.wait(), Err(DatabaseError::WatcherNotActive)));
    watcher.start(words(&["/ws/src"]), Vec::new(), Vec::new(), Vec::new());
    assert!(watcher.is_watching());
    match watcher.wait() {
        Ok(WaitStep::Receive { collected, timeout }) => {
            assert!(collected.is_none());
            assert_eq!(timeout, WAIT_INTERNAL_MS);
        }
        _ => panic!("changes are waited for"),
    }
}

#[test]
fn changes_are_collected_until_none_comes() {
    let mut watcher = watcher();
    watcher.start(words(&["/ws/src"]), Vec::new(), Vec::new(), Vec::new());
    let step = watcher.receive(None, Received::Changes(vec![change("a", "/1")])).unwrap();
    let collected = match step {
        WaitStep::Receive { collected, timeout } => {
            assert_eq!(timeout, WAIT_DEBOUNCE_MS);
            collected
        }
        _ => panic!("more changes are waited for"),
    };
    let more = vec![change("b", "/2"), change("a", "/3")];
    let step = watcher.receive(collected, Received::Changes(more)).unwrap();
    let collected = match step {
        WaitStep::Receive { collected, .. } => collected,
        _ => panic!("more changes are waited for"),
    };
    match watcher.receive(collected, Received::TimedOut) {
        Ok(WaitStep::Apply(changes)) => {
            assert_eq!(collect_change_ids(&changes), words(&["a", "b"]));
            assert_eq!(changes[0].path, w("/3"));
        }
        _ => panic!("the changes are taken over"),
    }
}

#[test]
fn waiting_goes_on_until_a_file_changes() {
    let mut watcher = watcher();
    watcher.start(words(&["/ws/src"]), Vec::new(), Vec::new(), Vec::new());
    let quiet = vec![
        watcher.receive(None, Received::TimedOut),
        watcher.receive(Some(Vec::new()), Received::TimedOut),
        watcher.receive(None, Received::Changes(Vec::new())),
        watcher.receive(Some(Vec::new()), Received::Changes(Vec::new())),
    ];
    for step in quiet {
        match step {
            Ok(WaitStep::Receive { collected, timeout }) => {
                assert!(collected.is_none());
                assert_eq!(timeout, WAIT_INTERNAL_MS);
            }
            _ => panic!("changes are waited for"),
        }
    }
    assert!(watcher.is_watching());
    match watcher.receive(Some(vec![change("a", "/1")]), Received::Changes(Vec::new())) {
        Ok(WaitStep::Receive { collected, timeout }) => {
            assert_eq!(paths_of(collected), Some(vec![(w("a"), w("/1"))]));
            assert_eq!(timeout, WAIT_DEBOUNCE_MS);
        }
        _ => panic!("more changes are waited for"),
    }
}

#[test]
fn the_end_of_waiting_names_the_files_or_the_failure() {
    let changes = vec![change("a", "/1"), change("b", "/2")];
    assert_eq!(conclude_wait(&changes, None).unwrap(), words(&["a", "b"]));
    match conclude_wait(&changes, Some(DatabaseError::FileNotRead(w("/2")))) {
        Err(DatabaseError::FileNotRead(path)) => assert_eq!(path, w("/2")),
        _ => panic!("the failure is handed on"),
    }
}

#[test]
fn a_lost_connection_stops_the_watcher() {
    let mut watcher = watcher();
    watcher.start(words(&["/ws/src"]), Vec::new(), Vec::new(), Vec::new());
    let lost = watcher.receive(Some(vec![change("a", "/1")]), Received::Disconnected);
    assert!(matches!(lost, Err(DatabaseError::WatcherNotActive)));
    assert!(!watcher.is_watching());
    assert!(watcher.stop().is_empty());
}

#[test]
fn stopping_tells_what_was_watched() {
    let mut watcher = watcher();
    watcher.start(words(&["/ws/src", "/lib"]), Vec::new(), Vec::new(), Vec::new());
    assert_eq!(watcher.stop(), words(&["/ws/src", "/lib"]));
    assert!(!watcher.is_watching());
    assert!(watcher.stop().is_empty());
}

#[test]
fn database_follows_the_files() {
    let mut watcher = watcher();
    watcher.start(words(&["/ws/src"]), vec![(w("/ws/src"), 300)], Vec::new(), vec![(w("/ws/src/lib"), 400)]);
    let added = change("src/lib/a.php", "/ws/src/lib/a.php");
    let step = watcher.change_step(&added, b"/ws/src/lib/a.php", true);
    assert_eq!(step, ChangeStep::Add(FileType::Vendored));
    match watcher.apply_change(&added, step, None) {
        Err(DatabaseError::FileNotRead(path)) => assert_eq!(path, w("/ws/src/lib/a.php")),
        _ => panic!("the file has to be read"),
    }
    assert!(watcher.database().get(&w("src/lib/a.php")).is_none());
    assert!(watcher.apply_change(&added, step, Some(w("<?php 1;"))).is_ok());
    let file = watcher.database().get(&w("src/lib/a.php")).unwrap();
    assert_eq!(file.contents, w("<?php 1;"));
    assert_eq!(file.file_type, FileType::Vendored);
    assert_eq!(file.path, Some(w("/ws/src/lib/a.php")));
    let step = watcher.change_step(&added, b"/ws/src/lib/a.php", true);
    assert_eq!(step, ChangeStep::Reread);
    match watcher.apply_change(&added, step, None) {
        Err(DatabaseError::FileNotRead(path)) => assert_eq!(path, w("/ws/src/lib/a.php")),
        _ => panic!("the file has to be read"),
    }
    assert_eq!(watcher.database().get(&w("src/lib/a.php")).unwrap().contents, w("<?php 1;"));
    assert!(watcher.apply_change(&added, step, Some(w("<?php 2;"))).is_ok());
    assert_eq!(watcher.database().get(&w("src/lib/a.php")).unwrap().contents, w("<?php 2;"));
    let step = watcher.change_step(&added, b"/ws/src/lib/a.php", false);
    assert_eq!(step, ChangeStep::Delete);
    assert!(watcher.apply_change(&added, step, None).is_ok());
    assert!(watcher.database().get(&w("src/lib/a.php")).is_none());
    let step = watcher.change_step(&added, b"/ws/src/lib/a.php", false);
    assert_eq!(step, ChangeStep::Skip);
    assert!(watcher.apply_change(&added, step, None).is_ok());
}

#[test]
fn databases_hold_files_by_name() {
    let mut database = Database::new(configuration());
    database.add(File::at(b"/ws", b"/ws/a.php", FileType::Host, w("1")));
    database.add(File::at(b"/ws", b"/ws/b.php", FileType::Host, w("2")));
    database.add(File::at(b"/ws", b"/ws/a.php", FileType::Patch, w("3")));
    let before = database.read_only();
    assert!(database.update(&w("b.php"), w("4")));
    assert!(!database.update(&w("c.php"), w("5")));
    database.delete(&w("a.php"));
    assert!(database.get(&w("a.php")).is_none());
    assert_eq!(database.get(&w("b.php")).unwrap().contents, w("4"));
    assert_eq!(before.get(&w("a.php")).unwrap().file_type, FileType::Patch);
    assert_eq!(before.get(&w("b.php")).unwrap().contents, w("2"));
}

#[test]
fn the_database_can_be_borrowed_and_taken() {
    let mut watcher = watcher();
    let added = watcher.with_database_mut(|database| {
        database.add(File::at(b"/ws", b"/ws/a.php", FileType::Host, w("1")));
        7
    });
    assert_eq!(added, 7);
    watcher.database_mut().add(File::at(b"/ws", b"/ws/b.php", FileType::Host, w("2")));
    assert!(watcher.read_only_database().get(&w("b.php")).is_some());
    let database = watcher.into_database();
    assert_eq!(database.files.len(), 2);
}

#[test]
fn bases_without_links_replace_those_with() {
    let bases = vec![(w("/ws/src"), 300), (w("/ws/lib"), 400)];
    let resolved = resolve_bases(&bases, &vec![Some(w("/real/src")), None]);
    assert_eq!(resolved, vec![(w("/real/src"), 300), (w("/ws/lib"), 400)]);
}

#[test]
fn second_reading_counts_where_it_succeeds() {
    assert_eq!(stable_contents(w("a"), Some(w("b"))), w("b"));
    assert_eq!(stable_contents(w("a"), None), w("a"));
}
