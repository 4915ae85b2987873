//! The type of a file that is found in configured directories.

use mago::changes::classify_added_file;
use mago::database::calculate_pattern_specificity;
use mago::database::FileType;
use mago::watch::BasePath;

fn bases(items: &[&str]) -> Vec<BasePath> {
    items.iter().map(|p| (p.as_bytes().to_vec(), calculate_pattern_specificity(p.as_bytes()))).collect()
}

#[test]
fn defaults_to_host_when_no_base_matches() {
    let ft = classify_added_file(b"/ws/orphan/foo.php", &bases(&["/ws/src"]), &bases(&[]), &bases(&["/ws/stubs"]));
    assert_eq!(ft, FileType::Host);
}

#[test]
fn vendored_when_only_include_matches() {
    let ft = classify_added_file(b"/ws/stubs/foo.php", &bases(&["/ws/src"]), &bases(&[]), &bases(&["/ws/stubs"]));
    assert_eq!(ft, FileType::Vendored);
}

#[test]
fn host_when_only_host_matches() {
    let ft = classify_added_file(b"/ws/src/foo.php", &bases(&["/ws/src"]), &bases(&[]), &bases(&["/ws/stubs"]));
    assert_eq!(ft, FileType::Host);
}

#[test]
fn matches_loader_at_equal_specificity_for_same_dir_under_both() {
    let ft = classify_added_file(b"/ws/shared/foo.php", &bases(&["/ws/shared"]), &bases(&[]), &bases(&["/ws/shared"]));
    assert_eq!(ft, FileType::Vendored);
}

#[test]
fn include_wins_when_strictly_more_specific() {
    let ft = classify_added_file(
        b"/ws/src/vendor/stub.php",
        &bases(&["/ws/src"]),
        &bases(&[]),
        &bases(&["/ws/src/vendor"]),
    );
    assert_eq!(ft, FileType::Vendored);
}

#[test]
fn exact_host_file_beats_directory_include_via_loader_score() {
    let ft = classify_added_file(b"/ws/src/foo.php", &bases(&["/ws/src/foo.php"]), &bases(&[]), &bases(&["/ws/src"]));
    assert_eq!(ft, FileType::Host);
}

#[test]
fn patch_when_only_patch_matches() {
    let ft = classify_added_file(
        b"/ws/patches/foo.php",
        &bases(&["/ws/src"]),
        &bases(&["/ws/patches"]),
        &bases(&["/ws/stubs"]),
    );
    assert_eq!(ft, FileType::Patch);
}

#[test]
fn patch_wins_over_host_when_strictly_more_specific() {
    let ft = classify_added_file(
        b"/ws/src/patches/foo.php",
        &bases(&["/ws/src"]),
        &bases(&["/ws/src/patches"]),
        &bases(&[]),
    );
    assert_eq!(ft, FileType::Patch);
}

#[test]
fn host_wins_over_patch_at_equal_specificity() {
    let ft = classify_added_file(b"/ws/shared/foo.php", &bases(&["/ws/shared"]), &bases(&["/ws/shared"]), &bases(&[]));
    assert_eq!(ft, FileType::Host);
}

#[test]
fn patch_wins_over_include_when_both_match_without_host() {
    let ft = classify_added_file(b"/ws/overlap/foo.php", &bases(&[]), &bases(&["/ws/overlap"]), &bases(&["/ws/overlap"]));
    assert_eq!(ft, FileType::Patch);
}
