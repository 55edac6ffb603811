use dirsweep::classify::{classify_entry, Decision, EntryKind};
use dirsweep::targets::{RunMode, TargetSet};

fn targets(names: &[&str]) -> TargetSet {
    TargetSet { names: names.iter().map(|n| n.to_string()).collect() }
}

#[test]
fn sibling_matches_are_both_removed() {
    // Tree: ./node_modules/left-pad and ./pkg/node_modules/left-pad.
    let ts = targets(&["node_modules"]);
    let clean = RunMode::Clean;
    assert_eq!(
        classify_entry("./node_modules", "node_modules", EntryKind::Directory, true, &ts, clean),
        Decision::Remove
    );
    assert_eq!(
        classify_entry(
            "./pkg/node_modules",
            "node_modules",
            EntryKind::Directory,
            true,
            &ts,
            clean
        ),
        Decision::Remove
    );
    // The contents of a removed directory are no independent candidates.
    assert_eq!(
        classify_entry(
            "./node_modules/left-pad",
            "left-pad",
            EntryKind::Directory,
            true,
            &ts,
            clean
        ),
        Decision::SkipNonTarget
    );
}

#[test]
fn nested_match_is_suppressed() {
    // Tree: ./target/debug/build/target.
    let ts = targets(&["target"]);
    let clean = RunMode::Clean;
    assert_eq!(
        classify_entry("./target", "target", EntryKind::Directory, true, &ts, clean),
        Decision::Remove
    );
    assert_eq!(
        classify_entry(
            "./target/debug/build/target",
            "target",
            EntryKind::Directory,
            true,
            &ts,
            clean
        ),
        Decision::SkipNested
    );
}

#[test]
fn nested_match_across_different_names() {
    let ts = targets(&["zig-out", "zig-cache"]);
    assert_eq!(
        classify_entry(
            "./zig-out/zig-cache",
            "zig-cache",
            EntryKind::Directory,
            true,
            &ts,
            RunMode::Clean
        ),
        Decision::SkipNested
    );
}

#[test]
fn report_mode_only_reports() {
    let ts = targets(&["node_modules"]);
    assert_eq!(
        classify_entry(
            "./node_modules",
            "node_modules",
            EntryKind::Directory,
            true,
            &ts,
            RunMode::Report
        ),
        Decision::Report
    );
}

#[test]
fn plain_files_are_skipped() {
    let ts = targets(&["target"]);
    assert_eq!(
        classify_entry("./target", "target", EntryKind::File, true, &ts, RunMode::Clean),
        Decision::SkipFile
    );
}

#[test]
fn symlinks_and_unknown_kinds_are_considered() {
    let ts = targets(&["target"]);
    assert_eq!(
        classify_entry("./target", "target", EntryKind::Symlink, true, &ts, RunMode::Clean),
        Decision::Remove
    );
    assert_eq!(
        classify_entry("./target", "target", EntryKind::Unknown, true, &ts, RunMode::Clean),
        Decision::Remove
    );
}

#[test]
fn vanished_entries_are_skipped() {
    let ts = targets(&["target"]);
    assert_eq!(
        classify_entry("./target", "target", EntryKind::Directory, false, &ts, RunMode::Clean),
        Decision::SkipMissing
    );
}

#[test]
fn second_clean_run_removes_nothing() {
    // First run over the tree: the two matches are removed.
    let ts = targets(&["node_modules"]);
    let clean = RunMode::Clean;
    let tree = [
        ("./node_modules", "node_modules", EntryKind::Directory),
        ("./node_modules/left-pad", "left-pad", EntryKind::Directory),
        ("./pkg", "pkg", EntryKind::Directory),
        ("./pkg/node_modules", "node_modules", EntryKind::Directory),
    ];
    let removed: Vec<&str> = tree
        .iter()
        .filter(|(p, n, k)| classify_entry(p, n, *k, true, &ts, clean) == Decision::Remove)
        .map(|(p, _, _)| *p)
        .collect();
    assert_eq!(removed, vec!["./node_modules", "./pkg/node_modules"]);
    // Second run: the walk no longer yields the removed subtrees, and
    // every surviving entry is left alone.
    for (p, n, k) in tree.iter() {
        let gone = removed.iter().any(|r| p.starts_with(r));
        if !gone {
            let d = classify_entry(p, n, *k, true, &ts, clean);
            assert_ne!(d, Decision::Remove);
            assert_ne!(d, Decision::Report);
        }
    }
}
