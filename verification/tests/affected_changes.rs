//! Which changes a run has touched.

use clhorde::openspec::affected_changes::{
    diff, fingerprint_file, snapshot, snapshot_opt, ChangeFingerprint, ChangesSnapshot,
    SnapshotEntry,
};

/// A changes directory: each entry with the files below it.
type Tree<'a> = Vec<(&'a str, Vec<(&'a str, &'a str)>)>;

fn take(tree: &Tree) -> ChangesSnapshot {
    let entries = tree
        .iter()
        .map(|(name, files)| SnapshotEntry {
            name: name.to_string(),
            is_dir: true,
            fingerprint: ChangeFingerprint::of_files(
                files
                    .iter()
                    .map(|(path, body)| {
                        (
                            path.to_string(),
                            fingerprint_file(&body.as_bytes().to_vec()),
                        )
                    })
                    .collect(),
            ),
        })
        .collect();
    snapshot(&entries)
}

#[test]
fn empty_repo_yields_empty_snapshot() {
    let snap = take(&vec![]);
    assert_eq!(snap.entries.len(), 0);
}

#[test]
fn snapshot_records_each_change_with_files() {
    let snap = take(&vec![(
        "add-oauth",
        vec![("proposal.md", "why"), ("design.md", "how")],
    )]);
    assert_eq!(snap.entries.len(), 1);
    let fp = snap.entries.get("add-oauth").unwrap();
    let names: Vec<&str> = fp.files.names().iter().map(String::as_str).collect();
    assert_eq!(names, vec!["design.md", "proposal.md"]);
}

#[test]
fn snapshot_includes_nested_files() {
    let snap = take(&vec![("add-oauth", vec![("notes/api/delta.md", "delta")])]);
    let fp = snap.entries.get("add-oauth").unwrap();
    assert!(fp.files.get("notes/api/delta.md").is_some());
}

#[test]
fn dotfile_change_dirs_are_skipped() {
    let snap = take(&vec![
        (".archive", vec![("ignored.md", "x")]),
        ("real-change", vec![]),
    ]);
    let names: Vec<&str> = snap.entries.names().iter().map(String::as_str).collect();
    assert_eq!(names, vec!["real-change"]);
}

#[test]
fn diff_detects_added_change() {
    let before = take(&vec![]);
    let after = take(&vec![("add-oauth", vec![])]);
    assert_eq!(diff(&before, &after), vec!["add-oauth".to_string()]);
}

#[test]
fn diff_detects_removed_change() {
    let before = take(&vec![("add-oauth", vec![])]);
    let after = take(&vec![]);
    assert_eq!(diff(&before, &after), vec!["add-oauth".to_string()]);
}

#[test]
fn diff_detects_modified_file_content() {
    let before = take(&vec![("add-oauth", vec![("proposal.md", "version 1")])]);
    let after = take(&vec![(
        "add-oauth",
        vec![("proposal.md", "version 2 (different bytes)")],
    )]);
    assert_eq!(diff(&before, &after), vec!["add-oauth".to_string()]);
}

#[test]
fn diff_ignores_unchanged_directories() {
    let tree = vec![("add-oauth", vec![("proposal.md", "stable")])];
    let before = take(&tree);
    let after = take(&tree);
    assert!(diff(&before, &after).is_empty());
}

#[test]
fn diff_returns_sorted_unique_names() {
    let before = take(&vec![]);
    let after = take(&vec![("zeta", vec![]), ("alpha", vec![]), ("mu", vec![])]);
    assert_eq!(
        diff(&before, &after),
        vec!["alpha".to_string(), "mu".to_string(), "zeta".to_string()]
    );
}

#[test]
fn diff_detects_new_file_in_existing_change() {
    let before = take(&vec![("add-oauth", vec![("proposal.md", "x")])]);
    let after = take(&vec![(
        "add-oauth",
        vec![("proposal.md", "x"), ("design.md", "y")],
    )]);
    assert_eq!(diff(&before, &after), vec!["add-oauth".to_string()]);
}

#[test]
fn diff_picks_up_deleted_file_in_existing_change() {
    let before = take(&vec![(
        "add-oauth",
        vec![("proposal.md", "x"), ("design.md", "y")],
    )]);
    let after = take(&vec![("add-oauth", vec![("proposal.md", "x")])]);
    assert_eq!(diff(&before, &after), vec!["add-oauth".to_string()]);
    assert_eq!(diff(&after, &before), diff(&before, &after));
}

#[test]
fn snapshot_opt_handles_missing_path() {
    let snap = snapshot_opt(None);
    assert_eq!(snap.entries.len(), 0);
}

#[test]
fn entries_that_are_no_directories_are_left_out() {
    let entry = SnapshotEntry {
        name: "README.md".into(),
        is_dir: false,
        fingerprint: ChangeFingerprint::of_files(vec![]),
    };
    assert_eq!(snapshot(&vec![entry]).entries.len(), 0);
}

#[test]
fn a_fingerprint_holds_the_length_and_follows_the_bytes() {
    let a = fingerprint_file(&b"hello".to_vec());
    assert_eq!(a, fingerprint_file(&b"hello".to_vec()));
    assert_ne!(a, fingerprint_file(&b"hellp".to_vec()));
    assert_eq!(a.0, 5);
}
