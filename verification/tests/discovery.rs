//! Finding changes and the markers that queue them.

use clhorde::openspec::discovery::{
    classify, scan, ChangeStatus, ChangesEntry, DiscoveredChange, MarkerMetadata, MARKER_FILENAME,
};

/// One entry of the changes directory: its name, whether it is a directory,
/// and what its marker holds.
type Entry<'a> = (&'a str, bool, Option<&'a str>);

fn names_in(table: &toml::Table, key: &str) -> Vec<String> {
    match table.get(key) {
        Some(v) => v
            .as_array()
            .unwrap()
            .iter()
            .map(|s| s.as_str().unwrap().to_string())
            .collect(),
        None => vec![],
    }
}

fn metadata(body: &str) -> Option<MarkerMetadata> {
    let table: toml::Table = body.parse().ok()?;
    Some(MarkerMetadata {
        priority: table.get("priority").map(|v| v.as_integer().unwrap() as i32),
        depends_on: names_in(&table, "depends_on"),
        worktree_branch: table
            .get("worktree_branch")
            .map(|v| v.as_str().unwrap().to_string()),
        parallel_sections: names_in(&table, "parallel_sections"),
        max_section_retries: table
            .get("max_section_retries")
            .map(|v| v.as_integer().unwrap() as u32),
    })
}

fn scan_tree(tree: &[Entry]) -> Vec<DiscoveredChange> {
    let entries = tree
        .iter()
        .map(|(name, is_dir, marker)| ChangesEntry {
            is_dir: *is_dir,
            change: DiscoveredChange {
                name: name.to_string(),
                path: format!("/repo/openspec/changes/{name}"),
                status: classify(
                    marker.and_then(|body| MarkerMetadata::parse(body, metadata(body))),
                ),
            },
        })
        .collect();
    scan(entries)
}

#[test]
fn missing_openspec_dir_is_not_an_error() {
    assert!(scan_tree(&[]).is_empty());
}

#[test]
fn draft_change_has_no_marker() {
    let out = scan_tree(&[("add-oauth", true, None)]);
    assert_eq!(out.len(), 1);
    assert_eq!(out[0].name, "add-oauth");
    assert_eq!(out[0].status, ChangeStatus::Drafted);
}

#[test]
fn marker_present_classifies_as_queued() {
    let out = scan_tree(&[("add-oauth", true, Some(""))]);
    assert_eq!(out.len(), 1);
    match &out[0].status {
        ChangeStatus::Queued(m) => assert_eq!(m, &MarkerMetadata::default()),
        other => panic!("expected Queued, got {other:?}"),
    }
    assert_eq!(MARKER_FILENAME, ".clhorde-ready");
}

#[test]
fn marker_with_full_metadata_round_trips() {
    let body = r#"
priority = 5
worktree_branch = "feature/oauth"
depends_on = ["add-base-auth", "add-secrets"]
parallel_sections = ["3", "4"]
max_section_retries = 2
"#;
    let out = scan_tree(&[("add-oauth", true, Some(body))]);
    match &out[0].status {
        ChangeStatus::Queued(m) => {
            assert_eq!(m.priority, Some(5));
            assert_eq!(m.worktree_branch.as_deref(), Some("feature/oauth"));
            assert_eq!(
                m.depends_on,
                vec!["add-base-auth".to_string(), "add-secrets".to_string()]
            );
            assert_eq!(m.parallel_sections, vec!["3".to_string(), "4".to_string()]);
            assert_eq!(m.max_section_retries, Some(2));
        }
        other => panic!("expected Queued, got {other:?}"),
    }
}

#[test]
fn marker_with_partial_metadata_uses_defaults() {
    let out = scan_tree(&[("add-oauth", true, Some("priority = 7\n"))]);
    match &out[0].status {
        ChangeStatus::Queued(m) => {
            assert_eq!(m.priority, Some(7));
            assert!(m.depends_on.is_empty());
            assert!(m.worktree_branch.is_none());
        }
        other => panic!("expected Queued, got {other:?}"),
    }
}

#[test]
fn unknown_fields_are_ignored() {
    let body = r#"
priority = 3
future_field = "ignore me"
nested = { also = "ignored" }
"#;
    let out = scan_tree(&[("add-oauth", true, Some(body))]);
    match &out[0].status {
        ChangeStatus::Queued(m) => assert_eq!(m.priority, Some(3)),
        other => panic!("expected Queued, got {other:?}"),
    }
}

#[test]
fn malformed_marker_falls_back_to_drafted() {
    let out = scan_tree(&[("add-oauth", true, Some("this = is not [[valid"))]);
    assert_eq!(out[0].status, ChangeStatus::Drafted);
}

#[test]
fn mixed_drafts_and_queued_are_sorted_by_name() {
    let out = scan_tree(&[
        ("zeta", true, None),
        ("alpha", true, Some("")),
        ("mu", true, None),
    ]);
    let names: Vec<&str> = out.iter().map(|c| c.name.as_str()).collect();
    assert_eq!(names, vec!["alpha", "mu", "zeta"]);
    assert!(out[0].status.is_queued());
    assert!(!out[1].status.is_queued());
    assert!(!out[2].status.is_queued());
}

#[test]
fn dotfiles_are_skipped() {
    let names: Vec<String> = scan_tree(&[(".archive", true, None), ("real-change", true, None)])
        .into_iter()
        .map(|c| c.name)
        .collect();
    assert_eq!(names, vec!["real-change".to_string()]);
}

#[test]
fn files_at_changes_root_are_ignored() {
    let names: Vec<String> = scan_tree(&[("README.md", false, None), ("add-oauth", true, None)])
        .into_iter()
        .map(|c| c.name)
        .collect();
    assert_eq!(names, vec!["add-oauth".to_string()]);
}
