//! Worktrees: where they lie and what git said of them.

use clhorde::worktree::{
    create_worktree, create_worktree_named, listed_worktrees, parent_of, prompt_worktree_path, repo_name, repo_root,
    sanitize_worktree_suffix, worktree_added, worktree_exists, worktree_path, worktree_removed,
    GitRun, ListedWorktree, WorktreeStep,
};

#[test]
fn repo_name_extracts_dirname() {
    assert_eq!(repo_name("/home/user/myrepo"), "myrepo");
    assert_eq!(repo_name("/foo/bar"), "bar");
}

#[test]
fn repo_name_fallback_for_root() {
    assert_eq!(repo_name("/"), "repo");
}

#[test]
fn repo_root_none_for_non_repo() {
    assert!(repo_root(false, "").is_none());
}

#[test]
fn repo_root_is_what_git_printed() {
    assert_eq!(repo_root(true, "/home/user/myrepo\n"), Some("/home/user/myrepo".into()));
}

#[test]
fn sanitize_worktree_suffix_passthrough() {
    assert_eq!(sanitize_worktree_suffix("abc-123"), "abc-123");
    assert_eq!(sanitize_worktree_suffix("Foo.Bar_42"), "Foo.Bar_42");
}

#[test]
fn sanitize_worktree_suffix_replaces_unsafe() {
    assert_eq!(sanitize_worktree_suffix("a/b\\c"), "a-b-c");
    assert_eq!(sanitize_worktree_suffix("hello world!"), "hello-world");
}

#[test]
fn sanitize_worktree_suffix_collapses_runs() {
    assert_eq!(sanitize_worktree_suffix("a   b"), "a-b");
    assert_eq!(sanitize_worktree_suffix("//a//"), "a");
}

#[test]
fn sanitize_worktree_suffix_empty_falls_back() {
    assert_eq!(sanitize_worktree_suffix(""), "wt");
    assert_eq!(sanitize_worktree_suffix("///"), "wt");
}

#[test]
fn a_worktree_lies_beside_its_repository() {
    let named = worktree_path("/home/user/myrepo", "my-shared-id").unwrap();
    assert!(named.ends_with("-wt-my-shared-id"), "unexpected path: {named}");
    assert_eq!(named, "/home/user/myrepo-wt-my-shared-id");
    assert_eq!(
        prompt_worktree_path("/home/user/myrepo", 42).unwrap(),
        "/home/user/myrepo-wt-42"
    );
    assert!(worktree_path("/", "x").is_err());
    assert_eq!(parent_of("/home/user"), Some("/home".into()));
    assert_eq!(parent_of("/"), None);
}

#[test]
fn a_worktree_exists_where_git_lists_its_directory() {
    let output = "worktree /r\nHEAD abc\nbranch refs/heads/main\n\nworktree /r-wt-1\nHEAD abc\ndetached\n";
    assert_eq!(listed_worktrees(output), vec!["/r", "/r-wt-1"]);
    let listed = vec![
        ListedWorktree {
            path: "/r".into(),
            canonical: Some("/r".into()),
        },
        ListedWorktree {
            path: "/r-wt-1".into(),
            canonical: Some("/mnt/r-wt-1".into()),
        },
    ];
    let here = Some("/mnt/r-wt-1".to_string());
    assert!(worktree_exists(true, &listed, "/r-wt-1", &here));
    assert!(worktree_exists(true, &listed, "/link", &here));
    assert!(!worktree_exists(false, &listed, "/r-wt-1", &here));
    assert!(!worktree_exists(true, &listed, "/other", &Some("/other".into())));
}

#[test]
fn git_failures_are_reported() {
    assert_eq!(worktree_added("/w".into(), GitRun::Success), Ok("/w".into()));
    let e = worktree_added("/w".into(), GitRun::Failed { stderr: "locked".into() }).unwrap_err();
    assert!(e.contains("locked"));
    let e = worktree_added("/w".into(), GitRun::NotStarted { error: "no git".into() }).unwrap_err();
    assert!(e.contains("no git"));
    assert_eq!(worktree_removed(GitRun::Success), Ok(()));
    assert!(worktree_removed(GitRun::Failed { stderr: "busy".into() })
        .unwrap_err()
        .contains("busy"));
    assert!(worktree_removed(GitRun::NotStarted { error: "no git".into() })
        .unwrap_err()
        .contains("no git"));
}

#[test]
fn create_worktree_then_reuse_on_second_call() {
    let repo = "/home/user/myrepo";
    let wt = match create_worktree(repo, 42, false).expect("first create") {
        WorktreeStep::Add { path } => worktree_added(path, GitRun::Success).unwrap(),
        WorktreeStep::Reuse { .. } => panic!("nothing to reuse"),
    };
    let listing = format!("worktree {repo}\n\nworktree {wt}\n");
    let worktrees = listed_worktrees(&listing)
        .into_iter()
        .map(|path| ListedWorktree {
            path,
            canonical: None,
        })
        .collect();
    let known = worktree_exists(true, &worktrees, &wt, &None);
    assert!(known);
    assert_eq!(
        create_worktree(repo, 42, known),
        Ok(WorktreeStep::Reuse { path: wt })
    );
}

#[test]
fn create_worktree_named_uses_suffix() {
    match create_worktree_named("/home/user/myrepo", "add-oauth", false).unwrap() {
        WorktreeStep::Add { path } => assert_eq!(path, "/home/user/myrepo-wt-add-oauth"),
        WorktreeStep::Reuse { .. } => panic!("nothing to reuse"),
    }
    assert!(create_worktree_named("/", "x", false).is_err());
}

#[test]
fn create_worktree_named_idempotent() {
    let step = create_worktree_named("/home/user/myrepo", "feat", true);
    assert_eq!(
        step,
        Ok(WorktreeStep::Reuse {
            path: "/home/user/myrepo-wt-feat".into()
        })
    );
}

#[test]
fn prompts_have_worktrees_of_their_own() {
    let a = prompt_worktree_path("/home/user/myrepo", 1).unwrap();
    let b = prompt_worktree_path("/home/user/myrepo", 11).unwrap();
    assert_eq!(a, "/home/user/myrepo-wt-1");
    assert_eq!(b, "/home/user/myrepo-wt-11");
}
