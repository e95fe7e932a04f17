use labolabo_app::new_task::{attached_identity, default_base, prepare_worktree, worktree_path};

#[test]
fn worktree_goes_under_dot_worktrees_with_slashes_as_dashes() {
    assert_eq!(worktree_path("/repo", "feature/x"), "/repo/.worktrees/feature-x");
    assert_eq!(worktree_path("/repo/", "labolabo/2024-01-02/a"), "/repo/.worktrees/labolabo-2024-01-02-a");
}

#[test]
fn base_defaults_to_main_without_a_current_branch() {
    assert_eq!(default_base(Some("dev".to_string())), "dev");
    assert_eq!(default_base(None), "main");
}

#[test]
fn a_directory_outside_a_repository_is_its_own_identity() {
    assert_eq!(
        attached_identity(None, "/tmp/x"),
        ("/tmp/x".to_string(), "/tmp/x".to_string(), "/tmp/x".to_string())
    );
    let repo = ("k".to_string(), "/r".to_string(), "r".to_string());
    assert_eq!(attached_identity(Some(repo.clone()), "/r/sub"), repo);
}

#[test]
fn prepared_worktree_records_the_path_for_its_branch() {
    let p = prepare_worktree(
        "key".to_string(),
        "/repo".to_string(),
        "repo".to_string(),
        "a/b".to_string(),
        "main".to_string(),
    );
    assert_eq!(p.worktree_path, "/repo/.worktrees/a-b");
    assert_eq!(p.branch, "a/b");
    assert_eq!(p.base, "main");
}
