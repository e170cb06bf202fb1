use twig::tmux::{is_worktree_session_for_project, worktree_project_name};

#[test]
fn test_worktree_project_name() {
    assert_eq!(
        worktree_project_name("myproject__feature-auth"),
        Some("myproject".to_string())
    );
    assert_eq!(worktree_project_name("myproject"), None);
}

#[test]
fn test_is_worktree_session_for_project() {
    assert!(is_worktree_session_for_project(
        "myproject__feature-auth",
        "myproject"
    ));
    assert!(!is_worktree_session_for_project(
        "other__feature-auth",
        "myproject"
    ));
    assert!(!is_worktree_session_for_project("myproject", "myproject"));
}
