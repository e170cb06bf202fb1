use twig::git::{
    fallback_default_branch, get_default_branch, list_worktrees, no_branch_name_message,
    parse_pr_number, select_pr_branch_name, WorktreeInfo,
};

#[test]
fn test_parse_pr_number() {
    assert_eq!(parse_pr_number("#123"), Some(123));
    assert_eq!(parse_pr_number(" #42 "), Some(42));
    assert_eq!(parse_pr_number("#"), None);
    assert_eq!(parse_pr_number("#abc"), None);
    assert_eq!(parse_pr_number("123"), None);
}

#[test]
fn parse_pr_number_edges() {
    assert_eq!(parse_pr_number(""), None);
    assert_eq!(parse_pr_number("   "), None);
    assert_eq!(parse_pr_number("#0"), Some(0));
    assert_eq!(parse_pr_number("#007"), Some(7));
    assert_eq!(parse_pr_number("#+5"), None);
    assert_eq!(parse_pr_number("#-5"), None);
    assert_eq!(parse_pr_number("#1 2"), None);
    assert_eq!(parse_pr_number("##1"), None);
    assert_eq!(parse_pr_number("#12a"), None);
    assert_eq!(parse_pr_number("#\u{0663}"), None);
    assert_eq!(parse_pr_number("#18446744073709551615"), Some(u64::MAX));
    assert_eq!(parse_pr_number("#18446744073709551616"), None);
    assert_eq!(parse_pr_number("#99999999999999999999999"), None);
    assert_eq!(parse_pr_number("\u{3000}#9\u{00a0}"), Some(9));
}

#[test]
fn pr_branch_names_in_order() {
    assert_eq!(select_pr_branch_name(17, "fix/login", 0), Some("pr-17".to_string()));
    assert_eq!(
        select_pr_branch_name(17, "fix/login", 1),
        Some("pr-17-fix/login".to_string())
    );
    assert_eq!(
        select_pr_branch_name(17, "fix/login", 2),
        Some("pr-17-fix/login-2".to_string())
    );
    assert_eq!(
        select_pr_branch_name(17, "fix/login", 50),
        Some("pr-17-fix/login-50".to_string())
    );
    assert_eq!(select_pr_branch_name(17, "fix/login", 51), None);
    assert_eq!(select_pr_branch_name(0, "", 1), Some("pr-0-".to_string()));
}

#[test]
fn worktree_lists_are_read() {
    let output = "worktree /srv/demo\nHEAD 1111\nbranch refs/heads/main\n\n\
worktree /trees/demo/feature-x\nHEAD 2222\nbranch refs/heads/feature/x\n\n\
worktree /trees/demo/detached\nHEAD 3333\ndetached\n\n\
worktree /trees/demo/odd\nHEAD 4444\nbranch odd-ref\n";
    let info = |path: &str, branch: &str| WorktreeInfo {
        path: path.to_string(),
        branch: branch.to_string(),
    };
    assert_eq!(
        list_worktrees(output),
        vec![
            info("/srv/demo", "main"),
            info("/trees/demo/feature-x", "feature/x"),
            info("/trees/demo/odd", "odd-ref"),
        ]
    );
    assert!(list_worktrees("").is_empty());
    assert!(list_worktrees("branch refs/heads/main\n").is_empty());
    assert!(list_worktrees("worktree /a\n").is_empty());
    assert_eq!(
        list_worktrees("worktree /a\r\nbranch refs/heads/b\r\nbranch refs/heads/c"),
        vec![info("/a", "c")]
    );
    assert_eq!(
        list_worktrees("branch refs/heads/z\nworktree /a\nworktree /b\nbranch refs/heads/b\n"),
        vec![info("/b", "b")]
    );
}

#[test]
fn default_branches() {
    assert_eq!(get_default_branch("origin/main\n"), "main");
    assert_eq!(get_default_branch("  origin/develop  "), "develop");
    assert_eq!(get_default_branch("origin/"), "");
    assert_eq!(get_default_branch("upstream/trunk"), "main");
    assert_eq!(get_default_branch(""), "main");
    assert_eq!(fallback_default_branch(true, false), "main");
    assert_eq!(fallback_default_branch(true, true), "main");
    assert_eq!(fallback_default_branch(false, true), "master");
    assert_eq!(fallback_default_branch(false, false), "main");
    assert_eq!(
        no_branch_name_message(17),
        "Unable to find available branch name for PR #17"
    );
}
