use twig::config::{
    branch_dir_name, copy_optional, copy_texts, copy_windows, default_worktree_base, pick_name,
    GlobalConfig, Pane, Project, Window, WindowConfig, WorktreeConfig,
};

fn demo_project(worktree: Option<WorktreeConfig>) -> Project {
    Project {
        name: "demo".to_string(),
        root: "/tmp/demo".to_string(),
        repo: None,
        windows: vec![Window::Simple {
            name: "shell".to_string(),
            command: None,
        }],
        worktree,
    }
}

#[test]
fn test_worktree_config_default_handoff_windows() {
    let config = WorktreeConfig::default();
    assert!(config.handoff_windows.is_empty());
    assert!(config.copy.is_empty());
}

#[test]
fn test_worktree_config_handoff_windows() {
    let project = demo_project(Some(WorktreeConfig {
        copy: vec![],
        symlink: vec![],
        post_create: vec![],
        handoff_windows: vec!["rails".to_string(), "sidekiq".to_string()],
    }));
    assert_eq!(project.worktree_handoff_windows(), vec!["rails", "sidekiq"]);
}

#[test]
fn test_worktree_session_handoff_windows_are_optional() {
    let project = demo_project(Some(WorktreeConfig {
        copy: vec![".env".to_string()],
        symlink: vec![],
        post_create: vec![],
        handoff_windows: vec![],
    }));
    assert!(project.worktree_handoff_windows().is_empty());
}

#[test]
fn handoff_windows_without_worktree_are_empty() {
    assert!(demo_project(None).worktree_handoff_windows().is_empty());
}

#[test]
fn test_name_from_https_url() {
    assert_eq!(
        Project::name_from_repo_url("https://github.com/user/myrepo.git"),
        Some("myrepo".to_string())
    );
    assert_eq!(
        Project::name_from_repo_url("https://github.com/user/myrepo"),
        Some("myrepo".to_string())
    );
    assert_eq!(
        Project::name_from_repo_url("https://gitlab.com/org/subgroup/repo.git"),
        Some("repo".to_string())
    );
}

#[test]
fn test_name_from_ssh_url() {
    assert_eq!(
        Project::name_from_repo_url("git@github.com:user/myrepo.git"),
        Some("myrepo".to_string())
    );
    assert_eq!(
        Project::name_from_repo_url("git@github.com:user/myrepo"),
        Some("myrepo".to_string())
    );
    assert_eq!(
        Project::name_from_repo_url("git@gitlab.com:org/subgroup/repo.git"),
        Some("repo".to_string())
    );
}

#[test]
fn test_name_from_ssh_protocol_url() {
    assert_eq!(
        Project::name_from_repo_url("ssh://git@github.com/user/myrepo.git"),
        Some("myrepo".to_string())
    );
    assert_eq!(
        Project::name_from_repo_url("ssh://git@github.com/user/myrepo"),
        Some("myrepo".to_string())
    );
}

#[test]
fn test_is_git_url_valid() {
    assert!(Project::is_git_url("https://github.com/user/repo.git"));
    assert!(Project::is_git_url("https://github.com/user/repo"));
    assert!(Project::is_git_url("git@github.com:user/repo.git"));
    assert!(Project::is_git_url("git@github.com:user/repo"));
    assert!(Project::is_git_url("ssh://git@github.com/user/repo.git"));
}

#[test]
fn test_is_git_url_invalid() {
    assert!(!Project::is_git_url("myproject"));
    assert!(!Project::is_git_url("some-name"));
    assert!(!Project::is_git_url("https://example.com"));
    assert!(!Project::is_git_url(""));
}

#[test]
fn urls_are_trimmed_before_matching() {
    assert!(Project::is_git_url("  https://github.com/user/repo.git \n"));
    assert_eq!(
        Project::name_from_repo_url("\tgit@github.com:user/myrepo.git  "),
        Some("myrepo".to_string())
    );
    assert_eq!(Project::name_from_repo_url("not a url"), None);
    assert_eq!(Project::name_from_repo_url(""), None);
}

#[test]
fn pick_name_takes_first_present_non_empty() {
    assert_eq!(pick_name(&vec![]), None);
    assert_eq!(pick_name(&vec![None, None]), None);
    assert_eq!(
        pick_name(&vec![None, Some("b".to_string()), Some("c".to_string())]),
        Some("b".to_string())
    );
    assert_eq!(
        pick_name(&vec![Some(String::new()), None, Some("c".to_string())]),
        Some("c".to_string())
    );
    assert_eq!(pick_name(&vec![Some(String::new())]), None);
}

#[test]
fn worktree_session_name_replaces_slashes() {
    let project = demo_project(None);
    assert_eq!(project.worktree_session_name("feature/auth"), "demo__feature-auth");
    assert_eq!(project.worktree_session_name("a/b/c"), "demo__a-b-c");
    assert_eq!(project.worktree_session_name("main"), "demo__main");
    assert_eq!(project.worktree_session_name(""), "demo__");
}

#[test]
fn window_accessors() {
    let simple = Window::Simple {
        name: "git".to_string(),
        command: Some("lazygit".to_string()),
    };
    assert_eq!(simple.name(), "git");
    assert_eq!(simple.simple_command(), Some("lazygit".to_string()));
    assert!(simple.panes().is_empty());
    assert_eq!(simple.layout(), None);
    assert!(!simple.has_panes());

    let complex = Window::Complex {
        name: "editor".to_string(),
        config: WindowConfig {
            layout: Some("main-vertical".to_string()),
            panes: vec![Pane::Command("nvim".to_string()), Pane::Empty],
        },
    };
    assert_eq!(complex.name(), "editor");
    assert_eq!(complex.simple_command(), None);
    assert_eq!(
        complex.panes(),
        vec![Pane::Command("nvim".to_string()), Pane::Empty]
    );
    assert_eq!(complex.layout(), Some("main-vertical".to_string()));
    assert!(complex.has_panes());

    let bare = Window::Simple {
        name: String::new(),
        command: None,
    };
    assert_eq!(bare.name(), "");
    assert_eq!(bare.simple_command(), None);
}

#[test]
fn pane_command() {
    assert_eq!(Pane::Command("ls".to_string()).command(), Some("ls"));
    assert_eq!(Pane::Empty.command(), None);
    assert_eq!(Pane::Command("ls".to_string()).duplicate(), Pane::Command("ls".to_string()));
}

#[test]
fn global_config_defaults() {
    let config = GlobalConfig::default();
    assert_eq!(config.worktree_base, "~/Work/twig");
    assert_eq!(config.projects_dir, None);
    assert_eq!(default_worktree_base(), "~/Work/twig");
}

#[test]
fn tilde_expansion_keeps_plain_paths() {
    let mut project = demo_project(None);
    assert_eq!(project.root_expanded(), "/tmp/demo");
    project.root = "~other/dir".to_string();
    assert_eq!(project.root_expanded(), "~other/dir");
    project.root = "~/code".to_string();
    let expanded = project.root_expanded();
    match dirs::home_dir() {
        Some(home) => assert_eq!(expanded, format!("{}/code", home.display())),
        None => assert_eq!(expanded, "~/code"),
    }
    project.root = "~".to_string();
    match dirs::home_dir() {
        Some(home) => assert_eq!(project.root_expanded(), home.display().to_string()),
        None => assert_eq!(project.root_expanded(), "~"),
    }
    let config = GlobalConfig {
        worktree_base: "/srv/trees".to_string(),
        projects_dir: None,
    };
    assert_eq!(config.worktree_base_expanded(), "/srv/trees");
}

#[test]
fn names_of_files_and_directories() {
    assert_eq!(Project::config_file_name("demo"), "demo.yml");
    assert_eq!(Project::config_file_name(""), ".yml");
    assert_eq!(branch_dir_name("feature/auth/v2"), "feature-auth-v2");
    assert_eq!(branch_dir_name("main"), "main");
    assert_eq!(branch_dir_name("/"), "-");
}

#[test]
fn copies_keep_what_they_copy() {
    let texts = vec!["a".to_string(), String::new(), "c d".to_string()];
    assert_eq!(copy_texts(&texts), texts);
    assert_eq!(copy_optional(&Some("x".to_string())), Some("x".to_string()));
    assert_eq!(copy_optional(&None), None);
    let windows = vec![
        Window::Simple { name: "git".to_string(), command: Some("lazygit".to_string()) },
        Window::Complex {
            name: "editor".to_string(),
            config: WindowConfig {
                layout: Some("tiled".to_string()),
                panes: vec![Pane::Empty, Pane::Command("nvim".to_string())],
            },
        },
    ];
    assert_eq!(copy_windows(&windows), windows);
}
