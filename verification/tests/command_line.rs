use twig::cli::{is_own_session, new_project_config, pane_entry, socket_path, PaneEntry};

#[test]
fn socket_comes_from_the_flag_or_the_environment() {
    assert_eq!(
        socket_path(Some("/tmp/mine".to_string()), Some("/tmp/tmux-0/default,123,0")),
        Some("/tmp/mine".to_string())
    );
    assert_eq!(
        socket_path(None, Some("/tmp/tmux-0/default,123,0")),
        Some("/tmp/tmux-0/default".to_string())
    );
    assert_eq!(socket_path(None, Some("/tmp/sock")), Some("/tmp/sock".to_string()));
    assert_eq!(socket_path(None, Some(",123,0")), None);
    assert_eq!(socket_path(None, Some("")), None);
    assert_eq!(socket_path(None, None), None);
    assert_eq!(socket_path(Some(String::new()), None), Some(String::new()));
}

#[test]
fn pane_entries_need_four_fields() {
    assert_eq!(
        pane_entry("0\t%1\tzsh\t/srv/app\t4242"),
        Some(PaneEntry {
            index: "0".to_string(),
            id: "%1".to_string(),
            command: "zsh".to_string(),
            path: "/srv/app".to_string(),
        })
    );
    assert_eq!(
        pane_entry("1\t\t\t"),
        Some(PaneEntry {
            index: "1".to_string(),
            id: String::new(),
            command: String::new(),
            path: String::new(),
        })
    );
    assert_eq!(pane_entry("0\t%1\tzsh"), None);
    assert_eq!(pane_entry(""), None);
}

#[test]
fn own_sessions_bear_a_project_name() {
    let projects = vec!["demo".to_string(), "app".to_string()];
    assert!(is_own_session("demo", &projects));
    assert!(is_own_session("app__feature", &projects));
    assert!(is_own_session("app_x", &projects));
    assert!(!is_own_session("apple", &projects));
    assert!(!is_own_session("de", &projects));
    assert!(!is_own_session("other", &projects));
    assert!(!is_own_session("demo", &[]));
}

#[test]
fn new_project_files() {
    let body = "
windows:
  - editor:
      panes:
        - nvim
  - shell:
  - shell:
  - git: lazygit

# Worktree configuration (optional)
# worktree:
#   copy:
#     - .env
#     - .env.local
#   symlink:
#     - .env
#   post_create:
#     - bundle install
#     - yarn install
#   # Optional: pause/resume these windows when running `twig window activate`
#   handoff_windows:
#     - rails
#     - sidekiq
";
    assert_eq!(
        new_project_config("demo", "~/Work/demo", Some("git@github.com:u/demo.git")),
        format!("name: demo\nroot: ~/Work/demo\nrepo: git@github.com:u/demo.git\n{}", body)
    );
    assert_eq!(
        new_project_config("demo", "~/Work/demo", None),
        format!("name: demo\nroot: ~/Work/demo\n{}", body)
    );
}
