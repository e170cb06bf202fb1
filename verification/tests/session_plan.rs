use twig::command::{ControlCommand, SplitDirection};
use twig::config::{Pane, Project, Window, WindowConfig, WorktreeConfig};
use twig::tmux::{
    blocking_send, connect_args, connect_to_session, get_base_index, is_project_session,
    kill_other_worktree_sessions_for_project, kill_poll, kill_session, kill_timeout_message,
    list_sessions, make_pane_target, make_window_target, running_project_sessions,
    running_worktree_sessions_for_project, safe_kill_session, socket_connect_args,
    unique_wait_token, wait_token_at, window_commands, KillPoll, KillPreparation,
    SessionBuilder, SessionRun, KILL_POLL_MILLIS, KILL_TIMEOUT_MILLIS,
};
use twig::tmux_control::ControlError;

fn s(t: &str) -> String {
    t.to_string()
}

fn keys(target: &str, keys: &str) -> ControlCommand {
    ControlCommand::SendKeys { target: s(target), keys: s(keys), enter: true }
}

fn three_windows() -> Vec<Window> {
    vec![
        Window::Simple { name: s("editor"), command: Some(s("nvim")) },
        Window::Complex {
            name: s("server"),
            config: WindowConfig {
                layout: Some(s("main-horizontal")),
                panes: vec![Pane::Command(s("rails s")), Pane::Command(s("tail -f log"))],
            },
        },
        Window::Simple { name: s("shell"), command: None },
    ]
}

fn project(windows: Vec<Window>, post_create: Vec<&str>) -> Project {
    Project {
        name: s("demo"),
        root: s("/srv/demo"),
        repo: None,
        windows,
        worktree: Some(WorktreeConfig {
            copy: vec![],
            symlink: vec![],
            post_create: post_create.into_iter().map(s).collect(),
            handoff_windows: vec![],
        }),
    }
}

/// The window names of a session after the commands of a plan, as the
/// multiplexer would list them.
fn window_names_after(plan: &[ControlCommand], session: &str) -> Vec<String> {
    let mut names: Vec<String> = Vec::new();
    for command in plan {
        match command {
            ControlCommand::NewSession { name, window, .. } if name == session => {
                names = vec![window.clone()];
            }
            ControlCommand::NewWindow { session: of, name, .. } if of == session => {
                names.push(name.clone());
            }
            ControlCommand::RenameWindow { target, name } => {
                if let Some(old) = names
                    .iter_mut()
                    .find(|old| format!("{}:{}", session, old) == *target)
                {
                    *old = name.clone();
                }
            }
            _ => {}
        }
    }
    names
}

#[test]
fn session_names_of_a_project() {
    assert!(is_project_session("demo", "demo"));
    assert!(is_project_session("demo", "demo__feature"));
    assert!(is_project_session("demo", "demo__a__b"));
    assert!(!is_project_session("demo", "demo_feature"));
    assert!(!is_project_session("demo", "demolition"));
    assert!(!is_project_session("demo", "other__demo"));
    assert!(is_project_session("", "__x"));
    let sessions: Vec<String> =
        ["other", "demo__b", "demo", "demo2", "demo__a", "x__demo"].iter().map(|t| s(t)).collect();
    assert_eq!(running_project_sessions("demo", &sessions), vec!["demo__b", "demo", "demo__a"]);
    assert_eq!(
        running_worktree_sessions_for_project("demo", &sessions),
        vec!["demo__b", "demo__a"]
    );
    assert_eq!(
        kill_other_worktree_sessions_for_project("demo", "demo__a", &sessions),
        vec!["demo__b"]
    );
    assert!(running_project_sessions("none", &sessions).is_empty());
    assert!(running_project_sessions("demo", &vec![]).is_empty());
}

#[test]
fn targets() {
    assert_eq!(make_window_target("demo", "editor"), "demo:editor");
    assert_eq!(make_pane_target("demo:editor", 0), "demo:editor.0");
    assert_eq!(make_pane_target("demo:editor", 4294967295), "demo:editor.4294967295");
}

#[test]
fn wait_tokens_are_exact_and_differ_by_index() {
    assert_eq!(wait_token_at("demo", 3, 1700000000123456789), "twig-post-create-demo-3-1700000000123456789");
    assert_eq!(wait_token_at("", 0, 0), "twig-post-create--0-0");
    assert_ne!(wait_token_at("demo", 1, 23), wait_token_at("demo", 12, 3));
    assert_ne!(wait_token_at("demo", 1, 5), wait_token_at("demo", 2, 5));
    let mut seen = Vec::new();
    for index in 0..200 {
        let token = unique_wait_token("demo", index);
        assert!(token.starts_with(&format!("twig-post-create-demo-{}-", index)));
        assert!(!seen.contains(&token));
        seen.push(token);
    }
}

#[test]
fn blank_commands_send_nothing() {
    assert!(blocking_send("demo:setup-twig", "", "tok").is_empty());
    assert!(blocking_send("demo:setup-twig", "   ", "tok").is_empty());
    assert!(blocking_send("demo:setup-twig", " \t\r\n\u{a0}\u{3000}", "tok").is_empty());
    let builder = SessionBuilder::new(&project(vec![], vec!["", "  ", "\n"]));
    assert!(builder.post_create_commands(42).is_empty());
    assert!(builder.run_post_create_with_control().is_empty());
    let builder = SessionBuilder::new(&project(vec![], vec![]));
    assert!(builder.post_create_commands(42).is_empty());
    assert!(builder.run_post_create_with_control().is_empty());
}

#[test]
fn blocking_send_types_the_command_and_waits() {
    assert_eq!(
        blocking_send("demo:setup-twig", "  bundle install \n", "tok-1"),
        vec![
            keys("demo:setup-twig", "bundle install; tmux wait-for -S tok-1"),
            ControlCommand::WaitFor { token: s("tok-1") },
        ]
    );
}

#[test]
fn post_create_commands_run_in_order_with_their_tokens() {
    let builder = SessionBuilder::new(&project(vec![], vec!["bundle install", " ", "yarn"]));
    assert_eq!(
        builder.post_create_commands(99),
        vec![
            keys(
                "demo:setup-twig",
                "bundle install; tmux wait-for -S twig-post-create-demo-0-99"
            ),
            ControlCommand::WaitFor { token: s("twig-post-create-demo-0-99") },
            keys("demo:setup-twig", "yarn; tmux wait-for -S twig-post-create-demo-2-99"),
            ControlCommand::WaitFor { token: s("twig-post-create-demo-2-99") },
        ]
    );
    let plan = builder.run_post_create_with_control();
    assert_eq!(plan.len(), 4);
    match (&plan[0], &plan[1]) {
        (ControlCommand::SendKeys { target, keys, enter }, ControlCommand::WaitFor { token }) => {
            assert_eq!(target, "demo:setup-twig");
            assert_eq!(keys, &format!("bundle install; tmux wait-for -S {}", token));
            assert!(*enter);
            assert!(token.starts_with("twig-post-create-demo-0-"));
            let now: u128 = token["twig-post-create-demo-0-".len()..].parse().unwrap();
            assert!(now > 0);
            assert_eq!(plan, builder.post_create_commands(now));
        }
        other => panic!("unexpected commands {:?}", other),
    }
}

#[test]
fn create_declares_the_environment_twice() {
    let builder = SessionBuilder::new(&project(vec![], vec![]));
    assert_eq!(
        builder.create_session_commands("/srv/demo"),
        vec![
            ControlCommand::NewSession {
                name: s("demo"),
                window: s("setup-twig"),
                cwd: s("/srv/demo"),
                env: vec![(s("TWIG_PROJECT"), s("demo"))],
            },
            ControlCommand::SetEnvironment {
                session: s("demo"),
                name: s("TWIG_PROJECT"),
                value: s("demo"),
            },
        ]
    );
    assert_eq!(
        builder.create_session_with_control(),
        builder.create_session_commands("/srv/demo")
    );
    let worktree = SessionBuilder::new(&project(vec![], vec![]))
        .with_session_name(s("demo__feature-x"))
        .with_root(s("/trees/demo/feature-x"))
        .with_worktree(s("feature/x"));
    assert_eq!(
        worktree.create_session_with_control(),
        vec![
            ControlCommand::NewSession {
                name: s("demo__feature-x"),
                window: s("setup-twig"),
                cwd: s("/trees/demo/feature-x"),
                env: vec![(s("TWIG_PROJECT"), s("demo")), (s("TWIG_WORKTREE"), s("feature/x"))],
            },
            ControlCommand::SetEnvironment {
                session: s("demo__feature-x"),
                name: s("TWIG_PROJECT"),
                value: s("demo"),
            },
            ControlCommand::SetEnvironment {
                session: s("demo__feature-x"),
                name: s("TWIG_WORKTREE"),
                value: s("feature/x"),
            },
        ]
    );
}

#[test]
fn builder_takes_over_the_project() {
    let builder = SessionBuilder::new(&project(three_windows(), vec!["make"]));
    assert_eq!(builder.session_name, "demo");
    assert_eq!(builder.project_name, "demo");
    assert_eq!(builder.root, "/srv/demo");
    assert_eq!(builder.windows, three_windows());
    assert_eq!(builder.worktree_branch, None);
    assert_eq!(builder.post_create_commands, vec!["make"]);
    let mut bare = project(vec![], vec![]);
    bare.worktree = None;
    assert!(SessionBuilder::new(&bare).post_create_commands.is_empty());
    let builder = builder.with_session_name(s("x")).with_root(s("/y")).with_worktree(s("z"));
    assert_eq!(builder.session_name, "x");
    assert_eq!(builder.root, "/y");
    assert_eq!(builder.worktree_branch, Some(s("z")));
    assert_eq!(builder.project_name, "demo");
}

#[test]
fn stacked_window_of_two_panes_splits_once_and_lays_out_once() {
    let builder = SessionBuilder::new(&project(three_windows(), vec![]));
    let plan = builder.setup_windows_commands("/srv/demo", 0);
    assert_eq!(
        plan,
        vec![
            ControlCommand::RenameWindow { target: s("demo:setup-twig"), name: s("editor") },
            keys("demo:editor", "nvim"),
            ControlCommand::NewWindow { session: s("demo"), name: s("server"), cwd: s("/srv/demo") },
            keys("demo:server", "rails s"),
            ControlCommand::SplitWindow {
                target: s("demo:server"),
                cwd: s("/srv/demo"),
                direction: Some(SplitDirection::Stacked),
            },
            keys("demo:server", "tail -f log"),
            ControlCommand::SelectLayout { target: s("demo:server"), layout: s("main-horizontal") },
            ControlCommand::SelectPane { target: s("demo:server.0") },
            ControlCommand::NewWindow { session: s("demo"), name: s("shell"), cwd: s("/srv/demo") },
            ControlCommand::SelectWindow { target: s("demo:editor") },
        ]
    );
    let splits = plan
        .iter()
        .filter(|c| matches!(c, ControlCommand::SplitWindow { .. }))
        .count();
    assert_eq!(splits, 1);
    let layouts: Vec<usize> = plan
        .iter()
        .enumerate()
        .filter(|(_, c)| matches!(c, ControlCommand::SelectLayout { .. }))
        .map(|(i, _)| i)
        .collect();
    assert_eq!(layouts, vec![6]);
    assert_eq!(builder.setup_windows_with_control(0), plan);
}

#[test]
fn built_session_lists_the_configured_windows_in_order() {
    let builder = SessionBuilder::new(&project(three_windows(), vec!["make"]));
    let plan = builder.start_with_control(1);
    assert_eq!(window_names_after(&plan, "demo"), vec!["editor", "server", "shell"]);
    let whole = builder.build_commands("/srv/demo", 5, 1);
    let mut parts = builder.create_session_commands("/srv/demo");
    parts.extend(builder.post_create_commands(5));
    parts.extend(builder.setup_windows_commands("/srv/demo", 1));
    assert_eq!(whole, parts);
    assert_eq!(plan.len(), whole.len());
    assert_eq!(plan[..2], whole[..2]);
    assert_eq!(plan[4..], whole[4..]);
    assert!(plan.contains(&ControlCommand::SelectPane { target: s("demo:server.1") }));
}

#[test]
fn session_without_windows_keeps_one_default_window() {
    let builder = SessionBuilder::new(&project(vec![], vec![]));
    let plan = builder.setup_windows_commands("/srv/demo", 0);
    assert_eq!(
        plan,
        vec![
            ControlCommand::RenameWindow { target: s("demo:setup-twig"), name: s("shell") },
            ControlCommand::SelectWindow { target: s("demo:shell") },
        ]
    );
    assert_eq!(window_names_after(&builder.start_with_control(0), "demo"), vec!["shell"]);
}

#[test]
fn window_without_panes_or_command_is_left_idle() {
    let idle = Window::Simple { name: s("shell"), command: None };
    assert!(window_commands("demo", &idle, "/srv/demo", 0).is_empty());
    let no_panes = Window::Complex {
        name: s("empty"),
        config: WindowConfig { layout: None, panes: vec![] },
    };
    let plan = window_commands("demo", &no_panes, "/srv/demo", 0);
    assert_eq!(plan, vec![ControlCommand::SelectPane { target: s("demo:empty.0") }]);
    let empty_panes = Window::Complex {
        name: s("quiet"),
        config: WindowConfig { layout: Some(s("tiled")), panes: vec![Pane::Empty, Pane::Empty, Pane::Empty] },
    };
    let plan = window_commands("demo", &empty_panes, "/srv/demo", 2);
    assert!(!plan.iter().any(|c| matches!(c, ControlCommand::SendKeys { .. })));
    assert_eq!(
        plan,
        vec![
            ControlCommand::SplitWindow {
                target: s("demo:quiet"),
                cwd: s("/srv/demo"),
                direction: Some(SplitDirection::SideBySide),
            },
            ControlCommand::SplitWindow {
                target: s("demo:quiet"),
                cwd: s("/srv/demo"),
                direction: Some(SplitDirection::SideBySide),
            },
            ControlCommand::SelectLayout { target: s("demo:quiet"), layout: s("tiled") },
            ControlCommand::SelectPane { target: s("demo:quiet.2") },
        ]
    );
}

#[test]
fn a_run_stops_at_the_first_failure() {
    let plan = vec![
        ControlCommand::SelectWindow { target: s("a") },
        ControlCommand::SelectWindow { target: s("b") },
        ControlCommand::SelectWindow { target: s("c") },
    ];
    let mut run = SessionRun::new(plan);
    assert_eq!(run.action(), Some(&ControlCommand::SelectWindow { target: s("a") }));
    assert_eq!(run.outcome().map(|r| r.is_ok()), None);
    run.handle(Ok(vec![]));
    assert_eq!(run.action(), Some(&ControlCommand::SelectWindow { target: s("b") }));
    run.handle(Err(ControlError::Protocol(s("%error 1 2 0"))));
    assert_eq!(run.action(), None);
    assert!(matches!(
        run.outcome(),
        Some(Err(ControlError::Protocol(line))) if line == "%error 1 2 0"
    ));
    run.handle(Ok(vec![]));
    assert_eq!(run.action(), None);
    assert!(matches!(run.outcome(), Some(Err(ControlError::Protocol(_)))));

    let mut run = SessionRun::new(vec![ControlCommand::KillSession { name: s("x") }]);
    run.handle(Ok(vec![s("ignored")]));
    assert_eq!(run.action(), None);
    assert!(matches!(run.outcome(), Some(Ok(()))));
    let run = SessionRun::new(vec![]);
    assert_eq!(run.action(), None);
    assert!(matches!(run.outcome(), Some(Ok(()))));
}

#[test]
fn stopping_a_session() {
    assert_eq!(kill_session("demo"), ControlCommand::KillSession { name: s("demo") });
    assert_eq!(KILL_TIMEOUT_MILLIS, 30000);
    assert_eq!(KILL_POLL_MILLIS, 200);
    assert_eq!(kill_poll(false, 0, 30000), KillPoll::Stopped);
    assert_eq!(kill_poll(false, 40000, 30000), KillPoll::Stopped);
    assert_eq!(kill_poll(true, 0, 30000), KillPoll::Wait);
    assert_eq!(kill_poll(true, 29999, 30000), KillPoll::Wait);
    assert_eq!(kill_poll(true, 30000, 30000), KillPoll::TimedOut);
    assert_eq!(kill_poll(true, 30001, 30000), KillPoll::TimedOut);
    assert_eq!(
        kill_timeout_message("demo"),
        "Timed out waiting for session 'demo' to stop"
    );
    let sessions = vec![s("demo"), s("other"), s("third")];
    assert_eq!(safe_kill_session("demo", None, &sessions), KillPreparation::Nothing);
    assert_eq!(safe_kill_session("demo", Some("other"), &sessions), KillPreparation::Nothing);
    assert_eq!(
        safe_kill_session("demo", Some("demo"), &sessions),
        KillPreparation::SwitchTo(s("other"))
    );
    assert_eq!(
        safe_kill_session("demo", Some("demo"), &vec![s("demo")]),
        KillPreparation::Detach
    );
    assert_eq!(safe_kill_session("demo", Some("demo"), &vec![]), KillPreparation::Detach);
}

#[test]
fn connecting_switches_inside_and_attaches_outside() {
    assert_eq!(connect_to_session("demo", true), vec!["switch-client", "-t", "demo"]);
    assert_eq!(connect_to_session("demo", false), vec!["attach-session", "-t", "demo"]);
}

#[test]
fn control_mode_arguments() {
    assert_eq!(connect_args(None), vec!["-C"]);
    assert_eq!(connect_args(Some("test-server")), vec!["-L", "test-server", "-C"]);
    assert_eq!(socket_connect_args("/tmp/tmux-0/default"), vec!["-S", "/tmp/tmux-0/default", "-C"]);
}

#[test]
fn session_lists_are_read_line_by_line() {
    assert_eq!(list_sessions("demo\ndemo__x\nother\n"), vec!["demo", "demo__x", "other"]);
    assert_eq!(list_sessions("demo\r\nmy session"), vec!["demo", "my session"]);
    assert!(list_sessions("").is_empty());
}

#[test]
fn base_index_is_read_or_zero() {
    assert_eq!(get_base_index("1\n"), 1);
    assert_eq!(get_base_index(" 0 "), 0);
    assert_eq!(get_base_index(""), 0);
    assert_eq!(get_base_index("on"), 0);
    assert_eq!(get_base_index("-1"), 0);
    assert_eq!(get_base_index("4294967295"), 4294967295);
    assert_eq!(get_base_index("4294967296"), 0);
}
