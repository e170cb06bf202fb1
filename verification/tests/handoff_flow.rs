use twig::command::ControlCommand;
use twig::config::{Pane, Project, Window, WindowConfig, WorktreeConfig};
use twig::handoff::{
    commands_for_window, contains_text, handoff_failure_message, handoff_project_windows,
    handoff_stop_signal, handoff_stop_token, handoff_windows, parse_pane_infos,
    HandoffCoordinator, HandoffWindow, PaneInfo,
};
use twig::tmux_control::{ControlError, Reply};

fn s(t: &str) -> String {
    t.to_string()
}

fn lines(all: &[&str]) -> Vec<String> {
    all.iter().map(|t| s(t)).collect()
}

fn project(windows: Vec<Window>, handoff: &[&str]) -> Project {
    Project {
        name: s("app"),
        root: s("/srv/app"),
        repo: None,
        windows,
        worktree: Some(WorktreeConfig {
            copy: vec![],
            symlink: vec![],
            post_create: vec![],
            handoff_windows: lines(handoff),
        }),
    }
}

fn server_project() -> Project {
    project(
        vec![
            Window::Simple { name: s("shell"), command: None },
            Window::Simple { name: s("server"), command: Some(s(" bin/dev ")) },
        ],
        &["server"],
    )
}

/// Runs a hand-off against replies chosen by `answer`, and gives every
/// command that was sent.
fn drive(
    coordinator: &mut HandoffCoordinator,
    mut answer: impl FnMut(&ControlCommand) -> Reply,
) -> Vec<ControlCommand> {
    let mut sent = Vec::new();
    while let Some(command) = coordinator.action() {
        assert!(sent.len() < 10_000);
        let reply = answer(&command);
        sent.push(command);
        coordinator.handle(reply);
    }
    assert!(coordinator.is_done());
    sent
}

fn send(target: &str, keys: &str, enter: bool) -> ControlCommand {
    ControlCommand::SendKeys { target: s(target), keys: s(keys), enter }
}

fn stop_of(session: &str, window: &str, index: u32, pid: Option<u32>) -> Vec<ControlCommand> {
    let target = format!("{}:{}.{}", session, window, index);
    let token = format!("twig-handoff-stop:{}:{}:{}", session, window, index);
    let mut all = Vec::new();
    if let Some(pid) = pid {
        all.push(ControlCommand::InterruptProcess { pid });
    }
    all.push(send(&target, "C-c", false));
    all.push(send(&target, &format!("tmux wait-for -S {}", token), true));
    all.push(ControlCommand::WaitFor { token });
    all
}

#[test]
fn stop_tokens_and_signals() {
    assert_eq!(handoff_stop_token("app", "server", 0), "twig-handoff-stop:app:server:0");
    assert_eq!(
        handoff_stop_token("app__x", "my win", 12),
        "twig-handoff-stop:app__x:my win:12"
    );
    assert_eq!(
        handoff_stop_signal("twig-handoff-stop:app:server:0"),
        "tmux wait-for -S twig-handoff-stop:app:server:0"
    );
    assert_eq!(
        handoff_failure_message(&ControlError::Protocol(s("%error 1 2 0"))),
        "Failed to apply worktree handoff: tmux control error: %error 1 2 0"
    );
}

#[test]
fn commands_of_a_window_are_trimmed_and_blank_ones_left_out() {
    let windows = vec![
        Window::Simple { name: s("shell"), command: None },
        Window::Simple { name: s("git"), command: Some(s("  lazygit ")) },
        Window::Simple { name: s("blank"), command: Some(s("   ")) },
        Window::Complex {
            name: s("server"),
            config: WindowConfig {
                layout: None,
                panes: vec![
                    Pane::Command(s(" rails s")),
                    Pane::Empty,
                    Pane::Command(s("\t")),
                    Pane::Command(s("sidekiq\n")),
                ],
            },
        },
        Window::Simple { name: s("git"), command: Some(s("second")) },
    ];
    assert!(commands_for_window(&windows, "shell").is_empty());
    assert_eq!(commands_for_window(&windows, "git"), vec!["lazygit"]);
    assert!(commands_for_window(&windows, "blank").is_empty());
    assert_eq!(commands_for_window(&windows, "server"), vec!["rails s", "sidekiq"]);
    assert!(commands_for_window(&windows, "missing").is_empty());
    assert!(commands_for_window(&vec![], "git").is_empty());
    let project = project(windows, &["shell", "server", "missing", "git", "blank"]);
    assert_eq!(
        handoff_windows(&project),
        vec![
            HandoffWindow { name: s("server"), commands: lines(&["rails s", "sidekiq"]) },
            HandoffWindow { name: s("git"), commands: lines(&["lazygit"]) },
        ]
    );
}

#[test]
fn pane_listings_are_read_and_sorted() {
    let listing = lines(&[
        "2\t%7\tzsh\t/srv/app\t300",
        "0\t%5\truby\t/srv/app\t 100 ",
        "not a pane",
        " 1 \t%6\tnode\t/srv/app",
        "3\t%8\tzsh\t/srv/app\tnone\textra",
        "",
        "4",
        "-1\t%9\tzsh\t/\t5",
        "4294967295\t%10\tzsh\t/\t4294967296",
        "4294967296\t%11\tzsh\t/\t1",
        "+5\t%12\tzsh\t/\t+6",
    ]);
    assert_eq!(
        parse_pane_infos(&listing),
        vec![
            PaneInfo { index: 0, pid: Some(100) },
            PaneInfo { index: 1, pid: None },
            PaneInfo { index: 2, pid: Some(300) },
            PaneInfo { index: 3, pid: None },
            PaneInfo { index: 4, pid: None },
            PaneInfo { index: 5, pid: Some(6) },
            PaneInfo { index: 4294967295, pid: None },
        ]
    );
    assert!(parse_pane_infos(&vec![]).is_empty());
    let same_index = lines(&["1\ta\tb\tc\t10", "0\ta\tb\tc\t20", "1\ta\tb\tc\t30"]);
    assert_eq!(
        parse_pane_infos(&same_index),
        vec![
            PaneInfo { index: 0, pid: Some(20) },
            PaneInfo { index: 1, pid: Some(10) },
            PaneInfo { index: 1, pid: Some(30) },
        ]
    );
    assert!(contains_text(&same_index, "0\ta\tb\tc\t20"));
    assert!(!contains_text(&same_index, "0"));
}

#[test]
fn handoff_stops_both_sessions_and_restarts_in_the_target_only() {
    let sessions = lines(&["elsewhere", "app", "app__feature"]);
    let mut coordinator = handoff_project_windows(&server_project(), "app__feature", &sessions);
    assert!(!coordinator.is_done());
    assert!(coordinator.outcome().is_none());
    let sent = drive(&mut coordinator, |command| match command {
        ControlCommand::ListWindows { .. } => Ok(lines(&["shell", "server"])),
        ControlCommand::ListPanes { target } if target == "app:server" => {
            Ok(lines(&["0\t%1\truby\t/srv/app\t111"]))
        }
        ControlCommand::ListPanes { .. } => Ok(lines(&["0\t%4\truby\t/trees/app\t222"])),
        _ => Ok(vec![]),
    });
    let mut expected = vec![
        ControlCommand::ListWindows { session: s("app") },
        ControlCommand::ListPanes { target: s("app:server") },
    ];
    expected.extend(stop_of("app", "server", 0, Some(111)));
    expected.push(ControlCommand::ListWindows { session: s("app__feature") });
    expected.push(ControlCommand::ListPanes { target: s("app__feature:server") });
    expected.extend(stop_of("app__feature", "server", 0, Some(222)));
    expected.push(send("app__feature:server.0", "bin/dev", true));
    assert_eq!(sent, expected);
    assert!(matches!(coordinator.outcome(), Some(Ok(()))));
    let to_first: Vec<&ControlCommand> = sent
        .iter()
        .filter(|c| matches!(c, ControlCommand::SendKeys { target, .. } if target == "app:server.0"))
        .collect();
    assert_eq!(to_first.len(), 2);
}

#[test]
fn handoff_is_done_at_once_without_windows_or_sessions() {
    let sessions = lines(&["app", "app__x"]);
    let no_handoff = project(
        vec![Window::Simple { name: s("server"), command: Some(s("bin/dev")) }],
        &[],
    );
    let coordinator = handoff_project_windows(&no_handoff, "app", &sessions);
    assert!(coordinator.is_done());
    assert!(coordinator.action().is_none());
    assert!(matches!(coordinator.outcome(), Some(Ok(()))));

    let no_commands = project(
        vec![Window::Simple { name: s("server"), command: Some(s("  ")) }],
        &["server", "ghost"],
    );
    assert!(handoff_project_windows(&no_commands, "app", &sessions).is_done());

    let mut bare = server_project();
    bare.worktree = None;
    assert!(handoff_project_windows(&bare, "app", &sessions).is_done());

    assert!(handoff_project_windows(&server_project(), "app", &lines(&["other"])).is_done());
    assert!(handoff_project_windows(&server_project(), "app", &vec![]).is_done());
}

#[test]
fn only_listed_windows_are_touched() {
    let project = project(
        vec![
            Window::Simple { name: s("server"), command: Some(s("bin/dev")) },
            Window::Simple { name: s("worker"), command: Some(s("bin/work")) },
        ],
        &["server", "worker"],
    );
    let mut coordinator = handoff_project_windows(&project, "app", &lines(&["app", "app__x"]));
    let sent = drive(&mut coordinator, |command| match command {
        ControlCommand::ListWindows { session } if session == "app" => Ok(lines(&["worker"])),
        ControlCommand::ListWindows { .. } => Ok(lines(&["shell"])),
        ControlCommand::ListPanes { .. } => Ok(lines(&["1\t%1\tx\t/\t", "0\t%0\tx\t/\t9"])),
        _ => Ok(vec![]),
    });
    let mut expected = vec![
        ControlCommand::ListWindows { session: s("app") },
        ControlCommand::ListPanes { target: s("app:worker") },
    ];
    expected.extend(stop_of("app", "worker", 0, Some(9)));
    expected.extend(stop_of("app", "worker", 1, None));
    expected.push(send("app:worker.0", "bin/work", true));
    expected.push(ControlCommand::ListWindows { session: s("app__x") });
    assert_eq!(sent, expected);
}

#[test]
fn commands_go_to_panes_in_order_and_stop_when_panes_run_out() {
    let window = || HandoffWindow { name: s("server"), commands: lines(&["one", "two", "three"]) };
    let mut coordinator = HandoffCoordinator::new(s("app"), vec![window()], lines(&["app"]));
    let sent = drive(&mut coordinator, |command| match command {
        ControlCommand::ListWindows { .. } => Ok(lines(&["server"])),
        ControlCommand::ListPanes { .. } => Ok(lines(&["3", "1"])),
        _ => Ok(vec![]),
    });
    let restarts: Vec<ControlCommand> = sent[sent.len() - 2..].to_vec();
    assert_eq!(
        restarts,
        vec![send("app:server.1", "one", true), send("app:server.3", "two", true)]
    );
    assert_eq!(sent.len(), 2 + 3 + 3 + 2);

    let mut coordinator = HandoffCoordinator::new(s("app"), vec![window()], lines(&["app"]));
    let sent = drive(&mut coordinator, |command| match command {
        ControlCommand::ListWindows { .. } => Ok(lines(&["server"])),
        ControlCommand::ListPanes { .. } => Ok(lines(&["no panes here"])),
        _ => Ok(vec![]),
    });
    assert_eq!(sent.len(), 2);
}

#[test]
fn failures_are_kept_and_the_rest_is_still_attempted() {
    let sessions = lines(&["app", "app__a", "app__b"]);
    let fail = |line: &str| -> Reply { Err(ControlError::Protocol(s(line))) };
    let mut coordinator = handoff_project_windows(&server_project(), "app__b", &sessions);
    let sent = drive(&mut coordinator, |command| match command {
        ControlCommand::ListWindows { session } if session == "app" => fail("first"),
        ControlCommand::ListWindows { .. } => Ok(lines(&["server"])),
        ControlCommand::ListPanes { target } if target == "app__a:server" => fail("second"),
        ControlCommand::ListPanes { .. } => Ok(lines(&["0\ta\tb\tc\t5", "1\ta\tb\tc\t6"])),
        ControlCommand::InterruptProcess { .. } => fail("ignored"),
        ControlCommand::SendKeys { keys, .. } if keys == "C-c" => fail("third"),
        _ => Ok(vec![]),
    });
    assert_eq!(
        sent,
        vec![
            ControlCommand::ListWindows { session: s("app") },
            ControlCommand::ListWindows { session: s("app__a") },
            ControlCommand::ListPanes { target: s("app__a:server") },
            ControlCommand::ListWindows { session: s("app__b") },
            ControlCommand::ListPanes { target: s("app__b:server") },
            ControlCommand::InterruptProcess { pid: 5 },
            send("app__b:server.0", "C-c", false),
            send("app__b:server.0", "bin/dev", true),
        ]
    );
    assert!(matches!(
        coordinator.outcome(),
        Some(Err(ControlError::Protocol(line))) if line == "first"
    ));

    let mut coordinator = handoff_project_windows(&server_project(), "app", &lines(&["app"]));
    let sent = drive(&mut coordinator, |command| match command {
        ControlCommand::ListWindows { .. } => Ok(lines(&["server"])),
        ControlCommand::ListPanes { .. } => Ok(lines(&["0"])),
        ControlCommand::InterruptProcess { .. } => fail("ignored"),
        ControlCommand::WaitFor { .. } => Err(ControlError::Exited),
        ControlCommand::SendKeys { keys, .. } if keys == "bin/dev" => fail("late"),
        _ => Ok(vec![]),
    });
    assert_eq!(sent.len(), 2 + 3 + 1);
    assert!(matches!(coordinator.outcome(), Some(Err(ControlError::Exited))));
}
