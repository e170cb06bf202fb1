use twig::debug_log::{
    command_to_string, log_line, log_tmux_command, log_tmux_command_failure,
    log_tmux_command_result, log_tmux_control, summarize_bytes, summarize_text, timestamp,
    timestamp_at, DEFAULT_PREVIEW_LEN,
};

#[test]
fn command_lines_quote_each_argument() {
    assert_eq!(command_to_string(&[]), "");
    assert_eq!(command_to_string(&["has-session"]), "\"has-session\"");
    assert_eq!(
        command_to_string(&["has-session", "-t", "my \"proj\"", "C:\\x", ""]),
        "\"has-session\" \"-t\" \"my \\\"proj\\\"\" \"C:\\\\x\" \"\""
    );
}

#[test]
fn summaries_are_one_line_and_cut() {
    assert_eq!(summarize_bytes(b""), "<empty>");
    assert_eq!(summarize_bytes(b"ok"), "ok");
    assert_eq!(summarize_bytes(b"a\nb\r\n"), "a\\nb\\r\\n");
    assert_eq!(summarize_bytes(b"a\xffb"), "a\u{fffd}b");
    assert_eq!(summarize_bytes("d\u{e9}j\u{e0}".as_bytes()), "d\u{e9}j\u{e0}");
    assert_eq!(DEFAULT_PREVIEW_LEN, 400);
    let exact = "x".repeat(400);
    assert_eq!(summarize_text(&exact), exact);
    let long = "x".repeat(401);
    assert_eq!(summarize_text(&long), format!("{}...", exact));
    let breaks = "\n".repeat(250);
    assert_eq!(summarize_text(&breaks), format!("{}...", "\\n".repeat(200)));
    let odd = format!("{}\n", "y".repeat(399));
    assert_eq!(summarize_text(&odd), format!("{}\\...", "y".repeat(399)));
    assert_eq!(summarize_text(""), "");
    let wide = "\u{e9}".repeat(401);
    assert_eq!(summarize_bytes(wide.as_bytes()), format!("{}...", "\u{e9}".repeat(400)));
}

#[test]
fn entries() {
    assert_eq!(
        log_tmux_command(&["list-sessions", "-F", "#{session_name}"]),
        "[tmux] >> \"list-sessions\" \"-F\" \"#{session_name}\""
    );
    assert_eq!(
        log_tmux_command_result(&["has-session", "-t", "demo"], 1, b"", b"can't find session\n"),
        "[tmux] << \"has-session\" \"-t\" \"demo\" (exit 1) stdout=<empty> stderr=can't find session\\n"
    );
    assert_eq!(
        log_tmux_command_result(&[], -1, b"x", b""),
        "[tmux] <<  (exit -1) stdout=x stderr=<empty>"
    );
    assert_eq!(
        log_tmux_command_result(&["a"], i32::MIN, b"", b""),
        "[tmux] << \"a\" (exit -2147483648) stdout=<empty> stderr=<empty>"
    );
    assert_eq!(
        log_tmux_command_result(&["a"], i32::MAX, b"", b""),
        "[tmux] << \"a\" (exit 2147483647) stdout=<empty> stderr=<empty>"
    );
    assert_eq!(
        log_tmux_command_failure(&["attach-session"], "No such file or directory"),
        "[tmux] !! \"attach-session\" failed: No such file or directory"
    );
    assert_eq!(log_tmux_control(">>", "kill-session -t \"x\""), "[tmux-control] >> kill-session -t \"x\"");
    assert_eq!(log_line("17.000000001", "[tmux] >> \"x\""), "17.000000001 [tmux] >> \"x\"\n");
}

#[test]
fn timestamps_have_nine_digits_after_the_dot() {
    assert_eq!(timestamp_at(0), "0.000000000");
    assert_eq!(timestamp_at(1), "0.000000001");
    assert_eq!(timestamp_at(999_999_999), "0.999999999");
    assert_eq!(timestamp_at(1_000_000_000), "1.000000000");
    assert_eq!(timestamp_at(1_700_000_000_123_456_789), "1700000000.123456789");
    assert_eq!(timestamp_at(5_000_001_200), "5.000001200");
    let now = timestamp();
    let (seconds, nanos) = now.split_once('.').unwrap();
    assert!(!seconds.is_empty() && seconds.chars().all(|c| c.is_ascii_digit()));
    assert_eq!(nanos.len(), 9);
    assert!(nanos.chars().all(|c| c.is_ascii_digit()));
}
