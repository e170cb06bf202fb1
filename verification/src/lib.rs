//! Named multiplexer sessions for development projects and their git
//! worktrees.
//!
//! The library holds what is decided and computed: the text of each command
//! (`command`), the framing of the control connection and the client that
//! reads it (`tmux_control`), the plan that builds a session and the names
//! of sessions and signals (`tmux`), the windows that a built session has
//! (`window_names`), and the hand-off of live windows between the sessions
//! of a project (`handoff`). Around these stand the declared projects
//! (`config`), what is read from git (`git`), the entries of the debug log
//! (`debug_log`), the selection in the tree of projects (`tree_view`), the
//! meaning of keys in the interactive views (`keys`), small
//! decisions of the command line (`cli`), and helpers on text (`text`).
//!
//! Nothing here starts a process, reads a file or touches a terminal: a
//! caller does that, sends what the library gives and hands back what came.

pub mod cli;
pub mod command;
pub mod config;
pub mod debug_log;
pub mod git;
pub mod handoff;
pub mod keys;
pub mod text;
pub mod tmux;
pub mod tmux_control;
pub mod tree_view;
pub mod window_names;
