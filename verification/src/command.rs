//! The commands that the library sends to the multiplexer, and their text.

use crate::text::{copy_text, decimal, push_decimal};
use crate::tmux_control::{
    command_state, command_wire, push_quoted, query_state, query_wire, quoted, sentinel_text,
    ClientState, ControlClient,
};
use vstd::prelude::*;

verus! {

/// What `list-panes` prints for each pane: index, id, foreground command,
/// working directory and process id, separated by tabs.
pub const PANE_FORMAT: &'static str =
    "#{pane_index}\t#{pane_id}\t#{pane_current_command}\t#{pane_current_path}\t#{pane_pid}";

/// What `list-windows` prints for each window: its name.
pub const WINDOW_FORMAT: &'static str = "#{window_name}";

/// The side on which a split puts the new pane.
#[derive(Clone, Copy, PartialEq, Eq, Structural, Debug)]
pub enum SplitDirection {
    /// Below the pane that is split: `-v`.
    Stacked,
    /// Beside the pane that is split: `-h`.
    SideBySide,
}

/// One command for the multiplexer.
#[derive(Debug, Clone, PartialEq, Eq)]
pub enum ControlCommand {
    /// A detached session with one window, a working directory and
    /// environment assignments.
    NewSession { name: String, window: String, cwd: String, env: Vec<(String, String)> },
    SetEnvironment { session: String, name: String, value: String },
    /// A detached window.
    NewWindow { session: String, name: String, cwd: String },
    SplitWindow { target: String, cwd: String, direction: Option<SplitDirection> },
    /// Keys typed into a pane as they are, followed by Enter if `enter`.
    SendKeys { target: String, keys: String, enter: bool },
    SelectLayout { target: String, layout: String },
    SelectPane { target: String },
    /// The names of a session's windows, one per line.
    ListWindows { session: String },
    /// One line per pane of a window, in `PANE_FORMAT`.
    ListPanes { target: String },
    RenameWindow { target: String, name: String },
    SelectWindow { target: String },
    KillSession { name: String },
    /// Blocks until the signal of that name is raised.
    WaitFor { token: String },
    /// Has the multiplexer's host send an interrupt to a process.
    InterruptProcess { pid: u32 },
}

/// A `ControlCommand`, with texts as sequences of characters.
pub enum CommandModel {
    NewSession { name: Seq<char>, window: Seq<char>, cwd: Seq<char>, env: Seq<(Seq<char>, Seq<char>)> },
    SetEnvironment { session: Seq<char>, name: Seq<char>, value: Seq<char> },
    NewWindow { session: Seq<char>, name: Seq<char>, cwd: Seq<char> },
    SplitWindow { target: Seq<char>, cwd: Seq<char>, direction: Option<SplitDirection> },
    SendKeys { target: Seq<char>, keys: Seq<char>, enter: bool },
    SelectLayout { target: Seq<char>, layout: Seq<char> },
    SelectPane { target: Seq<char> },
    ListWindows { session: Seq<char> },
    ListPanes { target: Seq<char> },
    RenameWindow { target: Seq<char>, name: Seq<char> },
    SelectWindow { target: Seq<char> },
    KillSession { name: Seq<char> },
    WaitFor { token: Seq<char> },
    InterruptProcess { pid: u32 },
}

impl View for ControlCommand {
    type V = CommandModel;

    open spec fn view(&self) -> CommandModel {
        match self {
            ControlCommand::NewSession { name, window, cwd, env } => CommandModel::NewSession {
                name: name@,
                window: window@,
                cwd: cwd@,
                env: env.deep_view(),
            },
            ControlCommand::SetEnvironment { session, name, value } => CommandModel::SetEnvironment {
                session: session@,
                name: name@,
                value: value@,
            },
            ControlCommand::NewWindow { session, name, cwd } => CommandModel::NewWindow {
                session: session@,
                name: name@,
                cwd: cwd@,
            },
            ControlCommand::SplitWindow { target, cwd, direction } => CommandModel::SplitWindow {
                target: target@,
                cwd: cwd@,
                direction: *direction,
            },
            ControlCommand::SendKeys { target, keys, enter } => CommandModel::SendKeys {
                target: target@,
                keys: keys@,
                enter: *enter,
            },
            ControlCommand::SelectLayout { target, layout } => CommandModel::SelectLayout {
                target: target@,
                layout: layout@,
            },
            ControlCommand::SelectPane { target } => CommandModel::SelectPane { target: target@ },
            ControlCommand::ListWindows { session } => CommandModel::ListWindows {
                session: session@,
            },
            ControlCommand::ListPanes { target } => CommandModel::ListPanes { target: target@ },
            ControlCommand::RenameWindow { target, name } => CommandModel::RenameWindow {
                target: target@,
                name: name@,
            },
            ControlCommand::SelectWindow { target } => CommandModel::SelectWindow {
                target: target@,
            },
            ControlCommand::KillSession { name } => CommandModel::KillSession { name: name@ },
            ControlCommand::WaitFor { token } => CommandModel::WaitFor { token: token@ },
            ControlCommand::InterruptProcess { pid } => CommandModel::InterruptProcess {
                pid: *pid,
            },
        }
    }
}

impl DeepView for ControlCommand {
    type V = CommandModel;

    open spec fn deep_view(&self) -> CommandModel {
        self@
    }
}

/// The `-e` arguments that assign the variables of `env`, in order.
pub open spec fn env_text(env: Seq<(Seq<char>, Seq<char>)>) -> Seq<char>
    decreases env.len(),
{
    if env.len() == 0 {
        Seq::empty()
    } else {
        env_text(env.drop_last()) + " -e "@ + quoted(env.last().0 + seq!['='] + env.last().1)
    }
}

pub open spec fn direction_text(direction: Option<SplitDirection>) -> Seq<char> {
    match direction {
        Some(SplitDirection::Stacked) => " -v"@,
        Some(SplitDirection::SideBySide) => " -h"@,
        None => Seq::empty(),
    }
}

/// The text of a command: its name, its flags, and each argument quoted.
pub open spec fn command_text(command: CommandModel) -> Seq<char> {
    match command {
        CommandModel::NewSession { name, window, cwd, env } => "new-session -d -s "@ + quoted(name)
            + " -n "@ + quoted(window) + " -c "@ + quoted(cwd) + env_text(env),
        CommandModel::SetEnvironment { session, name, value } => "set-environment -t "@ + quoted(
            session,
        ) + seq![' '] + quoted(name) + seq![' '] + quoted(value),
        CommandModel::NewWindow { session, name, cwd } => "new-window -d -t "@ + quoted(session)
            + " -n "@ + quoted(name) + " -c "@ + quoted(cwd),
        CommandModel::SplitWindow { target, cwd, direction } => "split-window"@ + direction_text(
            direction,
        ) + " -t "@ + quoted(target) + " -c "@ + quoted(cwd),
        CommandModel::SendKeys { target, keys, enter } => "send-keys -t "@ + quoted(target) + seq![
            ' ',
        ] + quoted(keys) + (if enter {
            " Enter"@
        } else {
            Seq::empty()
        }),
        CommandModel::SelectLayout { target, layout } => "select-layout -t "@ + quoted(target)
            + seq![' '] + quoted(layout),
        CommandModel::SelectPane { target } => "select-pane -t "@ + quoted(target),
        CommandModel::ListWindows { session } => "list-windows -t "@ + quoted(session) + " -F "@
            + quoted(WINDOW_FORMAT@),
        CommandModel::ListPanes { target } => "list-panes -t "@ + quoted(target) + " -F "@
            + quoted(PANE_FORMAT@),
        CommandModel::RenameWindow { target, name } => "rename-window -t "@ + quoted(target)
            + seq![' '] + quoted(name),
        CommandModel::SelectWindow { target } => "select-window -t "@ + quoted(target),
        CommandModel::KillSession { name } => "kill-session -t "@ + quoted(name),
        CommandModel::WaitFor { token } => "wait-for "@ + quoted(token),
        CommandModel::InterruptProcess { pid } => "run-shell -b "@ + quoted(
            "kill -s SIGINT "@ + decimal(pid as nat),
        ),
    }
}

/// Whether the reply to a command is read up to a sentinel: true of the
/// commands that list, whose output the response block alone does not
/// delimit.
pub open spec fn lists(command: CommandModel) -> bool {
    command is ListWindows || command is ListPanes
}

impl ControlCommand {
    /// The text of this command.
    pub fn render(&self) -> (out: String)
        ensures
            out@ == command_text(self@),
    {
        match self {
            ControlCommand::NewSession { name, window, cwd, env } => {
                let mut out = copy_text("new-session -d -s ");
                push_quoted(&mut out, name.as_str());
                out.append(" -n ");
                push_quoted(&mut out, window.as_str());
                out.append(" -c ");
                push_quoted(&mut out, cwd.as_str());
                let ghost head = out@;
                let mut i: usize = 0;
                assert(env.deep_view().take(0) =~= Seq::<(Seq<char>, Seq<char>)>::empty());
                assert(out@ =~= head + env_text(env.deep_view().take(0)));
                while i < env.len()
                    invariant
                        i <= env.len(),
                        out@ == head + env_text(env.deep_view().take(i as int)),
                    decreases env.len() - i,
                {
                    let mut pair = copy_text(env[i].0.as_str());
                    pair.push('=');
                    pair.append(env[i].1.as_str());
                    assert(pair@ =~= env@[i as int].0@ + seq!['='] + env@[i as int].1@);
                    out.append(" -e ");
                    push_quoted(&mut out, pair.as_str());
                    proof {
                        let e = env.deep_view();
                        assert(e.take(i + 1).drop_last() =~= e.take(i as int));
                        assert(e.take(i + 1).last() == e[i as int]);
                        assert(e[i as int] == (env@[i as int].0@, env@[i as int].1@));
                        assert(env_text(e.take(i + 1)) == env_text(e.take(i as int)) + " -e "@
                            + quoted(pair@));
                        assert(out@ =~= head + env_text(e.take(i + 1)));
                    }
                    i += 1;
                }
                assert(env.deep_view().take(i as int) =~= env.deep_view());
                out
            },
            ControlCommand::SetEnvironment { session, name, value } => {
                let mut out = copy_text("set-environment -t ");
                push_quoted(&mut out, session.as_str());
                out.push(' ');
                push_quoted(&mut out, name.as_str());
                out.push(' ');
                push_quoted(&mut out, value.as_str());
                assert(out@ =~= command_text(self@));
                out
            },
            ControlCommand::NewWindow { session, name, cwd } => {
                let mut out = copy_text("new-window -d -t ");
                push_quoted(&mut out, session.as_str());
                out.append(" -n ");
                push_quoted(&mut out, name.as_str());
                out.append(" -c ");
                push_quoted(&mut out, cwd.as_str());
                out
            },
            ControlCommand::SplitWindow { target, cwd, direction } => {
                let mut out = copy_text("split-window");
                match direction {
                    Some(SplitDirection::Stacked) => out.append(" -v"),
                    Some(SplitDirection::SideBySide) => out.append(" -h"),
                    None => {
                        assert(out@ + Seq::<char>::empty() =~= out@);
                    },
                }
                out.append(" -t ");
                push_quoted(&mut out, target.as_str());
                out.append(" -c ");
                push_quoted(&mut out, cwd.as_str());
                out
            },
            ControlCommand::SendKeys { target, keys, enter } => {
                let mut out = copy_text("send-keys -t ");
                push_quoted(&mut out, target.as_str());
                out.push(' ');
                push_quoted(&mut out, keys.as_str());
                if *enter {
                    out.append(" Enter");
                }
                assert(out@ =~= command_text(self@));
                out
            },
            ControlCommand::SelectLayout { target, layout } => {
                let mut out = copy_text("select-layout -t ");
                push_quoted(&mut out, target.as_str());
                out.push(' ');
                push_quoted(&mut out, layout.as_str());
                assert(out@ =~= command_text(self@));
                out
            },
            ControlCommand::SelectPane { target } => {
                let mut out = copy_text("select-pane -t ");
                push_quoted(&mut out, target.as_str());
                out
            },
            ControlCommand::ListWindows { session } => {
                let mut out = copy_text("list-windows -t ");
                push_quoted(&mut out, session.as_str());
                out.append(" -F ");
                push_quoted(&mut out, WINDOW_FORMAT);
                out
            },
            ControlCommand::ListPanes { target } => {
                let mut out = copy_text("list-panes -t ");
                push_quoted(&mut out, target.as_str());
                out.append(" -F ");
                push_quoted(&mut out, PANE_FORMAT);
                out
            },
            ControlCommand::RenameWindow { target, name } => {
                let mut out = copy_text("rename-window -t ");
                push_quoted(&mut out, target.as_str());
                out.push(' ');
                push_quoted(&mut out, name.as_str());
                assert(out@ =~= command_text(self@));
                out
            },
            ControlCommand::SelectWindow { target } => {
                let mut out = copy_text("select-window -t ");
                push_quoted(&mut out, target.as_str());
                out
            },
            ControlCommand::KillSession { name } => {
                let mut out = copy_text("kill-session -t ");
                push_quoted(&mut out, name.as_str());
                out
            },
            ControlCommand::WaitFor { token } => {
                let mut out = copy_text("wait-for ");
                push_quoted(&mut out, token.as_str());
                out
            },
            ControlCommand::InterruptProcess { pid } => {
                let mut shell = copy_text("kill -s SIGINT ");
                push_decimal(&mut shell, *pid as u128);
                let mut out = copy_text("run-shell -b ");
                push_quoted(&mut out, shell.as_str());
                out
            },
        }
    }

    /// Whether the reply to this command is read up to a sentinel.
    pub fn expects_output(&self) -> (r: bool)
        ensures
            r == lists(self@),
    {
        match self {
            ControlCommand::ListWindows { .. } => true,
            ControlCommand::ListPanes { .. } => true,
            _ => false,
        }
    }
}

/// What sending a command leaves: the client waits for the reply, up to a
/// sentinel where the command lists, and `wire` is the text to write.
pub open spec fn starts_exchange(after: ClientState, wire: Seq<char>, command: CommandModel)
    -> bool {
    if lists(command) {
        exists|nonce: u128|
            {
                &&& after == query_state(#[trigger] sentinel_text(nonce))
                &&& wire == query_wire(command_text(command), sentinel_text(nonce))
            }
    } else {
        after == command_state() && wire == command_wire(command_text(command))
    }
}

impl ControlClient {
    /// Starts the exchange of `command` and gives the text to write.
    pub fn send(&mut self, command: &ControlCommand) -> (wire: String)
        ensures
            starts_exchange(final(self)@, wire@, command@),
    {
        let text = command.render();
        if command.expects_output() {
            self.command_with_output(text.as_str())
        } else {
            self.command(text.as_str())
        }
    }

    /// Starts the creation of a detached window.
    pub fn new_window(&mut self, session: &str, name: &str, cwd: &str) -> (wire: String)
        ensures
            starts_exchange(
                final(self)@,
                wire@,
                CommandModel::NewWindow { session: session@, name: name@, cwd: cwd@ },
            ),
    {
        self.send(
            &ControlCommand::NewWindow {
                session: copy_text(session),
                name: copy_text(name),
                cwd: copy_text(cwd),
            },
        )
    }

    /// Starts the split of a pane, in the direction that the multiplexer
    /// takes where none is given.
    pub fn split_window(&mut self, target: &str, cwd: &str) -> (wire: String)
        ensures
            starts_exchange(
                final(self)@,
                wire@,
                CommandModel::SplitWindow { target: target@, cwd: cwd@, direction: None },
            ),
    {
        self.send(
            &ControlCommand::SplitWindow {
                target: copy_text(target),
                cwd: copy_text(cwd),
                direction: None,
            },
        )
    }

    /// Starts the typing of keys into a pane.
    pub fn send_keys(&mut self, target: &str, keys: &str, enter: bool) -> (wire: String)
        ensures
            starts_exchange(
                final(self)@,
                wire@,
                CommandModel::SendKeys { target: target@, keys: keys@, enter: enter },
            ),
    {
        self.send(
            &ControlCommand::SendKeys {
                target: copy_text(target),
                keys: copy_text(keys),
                enter: enter,
            },
        )
    }

    /// Starts the listing of the panes of a window.
    pub fn list_panes(&mut self, target: &str) -> (wire: String)
        ensures
            starts_exchange(final(self)@, wire@, CommandModel::ListPanes { target: target@ }),
    {
        self.send(&ControlCommand::ListPanes { target: copy_text(target) })
    }
}

} // verus!
