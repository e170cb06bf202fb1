//! The hand-off of a project's live windows: their commands are stopped in
//! every running session of the project and started again in the session
//! that becomes active, and in no other.

use crate::command::{CommandModel, ControlCommand};
use crate::config::{handoff_windows_of, Pane, Project, Window, WindowModel};
use crate::text::{
    copy_text, decimal, is_blank, lemma_decimal_digits, lemma_decimal_injective,
    lemma_deep_push, lemma_digits_split, lemma_first_index, lemma_trimmed_empty, parse_number,
    parse_unsigned, push_decimal, same_text, split, split_chars, to_chars, trim, trim_bounds,
    trimmed,
};
use crate::tmux::{
    is_session_of, make_pane_target, make_window_target, pane_target, running_project_sessions,
    window_target,
};
use crate::tmux_control::{
    fault_message, first_failure, reply_model, ControlError, Fault, Reply, ReplyModel,
};
use vstd::prelude::*;

verus! {

/// The name of the signal that tells that a pane of a handoff window has
/// come back to its prompt.
pub open spec fn stop_token(session: Seq<char>, window: Seq<char>, pane_index: nat) -> Seq<char> {
    ("twig-handoff-stop:"@ + session).push(':') + window.push(':') + decimal(pane_index)
}

/// What is typed into a pane to raise the signal `token`.
pub open spec fn stop_signal(token: Seq<char>) -> Seq<char> {
    "tmux wait-for -S "@ + token
}

pub fn handoff_stop_token(session_name: &str, window_name: &str, pane_index: u32) -> (token: String)
    ensures
        token@ == stop_token(session_name@, window_name@, pane_index as nat),
{
    let mut token = copy_text("twig-handoff-stop:");
    token.append(session_name);
    token.push(':');
    let ghost head = token@;
    token.append(window_name);
    token.push(':');
    assert(token@ =~= head + window_name@.push(':'));
    push_decimal(&mut token, pane_index as u128);
    token
}

pub fn handoff_stop_signal(stop_token: &str) -> (keys: String)
    ensures
        keys@ == stop_signal(stop_token@),
{
    let mut keys = copy_text("tmux wait-for -S ");
    keys.append(stop_token);
    keys
}

/// The commands of the panes that have one, trimmed, in order.
pub open spec fn pane_commands(panes: Seq<Option<Seq<char>>>) -> Seq<Seq<char>>
    decreases panes.len(),
{
    if panes.len() == 0 {
        Seq::empty()
    } else {
        let before = pane_commands(panes.drop_last());
        match panes.last() {
            Some(command) => if is_blank(command) {
                before
            } else {
                before.push(trimmed(command))
            },
            None => before,
        }
    }
}

/// The commands that a window runs: its own command, or those of its
/// panes; trimmed, and without the blank ones.
pub open spec fn commands_of(window: WindowModel) -> Seq<Seq<char>> {
    match window.simple_command() {
        Some(command) => if is_blank(command) {
            Seq::empty()
        } else {
            seq![trimmed(command)]
        },
        None => pane_commands(window.panes()),
    }
}

/// `i` is the place of the first window of that name.
pub open spec fn is_first_named(windows: Seq<WindowModel>, name: Seq<char>, i: int) -> bool {
    &&& 0 <= i < windows.len()
    &&& windows[i].name() == name
    &&& forall|k: int| 0 <= k < i ==> (#[trigger] windows[k]).name() != name
}

/// The commands of the first window of that name; none where no window has
/// the name.
pub open spec fn commands_for(windows: Seq<WindowModel>, name: Seq<char>) -> Seq<Seq<char>> {
    if exists|i: int| is_first_named(windows, name, i) {
        commands_of(windows[choose|i: int| is_first_named(windows, name, i)])
    } else {
        Seq::empty()
    }
}

fn commands_of_window(window: &Window) -> (r: Vec<String>)
    ensures
        r.deep_view() == commands_of(window.deep_view()),
{
    let mut r: Vec<String> = Vec::new();
    assert(r.deep_view() =~= Seq::<Seq<char>>::empty());
    match window {
        Window::Simple { command: Some(command), .. } => {
            let keys = trim(command.as_str());
            proof {
                lemma_trimmed_empty(command@);
            }
            if keys.as_str().unicode_len() > 0 {
                r.push(keys);
                assert(r.deep_view() =~= seq![trimmed(command@)]);
            }
        },
        Window::Simple { command: None, .. } => {},
        Window::Complex { config, .. } => {
            let ghost all = config.panes.deep_view();
            let mut i: usize = 0;
            assert(all.take(0) =~= Seq::<Option<Seq<char>>>::empty());
            while i < config.panes.len()
                invariant
                    i <= config.panes.len(),
                    all == config.panes.deep_view(),
                    r.deep_view() == pane_commands(all.take(i as int)),
                decreases config.panes.len() - i,
            {
                proof {
                    assert(all.take(i + 1).drop_last() =~= all.take(i as int));
                    assert(all.take(i + 1).last() == config.panes@[i as int].deep_view());
                }
                match &config.panes[i] {
                    Pane::Command(command) => {
                        let keys = trim(command.as_str());
                        proof {
                            lemma_trimmed_empty(command@);
                        }
                        if keys.as_str().unicode_len() > 0 {
                            let ghost before = r;
                            r.push(keys);
                            proof {
                                lemma_deep_push(before, r, keys);
                            }
                        }
                    },
                    Pane::Empty => {},
                }
                i += 1;
            }
            assert(all.take(i as int) =~= all);
        },
    }
    r
}

/// The commands of the first window of that name.
pub fn commands_for_window(windows: &Vec<Window>, window_name: &str) -> (r: Vec<String>)
    ensures
        r.deep_view() == commands_for(windows.deep_view(), window_name@),
{
    let ghost all = windows.deep_view();
    let mut i: usize = 0;
    while i < windows.len()
        invariant
            i <= windows.len(),
            all == windows.deep_view(),
            forall|k: int| 0 <= k < i ==> (#[trigger] all[k]).name() != window_name@,
        decreases windows.len() - i,
    {
        let name = windows[i].name();
        assert(all[i as int] == windows@[i as int].deep_view());
        if same_text(name.as_str(), window_name) {
            proof {
                assert(is_first_named(all, window_name@, i as int));
                let j = choose|j: int| is_first_named(all, window_name@, j);
                assert(j == i) by {
                    if j < i {
                        assert(all[j].name() != window_name@);
                    }
                    if i < j {
                        assert(all[i as int].name() != window_name@);
                    }
                }
            }
            return commands_of_window(&windows[i]);
        }
        i += 1;
    }
    let r: Vec<String> = Vec::new();
    assert(r.deep_view() =~= Seq::<Seq<char>>::empty());
    assert(!exists|j: int| is_first_named(all, window_name@, j));
    r
}

/// A pane of a window: its index, and the id of its process where the
/// listing gives one.
#[derive(Clone, Copy, Debug, PartialEq, Eq)]
pub struct PaneInfo {
    pub index: u32,
    pub pid: Option<u32>,
}

/// A number of 32 bits read from a field, white space around it left out.
pub open spec fn field_number(field: Seq<char>) -> Option<u32> {
    match parse_unsigned(trimmed(field), u32::MAX as nat) {
        Some(n) => Some(n as u32),
        None => None,
    }
}

/// The pane that a line of the listing describes: the first field is its
/// index, the fifth the id of its process. A line whose first field is no
/// number describes none.
pub open spec fn pane_of_line(line: Seq<char>) -> Option<PaneInfo> {
    let fields = split(line, '\t');
    match field_number(fields[0]) {
        Some(index) => Some(
            PaneInfo {
                index: index,
                pid: if fields.len() > 4 {
                    field_number(fields[4])
                } else {
                    None
                },
            },
        ),
        None => None,
    }
}

/// The panes that the lines describe, in the order of the lines.
pub open spec fn panes_of_lines(lines: Seq<Seq<char>>) -> Seq<PaneInfo>
    decreases lines.len(),
{
    if lines.len() == 0 {
        Seq::empty()
    } else {
        match pane_of_line(lines.last()) {
            Some(pane) => panes_of_lines(lines.drop_last()).push(pane),
            None => panes_of_lines(lines.drop_last()),
        }
    }
}

/// Where a pane of that index goes into an ascending list: before the panes
/// at its end whose index is greater.
pub open spec fn insertion_point(panes: Seq<PaneInfo>, index: u32) -> int
    decreases panes.len(),
{
    if panes.len() > 0 && panes.last().index > index {
        insertion_point(panes.drop_last(), index)
    } else {
        panes.len() as int
    }
}

/// The panes in ascending order of their index; panes of one index stay in
/// the order in which they came.
pub open spec fn sorted_panes(panes: Seq<PaneInfo>) -> Seq<PaneInfo>
    decreases panes.len(),
{
    if panes.len() == 0 {
        Seq::empty()
    } else {
        let before = sorted_panes(panes.drop_last());
        before.insert(insertion_point(before, panes.last().index), panes.last())
    }
}

pub open spec fn ascending(panes: Seq<PaneInfo>) -> bool {
    forall|i: int, j: int| 0 <= i < j < panes.len() ==> panes[i].index <= panes[j].index
}

/// The panes of a window as its listing gives them, in ascending order of
/// their index.
pub open spec fn pane_listing(lines: Seq<Seq<char>>) -> Seq<PaneInfo> {
    sorted_panes(panes_of_lines(lines))
}

proof fn lemma_insertion_point(panes: Seq<PaneInfo>, index: u32)
    ensures
        0 <= insertion_point(panes, index) <= panes.len(),
        forall|k: int|
            insertion_point(panes, index) <= k < panes.len() ==> (#[trigger] panes[k]).index > index,
        insertion_point(panes, index) > 0 ==> panes[insertion_point(panes, index) - 1].index
            <= index,
    decreases panes.len(),
{
    if panes.len() > 0 && panes.last().index > index {
        let rest = panes.drop_last();
        lemma_insertion_point(rest, index);
        assert forall|k: int| insertion_point(panes, index) <= k < panes.len() implies (
        #[trigger] panes[k]).index > index by {
            if k < rest.len() {
                assert(panes[k] == rest[k]);
            }
        }
    }
}

/// Sorting gives the same panes, each as often as before, in ascending
/// order of their index.
pub proof fn lemma_sorted_panes(panes: Seq<PaneInfo>)
    ensures
        ascending(sorted_panes(panes)),
        sorted_panes(panes).to_multiset() == panes.to_multiset(),
        sorted_panes(panes).len() == panes.len(),
    decreases panes.len(),
{
    broadcast use vstd::seq_lib::group_to_multiset_ensures;

    if panes.len() > 0 {
        let rest = panes.drop_last();
        let pane = panes.last();
        lemma_sorted_panes(rest);
        let before = sorted_panes(rest);
        let k = insertion_point(before, pane.index);
        lemma_insertion_point(before, pane.index);
        let after = before.insert(k, pane);
        assert forall|i: int, j: int| 0 <= i < j < after.len() implies after[i].index
            <= after[j].index by {
            if j < k {
                assert(after[i] == before[i] && after[j] == before[j]);
            } else if j == k {
                assert(after[i] == before[i]);
                assert(before[i].index <= before[k - 1].index);
            } else if i < k {
                assert(after[i] == before[i] && after[j] == before[j - 1]);
            } else if i == k {
                assert(after[j] == before[j - 1]);
            } else {
                assert(after[i] == before[i - 1] && after[j] == before[j - 1]);
            }
        }
        assert(panes =~= rest.push(pane));
        assert(after.to_multiset() =~= before.to_multiset().insert(pane));
        assert(panes.to_multiset() =~= rest.to_multiset().insert(pane));
    } else {
        assert(sorted_panes(panes) =~= panes);
    }
}

fn read_field(field: &Vec<char>) -> (r: Option<u32>)
    ensures
        r == field_number(field@),
{
    let (start, end) = trim_bounds(field);
    match parse_number(field, start, end, 0xffff_ffff) {
        Some(n) => Some(n as u32),
        None => None,
    }
}

fn read_pane(line: &str) -> (r: Option<PaneInfo>)
    ensures
        r == pane_of_line(line@),
{
    let chars = to_chars(line);
    let fields = split_chars(&chars, '\t');
    assert(fields.deep_view().len() == fields.len());
    assert(fields.len() >= 1);
    assert(fields.deep_view()[0] == fields@[0]@);
    match read_field(&fields[0]) {
        Some(index) => {
            let pid = if fields.len() > 4 {
                assert(fields.deep_view()[4] == fields@[4]@);
                read_field(&fields[4])
            } else {
                None
            };
            Some(PaneInfo { index, pid })
        },
        None => None,
    }
}

/// The panes of a window as the lines of its listing give them, in
/// ascending order of their index.
pub fn parse_pane_infos(lines: &Vec<String>) -> (panes: Vec<PaneInfo>)
    ensures
        panes@ == pane_listing(lines.deep_view()),
        ascending(panes@),
        panes@.to_multiset() == panes_of_lines(lines.deep_view()).to_multiset(),
{
    let ghost all = lines.deep_view();
    let mut panes: Vec<PaneInfo> = Vec::new();
    let mut i: usize = 0;
    assert(all.take(0) =~= Seq::<Seq<char>>::empty());
    assert(panes@ =~= pane_listing(all.take(0)));
    while i < lines.len()
        invariant
            i <= lines.len(),
            all == lines.deep_view(),
            panes@ == pane_listing(all.take(i as int)),
        decreases lines.len() - i,
    {
        proof {
            assert(all.take(i + 1).drop_last() =~= all.take(i as int));
            assert(all.take(i + 1).last() == lines@[i as int]@);
        }
        match read_pane(lines[i].as_str()) {
            Some(pane) => {
                let mut k: usize = panes.len();
                assert(panes@.take(k as int) =~= panes@);
                while k > 0 && panes[k - 1].index > pane.index
                    invariant
                        k <= panes.len(),
                        insertion_point(panes@, pane.index) == insertion_point(
                            panes@.take(k as int),
                            pane.index,
                        ),
                    decreases k,
                {
                    assert(panes@.take(k as int).drop_last() =~= panes@.take(k - 1));
                    k -= 1;
                }
                assert(panes@.take(panes.len() as int) =~= panes@);
                proof {
                    let ghost prefix = panes@.take(k as int);
                    assert(prefix.len() == k);
                    if k > 0 {
                        assert(prefix.last() == panes@[k - 1]);
                    }
                    assert(panes_of_lines(all.take(i + 1)).drop_last() =~= panes_of_lines(
                        all.take(i as int),
                    ));
                }
                panes.insert(k, pane);
            },
            None => {},
        }
        i += 1;
    }
    proof {
        assert(all.take(i as int) =~= all);
        lemma_sorted_panes(panes_of_lines(all));
    }
    panes
}

/// A handoff window that runs something: its name and its commands, one
/// for each pane in order.
#[derive(Debug, Clone, PartialEq, Eq)]
pub struct HandoffWindow {
    pub name: String,
    pub commands: Vec<String>,
}

pub struct HandoffWindowModel {
    pub name: Seq<char>,
    pub commands: Seq<Seq<char>>,
}

impl DeepView for HandoffWindow {
    type V = HandoffWindowModel;

    open spec fn deep_view(&self) -> HandoffWindowModel {
        HandoffWindowModel { name: self.name@, commands: self.commands.deep_view() }
    }
}

/// Of the windows that `names` names, those that run a command, each with
/// its commands, in the order of the names.
pub open spec fn configured_windows(windows: Seq<WindowModel>, names: Seq<Seq<char>>) -> Seq<
    HandoffWindowModel,
>
    decreases names.len(),
{
    if names.len() == 0 {
        Seq::empty()
    } else {
        let before = configured_windows(windows, names.drop_last());
        let commands = commands_for(windows, names.last());
        if commands.len() > 0 {
            before.push(HandoffWindowModel { name: names.last(), commands: commands })
        } else {
            before
        }
    }
}

/// The handoff windows of a project that run a command.
pub fn handoff_windows(project: &Project) -> (r: Vec<HandoffWindow>)
    ensures
        r.deep_view() == configured_windows(
            project.deep_view().windows,
            handoff_windows_of(project.deep_view()),
        ),
{
    let names = project.worktree_handoff_windows();
    let ghost all = names.deep_view();
    let ghost windows = project.deep_view().windows;
    let mut r: Vec<HandoffWindow> = Vec::new();
    let mut i: usize = 0;
    assert(all.take(0) =~= Seq::<Seq<char>>::empty());
    assert(r.deep_view() =~= Seq::<HandoffWindowModel>::empty());
    while i < names.len()
        invariant
            i <= names.len(),
            all == names.deep_view(),
            windows == project.windows.deep_view(),
            r.deep_view() == configured_windows(windows, all.take(i as int)),
        decreases names.len() - i,
    {
        proof {
            assert(all.take(i + 1).drop_last() =~= all.take(i as int));
            assert(all.take(i + 1).last() == names@[i as int]@);
        }
        let commands = commands_for_window(&project.windows, names[i].as_str());
        assert(commands.deep_view().len() == commands.len());
        if commands.len() > 0 {
            let ghost before = r;
            let window = HandoffWindow { name: copy_text(names[i].as_str()), commands: commands };
            r.push(window);
            proof {
                lemma_deep_push(before, r, window);
            }
        }
        i += 1;
    }
    assert(all.take(i as int) =~= all);
    r
}

/// What the coordinator has sent and waits for the reply to.
#[derive(Clone, Copy, PartialEq, Eq, Structural, Debug)]
pub enum Stage {
    /// The list of the windows of the session under way.
    ListWindows,
    /// The list of the panes of the window under way.
    ListPanes,
    /// The interrupt sent to the process of the pane under way.
    Interrupt,
    /// The interrupt key typed into the pane under way.
    Keys,
    /// The keys that raise the stop signal, typed into the pane under way.
    Signal,
    /// The wait for the stop signal of the pane under way.
    Wait,
    /// A command of the window typed into a pane of the target session.
    Restart,
    /// Nothing: every session was gone through.
    Done,
}

/// The state of a hand-off.
pub struct HandoffState {
    /// The session that becomes active.
    pub target: Seq<char>,
    /// The handoff windows that run a command.
    pub windows: Seq<HandoffWindowModel>,
    /// The running sessions of the project.
    pub sessions: Seq<Seq<char>>,
    /// The place of the session under way.
    pub session: int,
    /// The place of the window under way.
    pub window: int,
    /// The names of the windows of the session under way.
    pub listed: Seq<Seq<char>>,
    /// The panes of the window under way, in ascending order of index.
    pub panes: Seq<PaneInfo>,
    /// The place of the pane under way.
    pub pane: int,
    pub stage: Stage,
    /// The first failure met.
    pub failure: Option<Fault>,
}

impl HandoffState {
    pub open spec fn session_name(self) -> Seq<char> {
        self.sessions[self.session]
    }

    pub open spec fn window_name(self) -> Seq<char> {
        self.windows[self.window].name
    }

    pub open spec fn commands(self) -> Seq<Seq<char>> {
        self.windows[self.window].commands
    }

    /// What names the window under way in a command.
    pub open spec fn window_target(self) -> Seq<char> {
        window_target(self.session_name(), self.window_name())
    }

    /// What names the pane under way in a command.
    pub open spec fn pane_target(self) -> Seq<char> {
        pane_target(self.window_target(), self.panes[self.pane].index as nat)
    }

    /// The stop token of the pane under way.
    pub open spec fn token(self) -> Seq<char> {
        stop_token(self.session_name(), self.window_name(), self.panes[self.pane].index as nat)
    }

    /// The places are within their lists; a window under way is one that the
    /// session under way lists; and commands are started again in the
    /// target session only.
    pub open spec fn wf(self) -> bool {
        let in_session = 0 <= self.session < self.sessions.len();
        let in_window = in_session && 0 <= self.window < self.windows.len()
            && self.listed.contains(self.window_name());
        let in_pane = in_window && 0 <= self.pane < self.panes.len();
        match self.stage {
            Stage::Done => true,
            Stage::ListWindows => in_session,
            Stage::ListPanes => in_window,
            Stage::Interrupt => in_pane && self.panes[self.pane].pid is Some,
            Stage::Keys => in_pane,
            Stage::Signal => in_pane,
            Stage::Wait => in_pane,
            Stage::Restart => in_pane && self.pane < self.commands().len() && self.session_name()
                == self.target,
        }
    }
}

/// The command that the coordinator sends in a state: none once it is done.
pub open spec fn action(st: HandoffState) -> Option<CommandModel> {
    match st.stage {
        Stage::Done => None,
        Stage::ListWindows => Some(CommandModel::ListWindows { session: st.session_name() }),
        Stage::ListPanes => Some(CommandModel::ListPanes { target: st.window_target() }),
        Stage::Interrupt => Some(CommandModel::InterruptProcess { pid: st.panes[st.pane].pid->0 }),
        Stage::Keys => Some(
            CommandModel::SendKeys { target: st.pane_target(), keys: "C-c"@, enter: false },
        ),
        Stage::Signal => Some(
            CommandModel::SendKeys {
                target: st.pane_target(),
                keys: stop_signal(st.token()),
                enter: true,
            },
        ),
        Stage::Wait => Some(CommandModel::WaitFor { token: st.token() }),
        Stage::Restart => Some(
            CommandModel::SendKeys {
                target: st.pane_target(),
                keys: st.commands()[st.pane],
                enter: true,
            },
        ),
    }
}

/// The state with `fault` kept, unless one was kept before.
pub open spec fn record(st: HandoffState, fault: Fault) -> HandoffState {
    HandoffState { failure: first_failure(st.failure, fault), ..st }
}

/// On to the next session, or done after the last.
pub open spec fn next_session(st: HandoffState) -> HandoffState {
    if st.session + 1 < st.sessions.len() {
        HandoffState { session: st.session + 1, stage: Stage::ListWindows, ..st }
    } else {
        HandoffState { stage: Stage::Done, ..st }
    }
}

/// On to the first handoff window from the place `w` on that the session
/// under way lists, or to the next session where it lists none of them.
pub open spec fn enter_window(st: HandoffState, w: int) -> HandoffState
    decreases st.windows.len() - w,
{
    if w < 0 || w >= st.windows.len() {
        next_session(st)
    } else if st.listed.contains(st.windows[w].name) {
        HandoffState { window: w, stage: Stage::ListPanes, ..st }
    } else {
        enter_window(st, w + 1)
    }
}

/// On to the pane at the place `k`: its process is interrupted first where
/// its id is known, else the interrupt key is typed.
pub open spec fn begin_pane(st: HandoffState, k: int) -> HandoffState {
    HandoffState {
        pane: k,
        stage: if st.panes[k].pid is Some {
            Stage::Interrupt
        } else {
            Stage::Keys
        },
        ..st
    }
}

/// After the panes of a window were stopped, or stopping them failed: in the
/// target session the window's commands are started again, from the first
/// pane on; in any other session the next window follows.
pub open spec fn after_stop(st: HandoffState) -> HandoffState {
    if st.session_name() == st.target && st.commands().len() > 0 && st.panes.len() > 0 {
        HandoffState { pane: 0, stage: Stage::Restart, ..st }
    } else {
        enter_window(st, st.window + 1)
    }
}

/// The state after the reply to the command that was sent. A failure is
/// kept and does not end the hand-off: a session whose windows cannot be
/// listed is passed over, so is a window whose panes cannot be listed, and
/// a pane that cannot be stopped ends the stopping of its window. A failure
/// to interrupt a process is passed over in silence.
pub open spec fn handle(st: HandoffState, reply: ReplyModel) -> HandoffState {
    match st.stage {
        Stage::Done => st,
        Stage::ListWindows => match reply {
            Ok(lines) => enter_window(HandoffState { listed: lines, ..st }, 0),
            Err(fault) => next_session(record(st, fault)),
        },
        Stage::ListPanes => match reply {
            Ok(lines) => {
                let listed = HandoffState { panes: pane_listing(lines), ..st };
                if listed.panes.len() == 0 {
                    enter_window(listed, st.window + 1)
                } else {
                    begin_pane(listed, 0)
                }
            },
            Err(fault) => enter_window(record(st, fault), st.window + 1),
        },
        Stage::Interrupt => HandoffState { stage: Stage::Keys, ..st },
        Stage::Keys => match reply {
            Ok(_) => HandoffState { stage: Stage::Signal, ..st },
            Err(fault) => after_stop(record(st, fault)),
        },
        Stage::Signal => match reply {
            Ok(_) => HandoffState { stage: Stage::Wait, ..st },
            Err(fault) => after_stop(record(st, fault)),
        },
        Stage::Wait => match reply {
            Ok(_) => if st.pane + 1 < st.panes.len() {
                begin_pane(st, st.pane + 1)
            } else {
                after_stop(st)
            },
            Err(fault) => after_stop(record(st, fault)),
        },
        Stage::Restart => match reply {
            Ok(_) => if st.pane + 1 < st.commands().len() && st.pane + 1 < st.panes.len() {
                HandoffState { pane: st.pane + 1, ..st }
            } else {
                enter_window(st, st.window + 1)
            },
            Err(fault) => enter_window(record(st, fault), st.window + 1),
        },
    }
}

/// The state in which a hand-off starts: with the first session, or done
/// where there is no session or no window to hand off.
pub open spec fn start(
    target: Seq<char>,
    windows: Seq<HandoffWindowModel>,
    sessions: Seq<Seq<char>>,
) -> HandoffState {
    HandoffState {
        target: target,
        windows: windows,
        sessions: sessions,
        session: 0,
        window: 0,
        listed: Seq::empty(),
        panes: Seq::empty(),
        pane: 0,
        stage: if windows.len() == 0 || sessions.len() == 0 {
            Stage::Done
        } else {
            Stage::ListWindows
        },
        failure: None,
    }
}

/// How a hand-off ended: with the first failure met, if there was one.
pub open spec fn outcome(st: HandoffState) -> Option<Result<(), Fault>> {
    if st.stage == Stage::Done {
        match st.failure {
            Some(fault) => Some(Err(fault)),
            None => Some(Ok(())),
        }
    } else {
        None
    }
}

proof fn lemma_enter_window_wf(st: HandoffState, w: int)
    requires
        0 <= st.session < st.sessions.len(),
    ensures
        enter_window(st, w).wf(),
    decreases st.windows.len() - w,
{
    if 0 <= w < st.windows.len() && !st.listed.contains(st.windows[w].name) {
        lemma_enter_window_wf(st, w + 1);
    }
}

/// A step leaves a well-formed state well formed.
pub proof fn lemma_handle_wf(st: HandoffState, reply: ReplyModel)
    requires
        st.wf(),
    ensures
        handle(st, reply).wf(),
{
    match st.stage {
        Stage::Done => {},
        Stage::ListWindows => match reply {
            Ok(lines) => lemma_enter_window_wf(HandoffState { listed: lines, ..st }, 0),
            Err(fault) => {},
        },
        Stage::ListPanes => match reply {
            Ok(lines) => {
                lemma_enter_window_wf(
                    HandoffState { panes: pane_listing(lines), ..st },
                    st.window + 1,
                );
            },
            Err(fault) => lemma_enter_window_wf(record(st, fault), st.window + 1),
        },
        Stage::Interrupt => {},
        Stage::Keys => match reply {
            Ok(_) => {},
            Err(fault) => lemma_enter_window_wf(record(st, fault), st.window + 1),
        },
        Stage::Signal => match reply {
            Ok(_) => {},
            Err(fault) => lemma_enter_window_wf(record(st, fault), st.window + 1),
        },
        Stage::Wait => match reply {
            Ok(_) => lemma_enter_window_wf(st, st.window + 1),
            Err(fault) => lemma_enter_window_wf(record(st, fault), st.window + 1),
        },
        Stage::Restart => match reply {
            Ok(_) => lemma_enter_window_wf(st, st.window + 1),
            Err(fault) => lemma_enter_window_wf(record(st, fault), st.window + 1),
        },
    }
}

proof fn lemma_enter_window_keeps(st: HandoffState, w: int)
    ensures
        enter_window(st, w).target == st.target,
        enter_window(st, w).windows == st.windows,
        enter_window(st, w).sessions == st.sessions,
        enter_window(st, w).failure == st.failure,
        enter_window(st, w).listed == st.listed,
        enter_window(st, w).session >= st.session,
    decreases st.windows.len() - w,
{
    if 0 <= w < st.windows.len() && !st.listed.contains(st.windows[w].name) {
        lemma_enter_window_keeps(st, w + 1);
    }
}

/// A step changes neither the target nor the windows nor the sessions, it
/// never goes back to an earlier session, and a failure that was kept stays:
/// the failure reported at the end is the first one met.
pub proof fn lemma_handle_keeps(st: HandoffState, reply: ReplyModel)
    ensures
        handle(st, reply).target == st.target,
        handle(st, reply).windows == st.windows,
        handle(st, reply).sessions == st.sessions,
        handle(st, reply).session >= st.session,
        st.failure is Some ==> handle(st, reply).failure == st.failure,
        reply is Ok ==> handle(st, reply).failure == st.failure,
{
    match st.stage {
        Stage::Done => {},
        Stage::ListWindows => match reply {
            Ok(lines) => lemma_enter_window_keeps(HandoffState { listed: lines, ..st }, 0),
            Err(fault) => {},
        },
        Stage::ListPanes => match reply {
            Ok(lines) => {
                lemma_enter_window_keeps(
                    HandoffState { panes: pane_listing(lines), ..st },
                    st.window + 1,
                );
            },
            Err(fault) => lemma_enter_window_keeps(record(st, fault), st.window + 1),
        },
        Stage::Interrupt => {},
        Stage::Keys => match reply {
            Ok(_) => {},
            Err(fault) => lemma_enter_window_keeps(record(st, fault), st.window + 1),
        },
        Stage::Signal => match reply {
            Ok(_) => {},
            Err(fault) => lemma_enter_window_keeps(record(st, fault), st.window + 1),
        },
        Stage::Wait => match reply {
            Ok(_) => lemma_enter_window_keeps(st, st.window + 1),
            Err(fault) => lemma_enter_window_keeps(record(st, fault), st.window + 1),
        },
        Stage::Restart => match reply {
            Ok(_) => lemma_enter_window_keeps(st, st.window + 1),
            Err(fault) => lemma_enter_window_keeps(record(st, fault), st.window + 1),
        },
    }
}

/// Whatever is sent to a window or to one of its panes goes to a handoff
/// window that the session under way has listed, and a command is started
/// only in the target session.
pub proof fn lemma_touches_listed_windows(st: HandoffState)
    requires
        st.wf(),
        st.stage != Stage::Done,
        st.stage != Stage::ListWindows,
    ensures
        st.listed.contains(st.window_name()),
        st.stage == Stage::Restart ==> st.session_name() == st.target,
{
}

/// Whether `list` holds `name`.
pub fn contains_text(list: &Vec<String>, name: &str) -> (r: bool)
    ensures
        r == list.deep_view().contains(name@),
{
    let mut i: usize = 0;
    while i < list.len()
        invariant
            i <= list.len(),
            forall|k: int| 0 <= k < i ==> list@[k]@ != name@,
        decreases list.len() - i,
    {
        if same_text(list[i].as_str(), name) {
            assert(list.deep_view()[i as int] == name@);
            return true;
        }
        i += 1;
    }
    assert forall|k: int| 0 <= k < list.deep_view().len() implies list.deep_view()[k] != name@ by {
        assert(list.deep_view()[k] == list@[k]@);
    }
    false
}

/// The decisions of one hand-off. It does no I/O: a caller sends the command
/// that `action` gives on one connection, hands the reply to `handle`, and
/// goes on until `action` gives none.
pub struct HandoffCoordinator {
    target: String,
    windows: Vec<HandoffWindow>,
    sessions: Vec<String>,
    session: usize,
    window: usize,
    listed: Vec<String>,
    panes: Vec<PaneInfo>,
    pane: usize,
    stage: Stage,
    failure: Option<ControlError>,
}

impl View for HandoffCoordinator {
    type V = HandoffState;

    closed spec fn view(&self) -> HandoffState {
        HandoffState {
            target: self.target@,
            windows: self.windows.deep_view(),
            sessions: self.sessions.deep_view(),
            session: self.session as int,
            window: self.window as int,
            listed: self.listed.deep_view(),
            panes: self.panes@,
            pane: self.pane as int,
            stage: self.stage,
            failure: match self.failure {
                Some(e) => Some(e@),
                None => None,
            },
        }
    }
}

impl HandoffCoordinator {
    /// Every coordinator is in a well-formed state.
    #[verifier::type_invariant]
    spec fn well_formed(self) -> bool {
        self@.wf()
    }

    /// A hand-off to the session `target` of the given windows in the given
    /// sessions.
    pub fn new(target: String, windows: Vec<HandoffWindow>, sessions: Vec<String>) -> (r:
        HandoffCoordinator)
        ensures
            r@ == start(target@, windows.deep_view(), sessions.deep_view()),
            r@.wf(),
    {
        let stage = if windows.len() == 0 || sessions.len() == 0 {
            Stage::Done
        } else {
            Stage::ListWindows
        };
        assert(windows.deep_view().len() == windows.len());
        assert(sessions.deep_view().len() == sessions.len());
        let r = HandoffCoordinator {
            target: target,
            windows: windows,
            sessions: sessions,
            session: 0,
            window: 0,
            listed: Vec::new(),
            panes: Vec::new(),
            pane: 0,
            stage: stage,
            failure: None,
        };
        assert(r.listed.deep_view() =~= Seq::<Seq<char>>::empty());
        assert(r.panes@ =~= Seq::<PaneInfo>::empty());
        r
    }

    /// Whether every session was gone through.
    pub fn is_done(&self) -> (r: bool)
        ensures
            r == (self@.stage == Stage::Done),
            r == (action(self@) is None),
    {
        match self.stage {
            Stage::Done => true,
            _ => false,
        }
    }

    /// How the hand-off ended, once it is done: with the first failure met,
    /// if there was one.
    pub fn outcome(&self) -> (r: Option<Result<(), ControlError>>)
        ensures
            match outcome(self@) {
                Some(Ok(_)) => r == Some::<Result<(), ControlError>>(Ok(())),
                Some(Err(fault)) => r is Some && r->0 is Err && r->0->Err_0@ == fault,
                None => r is None,
            },
    {
        match self.stage {
            Stage::Done => match &self.failure {
                Some(e) => Some(Err(e.duplicate())),
                None => Some(Ok(())),
            },
            _ => None,
        }
    }

    fn window_target_text(&self) -> (target: String)
        requires
            0 <= self@.session < self@.sessions.len(),
            0 <= self@.window < self@.windows.len(),
        ensures
            target@ == self@.window_target(),
    {
        assert(self.sessions.deep_view()[self.session as int] == self.sessions@[self.session as int]@);
        assert(self.windows.deep_view()[self.window as int]
            == self.windows@[self.window as int].deep_view());
        make_window_target(
            self.sessions[self.session].as_str(),
            self.windows[self.window].name.as_str(),
        )
    }

    fn pane_target_text(&self) -> (target: String)
        requires
            0 <= self@.session < self@.sessions.len(),
            0 <= self@.window < self@.windows.len(),
            0 <= self@.pane < self@.panes.len(),
        ensures
            target@ == self@.pane_target(),
    {
        let window = self.window_target_text();
        make_pane_target(window.as_str(), self.panes[self.pane].index)
    }

    fn token_text(&self) -> (token: String)
        requires
            0 <= self@.session < self@.sessions.len(),
            0 <= self@.window < self@.windows.len(),
            0 <= self@.pane < self@.panes.len(),
        ensures
            token@ == self@.token(),
    {
        assert(self.sessions.deep_view()[self.session as int] == self.sessions@[self.session as int]@);
        assert(self.windows.deep_view()[self.window as int]
            == self.windows@[self.window as int].deep_view());
        handoff_stop_token(
            self.sessions[self.session].as_str(),
            self.windows[self.window].name.as_str(),
            self.panes[self.pane].index,
        )
    }

    /// The command to send next: none once the hand-off is done.
    pub fn action(&self) -> (r: Option<ControlCommand>)
        ensures
            r.deep_view() == action(self@),
            self@.wf(),
    {
        proof {
            use_type_invariant(self);
        }
        match self.stage {
            Stage::Done => None,
            Stage::ListWindows => {
                assert(self.sessions.deep_view()[self.session as int]
                    == self.sessions@[self.session as int]@);
                Some(
                    ControlCommand::ListWindows {
                        session: copy_text(self.sessions[self.session].as_str()),
                    },
                )
            },
            Stage::ListPanes => Some(ControlCommand::ListPanes { target: self.window_target_text() }),
            Stage::Interrupt => match self.panes[self.pane].pid {
                Some(pid) => Some(ControlCommand::InterruptProcess { pid: pid }),
                None => None,
            },
            Stage::Keys => Some(
                ControlCommand::SendKeys {
                    target: self.pane_target_text(),
                    keys: copy_text("C-c"),
                    enter: false,
                },
            ),
            Stage::Signal => {
                let token = self.token_text();
                Some(
                    ControlCommand::SendKeys {
                        target: self.pane_target_text(),
                        keys: handoff_stop_signal(token.as_str()),
                        enter: true,
                    },
                )
            },
            Stage::Wait => Some(ControlCommand::WaitFor { token: self.token_text() }),
            Stage::Restart => {
                assert(self.windows.deep_view()[self.window as int]
                    == self.windows@[self.window as int].deep_view());
                assert(self.windows@[self.window as int].commands.deep_view()[self.pane as int]
                    == self.windows@[self.window as int].commands@[self.pane as int]@);
                Some(
                    ControlCommand::SendKeys {
                        target: self.pane_target_text(),
                        keys: copy_text(self.windows[self.window].commands[self.pane].as_str()),
                        enter: true,
                    },
                )
            },
        }
    }

    fn note(&mut self, e: ControlError)
        ensures
            final(self)@ == record(old(self)@, e@),
    {
        proof {
            use_type_invariant(&*self);
        }
        if self.failure.is_none() {
            self.failure = Some(e);
        }
    }

    fn go_next_session(&mut self)
        requires
            0 <= old(self)@.session < old(self)@.sessions.len(),
        ensures
            final(self)@ == next_session(old(self)@),
    {
        assert(self.sessions.deep_view().len() == self.sessions.len());
        self.stage = Stage::Done;
        if self.session + 1 < self.sessions.len() {
            self.session = self.session + 1;
            self.stage = Stage::ListWindows;
        }
    }

    fn go_enter_window(&mut self, from: usize)
        requires
            0 <= old(self)@.session < old(self)@.sessions.len(),
        ensures
            final(self)@ == enter_window(old(self)@, from as int),
    {
        let mut w: usize = from;
        assert(self.windows.deep_view().len() == self.windows.len());
        while w < self.windows.len()
            invariant
                *self == *old(self),
                0 <= self@.session < self@.sessions.len(),
                self.windows.deep_view().len() == self.windows.len(),
                enter_window(self@, w as int) == enter_window(self@, from as int),
            decreases self.windows.len() - w,
        {
            assert(self.windows.deep_view()[w as int] == self.windows@[w as int].deep_view());
            if contains_text(&self.listed, self.windows[w].name.as_str()) {
                self.stage = Stage::Done;
                self.window = w;
                self.stage = Stage::ListPanes;
                return ;
            }
            w += 1;
        }
        self.go_next_session();
    }

    fn go_begin_pane(&mut self, k: usize)
        requires
            k < old(self)@.panes.len(),
            old(self)@.stage != Stage::Done,
            old(self)@.stage != Stage::ListWindows,
        ensures
            final(self)@ == begin_pane(old(self)@, k as int),
    {
        proof {
            use_type_invariant(&*self);
        }
        let next = match self.panes[k].pid {
            Some(_) => Stage::Interrupt,
            None => Stage::Keys,
        };
        let ghost before = self@;
        self.stage = Stage::Done;
        self.pane = k;
        assert(before.stage != Stage::Done && before.stage != Stage::ListWindows);
        self.stage = next;
    }

    fn go_after_stop(&mut self)
        requires
            0 <= old(self)@.session < old(self)@.sessions.len(),
            0 <= old(self)@.window < old(self)@.windows.len(),
            old(self)@.stage != Stage::Done,
            old(self)@.stage != Stage::ListWindows,
        ensures
            final(self)@ == after_stop(old(self)@),
    {
        assert(self.sessions.deep_view()[self.session as int] == self.sessions@[self.session as int]@);
        assert(self.windows.deep_view()[self.window as int]
            == self.windows@[self.window as int].deep_view());
        assert(self.windows@[self.window as int].commands.deep_view().len()
            == self.windows@[self.window as int].commands.len());
        assert(self.windows.deep_view().len() == self.windows.len());
        if same_text(self.sessions[self.session].as_str(), self.target.as_str())
            && self.windows[self.window].commands.len() > 0 && self.panes.len() > 0 {
            proof {
                use_type_invariant(&*self);
            }
            self.stage = Stage::Done;
            self.pane = 0;
            self.stage = Stage::Restart;
        } else {
            let next = self.window + 1;
            self.go_enter_window(next);
        }
    }

    /// Takes the reply to the command that `action` gave, and moves on.
    pub fn handle(&mut self, reply: Reply)
        ensures
            final(self)@ == handle(old(self)@, reply_model(reply)),
            old(self)@.wf(),
            final(self)@.wf(),
    {
        proof {
            use_type_invariant(&*self);
            lemma_handle_wf(self@, reply_model(reply));
        }
        assert(self.windows.deep_view().len() == self.windows.len());
        assert(self.sessions.deep_view().len() == self.sessions.len());
        match self.stage {
            Stage::Done => {},
            Stage::ListWindows => match reply {
                Ok(lines) => {
                    self.listed = lines;
                    self.go_enter_window(0);
                },
                Err(e) => {
                    self.note(e);
                    self.go_next_session();
                },
            },
            Stage::ListPanes => match reply {
                Ok(lines) => {
                    self.panes = parse_pane_infos(&lines);
                    if self.panes.len() == 0 {
                        let next = self.window + 1;
                        self.go_enter_window(next);
                    } else {
                        self.go_begin_pane(0);
                    }
                },
                Err(e) => {
                    self.note(e);
                    let next = self.window + 1;
                    self.go_enter_window(next);
                },
            },
            Stage::Interrupt => {
                self.stage = Stage::Keys;
            },
            Stage::Keys => match reply {
                Ok(_) => {
                    self.stage = Stage::Signal;
                },
                Err(e) => {
                    self.note(e);
                    self.go_after_stop();
                },
            },
            Stage::Signal => match reply {
                Ok(_) => {
                    self.stage = Stage::Wait;
                },
                Err(e) => {
                    self.note(e);
                    self.go_after_stop();
                },
            },
            Stage::Wait => match reply {
                Ok(_) => {
                    let count = self.panes.len();
                    if self.pane + 1 < count {
                        let next = self.pane + 1;
                        self.go_begin_pane(next);
                    } else {
                        self.go_after_stop();
                    }
                },
                Err(e) => {
                    self.note(e);
                    self.go_after_stop();
                },
            },
            Stage::Restart => match reply {
                Ok(_) => {
                    assert(self.windows.deep_view()[self.window as int]
                        == self.windows@[self.window as int].deep_view());
                    assert(self.windows@[self.window as int].commands.deep_view().len()
                        == self.windows@[self.window as int].commands.len());
                    if self.pane + 1 < self.windows[self.window].commands.len() && self.pane + 1
                        < self.panes.len() {
                        self.pane = self.pane + 1;
                    } else {
                        let next = self.window + 1;
                        self.go_enter_window(next);
                    }
                },
                Err(e) => {
                    self.note(e);
                    let next = self.window + 1;
                    self.go_enter_window(next);
                },
            },
        }
    }
}

/// The message that reports a hand-off that met a failure.
pub open spec fn handoff_failure(fault: Fault) -> Seq<char> {
    "Failed to apply worktree handoff: "@ + fault_message(fault)
}

pub fn handoff_failure_message(e: &ControlError) -> (out: String)
    ensures
        out@ == handoff_failure(e@),
{
    let mut out = copy_text("Failed to apply worktree handoff: ");
    let message = e.message();
    out.append(message.as_str());
    out
}

/// The hand-off of a project's handoff windows to the session
/// `target_session`, among the running sessions `sessions`: it goes through
/// the project's main session and its worktree sessions, in order. It is
/// done at once where the project has no handoff window that runs a
/// command, or no session of it is running.
pub fn handoff_project_windows(project: &Project, target_session: &str, sessions: &Vec<String>) -> (r:
    HandoffCoordinator)
    ensures
        r@ == start(
            target_session@,
            configured_windows(
                project.deep_view().windows,
                handoff_windows_of(project.deep_view()),
            ),
            sessions.deep_view().filter(|s: Seq<char>| is_session_of(project.name@, s)),
        ),
        r@.wf(),
{
    let windows = handoff_windows(project);
    let own = running_project_sessions(project.name.as_str(), sessions);
    HandoffCoordinator::new(copy_text(target_session), windows, own)
}

/// How far a hand-off is from its end: the sessions left, the windows left
/// in the session under way, the steps left for the window under way, and
/// the steps left for its panes. The hand-off is done at all zeros.
pub open spec fn distance(st: HandoffState) -> (int, int, int, int) {
    let sessions = st.sessions.len() - st.session;
    let windows = st.windows.len() - st.window;
    let panes = st.panes.len() - st.pane;
    match st.stage {
        Stage::Done => (0, 0, 0, 0),
        Stage::ListWindows => (sessions, st.windows.len() as int + 1, 0, 0),
        Stage::ListPanes => (sessions, windows, 2, 0),
        Stage::Interrupt => (sessions, windows, 1, 4 * panes + 3),
        Stage::Keys => (sessions, windows, 1, 4 * panes + 2),
        Stage::Signal => (sessions, windows, 1, 4 * panes + 1),
        Stage::Wait => (sessions, windows, 1, 4 * panes),
        Stage::Restart => (sessions, windows, 0, panes),
    }
}

/// `a` is nearer to the end than `b`: less at the first place where the two
/// differ, and nowhere below zero.
pub open spec fn nearer(a: (int, int, int, int), b: (int, int, int, int)) -> bool {
    &&& 0 <= a.0 && 0 <= a.1 && 0 <= a.2 && 0 <= a.3
    &&& {
        ||| a.0 < b.0
        ||| a.0 == b.0 && a.1 < b.1
        ||| a.0 == b.0 && a.1 == b.1 && a.2 < b.2
        ||| a.0 == b.0 && a.1 == b.1 && a.2 == b.2 && a.3 < b.3
    }
}

proof fn lemma_enter_window_distance(st: HandoffState, w: int)
    requires
        0 <= st.session < st.sessions.len(),
        0 <= w,
    ensures
        ({
            let d = distance(enter_window(st, w));
            &&& 0 <= d.0 && 0 <= d.1 && 0 <= d.2 && 0 <= d.3
            &&& d.0 < st.sessions.len() - st.session || (d.0 == st.sessions.len() - st.session
                && d.1 <= st.windows.len() - w)
        }),
    decreases st.windows.len() - w,
{
    if w < st.windows.len() && !st.listed.contains(st.windows[w].name) {
        lemma_enter_window_distance(st, w + 1);
    }
}

/// Each step brings a hand-off that is not done nearer to its end: a
/// hand-off ends after finitely many steps, whatever the replies.
pub proof fn lemma_handle_advances(st: HandoffState, reply: ReplyModel)
    requires
        st.wf(),
        st.stage != Stage::Done,
    ensures
        nearer(distance(handle(st, reply)), distance(st)),
{
    match st.stage {
        Stage::Done => {},
        Stage::ListWindows => match reply {
            Ok(lines) => lemma_enter_window_distance(HandoffState { listed: lines, ..st }, 0),
            Err(fault) => {},
        },
        Stage::ListPanes => match reply {
            Ok(lines) => {
                lemma_enter_window_distance(
                    HandoffState { panes: pane_listing(lines), ..st },
                    st.window + 1,
                );
            },
            Err(fault) => lemma_enter_window_distance(record(st, fault), st.window + 1),
        },
        Stage::Interrupt => {},
        Stage::Keys => match reply {
            Ok(_) => {},
            Err(fault) => lemma_enter_window_distance(record(st, fault), st.window + 1),
        },
        Stage::Signal => match reply {
            Ok(_) => {},
            Err(fault) => lemma_enter_window_distance(record(st, fault), st.window + 1),
        },
        Stage::Wait => match reply {
            Ok(_) => lemma_enter_window_distance(st, st.window + 1),
            Err(fault) => lemma_enter_window_distance(record(st, fault), st.window + 1),
        },
        Stage::Restart => match reply {
            Ok(_) => lemma_enter_window_distance(st, st.window + 1),
            Err(fault) => lemma_enter_window_distance(record(st, fault), st.window + 1),
        },
    }
}

/// A stop token stands for one pane of one window of one session: two
/// tokens that are alike, of sessions whose names hold no colon, were made
/// for the same session, the same window and the same pane.
pub proof fn lemma_stop_token_injective(
    session_a: Seq<char>,
    window_a: Seq<char>,
    pane_a: nat,
    session_b: Seq<char>,
    window_b: Seq<char>,
    pane_b: nat,
)
    requires
        !session_a.contains(':'),
        !session_b.contains(':'),
        stop_token(session_a, window_a, pane_a) == stop_token(session_b, window_b, pane_b),
    ensures
        session_a == session_b,
        window_a == window_b,
        pane_a == pane_b,
{
    let head = "twig-handoff-stop:"@;
    let rest_a = session_a.push(':') + window_a.push(':') + decimal(pane_a);
    let rest_b = session_b.push(':') + window_b.push(':') + decimal(pane_b);
    assert(stop_token(session_a, window_a, pane_a) =~= head + rest_a);
    assert(stop_token(session_b, window_b, pane_b) =~= head + rest_b);
    assert(rest_a =~= (head + rest_a).skip(head.len() as int));
    assert(rest_b =~= (head + rest_b).skip(head.len() as int));
    assert forall|k: int| 0 <= k < session_a.len() implies #[trigger] rest_a[k] != ':' by {
        assert(rest_a[k] == session_a[k]);
    }
    assert(rest_a[session_a.len() as int] == ':');
    lemma_first_index(rest_a, ':', session_a.len() as int);
    assert forall|k: int| 0 <= k < session_b.len() implies #[trigger] rest_b[k] != ':' by {
        assert(rest_b[k] == session_b[k]);
    }
    assert(rest_b[session_b.len() as int] == ':');
    lemma_first_index(rest_b, ':', session_b.len() as int);
    assert(session_a =~= rest_a.take(session_a.len() as int));
    assert(session_b =~= rest_b.take(session_b.len() as int));
    let tail_a = window_a.push(':') + decimal(pane_a);
    let tail_b = window_b.push(':') + decimal(pane_b);
    assert(tail_a =~= rest_a.skip(session_a.len() as int + 1));
    assert(tail_b =~= rest_b.skip(session_b.len() as int + 1));
    lemma_decimal_digits(pane_a);
    lemma_decimal_digits(pane_b);
    lemma_digits_split(window_a.push(':'), decimal(pane_a), window_b.push(':'), decimal(pane_b));
    lemma_decimal_injective(pane_a, pane_b);
    assert(window_a =~= window_a.push(':').drop_last());
    assert(window_b =~= window_b.push(':').drop_last());
}

} // verus!
