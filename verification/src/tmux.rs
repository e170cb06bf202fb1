//! Session names, wait tokens, and the plan that builds a session: the
//! commands to send on one connection, in order, each when the reply to the
//! one before it has come, stopping at the first that fails.

use crate::command::{CommandModel, ControlCommand, SplitDirection};
use crate::config::{
    copy_texts, copy_windows, expand_tilde, post_create_of, tilde_expansion, Pane, Project,
    Window, WindowModel,
};
use crate::tmux_control::{
    reply_model, unique_nonce, ControlError, Fault, Reply, ReplyModel,
};
use crate::text::{
    copy_text, decimal, find, find_chars, from_chars, is_blank, lemma_decimal_digits,
    lemma_decimal_injective, lemma_deep_append, lemma_deep_push, lemma_digits_split,
    lemma_trimmed_empty, lines_of, parse_number, parse_unsigned, push_decimal, same_text,
    text_lines, to_chars, trim, trim_bounds, trimmed,
};
use vstd::prelude::*;

verus! {

/// The window that a new session starts with, in which the post-create
/// commands run and which then becomes the first declared window.
pub const SETUP_WINDOW_NAME: &'static str = "setup-twig";

/// What stands between the project's name and the branch in the name of a
/// worktree session.
pub const WORKTREE_SESSION_PREFIX: &'static str = "__";

/// The name of the window of a session that declares none.
pub const DEFAULT_WINDOW_NAME: &'static str = "shell";

/// The project that a worktree session belongs to: what stands before the
/// first `__` of its name.
pub open spec fn worktree_project(session: Seq<char>) -> Option<Seq<char>> {
    match find(session, WORKTREE_SESSION_PREFIX@) {
        Some(i) => Some(session.take(i)),
        None => None,
    }
}

pub open spec fn is_worktree_session(session: Seq<char>, project: Seq<char>) -> bool {
    worktree_project(session) == Some(project)
}

/// The session is the project's main session or one of its worktree sessions.
pub open spec fn is_session_of(project: Seq<char>, session: Seq<char>) -> bool {
    session == project || is_worktree_session(session, project)
}

/// The project that a worktree session belongs to.
pub fn worktree_project_name(session_name: &str) -> (r: Option<String>)
    ensures
        r.deep_view() == worktree_project(session_name@),
{
    let v = to_chars(session_name);
    let pat = to_chars(WORKTREE_SESSION_PREFIX);
    match find_chars(&v, &pat) {
        Some(i) => {
            let r = from_chars(&v, 0, i);
            assert(v@.subrange(0, i as int) =~= v@.take(i as int));
            Some(r)
        },
        None => None,
    }
}

/// Whether a session is a worktree session of the project.
pub fn is_worktree_session_for_project(session_name: &str, project_name: &str) -> (r: bool)
    ensures
        r == is_worktree_session(session_name@, project_name@),
{
    match worktree_project_name(session_name) {
        Some(project) => same_text(project.as_str(), project_name),
        None => false,
    }
}

/// Whether a session is the project's main session or one of its worktree
/// sessions.
pub fn is_project_session(project_name: &str, session_name: &str) -> (r: bool)
    ensures
        r == is_session_of(project_name@, session_name@),
{
    same_text(session_name, project_name) || is_worktree_session_for_project(
        session_name,
        project_name,
    )
}

/// Of the running sessions, the worktree sessions of the project, in order.
pub fn running_worktree_sessions_for_project(project_name: &str, sessions: &Vec<String>) -> (r:
    Vec<String>)
    ensures
        r.deep_view() == sessions.deep_view().filter(
            |s: Seq<char>| is_worktree_session(s, project_name@),
        ),
{
    let ghost keep = |s: Seq<char>| is_worktree_session(s, project_name@);
    let ghost all = sessions.deep_view();
    let mut r: Vec<String> = Vec::new();
    let mut i: usize = 0;
    proof {
        reveal(Seq::filter);
        assert(all.take(0) =~= Seq::<Seq<char>>::empty());
        assert(r.deep_view() =~= all.take(0).filter(keep));
    }
    while i < sessions.len()
        invariant
            i <= sessions.len(),
            all == sessions.deep_view(),
            keep == |s: Seq<char>| is_worktree_session(s, project_name@),
            r.deep_view() == all.take(i as int).filter(keep),
        decreases sessions.len() - i,
    {
        proof {
            assert(all.take(i + 1) =~= all.take(i as int).push(sessions@[i as int]@));
            Seq::lemma_filter_push(all.take(i as int), sessions@[i as int]@, keep);
        }
        if is_worktree_session_for_project(sessions[i].as_str(), project_name) {
            let ghost before = r;
            let name = copy_text(sessions[i].as_str());
            r.push(name);
            proof {
                lemma_deep_push(before, r, name);
            }
        }
        i += 1;
    }
    assert(all.take(i as int) =~= all);
    r
}

/// Of the running sessions, those of the project: its main session and its
/// worktree sessions, in order.
pub fn running_project_sessions(project_name: &str, sessions: &Vec<String>) -> (r: Vec<String>)
    ensures
        r.deep_view() == sessions.deep_view().filter(
            |s: Seq<char>| is_session_of(project_name@, s),
        ),
{
    let ghost keep = |s: Seq<char>| is_session_of(project_name@, s);
    let ghost all = sessions.deep_view();
    let mut r: Vec<String> = Vec::new();
    let mut i: usize = 0;
    proof {
        reveal(Seq::filter);
        assert(all.take(0) =~= Seq::<Seq<char>>::empty());
        assert(r.deep_view() =~= all.take(0).filter(keep));
    }
    while i < sessions.len()
        invariant
            i <= sessions.len(),
            all == sessions.deep_view(),
            keep == |s: Seq<char>| is_session_of(project_name@, s),
            r.deep_view() == all.take(i as int).filter(keep),
        decreases sessions.len() - i,
    {
        proof {
            assert(all.take(i + 1) =~= all.take(i as int).push(sessions@[i as int]@));
            Seq::lemma_filter_push(all.take(i as int), sessions@[i as int]@, keep);
        }
        if is_project_session(project_name, sessions[i].as_str()) {
            let ghost before = r;
            let name = copy_text(sessions[i].as_str());
            r.push(name);
            proof {
                lemma_deep_push(before, r, name);
            }
        }
        i += 1;
    }
    assert(all.take(i as int) =~= all);
    r
}

/// Of the running sessions, the worktree sessions of the project to stop so
/// that only `keep_session` is left, in order.
pub fn kill_other_worktree_sessions_for_project(
    project_name: &str,
    keep_session: &str,
    sessions: &Vec<String>,
) -> (r: Vec<String>)
    ensures
        r.deep_view() == sessions.deep_view().filter(
            |s: Seq<char>| is_worktree_session(s, project_name@) && s != keep_session@,
        ),
{
    let ghost keep = |s: Seq<char>| is_worktree_session(s, project_name@) && s != keep_session@;
    let ghost all = sessions.deep_view();
    let mut r: Vec<String> = Vec::new();
    let mut i: usize = 0;
    proof {
        reveal(Seq::filter);
        assert(all.take(0) =~= Seq::<Seq<char>>::empty());
        assert(r.deep_view() =~= all.take(0).filter(keep));
    }
    while i < sessions.len()
        invariant
            i <= sessions.len(),
            all == sessions.deep_view(),
            keep == |s: Seq<char>| is_worktree_session(s, project_name@) && s != keep_session@,
            r.deep_view() == all.take(i as int).filter(keep),
        decreases sessions.len() - i,
    {
        proof {
            assert(all.take(i + 1) =~= all.take(i as int).push(sessions@[i as int]@));
            Seq::lemma_filter_push(all.take(i as int), sessions@[i as int]@, keep);
        }
        if is_worktree_session_for_project(sessions[i].as_str(), project_name) && !same_text(
            sessions[i].as_str(),
            keep_session,
        ) {
            let ghost before = r;
            let name = copy_text(sessions[i].as_str());
            r.push(name);
            proof {
                lemma_deep_push(before, r, name);
            }
        }
        i += 1;
    }
    assert(all.take(i as int) =~= all);
    r
}

/// The name of the signal that tells that the post-create command of that
/// index has ended in that session, made at the time `now`.
pub open spec fn wait_token(session: Seq<char>, index: nat, now: nat) -> Seq<char> {
    ("twig-post-create-"@ + session).push('-') + decimal(index).push('-') + decimal(now)
}

/// The wait token of a session and an index for the clock reading `now`.
pub fn wait_token_at(session: &str, index: usize, now: u128) -> (token: String)
    ensures
        token@ == wait_token(session@, index as nat, now as nat),
{
    let mut token = copy_text("twig-post-create-");
    token.append(session);
    token.push('-');
    let ghost head = token@;
    push_decimal(&mut token, index as u128);
    token.push('-');
    assert(token@ =~= head + decimal(index as nat).push('-'));
    push_decimal(&mut token, now);
    token
}

/// A wait token of a session and an index, made at the time of the call.
pub fn unique_wait_token(session: &str, index: usize) -> (token: String)
    ensures
        exists|now: nat| token@ == #[trigger] wait_token(session@, index as nat, now),
{
    let now = unique_nonce();
    let token = wait_token_at(session, index, now);
    assert(token@ == wait_token(session@, index as nat, now as nat));
    token
}

/// A wait token stands for one session, one index and one time: two tokens
/// that are alike were made for the same session and the same index at the
/// same time.
pub proof fn lemma_wait_token_injective(
    session_a: Seq<char>,
    index_a: nat,
    now_a: nat,
    session_b: Seq<char>,
    index_b: nat,
    now_b: nat,
)
    requires
        wait_token(session_a, index_a, now_a) == wait_token(session_b, index_b, now_b),
    ensures
        session_a == session_b,
        index_a == index_b,
        now_a == now_b,
{
    let head = "twig-post-create-"@;
    let front_a = (head + session_a).push('-');
    let front_b = (head + session_b).push('-');
    let middle_a = (front_a + decimal(index_a)).push('-');
    let middle_b = (front_b + decimal(index_b)).push('-');
    lemma_decimal_digits(index_a);
    lemma_decimal_digits(index_b);
    lemma_decimal_digits(now_a);
    lemma_decimal_digits(now_b);
    assert(wait_token(session_a, index_a, now_a) =~= middle_a + decimal(now_a));
    assert(wait_token(session_b, index_b, now_b) =~= middle_b + decimal(now_b));
    lemma_digits_split(middle_a, decimal(now_a), middle_b, decimal(now_b));
    lemma_decimal_injective(now_a, now_b);
    assert(front_a + decimal(index_a) =~= middle_a.drop_last());
    assert(front_b + decimal(index_b) =~= middle_b.drop_last());
    lemma_digits_split(front_a, decimal(index_a), front_b, decimal(index_b));
    lemma_decimal_injective(index_a, index_b);
    assert(head + session_a =~= front_a.drop_last());
    assert(head + session_b =~= front_b.drop_last());
    assert(session_a =~= (head + session_a).skip(head.len() as int));
    assert(session_b =~= (head + session_b).skip(head.len() as int));
}

/// Two wait tokens of one session whose indices differ are different names,
/// whatever the times at which they were made.
pub proof fn lemma_wait_tokens_differ(
    session: Seq<char>,
    index_a: nat,
    index_b: nat,
    now_a: nat,
    now_b: nat,
)
    requires
        index_a != index_b,
    ensures
        wait_token(session, index_a, now_a) != wait_token(session, index_b, now_b),
{
    if wait_token(session, index_a, now_a) == wait_token(session, index_b, now_b) {
        lemma_wait_token_injective(session, index_a, now_a, session, index_b, now_b);
    }
}

/// What names a window of a session in a command.
pub open spec fn window_target(session: Seq<char>, window: Seq<char>) -> Seq<char> {
    session.push(':') + window
}

/// What names the pane of that index in the window that `target` names.
pub open spec fn pane_target(target: Seq<char>, index: nat) -> Seq<char> {
    target.push('.') + decimal(index)
}

pub fn make_window_target(session: &str, window: &str) -> (target: String)
    ensures
        target@ == window_target(session@, window@),
{
    let mut target = copy_text(session);
    target.push(':');
    target.append(window);
    target
}

pub fn make_pane_target(target: &str, index: u32) -> (out: String)
    ensures
        out@ == pane_target(target@, index as nat),
{
    let mut out = copy_text(target);
    out.push('.');
    push_decimal(&mut out, index as u128);
    out
}

pub(crate) fn push_command(plan: &mut Vec<ControlCommand>, command: ControlCommand)
    ensures
        final(plan).deep_view() == old(plan).deep_view().push(command@),
{
    let ghost before = *plan;
    plan.push(command);
    proof {
        lemma_deep_push(before, *plan, command);
    }
}

pub(crate) fn extend_plan(plan: &mut Vec<ControlCommand>, more: Vec<ControlCommand>)
    ensures
        final(plan).deep_view() == old(plan).deep_view() + more.deep_view(),
{
    let ghost before = *plan;
    let mut rest = more;
    plan.append(&mut rest);
    proof {
        lemma_deep_append(before, *plan, more);
    }
}

/// What a session is built from: its name, its root directory, the project
/// and the worktree branch that its environment declares, the commands to
/// run before its windows are laid out, and its windows.
pub struct SessionBuilder {
    pub session_name: String,
    pub root: String,
    pub windows: Vec<Window>,
    pub project_name: String,
    pub worktree_branch: Option<String>,
    pub post_create_commands: Vec<String>,
}

pub struct SessionSpec {
    pub session_name: Seq<char>,
    pub root: Seq<char>,
    pub windows: Seq<WindowModel>,
    pub project_name: Seq<char>,
    pub worktree_branch: Option<Seq<char>>,
    pub post_create: Seq<Seq<char>>,
}

impl DeepView for SessionBuilder {
    type V = SessionSpec;

    open spec fn deep_view(&self) -> SessionSpec {
        SessionSpec {
            session_name: self.session_name@,
            root: self.root@,
            windows: self.windows.deep_view(),
            project_name: self.project_name@,
            worktree_branch: self.worktree_branch.deep_view(),
            post_create: self.post_create_commands.deep_view(),
        }
    }
}

/// The variables that a session declares: the project, and the worktree
/// branch where there is one.
pub open spec fn session_env(spec: SessionSpec) -> Seq<(Seq<char>, Seq<char>)> {
    let project = seq![("TWIG_PROJECT"@, spec.project_name)];
    match spec.worktree_branch {
        Some(branch) => project.push(("TWIG_WORKTREE"@, branch)),
        None => project,
    }
}

/// The commands that create the session: the session itself, with the setup
/// window and the variables, then each variable declared once more on the
/// session.
pub open spec fn create_plan(spec: SessionSpec, root: Seq<char>) -> Seq<CommandModel> {
    let base = seq![
        CommandModel::NewSession {
            name: spec.session_name,
            window: SETUP_WINDOW_NAME@,
            cwd: root,
            env: session_env(spec),
        },
        CommandModel::SetEnvironment {
            session: spec.session_name,
            name: "TWIG_PROJECT"@,
            value: spec.project_name,
        },
    ];
    match spec.worktree_branch {
        Some(branch) => base.push(
            CommandModel::SetEnvironment {
                session: spec.session_name,
                name: "TWIG_WORKTREE"@,
                value: branch,
            },
        ),
        None => base,
    }
}

/// What is typed into a pane to run `command` and raise the signal `token`
/// when it has ended.
pub open spec fn signal_keys(command: Seq<char>, token: Seq<char>) -> Seq<char> {
    trimmed(command) + "; tmux wait-for -S "@ + token
}

/// The commands that run `command` in a pane and wait until it has ended:
/// the keys, then the wait for the signal. A blank command takes none.
pub open spec fn blocking_plan(target: Seq<char>, command: Seq<char>, token: Seq<char>) -> Seq<
    CommandModel,
> {
    if is_blank(command) {
        Seq::empty()
    } else {
        seq![
            CommandModel::SendKeys { target: target, keys: signal_keys(command, token), enter: true },
            CommandModel::WaitFor { token: token },
        ]
    }
}

/// The commands that run the first `n` post-create commands in the setup
/// window, one after the other, each with the token of its index.
pub open spec fn post_create_plan(spec: SessionSpec, tokens: Seq<Seq<char>>, n: nat) -> Seq<
    CommandModel,
>
    decreases n,
{
    if n == 0 {
        Seq::empty()
    } else {
        post_create_plan(spec, tokens, (n - 1) as nat) + blocking_plan(
            window_target(spec.session_name, SETUP_WINDOW_NAME@),
            spec.post_create[n - 1],
            tokens[n - 1],
        )
    }
}

/// The wait tokens of the first `count` indices of a session, all made at
/// the time `now`.
pub open spec fn batch_tokens(session: Seq<char>, count: nat, now: nat) -> Seq<Seq<char>> {
    Seq::new(count, |i: int| wait_token(session, i as nat, now))
}

/// A split is stacked where the layout is `main-horizontal`, and side by
/// side otherwise.
pub open spec fn split_direction(layout: Option<Seq<char>>) -> SplitDirection {
    if layout == Some("main-horizontal"@) {
        SplitDirection::Stacked
    } else {
        SplitDirection::SideBySide
    }
}

/// The command of a pane typed into the window, if the pane has one.
pub open spec fn keys_plan(target: Seq<char>, command: Option<Seq<char>>) -> Seq<CommandModel> {
    match command {
        Some(keys) => seq![CommandModel::SendKeys { target: target, keys: keys, enter: true }],
        None => Seq::empty(),
    }
}

/// The commands that make the panes of a window: the first pane is the one
/// that the window has, each later one comes from a split, and each gets its
/// command once it exists.
pub open spec fn panes_plan(
    target: Seq<char>,
    root: Seq<char>,
    direction: SplitDirection,
    panes: Seq<Option<Seq<char>>>,
) -> Seq<CommandModel>
    decreases panes.len(),
{
    if panes.len() == 0 {
        Seq::empty()
    } else if panes.len() == 1 {
        keys_plan(target, panes[0])
    } else {
        panes_plan(target, root, direction, panes.drop_last()) + seq![
            CommandModel::SplitWindow { target: target, cwd: root, direction: Some(direction) },
        ] + keys_plan(target, panes.last())
    }
}

pub open spec fn layout_plan(target: Seq<char>, layout: Option<Seq<char>>) -> Seq<CommandModel> {
    match layout {
        Some(name) => seq![CommandModel::SelectLayout { target: target, layout: name }],
        None => Seq::empty(),
    }
}

/// The commands that fill a window that exists. One that declares panes
/// gets its panes, then its layout if it names one, then its first pane is
/// selected. One that declares none gets its command, if it has one.
pub open spec fn window_plan(
    session: Seq<char>,
    window: WindowModel,
    root: Seq<char>,
    base_index: u32,
) -> Seq<CommandModel> {
    let target = window_target(session, window.name());
    match window {
        WindowModel::Complex { layout, panes, .. } => panes_plan(
            target,
            root,
            split_direction(layout),
            panes,
        ) + layout_plan(target, layout) + seq![
            CommandModel::SelectPane { target: pane_target(target, base_index as nat) },
        ],
        WindowModel::Simple { command, .. } => keys_plan(target, command),
    }
}

/// The commands that create and fill the windows after the first, up to the
/// `n`-th.
pub open spec fn later_windows_plan(spec: SessionSpec, root: Seq<char>, base_index: u32, n: nat)
    -> Seq<CommandModel>
    decreases n,
{
    if n <= 1 {
        Seq::empty()
    } else {
        later_windows_plan(spec, root, base_index, (n - 1) as nat) + seq![
            CommandModel::NewWindow {
                session: spec.session_name,
                name: spec.windows[n - 1].name(),
                cwd: root,
            },
        ] + window_plan(spec.session_name, spec.windows[n - 1], root, base_index)
    }
}

/// The name of the first window: the first declared one, or `shell`.
pub open spec fn first_window_name(spec: SessionSpec) -> Seq<char> {
    if spec.windows.len() > 0 {
        spec.windows[0].name()
    } else {
        DEFAULT_WINDOW_NAME@
    }
}

pub open spec fn first_window_plan(spec: SessionSpec, root: Seq<char>, base_index: u32) -> Seq<
    CommandModel,
> {
    if spec.windows.len() > 0 {
        window_plan(spec.session_name, spec.windows[0], root, base_index)
    } else {
        Seq::empty()
    }
}

/// The commands that lay out the windows: the setup window becomes the first
/// window and is filled, the others are created and filled in order, and the
/// first window is selected.
pub open spec fn windows_plan(spec: SessionSpec, root: Seq<char>, base_index: u32) -> Seq<
    CommandModel,
> {
    seq![
        CommandModel::RenameWindow {
            target: window_target(spec.session_name, SETUP_WINDOW_NAME@),
            name: first_window_name(spec),
        },
    ] + first_window_plan(spec, root, base_index) + later_windows_plan(
        spec,
        root,
        base_index,
        spec.windows.len(),
    ) + seq![
        CommandModel::SelectWindow {
            target: window_target(spec.session_name, first_window_name(spec)),
        },
    ]
}

/// The commands that run all post-create commands, with wait tokens made at
/// the time `now`.
pub open spec fn setup_plan(spec: SessionSpec, now: nat) -> Seq<CommandModel> {
    post_create_plan(
        spec,
        batch_tokens(spec.session_name, spec.post_create.len(), now),
        spec.post_create.len(),
    )
}

/// The whole plan: create the session, run the post-create commands, lay
/// out the windows.
pub open spec fn build_plan(spec: SessionSpec, root: Seq<char>, now: nat, base_index: u32) -> Seq<
    CommandModel,
> {
    create_plan(spec, root) + setup_plan(spec, now) + windows_plan(spec, root, base_index)
}

/// The commands that run `command` in the pane `target` and wait until it
/// has ended, with `token` as the name of the signal. For a blank command
/// there is nothing to send and nothing to wait for.
pub fn blocking_send(target: &str, command: &str, token: &str) -> (plan: Vec<ControlCommand>)
    ensures
        plan.deep_view() == blocking_plan(target@, command@, token@),
        is_blank(command@) ==> plan@.len() == 0,
{
    let mut plan: Vec<ControlCommand> = Vec::new();
    assert(plan.deep_view() =~= Seq::<CommandModel>::empty());
    let mut keys = trim(command);
    proof {
        lemma_trimmed_empty(command@);
    }
    if keys.as_str().unicode_len() == 0 {
        return plan;
    }
    keys.append("; tmux wait-for -S ");
    keys.append(token);
    push_command(
        &mut plan,
        ControlCommand::SendKeys { target: copy_text(target), keys: keys, enter: true },
    );
    push_command(&mut plan, ControlCommand::WaitFor { token: copy_text(token) });
    assert(plan.deep_view() =~= blocking_plan(target@, command@, token@));
    plan
}

fn keys_commands(target: &str, pane: &Pane) -> (plan: Vec<ControlCommand>)
    ensures
        plan.deep_view() == keys_plan(target@, pane.deep_view()),
{
    let mut plan: Vec<ControlCommand> = Vec::new();
    assert(plan.deep_view() =~= Seq::<CommandModel>::empty());
    match pane {
        Pane::Command(command) => {
            push_command(
                &mut plan,
                ControlCommand::SendKeys {
                    target: copy_text(target),
                    keys: copy_text(command.as_str()),
                    enter: true,
                },
            );
            assert(plan.deep_view() =~= keys_plan(target@, pane.deep_view()));
        },
        Pane::Empty => {},
    }
    plan
}

fn direction_of(layout: &Option<String>) -> (direction: SplitDirection)
    ensures
        direction == split_direction(layout.deep_view()),
{
    match layout {
        Some(name) => {
            if same_text(name.as_str(), "main-horizontal") {
                assert(layout.deep_view() =~= Some("main-horizontal"@));
                SplitDirection::Stacked
            } else {
                SplitDirection::SideBySide
            }
        },
        None => SplitDirection::SideBySide,
    }
}

fn panes_commands(target: &str, root: &str, direction: SplitDirection, panes: &Vec<Pane>) -> (plan:
    Vec<ControlCommand>)
    ensures
        plan.deep_view() == panes_plan(target@, root@, direction, panes.deep_view()),
{
    let mut plan: Vec<ControlCommand> = Vec::new();
    let ghost all = panes.deep_view();
    assert(plan.deep_view() =~= Seq::<CommandModel>::empty());
    assert(all.take(0) =~= Seq::<Option<Seq<char>>>::empty());
    let mut i: usize = 0;
    while i < panes.len()
        invariant
            i <= panes.len(),
            all == panes.deep_view(),
            plan.deep_view() == panes_plan(target@, root@, direction, all.take(i as int)),
        decreases panes.len() - i,
    {
        proof {
            assert(all.take(i + 1).drop_last() =~= all.take(i as int));
            assert(all.take(i + 1).last() == panes@[i as int].deep_view());
            assert(all.take(i + 1)[0] == all[0]);
        }
        if i > 0 {
            push_command(
                &mut plan,
                ControlCommand::SplitWindow {
                    target: copy_text(target),
                    cwd: copy_text(root),
                    direction: Some(direction),
                },
            );
        }
        extend_plan(&mut plan, keys_commands(target, &panes[i]));
        proof {
            if i == 0 {
                assert(plan.deep_view() =~= keys_plan(target@, all[0]));
            } else {
                assert(plan.deep_view() =~= panes_plan(target@, root@, direction, all.take(i as int))
                    + seq![
                    CommandModel::SplitWindow {
                        target: target@,
                        cwd: root@,
                        direction: Some(direction),
                    },
                ] + keys_plan(target@, all.take(i + 1).last()));
            }
        }
        i += 1;
    }
    assert(all.take(i as int) =~= all);
    plan
}

/// The commands that fill the window of a session that `window` declares.
pub fn window_commands(session: &str, window: &Window, root: &str, base_index: u32) -> (plan: Vec<
    ControlCommand,
>)
    ensures
        plan.deep_view() == window_plan(session@, window.deep_view(), root@, base_index),
{
    match window {
        Window::Complex { name, config } => {
            let target = make_window_target(session, name.as_str());
            let mut plan = panes_commands(
                target.as_str(),
                root,
                direction_of(&config.layout),
                &config.panes,
            );
            match &config.layout {
                Some(layout) => {
                    push_command(
                        &mut plan,
                        ControlCommand::SelectLayout {
                            target: copy_text(target.as_str()),
                            layout: copy_text(layout.as_str()),
                        },
                    );
                },
                None => {},
            }
            push_command(
                &mut plan,
                ControlCommand::SelectPane {
                    target: make_pane_target(target.as_str(), base_index),
                },
            );
            assert(plan.deep_view() =~= window_plan(
                session@,
                window.deep_view(),
                root@,
                base_index,
            ));
            plan
        },
        Window::Simple { name, command } => {
            let target = make_window_target(session, name.as_str());
            let mut plan: Vec<ControlCommand> = Vec::new();
            assert(plan.deep_view() =~= Seq::<CommandModel>::empty());
            match command {
                Some(keys) => {
                    push_command(
                        &mut plan,
                        ControlCommand::SendKeys {
                            target: target,
                            keys: copy_text(keys.as_str()),
                            enter: true,
                        },
                    );
                    assert(plan.deep_view() =~= window_plan(
                        session@,
                        window.deep_view(),
                        root@,
                        base_index,
                    ));
                },
                None => {},
            }
            plan
        },
    }
}

impl SessionBuilder {
    /// The builder of a project's main session.
    pub fn new(project: &Project) -> (builder: SessionBuilder)
        ensures
            builder.deep_view() == (SessionSpec {
                session_name: project.name@,
                root: project.root@,
                windows: project.windows.deep_view(),
                project_name: project.name@,
                worktree_branch: None,
                post_create: post_create_of(project.deep_view()),
            }),
    {
        let post_create_commands = match &project.worktree {
            Some(worktree) => copy_texts(&worktree.post_create),
            None => {
                let none: Vec<String> = Vec::new();
                assert(none.deep_view() =~= Seq::<Seq<char>>::empty());
                none
            },
        };
        SessionBuilder {
            session_name: copy_text(project.name.as_str()),
            root: copy_text(project.root.as_str()),
            windows: copy_windows(&project.windows),
            project_name: copy_text(project.name.as_str()),
            worktree_branch: None,
            post_create_commands,
        }
    }

    pub fn with_session_name(self, name: String) -> (builder: SessionBuilder)
        ensures
            builder.deep_view() == (SessionSpec { session_name: name@, ..self.deep_view() }),
    {
        let mut builder = self;
        builder.session_name = name;
        builder
    }

    pub fn with_root(self, root: String) -> (builder: SessionBuilder)
        ensures
            builder.deep_view() == (SessionSpec { root: root@, ..self.deep_view() }),
    {
        let mut builder = self;
        builder.root = root;
        builder
    }

    pub fn with_worktree(self, branch: String) -> (builder: SessionBuilder)
        ensures
            builder.deep_view() == (SessionSpec {
                worktree_branch: Some(branch@),
                ..self.deep_view()
            }),
    {
        let mut builder = self;
        builder.worktree_branch = Some(branch);
        builder
    }

    /// The commands that create the session in the directory `root`.
    pub fn create_session_commands(&self, root: &str) -> (plan: Vec<ControlCommand>)
        ensures
            plan.deep_view() == create_plan(self.deep_view(), root@),
    {
        let mut env: Vec<(String, String)> = Vec::new();
        env.push((copy_text("TWIG_PROJECT"), copy_text(self.project_name.as_str())));
        match &self.worktree_branch {
            Some(branch) => {
                env.push((copy_text("TWIG_WORKTREE"), copy_text(branch.as_str())));
            },
            None => {},
        }
        assert(env.deep_view() =~= session_env(self.deep_view()));
        let mut plan: Vec<ControlCommand> = Vec::new();
        assert(plan.deep_view() =~= Seq::<CommandModel>::empty());
        push_command(
            &mut plan,
            ControlCommand::NewSession {
                name: copy_text(self.session_name.as_str()),
                window: copy_text(SETUP_WINDOW_NAME),
                cwd: copy_text(root),
                env: env,
            },
        );
        push_command(
            &mut plan,
            ControlCommand::SetEnvironment {
                session: copy_text(self.session_name.as_str()),
                name: copy_text("TWIG_PROJECT"),
                value: copy_text(self.project_name.as_str()),
            },
        );
        match &self.worktree_branch {
            Some(branch) => {
                push_command(
                    &mut plan,
                    ControlCommand::SetEnvironment {
                        session: copy_text(self.session_name.as_str()),
                        name: copy_text("TWIG_WORKTREE"),
                        value: copy_text(branch.as_str()),
                    },
                );
            },
            None => {},
        }
        assert(plan.deep_view() =~= create_plan(self.deep_view(), root@));
        plan
    }

    /// The commands that create the session in its root directory, with a
    /// leading `~` expanded.
    pub fn create_session_with_control(&self) -> (plan: Vec<ControlCommand>)
        ensures
            exists|root: Seq<char>|
                tilde_expansion(self.root@, root) && plan.deep_view() == #[trigger] create_plan(
                    self.deep_view(),
                    root,
                ),
    {
        let root = expand_tilde(self.root.as_str());
        let plan = self.create_session_commands(root.as_str());
        assert(tilde_expansion(self.root@, root@) && plan.deep_view() == create_plan(
            self.deep_view(),
            root@,
        ));
        plan
    }

    /// The commands that run the post-create commands in the setup window,
    /// each to its end before the next, with wait tokens made at the time
    /// `now`. Blank commands are passed over.
    pub fn post_create_commands(&self, now: u128) -> (plan: Vec<ControlCommand>)
        ensures
            plan.deep_view() == setup_plan(self.deep_view(), now as nat),
    {
        let target = make_window_target(self.session_name.as_str(), SETUP_WINDOW_NAME);
        let ghost spec = self.deep_view();
        let ghost tokens = batch_tokens(spec.session_name, spec.post_create.len(), now as nat);
        let mut plan: Vec<ControlCommand> = Vec::new();
        assert(plan.deep_view() =~= Seq::<CommandModel>::empty());
        assert(spec.post_create.len() == self.post_create_commands.len());
        let mut i: usize = 0;
        while i < self.post_create_commands.len()
            invariant
                i <= self.post_create_commands.len(),
                spec == self.deep_view(),
                spec.post_create.len() == self.post_create_commands.len(),
                tokens == batch_tokens(spec.session_name, spec.post_create.len(), now as nat),
                target@ == window_target(self.session_name@, SETUP_WINDOW_NAME@),
                plan.deep_view() == post_create_plan(spec, tokens, i as nat),
            decreases self.post_create_commands.len() - i,
        {
            let token = wait_token_at(self.session_name.as_str(), i, now);
            assert(tokens[i as int] == token@);
            assert(spec.post_create[i as int] == self.post_create_commands@[i as int]@);
            let step = blocking_send(
                target.as_str(),
                self.post_create_commands[i].as_str(),
                token.as_str(),
            );
            extend_plan(&mut plan, step);
            i += 1;
        }
        plan
    }

    /// The commands that run the post-create commands, with wait tokens
    /// made now.
    pub fn run_post_create_with_control(&self) -> (plan: Vec<ControlCommand>)
        ensures
            exists|now: nat| plan.deep_view() == #[trigger] setup_plan(self.deep_view(), now),
    {
        let now = unique_nonce();
        let plan = self.post_create_commands(now);
        assert(plan.deep_view() == setup_plan(self.deep_view(), now as nat));
        plan
    }

    /// The commands that lay out the windows in the directory `root`, where
    /// the first pane of a window has the index `base_index`.
    pub fn setup_windows_commands(&self, root: &str, base_index: u32) -> (plan: Vec<
        ControlCommand,
    >)
        ensures
            plan.deep_view() == windows_plan(self.deep_view(), root@, base_index),
    {
        let ghost spec = self.deep_view();
        let first_name = if self.windows.len() > 0 {
            assert(spec.windows[0] == self.windows@[0].deep_view());
            self.windows[0].name()
        } else {
            copy_text(DEFAULT_WINDOW_NAME)
        };
        let mut plan: Vec<ControlCommand> = Vec::new();
        assert(plan.deep_view() =~= Seq::<CommandModel>::empty());
        push_command(
            &mut plan,
            ControlCommand::RenameWindow {
                target: make_window_target(self.session_name.as_str(), SETUP_WINDOW_NAME),
                name: copy_text(first_name.as_str()),
            },
        );
        if self.windows.len() > 0 {
            extend_plan(
                &mut plan,
                window_commands(self.session_name.as_str(), &self.windows[0], root, base_index),
            );
        }
        let ghost head = plan.deep_view();
        assert(head =~= seq![
            CommandModel::RenameWindow {
                target: window_target(spec.session_name, SETUP_WINDOW_NAME@),
                name: first_window_name(spec),
            },
        ] + first_window_plan(spec, root@, base_index));
        let mut i: usize = 1;
        assert(plan.deep_view() =~= head + later_windows_plan(spec, root@, base_index, 1));
        while i < self.windows.len()
            invariant
                1 <= i,
                self.windows.len() > 0 ==> i <= self.windows.len(),
                self.windows.len() == 0 ==> i == 1,
                spec == self.deep_view(),
                plan.deep_view() == head + later_windows_plan(spec, root@, base_index, i as nat),
            decreases self.windows.len() - i,
        {
            assert(spec.windows[i as int] == self.windows@[i as int].deep_view());
            push_command(
                &mut plan,
                ControlCommand::NewWindow {
                    session: copy_text(self.session_name.as_str()),
                    name: self.windows[i].name(),
                    cwd: copy_text(root),
                },
            );
            extend_plan(
                &mut plan,
                window_commands(self.session_name.as_str(), &self.windows[i], root, base_index),
            );
            i += 1;
            assert(plan.deep_view() =~= head + later_windows_plan(
                spec,
                root@,
                base_index,
                i as nat,
            ));
        }
        assert(spec.windows.len() == self.windows.len());
        assert(later_windows_plan(spec, root@, base_index, 0) =~= later_windows_plan(
            spec,
            root@,
            base_index,
            1,
        ));
        assert(later_windows_plan(spec, root@, base_index, i as nat) == later_windows_plan(
            spec,
            root@,
            base_index,
            spec.windows.len(),
        ));
        push_command(
            &mut plan,
            ControlCommand::SelectWindow {
                target: make_window_target(self.session_name.as_str(), first_name.as_str()),
            },
        );
        assert(plan.deep_view() =~= windows_plan(spec, root@, base_index));
        plan
    }

    /// The commands that lay out the windows in the session's root
    /// directory, with a leading `~` expanded.
    pub fn setup_windows_with_control(&self, base_index: u32) -> (plan: Vec<ControlCommand>)
        ensures
            exists|root: Seq<char>|
                tilde_expansion(self.root@, root) && plan.deep_view() == #[trigger] windows_plan(
                    self.deep_view(),
                    root,
                    base_index,
                ),
    {
        let root = expand_tilde(self.root.as_str());
        let plan = self.setup_windows_commands(root.as_str(), base_index);
        assert(tilde_expansion(self.root@, root@) && plan.deep_view() == windows_plan(
            self.deep_view(),
            root@,
            base_index,
        ));
        plan
    }

    /// The whole plan for the directory `root`, with wait tokens made at
    /// the time `now`: the three steps, one after the other.
    pub fn build_commands(&self, root: &str, now: u128, base_index: u32) -> (plan: Vec<
        ControlCommand,
    >)
        ensures
            plan.deep_view() == build_plan(self.deep_view(), root@, now as nat, base_index),
    {
        let mut plan = self.create_session_commands(root);
        extend_plan(&mut plan, self.post_create_commands(now));
        extend_plan(&mut plan, self.setup_windows_commands(root, base_index));
        plan
    }

    /// The whole plan that builds the session: it is created, the
    /// post-create commands run to their end in order, and the windows are
    /// laid out.
    pub fn start_with_control(&self, base_index: u32) -> (plan: Vec<ControlCommand>)
        ensures
            exists|root: Seq<char>, now: nat|
                {
                    &&& tilde_expansion(self.root@, root)
                    &&& plan.deep_view() == #[trigger] build_plan(
                        self.deep_view(),
                        root,
                        now,
                        base_index,
                    )
                },
    {
        let root = expand_tilde(self.root.as_str());
        let now = unique_nonce();
        let plan = self.build_commands(root.as_str(), now, base_index);
        assert(tilde_expansion(self.root@, root@) && plan.deep_view() == build_plan(
            self.deep_view(),
            root@,
            now as nat,
            base_index,
        ));
        plan
    }
}

/// The state of the run of a plan: the commands, how many were sent and
/// answered, and the failure that ended the run.
pub struct RunState {
    pub plan: Seq<CommandModel>,
    pub done: int,
    pub failure: Option<Fault>,
}

/// The command that a run sends next: the first that was not sent yet, and
/// none after a failure or at the end of the plan.
pub open spec fn run_action(st: RunState) -> Option<CommandModel> {
    if st.failure is None && 0 <= st.done < st.plan.len() {
        Some(st.plan[st.done])
    } else {
        None
    }
}

/// The state after the reply to the command that was sent: on to the next
/// command, or ended by the failure.
pub open spec fn run_handle(st: RunState, reply: ReplyModel) -> RunState {
    if run_action(st) is None {
        st
    } else {
        match reply {
            Ok(_) => RunState { done: st.done + 1, ..st },
            Err(fault) => RunState { failure: Some(fault), ..st },
        }
    }
}

/// How a run ended: with the failure of the command that failed, or well
/// when every command was answered; nothing while it is under way.
pub open spec fn run_outcome(st: RunState) -> Option<Result<(), Fault>> {
    match st.failure {
        Some(fault) => Some(Err(fault)),
        None => if 0 <= st.done < st.plan.len() {
            None
        } else {
            Some(Ok(()))
        },
    }
}

/// The run of a plan on one connection. It does no I/O: a caller sends the
/// command that `action` gives, hands the reply to `handle`, and goes on
/// until `action` gives none. The first command that fails ends the run;
/// what was built until then is left as it is.
pub struct SessionRun {
    plan: Vec<ControlCommand>,
    done: usize,
    failure: Option<ControlError>,
}

impl View for SessionRun {
    type V = RunState;

    closed spec fn view(&self) -> RunState {
        RunState {
            plan: self.plan.deep_view(),
            done: self.done as int,
            failure: match self.failure {
                Some(e) => Some(e@),
                None => None,
            },
        }
    }
}

impl SessionRun {
    pub fn new(plan: Vec<ControlCommand>) -> (run: SessionRun)
        ensures
            run@ == (RunState { plan: plan.deep_view(), done: 0, failure: None }),
    {
        SessionRun { plan: plan, done: 0, failure: None }
    }

    /// The command to send next.
    pub fn action(&self) -> (r: Option<&ControlCommand>)
        ensures
            r.deep_view() == run_action(self@),
    {
        assert(self.plan.deep_view().len() == self.plan.len());
        if self.failure.is_none() && self.done < self.plan.len() {
            assert(self.plan.deep_view()[self.done as int] == self.plan@[self.done as int]@);
            Some(&self.plan[self.done])
        } else {
            None
        }
    }

    /// Takes the reply to the command that `action` gave.
    pub fn handle(&mut self, reply: Reply)
        ensures
            final(self)@ == run_handle(old(self)@, reply_model(reply)),
    {
        assert(self.plan.deep_view().len() == self.plan.len());
        if self.failure.is_none() && self.done < self.plan.len() {
            match reply {
                Ok(_) => {
                    self.done = self.done + 1;
                },
                Err(e) => {
                    self.failure = Some(e);
                },
            }
        }
    }

    /// How the run ended, once it has.
    pub fn outcome(&self) -> (r: Option<Result<(), ControlError>>)
        ensures
            match run_outcome(self@) {
                Some(Ok(_)) => r == Some::<Result<(), ControlError>>(Ok(())),
                Some(Err(fault)) => r is Some && r->0 is Err && r->0->Err_0@ == fault,
                None => r is None,
            },
    {
        assert(self.plan.deep_view().len() == self.plan.len());
        match &self.failure {
            Some(e) => Some(Err(e.duplicate())),
            None => if self.done < self.plan.len() {
                None
            } else {
                Some(Ok(()))
            },
        }
    }
}

/// A run sends the commands of its plan in order and one at a time, and none
/// after the one that failed: a step leaves the plan as it is, moves on by
/// one command at most, and after a failure nothing is sent.
pub proof fn lemma_run_in_order(st: RunState, reply: ReplyModel)
    ensures
        run_handle(st, reply).plan == st.plan,
        run_action(st) is Some && reply is Ok ==> run_handle(st, reply).done == st.done + 1,
        run_action(st) is Some && reply is Err ==> run_action(run_handle(st, reply)) is None
            && run_outcome(run_handle(st, reply)) == Some(Err::<(), Fault>(reply->Err_0)),
        run_action(st) is None <==> run_outcome(st) is Some,
{
}

/// How long the end of a session is waited for, in milliseconds.
pub const KILL_TIMEOUT_MILLIS: u64 = 30000;

/// How long to sleep before asking again whether a session still exists, in
/// milliseconds.
pub const KILL_POLL_MILLIS: u64 = 200;

/// What to do after asking whether a session that was told to stop exists.
#[derive(Clone, Copy, PartialEq, Eq, Structural, Debug)]
pub enum KillPoll {
    /// The session is gone.
    Stopped,
    /// The session is still there after the time allowed.
    TimedOut,
    /// Sleep for `KILL_POLL_MILLIS` and ask again.
    Wait,
}

/// A session that is gone has stopped; one that is still there when the
/// time allowed has passed has not, and the wait ends; else the wait goes on.
pub open spec fn kill_poll_of(still_there: bool, elapsed_millis: nat, timeout_millis: nat)
    -> KillPoll {
    if !still_there {
        KillPoll::Stopped
    } else if elapsed_millis >= timeout_millis {
        KillPoll::TimedOut
    } else {
        KillPoll::Wait
    }
}

/// The command that stops a session. The session is gone only when it no
/// longer exists: see `kill_poll`.
pub fn kill_session(name: &str) -> (command: ControlCommand)
    ensures
        command@ == (CommandModel::KillSession { name: name@ }),
{
    ControlCommand::KillSession { name: copy_text(name) }
}

/// What to do when a session that was told to stop does or does not exist
/// still, `elapsed_millis` after it was told.
pub fn kill_poll(still_there: bool, elapsed_millis: u128, timeout_millis: u64) -> (r: KillPoll)
    ensures
        r == kill_poll_of(still_there, elapsed_millis as nat, timeout_millis as nat),
{
    let timeout: u128 = timeout_millis as u128;
    if !still_there {
        KillPoll::Stopped
    } else if elapsed_millis >= timeout {
        KillPoll::TimedOut
    } else {
        KillPoll::Wait
    }
}

/// The message that reports that a session did not stop in time.
pub fn kill_timeout_message(name: &str) -> (out: String)
    ensures
        out@ == "Timed out waiting for session '"@ + name@ + "' to stop"@,
{
    let mut out = copy_text("Timed out waiting for session '");
    out.append(name);
    out.append("' to stop");
    out
}

/// What to do before a session is stopped so that the client is not left
/// inside it.
#[derive(Debug, Clone, PartialEq, Eq)]
pub enum KillPreparation {
    /// The client is not in that session: nothing.
    Nothing,
    /// Switch the client to that other session.
    SwitchTo(String),
    /// There is no other session: detach the client.
    Detach,
}

pub enum KillPreparationModel {
    Nothing,
    SwitchTo(Seq<char>),
    Detach,
}

impl DeepView for KillPreparation {
    type V = KillPreparationModel;

    open spec fn deep_view(&self) -> KillPreparationModel {
        match self {
            KillPreparation::Nothing => KillPreparationModel::Nothing,
            KillPreparation::SwitchTo(name) => KillPreparationModel::SwitchTo(name@),
            KillPreparation::Detach => KillPreparationModel::Detach,
        }
    }
}

/// `i` is the place of the first session with another name than `name`.
pub open spec fn is_first_other(sessions: Seq<Seq<char>>, name: Seq<char>, i: int) -> bool {
    &&& 0 <= i < sessions.len()
    &&& sessions[i] != name
    &&& forall|k: int| 0 <= k < i ==> #[trigger] sessions[k] == name
}

/// What to do before the session `name` is stopped, where the client is in
/// the session `current`, if in any, and `sessions` are running: where the
/// client is in that very session, it is switched to the first other
/// session, or detached if there is none.
pub fn safe_kill_session(name: &str, current: Option<&str>, sessions: &Vec<String>) -> (r:
    KillPreparation)
    ensures
        current.deep_view() != Some(name@) ==> r.deep_view() is Nothing,
        current.deep_view() == Some(name@) ==> match r.deep_view() {
            KillPreparationModel::SwitchTo(other) => exists|i: int|
                is_first_other(sessions.deep_view(), name@, i) && sessions.deep_view()[i] == other,
            KillPreparationModel::Detach => forall|i: int|
                0 <= i < sessions.len() ==> #[trigger] sessions.deep_view()[i] == name@,
            KillPreparationModel::Nothing => false,
        },
{
    match current {
        Some(session) => {
            assert(current.deep_view() == Some(session@));
            if !same_text(session, name) {
                return KillPreparation::Nothing;
            }
            let mut i: usize = 0;
            while i < sessions.len()
                invariant
                    i <= sessions.len(),
                    current.deep_view() == Some(name@),
                    forall|k: int| 0 <= k < i ==> #[trigger] sessions.deep_view()[k] == name@,
                decreases sessions.len() - i,
            {
                assert(sessions.deep_view()[i as int] == sessions@[i as int]@);
                if !same_text(sessions[i].as_str(), name) {
                    assert(is_first_other(sessions.deep_view(), name@, i as int));
                    return KillPreparation::SwitchTo(copy_text(sessions[i].as_str()));
                }
                i += 1;
            }
            KillPreparation::Detach
        },
        None => KillPreparation::Nothing,
    }
}

/// The arguments of the multiplexer call that brings the client to a
/// session: a switch from inside the multiplexer, an attach from outside.
pub fn connect_to_session(name: &str, inside_tmux: bool) -> (args: Vec<String>)
    ensures
        args.deep_view() == seq![
            if inside_tmux {
                "switch-client"@
            } else {
                "attach-session"@
            },
            "-t"@,
            name@,
        ],
{
    let mut args: Vec<String> = Vec::new();
    if inside_tmux {
        args.push(copy_text("switch-client"));
    } else {
        args.push(copy_text("attach-session"));
    }
    args.push(copy_text("-t"));
    args.push(copy_text(name));
    assert(args.deep_view() =~= seq![
        if inside_tmux {
            "switch-client"@
        } else {
            "attach-session"@
        },
        "-t"@,
        name@,
    ]);
    args
}

/// The names of the running sessions, from what the multiplexer prints for
/// `list-sessions -F #{session_name}`: one name on each line.
pub fn list_sessions(output: &str) -> (sessions: Vec<String>)
    ensures
        sessions.deep_view() == lines_of(output@),
{
    text_lines(output)
}

/// The index of the first pane of a window, from what the multiplexer
/// prints for the option `base-index`: the number, or zero where the output
/// is no number.
pub open spec fn base_index_of(output: Seq<char>) -> u32 {
    match parse_unsigned(trimmed(output), u32::MAX as nat) {
        Some(index) => index as u32,
        None => 0,
    }
}

/// The index of the first pane of a window, from the value of `base-index`.
pub fn get_base_index(output: &str) -> (index: u32)
    ensures
        index == base_index_of(output@),
{
    let v = to_chars(output);
    let (start, end) = trim_bounds(&v);
    match parse_number(&v, start, end, 0xffff_ffff) {
        Some(index) => index as u32,
        None => 0,
    }
}

/// The arguments with which the multiplexer is started in control mode, on
/// the server of that name if one is given.
pub fn connect_args(server: Option<&str>) -> (args: Vec<String>)
    ensures
        args.deep_view() == match server.deep_view() {
            Some(name) => seq!["-L"@, name, "-C"@],
            None => seq!["-C"@],
        },
{
    let mut args: Vec<String> = Vec::new();
    match server {
        Some(name) => {
            args.push(copy_text("-L"));
            args.push(copy_text(name));
            args.push(copy_text("-C"));
            assert(args.deep_view() =~= seq!["-L"@, name@, "-C"@]);
        },
        None => {
            args.push(copy_text("-C"));
            assert(args.deep_view() =~= seq!["-C"@]);
        },
    }
    args
}

/// The arguments with which the multiplexer is started in control mode on
/// the server behind that socket.
pub fn socket_connect_args(socket_path: &str) -> (args: Vec<String>)
    ensures
        args.deep_view() == seq!["-S"@, socket_path@, "-C"@],
{
    let mut args: Vec<String> = Vec::new();
    args.push(copy_text("-S"));
    args.push(copy_text(socket_path));
    args.push(copy_text("-C"));
    assert(args.deep_view() =~= seq!["-S"@, socket_path@, "-C"@]);
    args
}

/// How many of the commands split a window.
pub open spec fn split_count(plan: Seq<CommandModel>) -> nat
    decreases plan.len(),
{
    if plan.len() == 0 {
        0
    } else {
        split_count(plan.drop_last()) + if plan.last() is SplitWindow {
            1nat
        } else {
            0nat
        }
    }
}

/// How many of the commands type keys.
pub open spec fn keys_count(plan: Seq<CommandModel>) -> nat
    decreases plan.len(),
{
    if plan.len() == 0 {
        0
    } else {
        keys_count(plan.drop_last()) + if plan.last() is SendKeys {
            1nat
        } else {
            0nat
        }
    }
}

/// How many of the panes have a command.
pub open spec fn commands_count(panes: Seq<Option<Seq<char>>>) -> nat
    decreases panes.len(),
{
    if panes.len() == 0 {
        0
    } else {
        commands_count(panes.drop_last()) + if panes.last() is Some {
            1nat
        } else {
            0nat
        }
    }
}

proof fn lemma_counts_add(a: Seq<CommandModel>, b: Seq<CommandModel>)
    ensures
        split_count(a + b) == split_count(a) + split_count(b),
        keys_count(a + b) == keys_count(a) + keys_count(b),
    decreases b.len(),
{
    if b.len() == 0 {
        assert(a + b =~= a);
    } else {
        assert((a + b).drop_last() =~= a + b.drop_last());
        lemma_counts_add(a, b.drop_last());
    }
}

proof fn lemma_counts_one(command: CommandModel)
    ensures
        split_count(seq![command]) == if command is SplitWindow {
            1nat
        } else {
            0nat
        },
        keys_count(seq![command]) == if command is SendKeys {
            1nat
        } else {
            0nat
        },
{
    let none = Seq::<CommandModel>::empty();
    assert(seq![command].drop_last() =~= none);
    assert(split_count(none) == 0);
    assert(keys_count(none) == 0);
    assert(seq![command].last() == command);
}

/// The panes of a window take one split for each pane after the first, one
/// typing of keys for each pane that has a command, and nothing else.
pub proof fn lemma_panes_plan_counts(
    target: Seq<char>,
    root: Seq<char>,
    direction: SplitDirection,
    panes: Seq<Option<Seq<char>>>,
)
    ensures
        split_count(panes_plan(target, root, direction, panes)) == if panes.len() == 0 {
            0
        } else {
            panes.len() - 1
        },
        keys_count(panes_plan(target, root, direction, panes)) == commands_count(panes),
        panes_plan(target, root, direction, panes).len() == split_count(
            panes_plan(target, root, direction, panes),
        ) + keys_count(panes_plan(target, root, direction, panes)),
    decreases panes.len(),
{
    if panes.len() == 1 {
        assert(panes.drop_last() =~= Seq::<Option<Seq<char>>>::empty());
        assert(commands_count(panes.drop_last()) == 0);
        match panes[0] {
            Some(keys) => {
                lemma_counts_one(
                    CommandModel::SendKeys { target: target, keys: keys, enter: true },
                );
            },
            None => {},
        }
    } else if panes.len() > 1 {
        let before = panes_plan(target, root, direction, panes.drop_last());
        let split = CommandModel::SplitWindow {
            target: target,
            cwd: root,
            direction: Some(direction),
        };
        lemma_panes_plan_counts(target, root, direction, panes.drop_last());
        lemma_counts_one(split);
        lemma_counts_add(before, seq![split]);
        lemma_counts_add(before + seq![split], keys_plan(target, panes.last()));
        match panes.last() {
            Some(keys) => {
                lemma_counts_one(
                    CommandModel::SendKeys { target: target, keys: keys, enter: true },
                );
            },
            None => {},
        }
    }
}

/// A window that declares panes is laid out by one split for each pane
/// after the first; its layout, if it names one, is selected once, when all
/// its panes exist; and the first pane is selected last.
pub proof fn lemma_window_plan_shape(
    session: Seq<char>,
    window: WindowModel,
    root: Seq<char>,
    base_index: u32,
)
    requires
        window is Complex,
    ensures
        ({
            let target = window_target(session, window.name());
            let panes = panes_plan(target, root, split_direction(window.layout()), window.panes());
            let plan = window_plan(session, window, root, base_index);
            &&& split_count(plan) == if window.panes().len() == 0 {
                0
            } else {
                window.panes().len() - 1
            }
            &&& keys_count(plan) == commands_count(window.panes())
            &&& plan.len() == panes.len() + (if window.layout() is Some {
                2int
            } else {
                1int
            })
            &&& plan.take(panes.len() as int) == panes
            &&& window.layout() is Some ==> plan[panes.len() as int] == (
            CommandModel::SelectLayout { target: target, layout: window.layout()->0 })
            &&& plan.last() == (CommandModel::SelectPane {
                target: pane_target(target, base_index as nat),
            })
        }),
{
    let target = window_target(session, window.name());
    let panes = panes_plan(target, root, split_direction(window.layout()), window.panes());
    let layout = layout_plan(target, window.layout());
    let select = CommandModel::SelectPane { target: pane_target(target, base_index as nat) };
    let plan = window_plan(session, window, root, base_index);
    lemma_panes_plan_counts(target, root, split_direction(window.layout()), window.panes());
    lemma_counts_add(panes, layout);
    lemma_counts_add(panes + layout, seq![select]);
    lemma_counts_one(select);
    match window.layout() {
        Some(name) => {
            lemma_counts_one(CommandModel::SelectLayout { target: target, layout: name });
        },
        None => {},
    }
    assert(plan.take(panes.len() as int) =~= panes);
}

/// A window with no pane and no command of its own is left idle: no keys
/// are typed into it.
pub proof fn lemma_idle_window_gets_no_keys(
    session: Seq<char>,
    window: WindowModel,
    root: Seq<char>,
    base_index: u32,
)
    requires
        window.panes().len() == 0,
        window.simple_command() is None,
    ensures
        keys_count(window_plan(session, window, root, base_index)) == 0,
        forall|i: int|
            0 <= i < window_plan(session, window, root, base_index).len() ==> !(
            #[trigger] window_plan(session, window, root, base_index)[i] is SendKeys),
{
    if window is Complex {
        lemma_window_plan_shape(session, window, root, base_index);
        let target = window_target(session, window.name());
        assert(panes_plan(target, root, split_direction(window.layout()), window.panes()).len()
            == 0);
    }
}

/// The commands that run the post-create commands type keys and wait, and
/// do nothing else: they make, name, split and select no window, so that
/// the windows come out the same whether those commands run on the
/// connection or elsewhere.
pub proof fn lemma_setup_plan_types_and_waits(spec: SessionSpec, tokens: Seq<Seq<char>>, n: nat)
    ensures
        forall|i: int|
            0 <= i < post_create_plan(spec, tokens, n).len() ==> (#[trigger] post_create_plan(
                spec,
                tokens,
                n,
            )[i]) is SendKeys || post_create_plan(spec, tokens, n)[i] is WaitFor,
    decreases n,
{
    if n > 0 {
        lemma_setup_plan_types_and_waits(spec, tokens, (n - 1) as nat);
    }
}

/// Where every post-create command is blank, nothing is sent for them: no
/// keys and no wait.
pub proof fn lemma_blank_commands_send_nothing(spec: SessionSpec, tokens: Seq<Seq<char>>, n: nat)
    requires
        n <= spec.post_create.len(),
        forall|i: int| 0 <= i < n ==> is_blank(#[trigger] spec.post_create[i]),
    ensures
        post_create_plan(spec, tokens, n).len() == 0,
    decreases n,
{
    if n > 0 {
        lemma_blank_commands_send_nothing(spec, tokens, (n - 1) as nat);
        assert(is_blank(spec.post_create[n - 1]));
    }
}

} // verus!
