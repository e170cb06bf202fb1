//! The windows that a session has after a plan was carried out, as the
//! multiplexer lists them by name; and the proof that a built session has
//! the declared windows, in the declared order, and no other.

use crate::command::CommandModel;
use crate::tmux::{
    blocking_plan, build_plan, create_plan, first_window_name, first_window_plan, keys_plan,
    later_windows_plan, layout_plan, panes_plan, post_create_plan, setup_plan, window_plan,
    window_target, windows_plan, SessionSpec, DEFAULT_WINDOW_NAME, SETUP_WINDOW_NAME,
};
use crate::config::WindowModel;
use vstd::prelude::*;

verus! {

/// The place of the first of the windows that `target` names in the
/// session.
pub open spec fn named_window(names: Seq<Seq<char>>, session: Seq<char>, target: Seq<char>)
    -> Option<int>
    decreases names.len(),
{
    if names.len() == 0 {
        None
    } else if window_target(session, names[0]) == target {
        Some(0)
    } else {
        match named_window(names.skip(1), session, target) {
            Some(i) => Some(i + 1),
            None => None,
        }
    }
}

/// The names of the session's windows after one command: a new session has
/// its one window, a new window comes last, a renamed window keeps its
/// place, and no other command makes, names or removes a window.
pub open spec fn names_after_command(
    names: Seq<Seq<char>>,
    session: Seq<char>,
    command: CommandModel,
) -> Seq<Seq<char>> {
    match command {
        CommandModel::NewSession { name, window, .. } => if name == session {
            seq![window]
        } else {
            names
        },
        CommandModel::NewWindow { session: of, name, .. } => if of == session {
            names.push(name)
        } else {
            names
        },
        CommandModel::RenameWindow { target, name } => match named_window(names, session, target) {
            Some(i) => names.update(i, name),
            None => names,
        },
        _ => names,
    }
}

/// The names of the session's windows after the commands of a plan.
pub open spec fn names_after(names: Seq<Seq<char>>, session: Seq<char>, plan: Seq<CommandModel>)
    -> Seq<Seq<char>>
    decreases plan.len(),
{
    if plan.len() == 0 {
        names
    } else {
        names_after_command(names_after(names, session, plan.drop_last()), session, plan.last())
    }
}

/// The command makes, names and removes no window.
pub open spec fn keeps_windows(command: CommandModel) -> bool {
    !(command is NewSession || command is NewWindow || command is RenameWindow)
}

pub open spec fn all_keep_windows(plan: Seq<CommandModel>) -> bool {
    forall|i: int| 0 <= i < plan.len() ==> keeps_windows(#[trigger] plan[i])
}

/// The names that a session declares for its windows: `shell` alone where
/// it declares none.
pub open spec fn declared_names(spec: SessionSpec) -> Seq<Seq<char>> {
    if spec.windows.len() == 0 {
        seq![DEFAULT_WINDOW_NAME@]
    } else {
        spec.windows.map_values(|w: WindowModel| w.name())
    }
}

proof fn lemma_names_after_add(
    names: Seq<Seq<char>>,
    session: Seq<char>,
    a: Seq<CommandModel>,
    b: Seq<CommandModel>,
)
    ensures
        names_after(names, session, a + b) == names_after(names_after(names, session, a), session, b),
    decreases b.len(),
{
    if b.len() == 0 {
        assert(a + b =~= a);
    } else {
        assert((a + b).drop_last() =~= a + b.drop_last());
        lemma_names_after_add(names, session, a, b.drop_last());
    }
}

proof fn lemma_names_after_one(names: Seq<Seq<char>>, session: Seq<char>, command: CommandModel)
    ensures
        names_after(names, session, seq![command]) == names_after_command(names, session, command),
{
    let none = Seq::<CommandModel>::empty();
    assert(seq![command].drop_last() =~= none);
    assert(names_after(names, session, none) == names);
    assert(seq![command].last() == command);
}

proof fn lemma_names_kept(names: Seq<Seq<char>>, session: Seq<char>, plan: Seq<CommandModel>)
    requires
        all_keep_windows(plan),
    ensures
        names_after(names, session, plan) == names,
    decreases plan.len(),
{
    if plan.len() > 0 {
        assert(all_keep_windows(plan.drop_last())) by {
            assert forall|i: int| 0 <= i < plan.drop_last().len() implies keeps_windows(
                #[trigger] plan.drop_last()[i],
            ) by {
                assert(plan.drop_last()[i] == plan[i]);
            }
        }
        lemma_names_kept(names, session, plan.drop_last());
        assert(keeps_windows(plan[plan.len() - 1]));
    }
}

proof fn lemma_add_keeps(a: Seq<CommandModel>, b: Seq<CommandModel>)
    requires
        all_keep_windows(a),
        all_keep_windows(b),
    ensures
        all_keep_windows(a + b),
{
    assert forall|i: int| 0 <= i < (a + b).len() implies keeps_windows(#[trigger] (a + b)[i]) by {
        if i < a.len() {
            assert((a + b)[i] == a[i]);
        } else {
            assert((a + b)[i] == b[i - a.len()]);
        }
    }
}

proof fn lemma_panes_plan_keeps(
    target: Seq<char>,
    root: Seq<char>,
    direction: crate::command::SplitDirection,
    panes: Seq<Option<Seq<char>>>,
)
    ensures
        all_keep_windows(panes_plan(target, root, direction, panes)),
    decreases panes.len(),
{
    if panes.len() > 1 {
        lemma_panes_plan_keeps(target, root, direction, panes.drop_last());
        let split = seq![
            CommandModel::SplitWindow { target: target, cwd: root, direction: Some(direction) },
        ];
        lemma_add_keeps(panes_plan(target, root, direction, panes.drop_last()), split);
        lemma_add_keeps(
            panes_plan(target, root, direction, panes.drop_last()) + split,
            keys_plan(target, panes.last()),
        );
    }
}

proof fn lemma_window_plan_keeps(
    session: Seq<char>,
    window: WindowModel,
    root: Seq<char>,
    base_index: u32,
)
    ensures
        all_keep_windows(window_plan(session, window, root, base_index)),
{
    let target = window_target(session, window.name());
    match window {
        WindowModel::Complex { layout, panes, .. } => {
            let made = panes_plan(target, root, crate::tmux::split_direction(layout), panes);
            lemma_panes_plan_keeps(target, root, crate::tmux::split_direction(layout), panes);
            lemma_add_keeps(made, layout_plan(target, layout));
            lemma_add_keeps(
                made + layout_plan(target, layout),
                seq![
                    CommandModel::SelectPane {
                        target: crate::tmux::pane_target(target, base_index as nat),
                    },
                ],
            );
        },
        WindowModel::Simple { .. } => {},
    }
}

proof fn lemma_post_create_plan_keeps(spec: SessionSpec, tokens: Seq<Seq<char>>, n: nat)
    ensures
        all_keep_windows(post_create_plan(spec, tokens, n)),
    decreases n,
{
    if n > 0 {
        lemma_post_create_plan_keeps(spec, tokens, (n - 1) as nat);
        lemma_add_keeps(
            post_create_plan(spec, tokens, (n - 1) as nat),
            blocking_plan(
                window_target(spec.session_name, SETUP_WINDOW_NAME@),
                spec.post_create[n - 1],
                tokens[n - 1],
            ),
        );
    }
}

proof fn lemma_later_windows_names(
    spec: SessionSpec,
    root: Seq<char>,
    base_index: u32,
    n: nat,
    names: Seq<Seq<char>>,
)
    requires
        n <= spec.windows.len(),
    ensures
        names_after(names, spec.session_name, later_windows_plan(spec, root, base_index, n))
            == names + Seq::new(
            if n <= 1 {
                0nat
            } else {
                (n - 1) as nat
            },
            |i: int| spec.windows[i + 1].name(),
        ),
    decreases n,
{
    let session = spec.session_name;
    if n <= 1 {
        assert(names + Seq::new(0nat, |i: int| spec.windows[i + 1].name()) =~= names);
    } else {
        let before = later_windows_plan(spec, root, base_index, (n - 1) as nat);
        let create = CommandModel::NewWindow {
            session: session,
            name: spec.windows[n - 1].name(),
            cwd: root,
        };
        let fill = window_plan(session, spec.windows[n - 1], root, base_index);
        lemma_later_windows_names(spec, root, base_index, (n - 1) as nat, names);
        let so_far = names_after(names, session, before);
        lemma_names_after_add(names, session, before, seq![create]);
        lemma_names_after_one(so_far, session, create);
        lemma_names_after_add(names, session, before + seq![create], fill);
        lemma_window_plan_keeps(session, spec.windows[n - 1], root, base_index);
        lemma_names_kept(so_far.push(spec.windows[n - 1].name()), session, fill);
        assert(so_far.push(spec.windows[n - 1].name()) =~= names + Seq::new(
            (n - 1) as nat,
            |i: int| spec.windows[i + 1].name(),
        ));
    }
}

/// After the whole plan was carried out, the session has the windows that
/// it declares, under their names and in their order, and no other; a
/// session that declares none has the one window `shell`.
pub proof fn lemma_built_session_has_declared_windows(
    spec: SessionSpec,
    root: Seq<char>,
    now: nat,
    base_index: u32,
    before: Seq<Seq<char>>,
)
    ensures
        names_after(before, spec.session_name, build_plan(spec, root, now, base_index))
            == declared_names(spec),
{
    let tokens = crate::tmux::batch_tokens(spec.session_name, spec.post_create.len(), now);
    let session = spec.session_name;
    let setup = seq![SETUP_WINDOW_NAME@];
    let create = create_plan(spec, root);
    let post = setup_plan(spec, now);
    let windows = windows_plan(spec, root, base_index);
    // the session is created with the setup window
    let open = CommandModel::NewSession {
        name: session,
        window: SETUP_WINDOW_NAME@,
        cwd: root,
        env: crate::tmux::session_env(spec),
    };
    let declare = create.skip(1);
    assert(create =~= seq![open] + declare);
    assert(all_keep_windows(declare));
    lemma_names_after_add(before, session, seq![open], declare);
    lemma_names_after_one(before, session, open);
    lemma_names_kept(setup, session, declare);
    assert(names_after(before, session, create) == setup);
    // the post-create commands leave it so
    lemma_post_create_plan_keeps(spec, tokens, spec.post_create.len());
    lemma_names_after_add(before, session, create, post);
    lemma_names_kept(setup, session, post);
    // the setup window becomes the first window
    let rename = CommandModel::RenameWindow {
        target: window_target(session, SETUP_WINDOW_NAME@),
        name: first_window_name(spec),
    };
    let first = first_window_plan(spec, root, base_index);
    let later = later_windows_plan(spec, root, base_index, spec.windows.len());
    let select = CommandModel::SelectWindow {
        target: window_target(session, first_window_name(spec)),
    };
    let renamed = seq![first_window_name(spec)];
    assert(setup.skip(1) =~= Seq::<Seq<char>>::empty());
    assert(named_window(setup, session, window_target(session, SETUP_WINDOW_NAME@)) == Some(0int));
    assert(setup.update(0, first_window_name(spec)) =~= renamed);
    lemma_names_after_one(setup, session, rename);
    if spec.windows.len() > 0 {
        lemma_window_plan_keeps(session, spec.windows[0], root, base_index);
    }
    lemma_names_after_add(setup, session, seq![rename], first);
    lemma_names_kept(renamed, session, first);
    // the other windows follow in order
    lemma_later_windows_names(spec, root, base_index, spec.windows.len(), renamed);
    lemma_names_after_add(setup, session, seq![rename] + first, later);
    lemma_names_after_add(setup, session, seq![rename] + first + later, seq![select]);
    lemma_names_after_one(
        names_after(setup, session, seq![rename] + first + later),
        session,
        select,
    );
    assert(windows =~= seq![rename] + first + later + seq![select]);
    lemma_names_after_add(before, session, create + post, windows);
    assert(build_plan(spec, root, now, base_index) =~= create + post + windows);
    assert(names_after(setup, session, windows) =~= declared_names(spec));
}

} // verus!
