//! Small decisions of the command line: which socket to use, what a pane
//! listing says, which sessions are the tool's own, and what a new
//! project's file holds.

use crate::text::{copy_text, has_prefix_at, same_chars, split, split_chars, text_of, to_chars};
use vstd::prelude::*;

verus! {

/// The socket of the server that the environment names: what stands before
/// the first comma of the value of `TMUX`, unless that is empty.
pub open spec fn socket_of_env(value: Seq<char>) -> Option<Seq<char>> {
    let first = split(value, ',')[0];
    if first.len() > 0 {
        Some(first)
    } else {
        None
    }
}

/// The socket to use: the one that was asked for, else the one that the
/// environment names.
pub open spec fn socket_choice(asked: Option<Seq<char>>, env: Option<Seq<char>>) -> Option<
    Seq<char>,
> {
    match asked {
        Some(path) => Some(path),
        None => match env {
            Some(value) => socket_of_env(value),
            None => None,
        },
    }
}

/// The socket to use, given the one asked for and the value of `TMUX`.
pub fn socket_path(asked: Option<String>, tmux_env: Option<&str>) -> (r: Option<String>)
    ensures
        r.deep_view() == socket_choice(asked.deep_view(), tmux_env.deep_view()),
{
    match asked {
        Some(path) => Some(path),
        None => match tmux_env {
            Some(value) => {
                let v = to_chars(value);
                let parts = split_chars(&v, ',');
                assert(parts.deep_view().len() == parts.len());
                assert(parts.deep_view()[0] == parts@[0]@);
                if parts[0].len() > 0 {
                    Some(text_of(&parts[0]))
                } else {
                    None
                }
            },
            None => None,
        },
    }
}

/// What a line of a pane listing says of a pane.
#[derive(Debug, Clone, PartialEq, Eq)]
pub struct PaneEntry {
    pub index: String,
    pub id: String,
    pub command: String,
    pub path: String,
}

pub struct PaneEntryModel {
    pub index: Seq<char>,
    pub id: Seq<char>,
    pub command: Seq<char>,
    pub path: Seq<char>,
}

impl DeepView for PaneEntry {
    type V = PaneEntryModel;

    open spec fn deep_view(&self) -> PaneEntryModel {
        PaneEntryModel {
            index: self.index@,
            id: self.id@,
            command: self.command@,
            path: self.path@,
        }
    }
}

/// The first four fields of a line, between tabs; nothing where the line has
/// fewer.
pub open spec fn entry_of(line: Seq<char>) -> Option<PaneEntryModel> {
    let fields = split(line, '\t');
    if fields.len() < 4 {
        None
    } else {
        Some(
            PaneEntryModel { index: fields[0], id: fields[1], command: fields[2], path: fields[3] },
        )
    }
}

/// What a line of a pane listing says of a pane.
pub fn pane_entry(line: &str) -> (r: Option<PaneEntry>)
    ensures
        r.deep_view() == entry_of(line@),
{
    let v = to_chars(line);
    let fields = split_chars(&v, '\t');
    assert(fields.deep_view().len() == fields.len());
    if fields.len() < 4 {
        return None;
    }
    assert(fields.deep_view()[0] == fields@[0]@);
    assert(fields.deep_view()[1] == fields@[1]@);
    assert(fields.deep_view()[2] == fields@[2]@);
    assert(fields.deep_view()[3] == fields@[3]@);
    Some(
        PaneEntry {
            index: text_of(&fields[0]),
            id: text_of(&fields[1]),
            command: text_of(&fields[2]),
            path: text_of(&fields[3]),
        },
    )
}

/// What the file of a new project holds: its name, its root, its repository
/// if it has one, a first set of windows, and a worktree section to fill in.
pub open spec fn project_template(name: Seq<char>, root: Seq<char>, repo: Option<Seq<char>>)
    -> Seq<char> {
    "name: "@ + name + "\nroot: "@ + root + (match repo {
        Some(url) => "\nrepo: "@ + url,
        None => Seq::empty(),
    }) + TEMPLATE_BODY@
}

/// The windows and the worktree section of a new project's file.
pub const TEMPLATE_BODY: &'static str =
    "\n\nwindows:\n  - editor:\n      panes:\n        - nvim\n  - shell:\n  - shell:\n  - git: lazygit\n\n# Worktree configuration (optional)\n# worktree:\n#   copy:\n#     - .env\n#     - .env.local\n#   symlink:\n#     - .env\n#   post_create:\n#     - bundle install\n#     - yarn install\n#   # Optional: pause/resume these windows when running `twig window activate`\n#   handoff_windows:\n#     - rails\n#     - sidekiq\n";

/// What the file of a new project holds.
pub fn new_project_config(name: &str, root: &str, repo: Option<&str>) -> (out: String)
    ensures
        out@ == project_template(name@, root@, repo.deep_view()),
{
    let mut out = copy_text("name: ");
    out.append(name);
    out.append("\nroot: ");
    out.append(root);
    match repo {
        Some(url) => {
            out.append("\nrepo: ");
            out.append(url);
        },
        None => {
            assert(out@ + Seq::<char>::empty() =~= out@);
        },
    }
    out.append(TEMPLATE_BODY);
    out
}

/// The session bears the name of the project, or a name that begins with the
/// project's name and an underscore.
pub open spec fn belongs_to(session: Seq<char>, project: Seq<char>) -> bool {
    session == project || project.push('_').is_prefix_of(session)
}

/// The session belongs to one of the projects.
pub open spec fn is_own(session: Seq<char>, projects: Seq<Seq<char>>) -> bool {
    exists|i: int| 0 <= i < projects.len() && belongs_to(session, #[trigger] projects[i])
}

/// Whether a running session belongs to one of the projects.
pub fn is_own_session(session: &str, projects: &[String]) -> (r: bool)
    ensures
        r == is_own(session@, projects.deep_view()),
{
    let name = to_chars(session);
    assert(name@.skip(0) =~= name@);
    let mut i: usize = 0;
    while i < projects.len()
        invariant
            i <= projects.len(),
            name@ == session@,
            name@.skip(0) == name@,
            forall|k: int| 0 <= k < i ==> !belongs_to(session@, #[trigger] projects.deep_view()[k]),
        decreases projects.len() - i,
    {
        assert(projects.deep_view()[i as int] == projects@[i as int]@);
        let mut prefix = to_chars(projects[i].as_str());
        if same_chars(&name, &prefix) {
            return true;
        }
        prefix.push('_');
        if has_prefix_at(&name, 0, &prefix) {
            return true;
        }
        i += 1;
    }
    false
}

} // verus!
