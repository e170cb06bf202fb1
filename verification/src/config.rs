//! What a project declares: its windows and panes, and what a worktree
//! session of it copies, runs and hands off.

use crate::text::{copy_text, to_chars, trim, trimmed};
use vstd::prelude::*;

verus! {

/// One pane of a window: a command to run in it, or nothing.
#[derive(Debug, Clone, PartialEq, Eq)]
pub enum Pane {
    Command(String),
    Empty,
}

impl DeepView for Pane {
    type V = Option<Seq<char>>;

    open spec fn deep_view(&self) -> Option<Seq<char>> {
        match self {
            Pane::Command(command) => Some(command@),
            Pane::Empty => None,
        }
    }
}

impl Pane {
    /// The command to run in this pane.
    pub fn command(&self) -> (r: Option<&str>)
        ensures
            r.deep_view() == self.deep_view(),
    {
        match self {
            Pane::Command(command) => Some(command.as_str()),
            Pane::Empty => None,
        }
    }

    pub fn duplicate(&self) -> (r: Pane)
        ensures
            r.deep_view() == self.deep_view(),
    {
        match self {
            Pane::Command(command) => Pane::Command(copy_text(command.as_str())),
            Pane::Empty => Pane::Empty,
        }
    }
}

/// The layout and the panes of a window that declares panes.
#[derive(Debug, Clone, PartialEq, Eq)]
pub struct WindowConfig {
    /// The name of a layout of the multiplexer, such as `main-horizontal`.
    pub layout: Option<String>,
    pub panes: Vec<Pane>,
}

pub struct WindowConfigModel {
    pub layout: Option<Seq<char>>,
    pub panes: Seq<Option<Seq<char>>>,
}

impl DeepView for WindowConfig {
    type V = WindowConfigModel;

    open spec fn deep_view(&self) -> WindowConfigModel {
        WindowConfigModel { layout: self.layout.deep_view(), panes: self.panes.deep_view() }
    }
}

/// One window of a session.
#[derive(Debug, Clone, PartialEq, Eq)]
pub enum Window {
    /// A window of one pane, with the command to run in it, if any.
    Simple { name: String, command: Option<String> },
    /// A window that declares its panes.
    Complex { name: String, config: WindowConfig },
}

pub enum WindowModel {
    Simple { name: Seq<char>, command: Option<Seq<char>> },
    Complex { name: Seq<char>, layout: Option<Seq<char>>, panes: Seq<Option<Seq<char>>> },
}

impl WindowModel {
    pub open spec fn name(self) -> Seq<char> {
        match self {
            WindowModel::Simple { name, .. } => name,
            WindowModel::Complex { name, .. } => name,
        }
    }

    pub open spec fn simple_command(self) -> Option<Seq<char>> {
        match self {
            WindowModel::Simple { command, .. } => command,
            WindowModel::Complex { .. } => None,
        }
    }

    pub open spec fn panes(self) -> Seq<Option<Seq<char>>> {
        match self {
            WindowModel::Simple { .. } => Seq::empty(),
            WindowModel::Complex { panes, .. } => panes,
        }
    }

    pub open spec fn layout(self) -> Option<Seq<char>> {
        match self {
            WindowModel::Simple { .. } => None,
            WindowModel::Complex { layout, .. } => layout,
        }
    }
}

impl DeepView for Window {
    type V = WindowModel;

    open spec fn deep_view(&self) -> WindowModel {
        match self {
            Window::Simple { name, command } => WindowModel::Simple {
                name: name@,
                command: command.deep_view(),
            },
            Window::Complex { name, config } => WindowModel::Complex {
                name: name@,
                layout: config.layout.deep_view(),
                panes: config.panes.deep_view(),
            },
        }
    }
}

/// A copy of an optional text.
pub fn copy_optional(text: &Option<String>) -> (r: Option<String>)
    ensures
        r.deep_view() == text.deep_view(),
{
    match text {
        Some(t) => Some(copy_text(t.as_str())),
        None => None,
    }
}

/// A copy of a list of texts.
pub fn copy_texts(texts: &Vec<String>) -> (r: Vec<String>)
    ensures
        r.deep_view() == texts.deep_view(),
{
    let mut r: Vec<String> = Vec::new();
    let mut i: usize = 0;
    while i < texts.len()
        invariant
            i <= texts.len(),
            r.len() == i,
            forall|k: int| 0 <= k < i ==> r@[k]@ == texts@[k]@,
        decreases texts.len() - i,
    {
        r.push(copy_text(texts[i].as_str()));
        i += 1;
    }
    assert(r.deep_view() =~= texts.deep_view());
    r
}

fn copy_panes(panes: &Vec<Pane>) -> (r: Vec<Pane>)
    ensures
        r.deep_view() == panes.deep_view(),
{
    let mut r: Vec<Pane> = Vec::new();
    let mut i: usize = 0;
    while i < panes.len()
        invariant
            i <= panes.len(),
            r.len() == i,
            forall|k: int| 0 <= k < i ==> r@[k].deep_view() == panes@[k].deep_view(),
        decreases panes.len() - i,
    {
        r.push(panes[i].duplicate());
        i += 1;
    }
    assert(r.deep_view() =~= panes.deep_view());
    r
}

impl Window {
    /// The window's name.
    pub fn name(&self) -> (r: String)
        ensures
            r@ == self.deep_view().name(),
    {
        match self {
            Window::Simple { name, .. } => copy_text(name.as_str()),
            Window::Complex { name, .. } => copy_text(name.as_str()),
        }
    }

    /// The command of a window without panes.
    pub fn simple_command(&self) -> (r: Option<String>)
        ensures
            r.deep_view() == self.deep_view().simple_command(),
    {
        match self {
            Window::Simple { command, .. } => copy_optional(command),
            Window::Complex { .. } => None,
        }
    }

    /// The panes that the window declares.
    pub fn panes(&self) -> (r: Vec<Pane>)
        ensures
            r.deep_view() == self.deep_view().panes(),
    {
        match self {
            Window::Simple { .. } => {
                let r: Vec<Pane> = Vec::new();
                assert(r.deep_view() =~= Seq::<Option<Seq<char>>>::empty());
                r
            },
            Window::Complex { config, .. } => copy_panes(&config.panes),
        }
    }

    /// The layout that the window declares.
    pub fn layout(&self) -> (r: Option<String>)
        ensures
            r.deep_view() == self.deep_view().layout(),
    {
        match self {
            Window::Simple { .. } => None,
            Window::Complex { config, .. } => copy_optional(&config.layout),
        }
    }

    /// Whether the window declares panes.
    pub fn has_panes(&self) -> (r: bool)
        ensures
            r == (self.deep_view() is Complex),
    {
        match self {
            Window::Simple { .. } => false,
            Window::Complex { .. } => true,
        }
    }
}

/// What a worktree session of a project takes over from the project.
#[derive(Debug, Clone, PartialEq, Eq)]
pub struct WorktreeConfig {
    /// Files and folders to copy from the project's root.
    pub copy: Vec<String>,
    /// Files and folders to link to the project's root.
    pub symlink: Vec<String>,
    /// Commands to run, in order, once the worktree exists.
    pub post_create: Vec<String>,
    /// Windows whose commands run in one session of the project at a time.
    pub handoff_windows: Vec<String>,
}

pub struct WorktreeModel {
    pub copy: Seq<Seq<char>>,
    pub symlink: Seq<Seq<char>>,
    pub post_create: Seq<Seq<char>>,
    pub handoff_windows: Seq<Seq<char>>,
}

impl DeepView for WorktreeConfig {
    type V = WorktreeModel;

    open spec fn deep_view(&self) -> WorktreeModel {
        WorktreeModel {
            copy: self.copy.deep_view(),
            symlink: self.symlink.deep_view(),
            post_create: self.post_create.deep_view(),
            handoff_windows: self.handoff_windows.deep_view(),
        }
    }
}

impl Default for WorktreeConfig {
    fn default() -> (r: WorktreeConfig)
        ensures
            r.deep_view() == (WorktreeModel {
                copy: Seq::empty(),
                symlink: Seq::empty(),
                post_create: Seq::empty(),
                handoff_windows: Seq::empty(),
            }),
    {
        let r = WorktreeConfig {
            copy: Vec::new(),
            symlink: Vec::new(),
            post_create: Vec::new(),
            handoff_windows: Vec::new(),
        };
        assert(r.copy.deep_view() =~= Seq::<Seq<char>>::empty());
        assert(r.symlink.deep_view() =~= Seq::<Seq<char>>::empty());
        assert(r.post_create.deep_view() =~= Seq::<Seq<char>>::empty());
        assert(r.handoff_windows.deep_view() =~= Seq::<Seq<char>>::empty());
        r
    }
}

/// A project: a named session, rooted in a directory, with its windows.
#[derive(Debug, Clone, PartialEq, Eq)]
pub struct Project {
    /// The name of the project and of its main session.
    pub name: String,
    /// The root directory; a leading `~` stands for the home directory.
    pub root: String,
    /// The URL of the project's repository.
    pub repo: Option<String>,
    pub windows: Vec<Window>,
    pub worktree: Option<WorktreeConfig>,
}

pub struct ProjectModel {
    pub name: Seq<char>,
    pub root: Seq<char>,
    pub repo: Option<Seq<char>>,
    pub windows: Seq<WindowModel>,
    pub worktree: Option<WorktreeModel>,
}

impl DeepView for Project {
    type V = ProjectModel;

    open spec fn deep_view(&self) -> ProjectModel {
        ProjectModel {
            name: self.name@,
            root: self.root@,
            repo: self.repo.deep_view(),
            windows: self.windows.deep_view(),
            worktree: self.worktree.deep_view(),
        }
    }
}

/// `branch` with `-` in place of each `/`.
pub open spec fn branch_slug(branch: Seq<char>) -> Seq<char> {
    branch.map_values(
        |c: char|
            if c == '/' {
                '-'
            } else {
                c
            },
    )
}

/// The name of the session of a project's worktree.
pub open spec fn worktree_session(project: Seq<char>, branch: Seq<char>) -> Seq<char> {
    project + "__"@ + branch_slug(branch)
}

/// The handoff windows of a project: none where it declares no worktree.
pub open spec fn handoff_windows_of(project: ProjectModel) -> Seq<Seq<char>> {
    match project.worktree {
        Some(worktree) => worktree.handoff_windows,
        None => Seq::empty(),
    }
}

/// The post-create commands of a project: none where it declares no worktree.
pub open spec fn post_create_of(project: ProjectModel) -> Seq<Seq<char>> {
    match project.worktree {
        Some(worktree) => worktree.post_create,
        None => Seq::empty(),
    }
}

/// Appends `branch` to `out`, with `-` in place of each `/`.
pub fn push_branch_slug(out: &mut String, branch: &str)
    ensures
        final(out)@ == old(out)@ + branch_slug(branch@),
{
    let v = to_chars(branch);
    let ghost start = out@;
    let mut i: usize = 0;
    assert(out@ =~= start + branch_slug(v@.take(0)));
    while i < v.len()
        invariant
            i <= v.len(),
            out@ == start + branch_slug(v@.take(i as int)),
        decreases v.len() - i,
    {
        let c = v[i];
        if c == '/' {
            out.push('-');
        } else {
            out.push(c);
        }
        i += 1;
        assert(out@ =~= start + branch_slug(v@.take(i as int)));
    }
    assert(v@.take(i as int) =~= v@);
}

pub fn copy_windows(windows: &Vec<Window>) -> (r: Vec<Window>)
    ensures
        r.deep_view() == windows.deep_view(),
{
    let mut r: Vec<Window> = Vec::new();
    let mut i: usize = 0;
    while i < windows.len()
        invariant
            i <= windows.len(),
            r.len() == i,
            forall|k: int| 0 <= k < i ==> r@[k].deep_view() == windows@[k].deep_view(),
        decreases windows.len() - i,
    {
        let w = match &windows[i] {
            Window::Simple { name, command } => Window::Simple {
                name: copy_text(name.as_str()),
                command: copy_optional(command),
            },
            Window::Complex { name, config } => Window::Complex {
                name: copy_text(name.as_str()),
                config: WindowConfig {
                    layout: copy_optional(&config.layout),
                    panes: copy_panes(&config.panes),
                },
            },
        };
        r.push(w);
        i += 1;
    }
    assert(r.deep_view() =~= windows.deep_view());
    r
}

impl Project {
    /// The name of the session of this project's worktree on `branch`.
    pub fn worktree_session_name(&self, branch: &str) -> (r: String)
        ensures
            r@ == worktree_session(self.name@, branch@),
    {
        let mut r = copy_text(self.name.as_str());
        r.append("__");
        push_branch_slug(&mut r, branch);
        r
    }

    /// The windows that are handed off between this project's sessions.
    pub fn worktree_handoff_windows(&self) -> (r: Vec<String>)
        ensures
            r.deep_view() == handoff_windows_of(self.deep_view()),
    {
        match &self.worktree {
            Some(worktree) => copy_texts(&worktree.handoff_windows),
            None => {
                let r: Vec<String> = Vec::new();
                assert(r.deep_view() =~= Seq::<Seq<char>>::empty());
                r
            },
        }
    }
}

/// What expanding a leading `~` may turn `path` into: `path` itself, or,
/// where `path` starts with `~`, some directory followed by the rest of
/// `path`. Which of the two, and which directory, the environment decides.
pub open spec fn tilde_expansion(path: Seq<char>, out: Seq<char>) -> bool {
    out == path || (path.len() > 0 && path[0] == '~' && path.skip(1).is_suffix_of(out))
}

/// `shellexpand::tilde`: a `~` at the start of `path`, alone or followed by
/// a separator, is replaced by the home directory where there is one; any
/// other path comes back as it is.
#[verifier::external_body]
pub(crate) fn expand_tilde(path: &str) -> (out: String)
    ensures
        tilde_expansion(path@, out@),
{
    shellexpand::tilde(path).into_owned()
}

impl Project {
    /// The root directory with a leading `~` expanded.
    pub fn root_expanded(&self) -> (out: String)
        ensures
            tilde_expansion(self.root@, out@),
    {
        expand_tilde(self.root.as_str())
    }
}

/// Where worktrees are kept, and where the projects are declared.
#[derive(Debug, Clone, PartialEq, Eq)]
pub struct GlobalConfig {
    /// The directory under which each project's worktrees lie.
    pub worktree_base: String,
    /// The directory of the project files, where it is not the default one.
    pub projects_dir: Option<String>,
}

/// The directory under which worktrees lie where none is configured.
pub fn default_worktree_base() -> (base: String)
    ensures
        base@ == "~/Work/twig"@,
{
    copy_text("~/Work/twig")
}

impl Default for GlobalConfig {
    fn default() -> (config: GlobalConfig)
        ensures
            config.worktree_base@ == "~/Work/twig"@,
            config.projects_dir is None,
    {
        GlobalConfig { worktree_base: default_worktree_base(), projects_dir: None }
    }
}

impl GlobalConfig {
    /// The worktree base with a leading `~` expanded.
    pub fn worktree_base_expanded(&self) -> (out: String)
        ensures
            tilde_expansion(self.worktree_base@, out@),
    {
        expand_tilde(self.worktree_base.as_str())
    }
}

/// An `https` or `http` URL of a repository; the group is the name.
pub const REPO_HTTPS_PATTERN: &'static str = "^https?://[^/]+/(?:.+/)?([^/]+?)(?:\\.git)?$";

/// A `git@host:path` address of a repository; the group is the name.
pub const REPO_SSH_PATTERN: &'static str = "^git@[^:]+:(?:.+/)?([^/]+?)(?:\\.git)?$";

/// An `ssh` URL of a repository; the group is the name.
pub const REPO_SSH_URL_PATTERN: &'static str = "^ssh://[^/]+/(?:.+/)?([^/]+?)(?:\\.git)?$";

/// Any of the three forms, with a host, an owner and a name.
pub const GIT_URL_PATTERN: &'static str =
    "^(?:https?://[^/]+/[^/]+/[^/]+(?:\\.git)?|git@[^:]+:[^/]+/[^/]+(?:\\.git)?|ssh://[^/]+/[^/]+/[^/]+(?:\\.git)?)$";

/// Whether `pattern`, read as a regular expression of the `regex` crate,
/// matches somewhere in `text`; false where `pattern` is no such expression.
pub uninterp spec fn regex_matches(pattern: Seq<char>, text: Seq<char>) -> bool;

/// The part of `text` that the first group of `pattern` takes in the
/// leftmost match of `pattern`, read as a regular expression of the `regex`
/// crate; nothing where there is no match, where the group takes no part in
/// it, or where `pattern` is no such expression.
pub uninterp spec fn regex_first_group(pattern: Seq<char>, text: Seq<char>) -> Option<Seq<char>>;

/// `regex::Regex::new` and `Regex::is_match`: the answer depends on the
/// pattern and the text alone.
#[verifier::external_body]
fn pattern_matches(pattern: &str, text: &str) -> (r: bool)
    ensures
        r == regex_matches(pattern@, text@),
{
    match regex::Regex::new(pattern) {
        Ok(re) => re.is_match(text),
        Err(_) => false,
    }
}

/// `regex::Regex::new`, `Regex::captures` and `Captures::get` for the group
/// 1: the answer depends on the pattern and the text alone.
#[verifier::external_body]
fn pattern_first_group(pattern: &str, text: &str) -> (r: Option<String>)
    ensures
        r.deep_view() == regex_first_group(pattern@, text@),
{
    match regex::Regex::new(pattern) {
        Ok(re) => match re.captures(text) {
            Some(found) => match found.get(1) {
                Some(group) => Some(group.as_str().to_string()),
                None => None,
            },
            None => None,
        },
        Err(_) => None,
    }
}

/// The first of the texts that is there and not empty.
pub open spec fn first_name(groups: Seq<Option<Seq<char>>>) -> Option<Seq<char>>
    decreases groups.len(),
{
    if groups.len() == 0 {
        None
    } else {
        match groups[0] {
            Some(name) => if name.len() > 0 {
                Some(name)
            } else {
                first_name(groups.skip(1))
            },
            None => first_name(groups.skip(1)),
        }
    }
}

/// The name of the repository that a URL names: what the first of the three
/// patterns to find a name takes as the name.
pub open spec fn repo_name(url: Seq<char>) -> Option<Seq<char>> {
    let text = trimmed(url);
    first_name(
        seq![
            regex_first_group(REPO_HTTPS_PATTERN@, text),
            regex_first_group(REPO_SSH_PATTERN@, text),
            regex_first_group(REPO_SSH_URL_PATTERN@, text),
        ],
    )
}

/// The first of the texts that is there and not empty.
pub fn pick_name(groups: &Vec<Option<String>>) -> (r: Option<String>)
    ensures
        r.deep_view() == first_name(groups.deep_view()),
{
    let ghost all = groups.deep_view();
    let mut i: usize = 0;
    assert(all.skip(0) =~= all);
    while i < groups.len()
        invariant
            i <= groups.len(),
            all == groups.deep_view(),
            first_name(all) == first_name(all.skip(i as int)),
        decreases groups.len() - i,
    {
        proof {
            assert(all.skip(i as int)[0] == groups@[i as int].deep_view());
            assert(all.skip(i as int).skip(1) =~= all.skip(i + 1));
        }
        match &groups[i] {
            Some(name) => {
                if name.as_str().unicode_len() > 0 {
                    return Some(copy_text(name.as_str()));
                }
            },
            None => {},
        }
        i += 1;
    }
    assert(all.skip(i as int).len() == 0);
    None
}

impl Project {
    /// The name of the repository that a URL names.
    pub fn name_from_repo_url(url: &str) -> (r: Option<String>)
        ensures
            r.deep_view() == repo_name(url@),
    {
        let text = trim(url);
        let mut groups: Vec<Option<String>> = Vec::new();
        groups.push(pattern_first_group(REPO_HTTPS_PATTERN, text.as_str()));
        groups.push(pattern_first_group(REPO_SSH_PATTERN, text.as_str()));
        groups.push(pattern_first_group(REPO_SSH_URL_PATTERN, text.as_str()));
        assert(groups.deep_view() =~= seq![
            regex_first_group(REPO_HTTPS_PATTERN@, text@),
            regex_first_group(REPO_SSH_PATTERN@, text@),
            regex_first_group(REPO_SSH_URL_PATTERN@, text@),
        ]);
        pick_name(&groups)
    }

    /// Whether a text is the URL of a repository.
    pub fn is_git_url(s: &str) -> (r: bool)
        ensures
            r == regex_matches(GIT_URL_PATTERN@, trimmed(s@)),
    {
        let text = trim(s);
        pattern_matches(GIT_URL_PATTERN, text.as_str())
    }
}

/// The name of the directory of the worktree of a branch: the branch with
/// `-` in place of each `/`.
pub fn branch_dir_name(branch: &str) -> (out: String)
    ensures
        out@ == branch_slug(branch@),
{
    let mut out = String::new();
    push_branch_slug(&mut out, branch);
    assert(Seq::<char>::empty() + branch_slug(branch@) =~= branch_slug(branch@));
    out
}

impl Project {
    /// The name of the file that declares the project of that name.
    pub fn config_file_name(name: &str) -> (out: String)
        ensures
            out@ == name@ + ".yml"@,
    {
        let mut out = copy_text(name);
        out.append(".yml");
        out
    }
}

} // verus!
