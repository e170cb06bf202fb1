//! What the tree of projects and worktrees means: which action a selected
//! node stands for, what can be searched, and how a list of search results
//! is ranked and walked. Drawing the tree and reading keys is the caller's
//! part.

use crate::git::{WorktreeEntry, WorktreeInfo};
use crate::text::{copy_text, lemma_deep_push};
use vstd::arithmetic::div_mod::{
    lemma_add_mod_noop, lemma_mod_add_multiples_vanish, lemma_sub_mod_noop,
};
use vstd::prelude::*;

verus! {

/// A node of the tree.
#[derive(Debug, Clone, PartialEq, Eq, Hash, Default)]
pub enum TreeNodeId {
    #[default]
    Root,
    Project(String),
    Worktree { project: String, branch: String },
}

pub enum NodeModel {
    Root,
    Project(Seq<char>),
    Worktree { project: Seq<char>, branch: Seq<char> },
}

impl DeepView for TreeNodeId {
    type V = NodeModel;

    open spec fn deep_view(&self) -> NodeModel {
        match self {
            TreeNodeId::Root => NodeModel::Root,
            TreeNodeId::Project(name) => NodeModel::Project(name@),
            TreeNodeId::Worktree { project, branch } => NodeModel::Worktree {
                project: project@,
                branch: branch@,
            },
        }
    }
}

/// What to do once the tree is left.
#[derive(Debug, Clone, PartialEq, Eq)]
pub enum SelectedAction {
    StartProject(String),
    StartWorktree { project: String, branch: String },
    KillProject(String),
    KillWorktree { project: String, branch: String },
}

pub enum ActionModel {
    StartProject(Seq<char>),
    StartWorktree { project: Seq<char>, branch: Seq<char> },
    KillProject(Seq<char>),
    KillWorktree { project: Seq<char>, branch: Seq<char> },
}

impl DeepView for SelectedAction {
    type V = ActionModel;

    open spec fn deep_view(&self) -> ActionModel {
        match self {
            SelectedAction::StartProject(name) => ActionModel::StartProject(name@),
            SelectedAction::StartWorktree { project, branch } => ActionModel::StartWorktree {
                project: project@,
                branch: branch@,
            },
            SelectedAction::KillProject(name) => ActionModel::KillProject(name@),
            SelectedAction::KillWorktree { project, branch } => ActionModel::KillWorktree {
                project: project@,
                branch: branch@,
            },
        }
    }
}

/// What selecting a node does.
#[derive(Debug, Clone, Copy, PartialEq, Eq, Structural)]
pub enum TreeViewMode {
    /// Every project and worktree is shown; a selected one is started.
    Start,
    /// The running sessions are shown; a selected one is stopped.
    Kill,
}

/// The action that a node stands for in a mode; the root stands for none.
pub open spec fn action_of(node: NodeModel, mode: TreeViewMode) -> Option<ActionModel> {
    match node {
        NodeModel::Root => None,
        NodeModel::Project(name) => Some(
            match mode {
                TreeViewMode::Start => ActionModel::StartProject(name),
                TreeViewMode::Kill => ActionModel::KillProject(name),
            },
        ),
        NodeModel::Worktree { project, branch } => Some(
            match mode {
                TreeViewMode::Start => ActionModel::StartWorktree { project: project, branch: branch },
                TreeViewMode::Kill => ActionModel::KillWorktree { project: project, branch: branch },
            },
        ),
    }
}

/// The node that a selection ends in: the last of its path.
pub open spec fn selected_node(selected: Seq<NodeModel>) -> Option<NodeModel> {
    if selected.len() == 0 {
        None
    } else {
        Some(selected.last())
    }
}

/// The action of the selected node.
pub fn selected_action(selected: &[TreeNodeId], mode: TreeViewMode) -> (r: Option<SelectedAction>)
    ensures
        r.deep_view() == match selected_node(selected.deep_view()) {
            Some(node) => action_of(node, mode),
            None => None,
        },
{
    if selected.len() == 0 {
        return None;
    }
    assert(selected.deep_view().last() == selected@[selected.len() - 1].deep_view());
    match &selected[selected.len() - 1] {
        TreeNodeId::Root => None,
        TreeNodeId::Project(name) => match mode {
            TreeViewMode::Start => Some(SelectedAction::StartProject(copy_text(name.as_str()))),
            TreeViewMode::Kill => Some(SelectedAction::KillProject(copy_text(name.as_str()))),
        },
        TreeNodeId::Worktree { project, branch } => match mode {
            TreeViewMode::Start => Some(
                SelectedAction::StartWorktree {
                    project: copy_text(project.as_str()),
                    branch: copy_text(branch.as_str()),
                },
            ),
            TreeViewMode::Kill => Some(
                SelectedAction::KillWorktree {
                    project: copy_text(project.as_str()),
                    branch: copy_text(branch.as_str()),
                },
            ),
        },
    }
}

/// The project of a node: its own name, or the project of the worktree.
pub open spec fn project_of(node: NodeModel) -> Option<Seq<char>> {
    match node {
        NodeModel::Root => None,
        NodeModel::Project(name) => Some(name),
        NodeModel::Worktree { project, .. } => Some(project),
    }
}

/// The project of the selected node.
pub fn selected_project(selected: &[TreeNodeId]) -> (r: Option<String>)
    ensures
        r.deep_view() == match selected_node(selected.deep_view()) {
            Some(node) => project_of(node),
            None => None,
        },
{
    if selected.len() == 0 {
        return None;
    }
    assert(selected.deep_view().last() == selected@[selected.len() - 1].deep_view());
    match &selected[selected.len() - 1] {
        TreeNodeId::Root => None,
        TreeNodeId::Project(name) => Some(copy_text(name.as_str())),
        TreeNodeId::Worktree { project, .. } => Some(copy_text(project.as_str())),
    }
}

/// The project and the branch of a worktree node.
pub open spec fn worktree_of(node: NodeModel) -> Option<(Seq<char>, Seq<char>)> {
    match node {
        NodeModel::Worktree { project, branch } => Some((project, branch)),
        _ => None,
    }
}

/// The project and the branch of the selected node, if it is a worktree.
pub fn selected_worktree(selected: &[TreeNodeId]) -> (r: Option<(String, String)>)
    ensures
        r.deep_view() == match selected_node(selected.deep_view()) {
            Some(node) => worktree_of(node),
            None => None,
        },
{
    if selected.len() == 0 {
        return None;
    }
    assert(selected.deep_view().last() == selected@[selected.len() - 1].deep_view());
    match &selected[selected.len() - 1] {
        TreeNodeId::Worktree { project, branch } => Some(
            (copy_text(project.as_str()), copy_text(branch.as_str())),
        ),
        _ => None,
    }
}

/// A project with its worktrees, as the tree shows it.
#[derive(Debug, Clone, PartialEq, Eq)]
pub struct ProjectData {
    pub name: String,
    pub worktrees: Vec<WorktreeInfo>,
    pub session_running: bool,
}

pub struct ProjectDataModel {
    pub name: Seq<char>,
    pub worktrees: Seq<WorktreeEntry>,
    pub session_running: bool,
}

impl DeepView for ProjectData {
    type V = ProjectDataModel;

    open spec fn deep_view(&self) -> ProjectDataModel {
        ProjectDataModel {
            name: self.name@,
            worktrees: self.worktrees.deep_view(),
            session_running: self.session_running,
        }
    }
}

/// What a search can find: a label to match, the path of the node in the
/// tree, and the project to open so that the node shows.
#[derive(Debug, Clone, PartialEq, Eq)]
pub struct SearchCandidate {
    pub label: String,
    pub node_path: Vec<TreeNodeId>,
    pub project: String,
}

pub struct CandidateModel {
    pub label: Seq<char>,
    pub node_path: Seq<NodeModel>,
    pub project: Seq<char>,
}

impl DeepView for SearchCandidate {
    type V = CandidateModel;

    open spec fn deep_view(&self) -> CandidateModel {
        CandidateModel {
            label: self.label@,
            node_path: self.node_path.deep_view(),
            project: self.project@,
        }
    }
}

/// The candidate for a project: found by its name.
pub open spec fn project_candidate(name: Seq<char>) -> CandidateModel {
    CandidateModel { label: name, node_path: seq![NodeModel::Project(name)], project: name }
}

/// The candidate for a worktree: found by the project's name and the branch.
pub open spec fn worktree_candidate(name: Seq<char>, branch: Seq<char>) -> CandidateModel {
    CandidateModel {
        label: name + " / "@ + branch,
        node_path: seq![
            NodeModel::Project(name),
            NodeModel::Worktree { project: name, branch: branch },
        ],
        project: name,
    }
}

/// The candidates for the first `n` worktrees of a project.
pub open spec fn worktree_candidates(name: Seq<char>, worktrees: Seq<WorktreeEntry>, n: nat)
    -> Seq<CandidateModel>
    decreases n,
{
    if n == 0 {
        Seq::empty()
    } else {
        worktree_candidates(name, worktrees, (n - 1) as nat).push(
            worktree_candidate(name, worktrees[n - 1].branch),
        )
    }
}

/// The candidates for the projects: each project, followed by its
/// worktrees, in order.
pub open spec fn candidates_of(projects: Seq<ProjectDataModel>) -> Seq<CandidateModel>
    decreases projects.len(),
{
    if projects.len() == 0 {
        Seq::empty()
    } else {
        let project = projects.last();
        candidates_of(projects.drop_last()).push(project_candidate(project.name))
            + worktree_candidates(project.name, project.worktrees, project.worktrees.len())
    }
}

/// Everything that a search can find.
pub fn build_candidates(projects: &[ProjectData]) -> (candidates: Vec<SearchCandidate>)
    ensures
        candidates.deep_view() == candidates_of(projects.deep_view()),
{
    let ghost all = projects.deep_view();
    let mut candidates: Vec<SearchCandidate> = Vec::new();
    let mut i: usize = 0;
    assert(all.take(0) =~= Seq::<ProjectDataModel>::empty());
    assert(candidates.deep_view() =~= Seq::<CandidateModel>::empty());
    while i < projects.len()
        invariant
            i <= projects.len(),
            all == projects.deep_view(),
            candidates.deep_view() == candidates_of(all.take(i as int)),
        decreases projects.len() - i,
    {
        let project = &projects[i];
        proof {
            assert(all.take(i + 1).drop_last() =~= all.take(i as int));
            assert(all.take(i + 1).last() == project.deep_view());
        }
        let ghost before = candidates;
        let mut path: Vec<TreeNodeId> = Vec::new();
        path.push(TreeNodeId::Project(copy_text(project.name.as_str())));
        let own = SearchCandidate {
            label: copy_text(project.name.as_str()),
            node_path: path,
            project: copy_text(project.name.as_str()),
        };
        assert(own.node_path.deep_view() =~= seq![NodeModel::Project(project.name@)]);
        candidates.push(own);
        proof {
            lemma_deep_push(before, candidates, own);
        }
        let ghost head = candidates.deep_view();
        let ghost trees = project.worktrees.deep_view();
        let mut k: usize = 0;
        assert(head + worktree_candidates(project.name@, trees, 0) =~= head);
        while k < project.worktrees.len()
            invariant
                k <= project.worktrees.len(),
                trees == project.worktrees.deep_view(),
                candidates.deep_view() == head + worktree_candidates(
                    project.name@,
                    trees,
                    k as nat,
                ),
            decreases project.worktrees.len() - k,
        {
            let ghost so_far = candidates;
            let branch = &project.worktrees[k].branch;
            assert(trees[k as int] == project.worktrees@[k as int].deep_view());
            let mut label = copy_text(project.name.as_str());
            label.append(" / ");
            label.append(branch.as_str());
            let mut path: Vec<TreeNodeId> = Vec::new();
            path.push(TreeNodeId::Project(copy_text(project.name.as_str())));
            path.push(
                TreeNodeId::Worktree {
                    project: copy_text(project.name.as_str()),
                    branch: copy_text(branch.as_str()),
                },
            );
            let found = SearchCandidate {
                label: label,
                node_path: path,
                project: copy_text(project.name.as_str()),
            };
            assert(found.node_path.deep_view() =~= seq![
                NodeModel::Project(project.name@),
                NodeModel::Worktree { project: project.name@, branch: branch@ },
            ]);
            candidates.push(found);
            proof {
                lemma_deep_push(so_far, candidates, found);
                assert(candidates.deep_view() =~= head + worktree_candidates(
                    project.name@,
                    trees,
                    (k + 1) as nat,
                ));
            }
            k += 1;
        }
        assert(trees.len() == project.worktrees.len());
        i += 1;
    }
    assert(all.take(i as int) =~= all);
    candidates
}

/// `i` is the place of the best score: the first of the greatest.
pub open spec fn is_best(scores: Seq<Option<i64>>, i: int) -> bool {
    &&& 0 <= i < scores.len()
    &&& scores[i] is Some
    &&& forall|j: int|
        0 <= j < scores.len() && (#[trigger] scores[j]) is Some ==> scores[j]->0 <= scores[i]->0
    &&& forall|j: int| 0 <= j < i && (#[trigger] scores[j]) is Some ==> scores[j]->0 < scores[i]->0
}

/// The place of the best of the scores that are there: the first of the
/// greatest; none where no score is there.
pub fn best_match(scores: &[Option<i64>]) -> (r: Option<usize>)
    ensures
        match r {
            Some(i) => is_best(scores@, i as int),
            None => forall|j: int| 0 <= j < scores.len() ==> (#[trigger] scores@[j]) is None,
        },
{
    let mut best: Option<usize> = None;
    let mut i: usize = 0;
    while i < scores.len()
        invariant
            i <= scores.len(),
            match best {
                Some(b) => is_best(scores@.take(i as int), b as int),
                None => forall|j: int| 0 <= j < i ==> (#[trigger] scores@[j]) is None,
            },
        decreases scores.len() - i,
    {
        let ghost seen = scores@.take(i as int);
        let ghost next = scores@.take(i + 1);
        proof {
            assert forall|j: int| 0 <= j < i implies #[trigger] next[j] == seen[j] by {}
            assert(next[i as int] == scores@[i as int]);
        }
        match scores[i] {
            Some(score) => {
                let better = match best {
                    Some(b) => {
                        assert(seen[b as int] == scores@[b as int]);
                        match scores[b] {
                            Some(top) => score > top,
                            None => true,
                        }
                    },
                    None => true,
                };
                if better {
                    proof {
                        assert forall|j: int| 0 <= j < i + 1 && (#[trigger] next[j]) is Some implies next[j]->0
                            <= score by {
                            if j < i {
                                assert(seen[j] is Some);
                            }
                        }
                        assert forall|j: int| 0 <= j < i && (#[trigger] next[j]) is Some implies next[j]->0
                            < score by {
                            assert(seen[j] is Some);
                        }
                    }
                    best = Some(i);
                } else {
                    proof {
                        let b = best->0 as int;
                        assert forall|j: int| 0 <= j < i + 1 && (#[trigger] next[j]) is Some implies next[j]->0
                            <= next[b]->0 by {
                            if j < i {
                                assert(seen[j] is Some);
                            }
                        }
                        assert forall|j: int| 0 <= j < b && (#[trigger] next[j]) is Some implies next[j]->0
                            < next[b]->0 by {
                            assert(seen[j] is Some);
                        }
                    }
                }
            },
            None => {
                proof {
                    if best is Some {
                        let b = best->0 as int;
                        assert forall|j: int| 0 <= j < i + 1 && (#[trigger] next[j]) is Some implies next[j]->0
                            <= next[b]->0 by {
                            assert(j < i);
                            assert(seen[j] is Some);
                        }
                        assert forall|j: int| 0 <= j < b && (#[trigger] next[j]) is Some implies next[j]->0
                            < next[b]->0 by {
                            assert(seen[j] is Some);
                        }
                    }
                }
            },
        }
        i += 1;
    }
    assert(scores@.take(i as int) =~= scores@);
    best
}

/// The place that a step of `delta` leads to from `current` in a list of
/// `len` places that closes to a ring; in an empty list there is no step.
pub open spec fn moved(current: int, len: int, delta: int) -> int {
    if len <= 0 {
        current
    } else {
        (current + delta) % len
    }
}

/// The place that a step of `delta` leads to from `current`.
pub fn move_selection(current: usize, len: usize, delta: i32) -> (r: usize)
    ensures
        r == moved(current as int, len as int, delta as int),
        len > 0 ==> r < len,
{
    if len == 0 {
        return current;
    }
    let size: u128 = len as u128;
    let base: u128 = current as u128 % size;
    let r: u128 = if delta >= 0 {
        let step: u128 = delta as u128 % size;
        proof {
            lemma_add_mod_noop(current as int, delta as int, len as int);
        }
        (base + step) % size
    } else {
        let back: u128 = (-(delta as i64)) as u128 % size;
        proof {
            lemma_sub_mod_noop(current as int, -(delta as int), len as int);
            lemma_mod_add_multiples_vanish((base - back) as int, len as int);
        }
        (base + size - back) % size
    };
    r as usize
}

/// Where a place with that score goes into a ranking: before the places at
/// its end whose score is lower.
pub open spec fn rank_point(ranking: Seq<usize>, scores: Seq<Option<i64>>, score: i64) -> int
    decreases ranking.len(),
{
    if ranking.len() > 0 && scores[ranking.last() as int]->0 < score {
        rank_point(ranking.drop_last(), scores, score)
    } else {
        ranking.len() as int
    }
}

/// The places that have a score, the higher score first; places of one
/// score stay in their order.
pub open spec fn ranking(scores: Seq<Option<i64>>) -> Seq<usize>
    decreases scores.len(),
{
    if scores.len() == 0 {
        Seq::empty()
    } else {
        let before = ranking(scores.drop_last());
        match scores.last() {
            Some(score) => before.insert(
                rank_point(before, scores, score),
                (scores.len() - 1) as usize,
            ),
            None => before,
        }
    }
}

/// `a` stands before `b` in a ranking: its score is higher, or the scores
/// are the same and `a` is the earlier place.
pub open spec fn ranks_before(scores: Seq<Option<i64>>, a: usize, b: usize) -> bool {
    scores[a as int]->0 > scores[b as int]->0 || (scores[a as int]->0 == scores[b as int]->0 && a
        < b)
}

/// A ranking holds places with a score only, each before every place that
/// ranks lower.
pub open spec fn well_ranked(scores: Seq<Option<i64>>, r: Seq<usize>) -> bool {
    &&& forall|k: int| 0 <= k < r.len() ==> (#[trigger] r[k]) < scores.len() && scores[r[k] as int] is Some
    &&& forall|a: int, b: int| 0 <= a < b < r.len() ==> ranks_before(scores, r[a], r[b])
}

proof fn lemma_rank_point(r: Seq<usize>, scores: Seq<Option<i64>>, score: i64)
    ensures
        0 <= rank_point(r, scores, score) <= r.len(),
        forall|k: int|
            rank_point(r, scores, score) <= k < r.len() ==> scores[(#[trigger] r[k]) as int]->0
                < score,
        rank_point(r, scores, score) > 0 ==> scores[r[rank_point(r, scores, score) - 1] as int]->0
            >= score,
    decreases r.len(),
{
    if r.len() > 0 && scores[r.last() as int]->0 < score {
        let rest = r.drop_last();
        lemma_rank_point(rest, scores, score);
        assert forall|k: int| rank_point(r, scores, score) <= k < r.len() implies scores[(
        #[trigger] r[k]) as int]->0 < score by {
            if k < rest.len() {
                assert(r[k] == rest[k]);
            }
        }
    }
}

/// The ranking of scores holds every place that has a score, once, the
/// higher score first and places of one score in their order.
pub proof fn lemma_ranking(scores: Seq<Option<i64>>)
    requires
        scores.len() <= usize::MAX,
    ensures
        well_ranked(scores, ranking(scores)),
        forall|i: int|
            0 <= i < scores.len() && (#[trigger] scores[i]) is Some ==> ranking(scores).contains(
                i as usize,
            ),
    decreases scores.len(),
{
    if scores.len() > 0 {
        let rest = scores.drop_last();
        let before = ranking(rest);
        lemma_ranking(rest);
        let last = (scores.len() - 1) as usize;
        assert forall|k: int| 0 <= k < before.len() implies (#[trigger] before[k]) < last
            && scores[before[k] as int] == rest[before[k] as int] by {}
        match scores.last() {
            Some(score) => {
                let at = rank_point(before, scores, score);
                lemma_rank_point(before, scores, score);
                let after = before.insert(at, last);
                assert forall|a: int, b: int| 0 <= a < b < after.len() implies ranks_before(
                    scores,
                    after[a],
                    after[b],
                ) by {
                    if b < at {
                        assert(after[a] == before[a] && after[b] == before[b]);
                        assert(ranks_before(rest, before[a], before[b]));
                    } else if b == at {
                        assert(after[a] == before[a]);
                        if a < at - 1 {
                            assert(ranks_before(rest, before[a], before[at - 1]));
                        }
                    } else if a < at {
                        assert(after[a] == before[a] && after[b] == before[b - 1]);
                        assert(ranks_before(rest, before[a], before[b - 1]));
                    } else if a == at {
                        assert(after[b] == before[b - 1]);
                    } else {
                        assert(after[a] == before[a - 1] && after[b] == before[b - 1]);
                        assert(ranks_before(rest, before[a - 1], before[b - 1]));
                    }
                }
                assert forall|k: int| 0 <= k < after.len() implies (#[trigger] after[k])
                    < scores.len() && scores[after[k] as int] is Some by {
                    if k < at {
                        assert(after[k] == before[k]);
                    } else if k > at {
                        assert(after[k] == before[k - 1]);
                    }
                }
                assert forall|i: int|
                    0 <= i < scores.len() && (#[trigger] scores[i]) is Some implies after.contains(
                    i as usize,
                ) by {
                    if i == last {
                        assert(after[at] == last);
                    } else {
                        assert(rest[i] is Some);
                        let k = choose|k: int| 0 <= k < before.len() && before[k] == i as usize;
                        if k < at {
                            assert(after[k] == before[k]);
                        } else {
                            assert(after[k + 1] == before[k]);
                        }
                    }
                }
            },
            None => {
                assert forall|a: int, b: int| 0 <= a < b < before.len() implies ranks_before(
                    scores,
                    before[a],
                    before[b],
                ) by {
                    assert(ranks_before(rest, before[a], before[b]));
                }
                assert forall|i: int|
                    0 <= i < scores.len() && (#[trigger] scores[i]) is Some implies before.contains(
                    i as usize,
                ) by {
                    assert(rest[i] is Some);
                }
            },
        }
    }
}

fn scores_below(scores: &[Option<i64>], place: usize, score: i64) -> (r: bool)
    requires
        place < scores.len(),
    ensures
        r == (scores@[place as int] is Some && scores@[place as int]->0 < score),
{
    match scores[place] {
        Some(other) => other < score,
        None => false,
    }
}

/// The places that have a score, the higher score first; places of one
/// score stay in their order.
pub fn ranked(scores: &[Option<i64>]) -> (r: Vec<usize>)
    ensures
        r@ == ranking(scores@),
        well_ranked(scores@, r@),
        forall|i: int|
            0 <= i < scores.len() && (#[trigger] scores@[i]) is Some ==> r@.contains(i as usize),
{
    let mut r: Vec<usize> = Vec::new();
    let mut i: usize = 0;
    assert(scores@.take(0) =~= Seq::<Option<i64>>::empty());
    assert(r@ =~= ranking(scores@.take(0)));
    while i < scores.len()
        invariant
            i <= scores.len(),
            r@ == ranking(scores@.take(i as int)),
        decreases scores.len() - i,
    {
        let ghost seen = scores@.take(i as int);
        let ghost next = scores@.take(i + 1);
        proof {
            assert(next.drop_last() =~= seen);
            assert(next.last() == scores@[i as int]);
            lemma_ranking(seen);
        }
        match scores[i] {
            Some(score) => {
                let mut k: usize = r.len();
                assert(r@.take(k as int) =~= r@);
                while k > 0 && scores_below(scores, r[k - 1], score)
                    invariant
                        k <= r.len(),
                        i < scores.len(),
                        next == scores@.take(i + 1),
                        well_ranked(scores@.take(i as int), r@),
                        rank_point(r@, next, score) == rank_point(r@.take(k as int), next, score),
                    decreases k,
                {
                    proof {
                        assert(r@.take(k as int).drop_last() =~= r@.take(k - 1));
                        assert(r@.take(k as int).last() == r@[k - 1]);
                        assert(next[r@[k - 1] as int] == scores@[r@[k - 1] as int]);
                    }
                    k -= 1;
                }
                proof {
                    if k > 0 {
                        assert(r@.take(k as int).last() == r@[k - 1]);
                        assert(next[r@[k - 1] as int] == scores@[r@[k - 1] as int]);
                        assert(scores@.take(i as int)[r@[k - 1] as int] is Some);
                    }
                    assert(r@.take(k as int).len() == k);
                }
                r.insert(k, i);
            },
            None => {},
        }
        i += 1;
    }
    proof {
        assert(scores@.take(i as int) =~= scores@);
        lemma_ranking(scores@);
    }
    r
}

} // verus!
