//! What the library reads and decides for the git side of a project: pull
//! request numbers, branch names for pull requests, and the list of
//! worktrees.

use crate::text::{
    after_prefix, all_digits, copy_text, decimal, lemma_deep_push, lines_of, parse_number,
    parse_unsigned, push_decimal, strip_prefix_at, text_lines, to_chars, trim_bounds, trimmed,
};
use vstd::prelude::*;

verus! {

/// The number that `#` and digits write, white space around them left out:
/// nothing where the `#` is missing, where no digit follows, where anything
/// but digits follows, or where the number does not fit 64 bits.
pub open spec fn pr_number(input: Seq<char>) -> Option<u64> {
    let text = trimmed(input);
    if text.len() > 1 && text[0] == '#' && all_digits(text.skip(1)) {
        match parse_unsigned(text.skip(1), u64::MAX as nat) {
            Some(n) => Some(n as u64),
            None => None,
        }
    } else {
        None
    }
}

/// The number of the pull request that `input` names as `#` and digits.
pub fn parse_pr_number(input: &str) -> (r: Option<u64>)
    ensures
        r == pr_number(input@),
{
    let v = to_chars(input);
    let (start, end) = trim_bounds(&v);
    let ghost text = trimmed(input@);
    if end - start < 2 || v[start] != '#' {
        return None;
    }
    assert(text[0] == v@[start as int]);
    assert(text.skip(1) =~= v@.subrange(start + 1, end as int));
    let mut i: usize = start + 1;
    while i < end
        invariant
            start + 1 <= i <= end <= v.len(),
            text == trimmed(input@),
            text.len() > 1,
            text[0] == '#',
            text.skip(1) == v@.subrange(start + 1, end as int),
            forall|k: int| start + 1 <= k < i ==> '0' <= #[trigger] v@[k] <= '9',
        decreases end - i,
    {
        if !('0' <= v[i] && v[i] <= '9') {
            assert(text.skip(1)[i - start - 1] == v@[i as int]);
            return None;
        }
        i += 1;
    }
    assert forall|k: int| 0 <= k < text.skip(1).len() implies '0' <= #[trigger] text.skip(1)[k]
        <= '9' by {
        assert(text.skip(1)[k] == v@[start + 1 + k]);
    }
    parse_number(&v, start + 1, end, 0xffff_ffff_ffff_ffff)
}

/// A worktree: where it lies, and the branch that it holds.
#[derive(Debug, Clone, PartialEq, Eq)]
pub struct WorktreeInfo {
    pub path: String,
    pub branch: String,
}

/// The worktree made for a pull request.
#[derive(Debug, Clone, PartialEq, Eq)]
pub struct WorktreeFromPr {
    pub path: String,
    pub branch: String,
}

/// How many numbered names are tried for the branch of a pull request.
pub const LAST_BRANCH_SUFFIX: u32 = 50;

/// The name to try at the given attempt for the local branch of a pull
/// request: first `pr-` and the number, then that with the name of the
/// request's branch, then that with the numbers from 2 to 50; after that,
/// none.
pub open spec fn pr_branch_name(pr_number: u64, head_ref_name: Seq<char>, attempt: u32) -> Option<
    Seq<char>,
> {
    let primary = "pr-"@ + decimal(pr_number as nat);
    let base = primary.push('-') + head_ref_name;
    if attempt == 0 {
        Some(primary)
    } else if attempt == 1 {
        Some(base)
    } else if attempt <= LAST_BRANCH_SUFFIX {
        Some(base.push('-') + decimal(attempt as nat))
    } else {
        None
    }
}

/// The name to try at the given attempt for the local branch of a pull
/// request. The caller takes the first name that no branch has yet.
pub fn select_pr_branch_name(pr_number: u64, head_ref_name: &str, attempt: u32) -> (r: Option<
    String,
>)
    ensures
        r.deep_view() == pr_branch_name(pr_number, head_ref_name@, attempt),
{
    if attempt > LAST_BRANCH_SUFFIX {
        return None;
    }
    let mut name = copy_text("pr-");
    push_decimal(&mut name, pr_number as u128);
    if attempt == 0 {
        return Some(name);
    }
    name.push('-');
    name.append(head_ref_name);
    if attempt == 1 {
        return Some(name);
    }
    name.push('-');
    push_decimal(&mut name, attempt as u128);
    Some(name)
}

/// A `WorktreeInfo`, with texts as sequences of characters.
pub struct WorktreeEntry {
    pub path: Seq<char>,
    pub branch: Seq<char>,
}

impl DeepView for WorktreeInfo {
    type V = WorktreeEntry;

    open spec fn deep_view(&self) -> WorktreeEntry {
        WorktreeEntry { path: self.path@, branch: self.branch@ }
    }
}

/// What was read of a list of worktrees: the worktrees that are complete,
/// and the path and the branch of the one under way.
pub struct WorktreeScan {
    pub found: Seq<WorktreeEntry>,
    pub path: Option<Seq<char>>,
    pub branch: Option<Seq<char>>,
}

/// The worktrees found, with the one under way where its path and its
/// branch are both known.
pub open spec fn flushed(scan: WorktreeScan) -> Seq<WorktreeEntry> {
    match (scan.path, scan.branch) {
        (Some(path), Some(branch)) => scan.found.push(WorktreeEntry { path: path, branch: branch }),
        _ => scan.found,
    }
}

/// The branch that a `branch` line names: what follows `refs/heads/`, or
/// the whole reference where it is no such one.
pub open spec fn branch_of_line(line: Seq<char>) -> Option<Seq<char>> {
    match after_prefix(line, "branch refs/heads/"@) {
        Some(branch) => Some(branch),
        None => after_prefix(line, "branch "@),
    }
}

/// One line of the list: a `worktree` line ends the worktree under way and
/// starts the next, a `branch` line names the branch, any other line says
/// nothing.
pub open spec fn scan_line(scan: WorktreeScan, line: Seq<char>) -> WorktreeScan {
    match after_prefix(line, "worktree "@) {
        Some(path) => WorktreeScan { found: flushed(scan), path: Some(path), branch: None },
        None => match branch_of_line(line) {
            Some(branch) => WorktreeScan { branch: Some(branch), ..scan },
            None => scan,
        },
    }
}

pub open spec fn scan_lines(lines: Seq<Seq<char>>) -> WorktreeScan
    decreases lines.len(),
{
    if lines.len() == 0 {
        WorktreeScan { found: Seq::empty(), path: None, branch: None }
    } else {
        scan_line(scan_lines(lines.drop_last()), lines.last())
    }
}

/// The worktrees that `git worktree list --porcelain` lists with a branch,
/// in order.
pub open spec fn worktrees_of(output: Seq<char>) -> Seq<WorktreeEntry> {
    flushed(scan_lines(lines_of(output)))
}

fn flush(found: &mut Vec<WorktreeInfo>, path: Option<String>, branch: Option<String>)
    ensures
        final(found).deep_view() == flushed(
            WorktreeScan {
                found: old(found).deep_view(),
                path: path.deep_view(),
                branch: branch.deep_view(),
            },
        ),
{
    match (path, branch) {
        (Some(path), Some(branch)) => {
            let ghost before = *found;
            let info = WorktreeInfo { path: path, branch: branch };
            found.push(info);
            proof {
                lemma_deep_push(before, *found, info);
            }
        },
        _ => {},
    }
}

/// The worktrees that the output of `git worktree list --porcelain` lists
/// with a branch, in order.
pub fn list_worktrees(output: &str) -> (worktrees: Vec<WorktreeInfo>)
    ensures
        worktrees.deep_view() == worktrees_of(output@),
{
    let lines = text_lines(output);
    let ghost all = lines.deep_view();
    let mut found: Vec<WorktreeInfo> = Vec::new();
    let mut path: Option<String> = None;
    let mut branch: Option<String> = None;
    let mut i: usize = 0;
    assert(all.take(0) =~= Seq::<Seq<char>>::empty());
    assert(found.deep_view() =~= Seq::<WorktreeEntry>::empty());
    while i < lines.len()
        invariant
            i <= lines.len(),
            all == lines.deep_view(),
            scan_lines(all.take(i as int)) == (WorktreeScan {
                found: found.deep_view(),
                path: path.deep_view(),
                branch: branch.deep_view(),
            }),
        decreases lines.len() - i,
    {
        proof {
            assert(all.take(i + 1).drop_last() =~= all.take(i as int));
            assert(all.take(i + 1).last() == lines@[i as int]@);
        }
        let line = to_chars(lines[i].as_str());
        assert(line@.skip(0) =~= line@);
        match strip_prefix_at(&line, 0, "worktree ") {
            Some(next) => {
                flush(&mut found, path, branch);
                path = Some(next);
                branch = None;
            },
            None => {
                match strip_prefix_at(&line, 0, "branch refs/heads/") {
                    Some(name) => {
                        branch = Some(name);
                    },
                    None => match strip_prefix_at(&line, 0, "branch ") {
                        Some(name) => {
                            branch = Some(name);
                        },
                        None => {},
                    },
                }
            },
        }
        i += 1;
    }
    assert(all.take(i as int) =~= all);
    flush(&mut found, path, branch);
    found
}

/// The default branch that the remote's head names: what follows `origin/`
/// in the trimmed output of `git symbolic-ref`, or `main` where the output
/// does not begin so.
pub open spec fn default_branch_of(output: Seq<char>) -> Seq<char> {
    match after_prefix(trimmed(output), "origin/"@) {
        Some(branch) => branch,
        None => "main"@,
    }
}

/// The default branch that the remote's head names.
pub fn get_default_branch(output: &str) -> (branch: String)
    ensures
        branch@ == default_branch_of(output@),
{
    let v = to_chars(output);
    let (start, end) = trim_bounds(&v);
    let mut text = v;
    text.truncate(end);
    assert(text@.skip(start as int) =~= trimmed(output@));
    match strip_prefix_at(&text, start, "origin/") {
        Some(branch) => branch,
        None => copy_text("main"),
    }
}

/// The default branch where the remote names none: `main` if there is such
/// a branch, else `master` if there is such a branch, else `main`.
pub fn fallback_default_branch(main_exists: bool, master_exists: bool) -> (branch: String)
    ensures
        branch@ == if !main_exists && master_exists {
            "master"@
        } else {
            "main"@
        },
{
    if !main_exists && master_exists {
        copy_text("master")
    } else {
        copy_text("main")
    }
}

/// The message that reports that no branch name is left for a pull request.
pub fn no_branch_name_message(pr_number: u64) -> (out: String)
    ensures
        out@ == "Unable to find available branch name for PR #"@ + decimal(pr_number as nat),
{
    let mut out = copy_text("Unable to find available branch name for PR #");
    push_decimal(&mut out, pr_number as u128);
    out
}

} // verus!
