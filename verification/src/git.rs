//! Git metadata.
//!
//! `git` itself is run outside; each function here takes what its commands
//! printed (`None` where git is not available or the command failed) and says
//! what it means. Everything degrades gracefully: Synapse never requires git.

use crate::lists::{keep, retain, sort_dedup_texts, sorted_set, take_next, views_push};
use crate::text::{lines, lines_of, opt_view, replace_char, replaced_char, same, trim, trimmed, views};
use vstd::prelude::*;

verus! {

/// Snapshot of git facts used by `status` and pack metadata.
#[derive(Debug)]
pub struct GitInfo {
    pub branch: Option<String>,
    pub commit: Option<String>,
}

impl Default for GitInfo {
    fn default() -> (r: Self)
        ensures
            r.branch is None,
            r.commit is None,
    {
        GitInfo { branch: None, commit: None }
    }
}

/// What a command printed, unless it printed nothing.
pub open spec fn said(out: Option<Seq<char>>) -> Option<Seq<char>> {
    match out {
        Some(s) => if s.len() > 0 {
            Some(s)
        } else {
            None
        },
        None => None,
    }
}

/// The text a command printed, where it succeeded, without surrounding white
/// space.
pub fn output_text(success: bool, stdout: &str) -> (r: Option<String>)
    ensures
        opt_view(r) == (if success {
            Some(trim(stdout@))
        } else {
            None
        }),
{
    if success {
        Some(trimmed(stdout))
    } else {
        None
    }
}

fn unless_empty(out: Option<String>) -> (r: Option<String>)
    ensures
        opt_view(r) == said(opt_view(out)),
{
    match out {
        Some(s) => if s.as_str().is_empty() {
            None
        } else {
            Some(s)
        },
        None => None,
    }
}

/// Current branch and short commit hash, from `git branch --show-current` and
/// `git rev-parse --short HEAD`.
pub fn info(branch: Option<String>, commit: Option<String>) -> (r: GitInfo)
    ensures
        opt_view(r.branch) == said(opt_view(branch)),
        opt_view(r.commit) == said(opt_view(commit)),
{
    GitInfo { branch: unless_empty(branch), commit: unless_empty(commit) }
}

/// The full (40-char) commit SHA of HEAD, from `git rev-parse HEAD`, or `None`
/// outside a git repo / with no commits. Used as the canonical identity for a
/// shared graph artifact.
pub fn full_commit(head: Option<String>) -> (r: Option<String>)
    ensures
        opt_view(r) == said(opt_view(head)),
{
    unless_empty(head)
}

/// True inside a git work tree, from `git rev-parse --is-inside-work-tree`.
pub fn is_git_repo(inside: Option<String>) -> (r: bool)
    ensures
        r == (opt_view(inside) == Some("true"@)),
{
    match inside {
        Some(s) => same(s.as_str(), "true"),
        None => false,
    }
}

/// The paths that a command listed, one per line, with forward slashes.
pub open spec fn listed(out: Option<Seq<char>>) -> Seq<Seq<char>> {
    match out {
        Some(s) => lines(s).map_values(|l: Seq<char>| replace_char(l, '\\', '/')),
        None => Seq::empty(),
    }
}

/// The git-tracked files (repo-relative, forward slashes), from `git ls-files`.
pub fn tracked_files(listing: &Option<String>) -> (r: Vec<String>)
    ensures
        views(r@) == listed(opt_view(*listing)),
{
    let mut out: Vec<String> = Vec::new();
    match listing {
        Some(s) => {
            let all = lines_of(s.as_str());
            let ghost want = lines(s@).map_values(|l: Seq<char>| replace_char(l, '\\', '/'));
            let mut i: usize = 0;
            assert(views(out@) =~= want.take(0));
            while i < all.len()
                invariant
                    i <= all@.len(),
                    views(all@) == lines(s@),
                    want == lines(s@).map_values(|l: Seq<char>| replace_char(l, '\\', '/')),
                    views(out@) == want.take(i as int),
                decreases all@.len() - i,
            {
                let path = replaced_char(all[i].as_str(), '\\', '/');
                proof {
                    assert(views(all@)[i as int] == all@[i as int]@);
                    take_next(want, i as int);
                    views_push(out@, path);
                }
                out.push(path);
                i += 1;
            }
            assert(views(out@) =~= want);
        },
        None => {
            assert(views(out@) =~= Seq::<Seq<char>>::empty());
        },
    }
    out
}

/// The paths of three listings together: sorted, each once, none empty.
pub open spec fn changed_paths(
    against_head: Option<Seq<char>>,
    unstaged: Option<Seq<char>>,
    untracked: Option<Seq<char>>,
) -> Seq<Seq<char>> {
    sorted_set(
        keep(listed(against_head) + listed(unstaged) + listed(untracked), |p: Seq<char>| p.len() > 0),
    )
}

/// Files that differ from `HEAD` (`git diff --name-only HEAD`), unstaged changes
/// (`git diff --name-only`) and untracked files (`git ls-files --others
/// --exclude-standard`).
///
/// Returns repo-relative, forward-slash paths. Empty when not a git repo.
pub fn changed_files(
    against_head: &Option<String>,
    unstaged: &Option<String>,
    untracked: &Option<String>,
) -> (r: Vec<String>)
    ensures
        views(r@) == changed_paths(opt_view(*against_head), opt_view(*unstaged), opt_view(*untracked)),
{
    let mut all = tracked_files(against_head);
    let mut b = tracked_files(unstaged);
    let mut c = tracked_files(untracked);
    proof {
        crate::lists::views_add(all@, b@);
        crate::lists::views_add(all@ + b@, c@);
    }
    all.append(&mut b);
    all.append(&mut c);
    let f = |p: &String| -> (r: bool)
        ensures
            r == (p@.len() > 0),
        {
            !p.as_str().is_empty()
        };
    sort_dedup_texts(retain(all, f, Ghost(|p: Seq<char>| p.len() > 0)))
}

/// Full working-tree diff against HEAD (`git diff HEAD`), unless empty.
pub fn diff(out: Option<String>) -> (r: Option<String>)
    ensures
        opt_view(r) == said(opt_view(out)),
{
    unless_empty(out)
}

} // verus!
