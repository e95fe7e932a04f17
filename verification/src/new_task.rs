//! The decisions of the "new Task" flows around their git work: the base
//! branch of a new worktree, where the worktree goes, what a prepared
//! worktree Task holds, and the repo identity of an attached directory.
//!
//! A worktree for branch `b` goes to `<repo root>/.worktrees/<b with every
//! / turned into ->`; its base is the repository's current branch, or
//! `main` when that is unknown. A directory outside any repository is its
//! own repo key, root and name.
use vstd::prelude::*;
use vstd::string::*;
use crate::text::{chars_of, string_of};
use crate::ghostty_config::{join, join_path};

verus! {

/// A worktree Task's git side, once its worktree exists.
#[derive(Debug, Clone, PartialEq, Eq)]
pub struct PreparedWorktree {
    pub repo_key: String,
    pub repo_root: String,
    pub repo_name: String,
    pub branch: String,
    pub base: String,
    pub worktree_path: String,
}

/// The base branch of a new worktree: the current branch, else `main`.
pub fn default_base(current_branch: Option<String>) -> (r: String)
    ensures
        r@ == (match current_branch {
            Some(b) => b@,
            None => "main"@,
        }),
{
    match current_branch {
        Some(b) => b,
        None => String::from_str("main"),
    }
}

/// The directory name of a branch's worktree: the branch with every `/`
/// turned into `-`.
pub open spec fn worktree_dir_name(branch: Seq<char>) -> Seq<char> {
    branch.map_values(|c: char| if c == '/' { '-' } else { c })
}

/// Where the worktree of `branch` goes under `repo_root`.
pub open spec fn worktree_location(repo_root: Seq<char>, branch: Seq<char>) -> Seq<char> {
    join_path(join_path(repo_root, ".worktrees"@), worktree_dir_name(branch))
}

/// The path of the worktree for `branch` under `repo_root`:
/// `<repo_root>/.worktrees/<branch with / as ->`.
pub fn worktree_path(repo_root: &str, branch: &str) -> (r: String)
    ensures
        r@ == worktree_location(repo_root@, branch@),
{
    let b = chars_of(branch);
    let mut name: Vec<char> = Vec::new();
    let n = b.len();
    let mut i: usize = 0;
    while i < n
        invariant
            n == b@.len(),
            i <= n,
            name@ == worktree_dir_name(b@.take(i as int)),
        decreases n - i,
    {
        let c = b[i];
        name.push(if c == '/' {
            '-'
        } else {
            c
        });
        i += 1;
        assert(name@ =~= worktree_dir_name(b@.take(i as int)));
    }
    assert(b@.take(n as int) =~= b@);
    let dir = join(repo_root, ".worktrees");
    let name_s = string_of(&name);
    join(dir.as_str(), name_s.as_str())
}

/// The identity (key, root, name) an attached directory is recorded under:
/// its repository's when it is inside one, else the directory itself for
/// all three.
pub fn attached_identity(repo: Option<(String, String, String)>, directory: &str) -> (r: (String, String, String))
    ensures
        match repo {
            Some((k, root, name)) => r.0 == k && r.1 == root && r.2 == name,
            None => r.0@ == directory@ && r.1@ == directory@ && r.2@ == directory@,
        },
{
    match repo {
        Some(t) => t,
        None => (String::from_str(directory), String::from_str(directory), String::from_str(directory)),
    }
}

/// A prepared worktree Task: the repository's identity, the new branch,
/// its base, and the worktree path for the branch.
pub fn prepare_worktree(repo_key: String, repo_root: String, repo_name: String, branch: String, base: String) -> (r: PreparedWorktree)
    ensures
        r.repo_key == repo_key,
        r.repo_root == repo_root,
        r.repo_name == repo_name,
        r.branch == branch,
        r.base == base,
        r.worktree_path@ == worktree_location(repo_root@, branch@),
{
    let worktree_path = worktree_path(repo_root.as_str(), branch.as_str());
    PreparedWorktree { repo_key, repo_root, repo_name, branch, base, worktree_path }
}

/// A worktree's directory name holds no `/`: every worktree lands directly
/// under `.worktrees`, one level deep.
pub proof fn law_worktree_name_is_one_level(branch: Seq<char>)
    ensures
        !worktree_dir_name(branch).contains('/'),
        worktree_dir_name(branch).len() == branch.len(),
{
    assert forall|i: int| 0 <= i < worktree_dir_name(branch).len() implies worktree_dir_name(branch)[i] != '/' by {}
}

} // verus!
