//! The model of the git query port: worktrees, queries, and failures.
//!
//! The engine never spawns git itself. It describes each read or mutation as
//! a `GitQuery` value, and interprets the outcome that the driver hands back.
//! Failure of a query travels as a `GitError` carrying the diagnostic text.

use vstd::prelude::*;

verus! {

/// One git working directory: its canonical path, the branch checked out in
/// it (`None` for a detached HEAD), and the commit its HEAD points at.
///
/// The first worktree the repository reports is the primary one; it can
/// never be removed.
#[derive(Debug)]
pub struct Worktree {
    pub path: String,
    pub branch: Option<String>,
    pub head: String,
}

/// The spec-level value of a worktree: the views of its fields.
#[verifier::ext_equal]
pub struct WorktreeView {
    pub path: Seq<char>,
    pub branch: Option<Seq<char>>,
    pub head: Seq<char>,
}

impl View for Worktree {
    type V = WorktreeView;

    open spec fn view(&self) -> WorktreeView {
        WorktreeView {
            path: self.path@,
            branch: match self.branch {
                Some(b) => Some(b@),
                None => None,
            },
            head: self.head@,
        }
    }
}

impl Clone for Worktree {
    fn clone(&self) -> (r: Self)
        ensures
            r == *self,
    {
        Worktree {
            path: self.path.clone(),
            branch: match &self.branch {
                Some(b) => Some(b.clone()),
                None => None,
            },
            head: self.head.clone(),
        }
    }
}

/// A failure reported by the git query port.
#[derive(Clone, Debug)]
pub enum GitError {
    /// The underlying git invocation failed; carries the diagnostic text.
    CommandFailed(String),
}

impl GitError {
    /// The diagnostic text the error carries.
    pub open spec fn text_spec(&self) -> Seq<char> {
        match self {
            GitError::CommandFailed(msg) => msg@,
        }
    }

    pub fn text(&self) -> (r: &str)
        ensures
            r@ == self.text_spec(),
    {
        match self {
            GitError::CommandFailed(msg) => msg.as_str(),
        }
    }
}

/// One read or mutation against the repository, described as a value.
///
/// The driver executes the query with a git subprocess and hands the result
/// back to the engine as a plain value.
#[derive(Clone, Debug, PartialEq, Eq)]
pub enum GitQuery {
    /// Resolve a ref to a commit id.
    ResolveRef { reference: String },
    /// The commit time of a ref, in seconds since the epoch.
    CommitTimestamp { reference: String },
    /// The first line of a ref's commit message.
    CommitMessage { reference: String },
    /// Symmetric ahead/behind commit counts between two refs.
    AheadBehindCounts { base: String, head: String },
    /// Added/deleted line totals between two refs.
    DiffStats { base: String, head: String },
    /// Added/deleted line totals between the working tree and HEAD.
    WorkingTreeDiff,
    /// The in-progress operation of a worktree (merge, rebase, ...), if any.
    WorktreeState,
    /// Whether one ref is an ancestor of another.
    IsAncestor { ancestor: String, descendant: String },
    /// The tree object id of a ref.
    TreeId { reference: String },
    /// The configured upstream of a branch, if any.
    UpstreamOf { branch: String },
    /// Simulate a three-way merge of `branch` into `target` without touching
    /// the working tree, producing the result tree or a conflict report.
    MergeSimulation { target: String, branch: String },
    /// Enumerate the repository's worktrees.
    ListWorktrees,
    /// Enumerate local branches without a checkout.
    AvailableBranches,
    /// Remove the worktree checkout at a path.
    RemoveWorktree { path: String },
    /// Delete a branch, forced or plain.
    DeleteBranch { name: String, force: bool },
}

}
