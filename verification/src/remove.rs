//! The safe-removal orchestrator: resolve a user-given target, guard it,
//! decide branch deletion from the classification, and report each target's
//! two mutation outcomes independently.
//!
//! Worktree removal runs first; branch deletion runs only when it is due
//! and the removal (if any) succeeded. A failed deletion never rolls back a
//! successful removal; each target of an invocation is processed on its
//! own, and one target's failure leaves the others untouched.

use vstd::prelude::*;

use crate::classify::{is_safe, Classification};
use crate::git::{GitError, GitQuery, Worktree};
use crate::text;

verus! {

/// What a removal invocation asked for.
#[derive(Clone, Copy, Debug)]
pub struct RemovalRequest {
    /// Delete the branch after removing the worktree (the default).
    pub delete_branch: bool,
    /// Bypass the classifier and force branch deletion.
    pub force_delete: bool,
    /// Override the dirty-working-tree guard.
    pub force: bool,
    /// Run the filesystem removal in the foreground instead of a background
    /// task; purely a latency concern, never consulted by a decision here.
    pub foreground: bool,
}

/// A resolved removal target.
#[derive(Debug)]
pub enum RemovalTarget {
    /// A worktree checkout, possibly detached.
    Checkout(Worktree),
    /// A branch with no checkout.
    BranchOnly { name: String },
}

/// The branch a target would delete: a checkout's branch (none when
/// detached), or the bare branch itself.
pub open spec fn target_branch(target: RemovalTarget) -> Option<String> {
    match target {
        RemovalTarget::Checkout(wt) => wt.branch,
        RemovalTarget::BranchOnly { name } => Some(name),
    }
}

/// Why a target was refused before anything ran.
#[derive(Clone, Copy, PartialEq, Eq, Structural, Debug)]
pub enum BlockReason {
    /// The primary worktree can never be removed.
    PrimaryWorktree,
    /// The working tree has uncommitted or untracked changes and no
    /// override was given.
    DirtyWorkingTree,
}

/// A target that could not be resolved.
#[derive(Debug)]
pub enum RemovalError {
    /// The name resolves to no worktree and no branch.
    AmbiguousTarget { name: String },
}

/// The first worktree whose path is `path`.
pub open spec fn first_path_match(worktrees: Seq<Worktree>, path: Seq<char>, i: int) -> bool {
    &&& 0 <= i < worktrees.len()
    &&& worktrees[i].path@ == path
    &&& forall|j: int| 0 <= j < i ==> worktrees[j].path@ != path
}

/// The first worktree whose branch is `name`.
pub open spec fn first_branch_match(worktrees: Seq<Worktree>, name: Seq<char>, i: int) -> bool {
    &&& 0 <= i < worktrees.len()
    &&& (worktrees[i].branch matches Some(b) && b@ == name)
    &&& forall|j: int|
        0 <= j < i ==> !((#[trigger] worktrees[j].branch) matches Some(b) && b@ == name)
}

/// Resolve a user-given identifier to a concrete target. `@` names the
/// worktree the user is standing in; any other name names the worktree
/// checked out on that branch, or failing that a bare branch; anything
/// else resolves to nothing.
pub fn resolve_target(
    arg: &str,
    worktrees: &Vec<Worktree>,
    current_path: &str,
    branches: &Vec<String>,
) -> (r: Result<RemovalTarget, RemovalError>)
    ensures
        arg@ == "@"@ ==> match r {
            Ok(RemovalTarget::Checkout(wt)) => exists|i: int|
                #[trigger] first_path_match(worktrees@, current_path@, i) && wt == worktrees@[i],
            Ok(RemovalTarget::BranchOnly { .. }) => false,
            Err(RemovalError::AmbiguousTarget { name }) => name@ == arg@ && forall|i: int|
                0 <= i < worktrees@.len() ==> (#[trigger] worktrees@[i].path@) != current_path@,
        },
        arg@ != "@"@ ==> match r {
            Ok(RemovalTarget::Checkout(wt)) => exists|i: int|
                #[trigger] first_branch_match(worktrees@, arg@, i) && wt == worktrees@[i],
            Ok(RemovalTarget::BranchOnly { name }) => name@ == arg@ && (forall|i: int|
                0 <= i < worktrees@.len() ==> !((#[trigger] worktrees@[i].branch)
                    matches Some(b) && b@ == arg@)) && (exists|k: int|
                0 <= k < branches@.len() && (#[trigger] branches@[k]@) == arg@),
            Err(RemovalError::AmbiguousTarget { name }) => name@ == arg@ && (forall|i: int|
                0 <= i < worktrees@.len() ==> !((#[trigger] worktrees@[i].branch)
                    matches Some(b) && b@ == arg@)) && (forall|k: int|
                0 <= k < branches@.len() ==> (#[trigger] branches@[k]@) != arg@),
        },
{
    if text::str_eq(arg, "@") {
        let n = worktrees.len();
        let mut i: usize = 0;
        while i < n
            invariant
                0 <= i <= n,
                n == worktrees@.len(),
                arg@ == "@"@,
                forall|j: int| 0 <= j < i ==> (#[trigger] worktrees@[j].path@) != current_path@,
            decreases n - i,
        {
            if text::str_eq(worktrees[i].path.as_str(), current_path) {
                let wt = worktrees[i].clone();
                proof {
                    assert(first_path_match(worktrees@, current_path@, i as int));
                }
                return Ok(RemovalTarget::Checkout(wt));
            }
            i = i + 1;
        }
        Err(RemovalError::AmbiguousTarget { name: arg.to_owned() })
    } else {
        let n = worktrees.len();
        let mut i: usize = 0;
        while i < n
            invariant
                0 <= i <= n,
                n == worktrees@.len(),
                arg@ != "@"@,
                forall|j: int|
                    0 <= j < i ==> !((#[trigger] worktrees@[j].branch) matches Some(b) && b@
                        == arg@),
            decreases n - i,
        {
            let matched = match &worktrees[i].branch {
                Some(b) => text::str_eq(b.as_str(), arg),
                None => false,
            };
            if matched {
                let wt = worktrees[i].clone();
                proof {
                    assert(first_branch_match(worktrees@, arg@, i as int));
                }
                return Ok(RemovalTarget::Checkout(wt));
            }
            i = i + 1;
        }
        let bn = branches.len();
        let mut k: usize = 0;
        while k < bn
            invariant
                0 <= k <= bn,
                bn == branches@.len(),
                arg@ != "@"@,
                forall|i: int|
                    0 <= i < worktrees@.len() ==> !((#[trigger] worktrees@[i].branch)
                        matches Some(b) && b@ == arg@),
                forall|j: int| 0 <= j < k ==> (#[trigger] branches@[j]@) != arg@,
            decreases bn - k,
        {
            if text::str_eq(branches[k].as_str(), arg) {
                return Ok(RemovalTarget::BranchOnly { name: arg.to_owned() });
            }
            k = k + 1;
        }
        Err(RemovalError::AmbiguousTarget { name: arg.to_owned() })
    }
}

/// What the guard decides: the primary worktree is blocked unconditionally,
/// a dirty checkout is blocked unless overridden, and a bare branch is
/// never blocked.
pub open spec fn guard_spec(
    target: RemovalTarget,
    primary: Worktree,
    dirty: bool,
    force: bool,
) -> Option<BlockReason> {
    match target {
        RemovalTarget::Checkout(wt) => if wt.path@ == primary.path@ {
            Some(BlockReason::PrimaryWorktree)
        } else if dirty && !force {
            Some(BlockReason::DirtyWorkingTree)
        } else {
            None
        },
        RemovalTarget::BranchOnly { .. } => None,
    }
}

/// Guard a resolved target before any mutation.
pub fn removal_guard(target: &RemovalTarget, primary: &Worktree, dirty: bool, force: bool) -> (r:
    Option<BlockReason>)
    ensures
        r == guard_spec(*target, *primary, dirty, force),
{
    match target {
        RemovalTarget::Checkout(wt) => {
            if text::str_eq(wt.path.as_str(), primary.path.as_str()) {
                Some(BlockReason::PrimaryWorktree)
            } else if dirty && !force {
                Some(BlockReason::DirtyWorkingTree)
            } else {
                None
            }
        },
        RemovalTarget::BranchOnly { .. } => None,
    }
}

/// For every repository state — whatever branch the primary worktree has
/// checked out, dirty or clean, forced or not — selecting the primary
/// worktree is blocked.
pub proof fn lemma_primary_worktree_invariant(
    wt: Worktree,
    primary: Worktree,
    dirty: bool,
    force: bool,
)
    requires
        wt.path@ == primary.path@,
    ensures
        guard_spec(RemovalTarget::Checkout(wt), primary, dirty, force) == Some(
            BlockReason::PrimaryWorktree,
        ),
{
}

/// Whether and why the branch will or will not be deleted.
#[derive(Debug)]
pub enum BranchPlan {
    /// Delete the branch; `force` carries the force-delete override through
    /// to the git operation.
    Delete { force: bool },
    /// Keep the branch: deletion was not requested.
    Keep,
    /// Nothing to delete: the checkout is detached.
    NoBranch,
    /// Skip deletion: the classifier found unintegrated content, or there
    /// was no base to classify against. Reported, not fatal; worktree
    /// removal still proceeds.
    SkippedNotIntegrated,
    /// Skip deletion: classification failed; never silently assume safety.
    SkippedUnknown { diagnostic: Option<String> },
}

/// Whether classification must run at all: only when deletion is requested
/// without force, the target has a branch, and a base exists to classify
/// against.
pub fn classification_needed(
    request: &RemovalRequest,
    target: &RemovalTarget,
    base: Option<&String>,
) -> (r: bool)
    ensures
        r == (request.delete_branch && !request.force_delete && target_branch(*target) is Some
            && base is Some),
{
    let has_branch = match target {
        RemovalTarget::Checkout(wt) => wt.branch.is_some(),
        RemovalTarget::BranchOnly { .. } => true,
    };
    request.delete_branch && !request.force_delete && has_branch && base.is_some()
}

/// The deletion decision: no branch means nothing to delete; deletion not
/// requested keeps the branch; force deletes outright; otherwise a safe
/// classification deletes, an unknown one is reported as such, and
/// anything else (including a missing classification, when no base was
/// available) skips deletion.
pub open spec fn branch_plan_spec(
    request: RemovalRequest,
    branch: Option<String>,
    classification: Option<Classification>,
) -> BranchPlan {
    match branch {
        None => BranchPlan::NoBranch,
        Some(_) => if !request.delete_branch {
            BranchPlan::Keep
        } else if request.force_delete {
            BranchPlan::Delete { force: true }
        } else {
            match classification {
                Some(c) => if is_safe(c.status) {
                    BranchPlan::Delete { force: false }
                } else if c.status is Unknown {
                    BranchPlan::SkippedUnknown { diagnostic: c.diagnostic }
                } else {
                    BranchPlan::SkippedNotIntegrated
                },
                None => BranchPlan::SkippedNotIntegrated,
            }
        },
    }
}

/// Decide the branch deletion from the classification outcome.
pub fn decide_branch_plan(
    request: &RemovalRequest,
    target: &RemovalTarget,
    classification: Option<Classification>,
) -> (r: BranchPlan)
    requires
        (classification is Some) ==> (request.delete_branch && !request.force_delete
            && target_branch(*target) is Some),
    ensures
        r == branch_plan_spec(*request, target_branch(*target), classification),
{
    let has_branch = match target {
        RemovalTarget::Checkout(wt) => wt.branch.is_some(),
        RemovalTarget::BranchOnly { .. } => true,
    };
    if !has_branch {
        BranchPlan::NoBranch
    } else if !request.delete_branch {
        BranchPlan::Keep
    } else if request.force_delete {
        BranchPlan::Delete { force: true }
    } else {
        match classification {
            Some(c) => {
                if crate::classify::status_is_safe(&c.status) {
                    BranchPlan::Delete { force: false }
                } else {
                    match c.status {
                        crate::classify::IntegrationStatus::Unknown => BranchPlan::SkippedUnknown {
                            diagnostic: c.diagnostic,
                        },
                        _ => BranchPlan::SkippedNotIntegrated,
                    }
                }
            },
            None => BranchPlan::SkippedNotIntegrated,
        }
    }
}

/// The mutation that runs first: removing the checkout, when there is one.
pub fn worktree_removal_query(target: &RemovalTarget) -> (r: Option<GitQuery>)
    ensures
        match target {
            RemovalTarget::Checkout(wt) => r == Some(GitQuery::RemoveWorktree { path: wt.path }),
            RemovalTarget::BranchOnly { .. } => r is None,
        },
{
    match target {
        RemovalTarget::Checkout(wt) => Some(GitQuery::RemoveWorktree { path: wt.path.clone() }),
        RemovalTarget::BranchOnly { .. } => None,
    }
}

/// Whether branch deletion is due: planned, and not preceded by a failed
/// worktree removal (removal runs first; its failure leaves the branch
/// checked out, so deletion is not attempted).
pub open spec fn deletion_due(
    plan: BranchPlan,
    worktree_result: Option<Result<(), GitError>>,
) -> bool {
    (plan is Delete) && match worktree_result {
        None => true,
        Some(Ok(())) => true,
        Some(Err(_)) => false,
    }
}

/// The second mutation, when it is due: deleting the branch, forced or
/// plain.
pub fn branch_deletion_query(
    plan: &BranchPlan,
    target: &RemovalTarget,
    worktree_result: &Option<Result<(), GitError>>,
) -> (r: Option<GitQuery>)
    requires
        (plan is Delete) ==> target_branch(*target) is Some,
    ensures
        deletion_due(*plan, *worktree_result) ==> (match (target_branch(*target), *plan) {
            (Some(name), BranchPlan::Delete { force }) => r == Some(
                GitQuery::DeleteBranch { name, force },
            ),
            _ => false,
        }),
        !deletion_due(*plan, *worktree_result) ==> r is None,
{
    let due = match worktree_result {
        None => true,
        Some(Ok(())) => true,
        Some(Err(_)) => false,
    };
    match plan {
        BranchPlan::Delete { force } => {
            if due {
                let name = match target {
                    RemovalTarget::Checkout(wt) => match &wt.branch {
                        Some(b) => b.clone(),
                        None => vstd::pervasive::unreached(),
                    },
                    RemovalTarget::BranchOnly { name } => name.clone(),
                };
                Some(GitQuery::DeleteBranch { name, force: *force })
            } else {
                None
            }
        },
        _ => None,
    }
}

/// After a successful worktree removal, branch deletion is due exactly when
/// it was planned: the removal's success never cancels it, and its failure
/// is reported on its own.
pub proof fn lemma_deletion_follows_removal(plan: BranchPlan)
    ensures
        deletion_due(plan, Some(Ok::<(), GitError>(()))) == (plan is Delete),
{
}

/// One target's report: the two mutating steps have independent outcomes.
#[derive(Debug)]
pub struct TargetOutcome {
    /// The identifier the user gave for this target.
    pub name: String,
    /// The checkout's path, when the target had one; for reporting.
    pub path: Option<String>,
    /// The worktree removal's outcome; `None` when there was no checkout.
    pub worktree_result: Option<Result<(), GitError>>,
    /// What was decided about the branch.
    pub branch_plan: BranchPlan,
    /// The branch deletion's outcome; `None` when none was attempted.
    pub branch_result: Option<Result<(), GitError>>,
}

/// A target's report counts as fully successful when neither step failed.
pub open spec fn outcome_ok(o: TargetOutcome) -> bool {
    &&& match o.worktree_result {
        Some(Err(_)) => false,
        _ => true,
    }
    &&& match o.branch_result {
        Some(Err(_)) => false,
        _ => true,
    }
}

/// The two halves of a report are independent: a successful worktree
/// removal stands in the report even when the branch deletion beside it
/// failed — and the failure still makes the target's outcome a failure.
pub proof fn lemma_partial_failure_independence(o: TargetOutcome)
    requires
        o.worktree_result == Some(Ok::<(), GitError>(())),
        o.branch_result matches Some(Err(_)),
    ensures
        o.worktree_result matches Some(res) && res is Ok,
        !outcome_ok(o),
{
}

/// One target's full report. Targets are processed independently and in
/// the user-given order: a target that resolves to nothing, or that the
/// guard refuses, is reported on its own and the remaining targets still
/// run.
#[derive(Debug)]
pub enum TargetReport {
    /// The identifier resolved to no worktree and no branch.
    NotFound { name: String },
    /// The guard refused the target before any mutation ran.
    Blocked { name: String, reason: BlockReason },
    /// The mutating steps ran; each has its own outcome.
    Completed(TargetOutcome),
}

/// A report counts as fully successful only when the steps ran and neither
/// failed; a refused or unresolvable target is a failure outcome.
pub open spec fn report_ok(r: TargetReport) -> bool {
    match r {
        TargetReport::Completed(o) => outcome_ok(o),
        _ => false,
    }
}

/// The process exit code reflects the worst outcome across all targets:
/// zero exactly when every target fully succeeded.
pub fn overall_exit_code(reports: &Vec<TargetReport>) -> (r: i32)
    ensures
        (r == 0) <==> (forall|i: int|
            0 <= i < reports@.len() ==> report_ok(#[trigger] reports@[i])),
        r == 0 || r == 1,
{
    let n = reports.len();
    let mut i: usize = 0;
    while i < n
        invariant
            0 <= i <= n,
            n == reports@.len(),
            forall|j: int| 0 <= j < i ==> report_ok(#[trigger] reports@[j]),
        decreases n - i,
    {
        let failed = match &reports[i] {
            TargetReport::Completed(o) => {
                let wt_failed = match &o.worktree_result {
                    Some(Err(_)) => true,
                    _ => false,
                };
                let br_failed = match &o.branch_result {
                    Some(Err(_)) => true,
                    _ => false,
                };
                wt_failed || br_failed
            },
            _ => true,
        };
        if failed {
            proof {
                assert(!report_ok(reports@[i as int]));
            }
            return 1;
        }
        i = i + 1;
    }
    0
}

}
