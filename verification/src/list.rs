//! The worktree enrichment pipeline: one display-ready record per worktree,
//! and per branch when branch listing is requested.
//!
//! Enrichment of distinct worktrees is independent, so the driver may run
//! them concurrently; order is re-established afterwards by the descending
//! commit-timestamp sort. A worktree that fails to enrich is fatal to the
//! listing; a branch that fails to enrich produces a warning and is still
//! rendered, as a partial record with best-effort information.

use vstd::prelude::*;
use vstd::string::*;

use crate::git::{GitError, Worktree};
use crate::stats::{
    ahead_behind_spec, diff_totals_spec, gather_spec, upstream_status_spec, AheadBehind,
    BranchDiffTotals, CommitDetails, UpstreamStatus,
};
use crate::text;

verus! {

/// A worktree enriched with its git metadata.
#[derive(Debug)]
pub struct WorktreeInfo {
    pub worktree: Worktree,
    pub commit: CommitDetails,
    pub counts: AheadBehind,
    pub working_tree_diff: (usize, usize),
    pub branch_diff: BranchDiffTotals,
    pub is_primary: bool,
    pub upstream: UpstreamStatus,
    pub worktree_state: Option<String>,
}

/// A branch without a checkout, enriched with its git metadata.
#[derive(Debug)]
pub struct BranchInfo {
    pub name: String,
    pub head: String,
    pub commit: CommitDetails,
    pub counts: AheadBehind,
    pub branch_diff: BranchDiffTotals,
    pub upstream: UpstreamStatus,
}

/// Unified type for displaying worktrees and branches in the same table.
/// A branch whose enrichment failed is still shown, as a partial record
/// carrying what is known of it.
#[derive(Debug)]
pub enum ListItem {
    Worktree(WorktreeInfo),
    Branch(BranchInfo),
    /// Best-effort record for a branch that failed to enrich: its name is
    /// all that is known.
    PartialBranch { name: String },
}

impl ListItem {
    /// The branch name shown for this item; a detached checkout shows
    /// `(detached)`.
    pub open spec fn branch_name_spec(&self) -> Seq<char> {
        match self {
            ListItem::Worktree(wt) => match wt.worktree.branch {
                Some(b) => b@,
                None => "(detached)"@,
            },
            ListItem::Branch(br) => br.name@,
            ListItem::PartialBranch { name } => name@,
        }
    }

    pub fn branch_name(&self) -> (r: &str)
        ensures
            r@ == self.branch_name_spec(),
    {
        match self {
            ListItem::Worktree(wt) => match &wt.worktree.branch {
                Some(b) => b.as_str(),
                None => "(detached)",
            },
            ListItem::Branch(br) => br.name.as_str(),
            ListItem::PartialBranch { name } => name.as_str(),
        }
    }

    /// Only a worktree item can be the primary one.
    pub open spec fn is_primary_spec(&self) -> bool {
        match self {
            ListItem::Worktree(wt) => wt.is_primary,
            _ => false,
        }
    }

    pub fn is_primary(&self) -> (r: bool)
        ensures
            r == self.is_primary_spec(),
    {
        match self {
            ListItem::Worktree(wt) => wt.is_primary,
            _ => false,
        }
    }

    /// The sole sort key: the commit timestamp. A partial record has no
    /// readable commit, so it sorts after everything else.
    pub open spec fn timestamp_spec(&self) -> i64 {
        match self {
            ListItem::Worktree(wt) => wt.commit.timestamp,
            ListItem::Branch(br) => br.commit.timestamp,
            ListItem::PartialBranch { .. } => i64::MIN,
        }
    }

    pub fn timestamp(&self) -> (r: i64)
        ensures
            r == self.timestamp_spec(),
    {
        match self {
            ListItem::Worktree(wt) => wt.commit.timestamp,
            ListItem::Branch(br) => br.commit.timestamp,
            ListItem::PartialBranch { .. } => i64::MIN,
        }
    }

    pub open spec fn ahead_spec(&self) -> usize {
        match self {
            ListItem::Worktree(wt) => wt.counts.ahead,
            ListItem::Branch(br) => br.counts.ahead,
            ListItem::PartialBranch { .. } => 0,
        }
    }

    pub fn ahead(&self) -> (r: usize)
        ensures
            r == self.ahead_spec(),
    {
        match self {
            ListItem::Worktree(wt) => wt.counts.ahead,
            ListItem::Branch(br) => br.counts.ahead,
            ListItem::PartialBranch { .. } => 0,
        }
    }

    pub open spec fn behind_spec(&self) -> usize {
        match self {
            ListItem::Worktree(wt) => wt.counts.behind,
            ListItem::Branch(br) => br.counts.behind,
            ListItem::PartialBranch { .. } => 0,
        }
    }

    pub fn behind(&self) -> (r: usize)
        ensures
            r == self.behind_spec(),
    {
        match self {
            ListItem::Worktree(wt) => wt.counts.behind,
            ListItem::Branch(br) => br.counts.behind,
            ListItem::PartialBranch { .. } => 0,
        }
    }

    /// The worktree record, when this item is one.
    pub fn worktree_info(&self) -> (r: Option<&WorktreeInfo>)
        ensures
            match self {
                ListItem::Worktree(wt) => r == Some(wt),
                _ => r is None,
            },
    {
        match self {
            ListItem::Worktree(wt) => Some(wt),
            _ => None,
        }
    }
}

/// A worktree is primary exactly when it is the repository's main checkout,
/// identified by path.
pub open spec fn is_primary_of(wt: Worktree, primary: Worktree) -> bool {
    wt.path@ == primary.path@
}

/// What the port returned for one worktree's enrichment queries. A field is
/// `None` when the engine named no query: the primary worktree's base
/// comparisons are skipped entirely, as is upstream resolution for a
/// detached HEAD.
pub struct WorktreeObservations {
    pub timestamp: Result<i64, GitError>,
    pub message: Result<String, GitError>,
    pub counts: Option<Result<(usize, usize), GitError>>,
    pub working_tree_diff: Result<(usize, usize), GitError>,
    pub branch_diff: Option<Result<(usize, usize), GitError>>,
    pub upstream_resolution: Option<Result<Option<String>, GitError>>,
    pub upstream_counts: Option<Result<(usize, usize), GitError>>,
    pub worktree_state: Result<Option<String>, GitError>,
}

/// The record `from_worktree` produces, or the first failure in query
/// order. The primary worktree's ahead/behind and branch-diff figures are
/// always the zero value: a branch cannot be ahead of itself.
pub open spec fn worktree_info_outcome(
    wt: Worktree,
    primary: Worktree,
    obs: WorktreeObservations,
) -> Result<WorktreeInfo, GitError> {
    match gather_spec(obs.timestamp, obs.message) {
        Err(e) => Err(e),
        Ok(commit) => {
            let prim = is_primary_of(wt, primary);
            let counts_r = if prim {
                Ok::<AheadBehind, GitError>(AheadBehind { ahead: 0, behind: 0 })
            } else {
                ahead_behind_spec(primary.branch, obs.counts)
            };
            match counts_r {
                Err(e) => Err(e),
                Ok(counts) => match obs.working_tree_diff {
                    Err(e) => Err(e),
                    Ok(wtd) => {
                        let bd_r = if prim {
                            Ok::<BranchDiffTotals, GitError>(
                                BranchDiffTotals { diff: (0usize, 0usize) },
                            )
                        } else {
                            diff_totals_spec(primary.branch, obs.branch_diff)
                        };
                        match bd_r {
                            Err(e) => Err(e),
                            Ok(bd) => match upstream_status_spec(
                                wt.branch,
                                obs.upstream_resolution,
                                obs.upstream_counts,
                            ) {
                                Err(e) => Err(e),
                                Ok(up) => match obs.worktree_state {
                                    Err(e) => Err(e),
                                    Ok(state) => Ok(
                                        WorktreeInfo {
                                            worktree: wt,
                                            commit,
                                            counts,
                                            working_tree_diff: wtd,
                                            branch_diff: bd,
                                            is_primary: prim,
                                            upstream: up,
                                            worktree_state: state,
                                        },
                                    ),
                                },
                            },
                        }
                    },
                },
            }
        },
    }
}

impl WorktreeInfo {
    /// Assemble one worktree's record from the query outcomes. The
    /// protocol: base comparisons are queried exactly for non-primary
    /// worktrees with a primary branch to compare against, upstream
    /// resolution exactly for an attached HEAD, and upstream counts exactly
    /// when resolution produced an upstream.
    pub fn from_worktree(wt: &Worktree, primary: &Worktree, obs: WorktreeObservations) -> (r:
        Result<WorktreeInfo, GitError>)
        requires
            (obs.counts is Some) <==> (!is_primary_of(*wt, *primary) && primary.branch is Some),
            (obs.branch_diff is Some) <==> (!is_primary_of(*wt, *primary)
                && primary.branch is Some),
            (obs.upstream_resolution is Some) <==> (wt.branch is Some),
            (obs.upstream_counts is Some) <==> (obs.upstream_resolution matches Some(Ok(Some(_)))),
        ensures
            r == worktree_info_outcome(*wt, *primary, obs),
    {
        let is_primary = text::str_eq(wt.path.as_str(), primary.path.as_str());
        let commit = match CommitDetails::gather(obs.timestamp, obs.message) {
            Err(e) => {
                return Err(e);
            },
            Ok(c) => c,
        };
        let counts = if is_primary {
            AheadBehind { ahead: 0, behind: 0 }
        } else {
            match AheadBehind::compute(primary.branch.as_ref(), obs.counts) {
                Err(e) => {
                    return Err(e);
                },
                Ok(c) => c,
            }
        };
        let working_tree_diff = match obs.working_tree_diff {
            Err(e) => {
                return Err(e);
            },
            Ok(d) => d,
        };
        let branch_diff = if is_primary {
            BranchDiffTotals { diff: (0, 0) }
        } else {
            match BranchDiffTotals::compute(primary.branch.as_ref(), obs.branch_diff) {
                Err(e) => {
                    return Err(e);
                },
                Ok(d) => d,
            }
        };
        let upstream = match UpstreamStatus::calculate(
            wt.branch.as_ref(),
            obs.upstream_resolution,
            obs.upstream_counts,
        ) {
            Err(e) => {
                return Err(e);
            },
            Ok(u) => u,
        };
        let worktree_state = match obs.worktree_state {
            Err(e) => {
                return Err(e);
            },
            Ok(s) => s,
        };
        Ok(
            WorktreeInfo {
                worktree: wt.clone(),
                commit,
                counts,
                working_tree_diff,
                branch_diff,
                is_primary,
                upstream,
                worktree_state,
            },
        )
    }
}

/// What the port returned for one branch's enrichment queries.
pub struct BranchObservations {
    pub head: Result<String, GitError>,
    pub timestamp: Result<i64, GitError>,
    pub message: Result<String, GitError>,
    pub counts: Option<Result<(usize, usize), GitError>>,
    pub branch_diff: Option<Result<(usize, usize), GitError>>,
    pub upstream_resolution: Result<Option<String>, GitError>,
    pub upstream_counts: Option<Result<(usize, usize), GitError>>,
}

/// Everything of a branch record except its head commit, or the first
/// failure in query order.
pub open spec fn branch_parts_outcome(
    primary_branch: Option<String>,
    branch: String,
    obs: BranchObservations,
) -> Result<(CommitDetails, AheadBehind, BranchDiffTotals, UpstreamStatus), GitError> {
    match gather_spec(obs.timestamp, obs.message) {
        Err(e) => Err(e),
        Ok(commit) => match ahead_behind_spec(primary_branch, obs.counts) {
            Err(e) => Err(e),
            Ok(counts) => match diff_totals_spec(primary_branch, obs.branch_diff) {
                Err(e) => Err(e),
                Ok(bd) => match upstream_status_spec(
                    Some(branch),
                    Some(obs.upstream_resolution),
                    obs.upstream_counts,
                ) {
                    Err(e) => Err(e),
                    Ok(up) => Ok((commit, counts, bd, up)),
                },
            },
        },
    }
}

impl BranchInfo {
    /// Assemble one branch's record from the query outcomes. The head is
    /// the trimmed output of resolving the branch; its failure comes first,
    /// then the remaining queries in order.
    pub fn from_branch(branch: &String, primary_branch: Option<&String>, obs: BranchObservations)
        -> (r: Result<BranchInfo, GitError>)
        requires
            (obs.counts is Some) <==> (primary_branch is Some),
            (obs.branch_diff is Some) <==> (primary_branch is Some),
            (obs.upstream_counts is Some) <==> (obs.upstream_resolution matches Ok(Some(_))),
        ensures
            match obs.head {
                Err(e) => r == Err::<BranchInfo, GitError>(e),
                Ok(raw) => match branch_parts_outcome(
                    match primary_branch {
                        Some(b) => Some(*b),
                        None => None,
                    },
                    *branch,
                    obs,
                ) {
                    Err(e) => r == Err::<BranchInfo, GitError>(e),
                    Ok(parts) => (r matches Ok(info) && info.name == *branch && info.head@
                        == text::trim_spec(raw@) && info.commit == parts.0 && info.counts
                        == parts.1 && info.branch_diff == parts.2 && info.upstream == parts.3),
                },
            },
    {
        let BranchObservations {
            head,
            timestamp,
            message,
            counts,
            branch_diff,
            upstream_resolution,
            upstream_counts,
        } = obs;
        let raw = match head {
            Err(e) => {
                return Err(e);
            },
            Ok(r) => r,
        };
        let head_trimmed = text::trim(raw.as_str()).to_owned();
        let commit = match CommitDetails::gather(timestamp, message) {
            Err(e) => {
                return Err(e);
            },
            Ok(c) => c,
        };
        let counts_v = match AheadBehind::compute(primary_branch, counts) {
            Err(e) => {
                return Err(e);
            },
            Ok(c) => c,
        };
        let bd = match BranchDiffTotals::compute(primary_branch, branch_diff) {
            Err(e) => {
                return Err(e);
            },
            Ok(d) => d,
        };
        let upstream = match UpstreamStatus::calculate(
            Some(branch),
            Some(upstream_resolution),
            upstream_counts,
        ) {
            Err(e) => {
                return Err(e);
            },
            Ok(u) => u,
        };
        Ok(
            BranchInfo {
                name: branch.clone(),
                head: head_trimmed,
                commit,
                counts: counts_v,
                branch_diff: bd,
                upstream,
            },
        )
    }
}

}

verus! {

/// The warning recorded for a branch that failed to enrich; the branch
/// stays in the listing as a partial record with limited information.
pub open spec fn branch_warning_spec(branch: Seq<char>, diagnostic: Seq<char>) -> Seq<char> {
    "\u{26a0} Failed to enrich branch "@ + branch + ": "@ + diagnostic
        + "\n\u{1f4a1} This branch will be shown with limited information"@
}

/// Build the warning text for a branch that failed to enrich.
pub fn branch_warning(branch: &str, err: &GitError) -> (r: String)
    ensures
        r@ == branch_warning_spec(branch@, err.text_spec()),
{
    let mut s = String::new();
    s.append("\u{26a0} Failed to enrich branch ");
    s.append(branch);
    s.append(": ");
    s.append(err.text());
    s.append("\n\u{1f4a1} This branch will be shown with limited information");
    proof {
        assert(s@ =~= branch_warning_spec(branch@, err.text_spec()));
    }
    s
}

/// The items contributed by the branch results, in order: the enriched
/// record for a branch that succeeded, and a partial record — the branch
/// is still rendered, with what is known of it — for one that failed.
pub open spec fn branch_items_of(brs: Seq<(String, Result<BranchInfo, GitError>)>) -> Seq<
    ListItem,
>
    decreases brs.len(),
{
    if brs.len() == 0 {
        Seq::<ListItem>::empty()
    } else {
        let rest = branch_items_of(brs.drop_first());
        match brs[0].1 {
            Ok(info) => seq![ListItem::Branch(info)] + rest,
            Err(_) => seq![ListItem::PartialBranch { name: brs[0].0 }] + rest,
        }
    }
}

/// The warnings contributed by the branch results, in order, one per branch
/// that failed to enrich.
pub open spec fn branch_warnings_of(brs: Seq<(String, Result<BranchInfo, GitError>)>) -> Seq<
    Seq<char>,
>
    decreases brs.len(),
{
    if brs.len() == 0 {
        Seq::<Seq<char>>::empty()
    } else {
        let rest = branch_warnings_of(brs.drop_first());
        match brs[0].1 {
            Ok(_) => rest,
            Err(e) => seq![branch_warning_spec(brs[0].0@, e.text_spec())] + rest,
        }
    }
}

/// The final item list: every worktree record, then one record per listed
/// branch, partial where enrichment failed.
pub open spec fn items_of(
    wts: Seq<WorktreeInfo>,
    brs: Seq<(String, Result<BranchInfo, GitError>)>,
) -> Seq<ListItem> {
    wts.map_values(|w: WorktreeInfo| ListItem::Worktree(w)) + branch_items_of(brs)
}

/// Combine the enrichment results into display items and warnings. A failed
/// worktree never reaches this point (it aborts the listing); a failed
/// branch contributes a warning and is still listed as a partial record.
pub fn build_items(
    worktree_infos: Vec<WorktreeInfo>,
    branch_results: Vec<(String, Result<BranchInfo, GitError>)>,
) -> (r: (Vec<ListItem>, Vec<String>))
    ensures
        r.0@ == items_of(worktree_infos@, branch_results@),
        r.1.deep_view() == branch_warnings_of(branch_results@),
{
    let ghost wts_orig = worktree_infos@;
    let ghost brs_orig = branch_results@;
    let mut items: Vec<ListItem> = Vec::new();
    let mut warnings: Vec<String> = Vec::new();
    let mut wts = worktree_infos;
    while wts.len() > 0
        invariant
            wts@.len() <= wts_orig.len(),
            wts@ =~= wts_orig.subrange(
                wts_orig.len() - wts@.len(),
                wts_orig.len() as int,
            ),
            items@ =~= wts_orig.subrange(0, wts_orig.len() - wts@.len()).map_values(
                |w: WorktreeInfo| ListItem::Worktree(w),
            ),
        decreases wts@.len(),
    {
        let ghost k = wts_orig.len() - wts@.len();
        let w = wts.remove(0);
        proof {
            assert(w == wts_orig[k]);
        }
        items.push(ListItem::Worktree(w));
        proof {
            let pre = wts_orig.subrange(0, k).map_values(|w: WorktreeInfo| ListItem::Worktree(w));
            assert(wts_orig.subrange(0, k + 1).map_values(
                |w: WorktreeInfo| ListItem::Worktree(w),
            ) =~= pre.push(ListItem::Worktree(wts_orig[k])));
        }
    }
    proof {
        assert(wts_orig.subrange(0, wts_orig.len() as int) =~= wts_orig);
        assert(items@ =~= wts_orig.map_values(|w: WorktreeInfo| ListItem::Worktree(w)));
    }
    let ghost wt_items = items@;
    let mut brs = branch_results;
    proof {
        assert(brs@ =~= brs_orig.subrange(0, brs_orig.len() as int));
    }
    while brs.len() > 0
        invariant
            branch_items_of(brs_orig) =~= items@.subrange(
                wt_items.len() as int,
                items@.len() as int,
            ) + branch_items_of(brs@),
            branch_warnings_of(brs_orig) =~= warnings.deep_view() + branch_warnings_of(brs@),
            items@.subrange(0, wt_items.len() as int) =~= wt_items,
            items@.len() >= wt_items.len(),
        decreases brs@.len(),
    {
        let ghost pre = brs@;
        let (name, result) = brs.remove(0);
        proof {
            assert(pre[0] == (name, result));
            assert(brs@ =~= pre.drop_first());
        }
        match result {
            Ok(info) => {
                items.push(ListItem::Branch(info));
            },
            Err(e) => {
                let warning = branch_warning(name.as_str(), &e);
                warnings.push(warning);
                proof {
                    assert(warnings.deep_view() =~= warnings.deep_view().subrange(
                        0,
                        warnings.deep_view().len() - 1,
                    ).push(branch_warning_spec(name@, e.text_spec())));
                }
                items.push(ListItem::PartialBranch { name });
            },
        }
        proof {
            assert(branch_items_of(brs_orig) =~= items@.subrange(
                wt_items.len() as int,
                items@.len() as int,
            ) + branch_items_of(brs@));
            assert(branch_warnings_of(brs_orig) =~= warnings.deep_view() + branch_warnings_of(
                brs@,
            ));
        }
    }
    proof {
        assert(items@ =~= wt_items + branch_items_of(brs_orig));
    }
    (items, warnings)
}

/// Whether some worktree has this branch checked out.
pub open spec fn has_checkout(worktrees: Seq<Worktree>, name: Seq<char>) -> bool {
    exists|i: int|
        0 <= i < worktrees.len() && ((#[trigger] worktrees[i].branch) matches Some(b) && b@
            == name)
}

/// The branches not already represented by a worktree: only these get a
/// record of their own in the branches-included mode.
pub fn branches_without_checkout(branches: &Vec<String>, worktrees: &Vec<Worktree>) -> (r: Vec<
    String,
>)
    ensures
        r@ == branches@.filter(|b: String| !has_checkout(worktrees@, b@)),
{
    let n = branches.len();
    let mut v: Vec<String> = Vec::new();
    proof {
        assert(branches@.subrange(0, 0) =~= Seq::<String>::empty());
        Seq::<String>::lemma_filter_len(
            Seq::<String>::empty(),
            |b: String| !has_checkout(worktrees@, b@),
        );
        assert(v@ =~= branches@.subrange(0, 0).filter(
            |b: String| !has_checkout(worktrees@, b@),
        ));
    }
    let mut i: usize = 0;
    while i < n
        invariant
            0 <= i <= n,
            n == branches@.len(),
            v@ == branches@.subrange(0, i as int).filter(
                |b: String| !has_checkout(worktrees@, b@),
            ),
        decreases n - i,
    {
        let ghost prefix = branches@.subrange(0, i as int);
        let ghost pred = |b: String| !has_checkout(worktrees@, b@);
        proof {
            assert(branches@.subrange(0, i + 1) =~= prefix.push(branches@[i as int]));
            Seq::<String>::lemma_filter_push(prefix, branches@[i as int], pred);
        }
        let name = &branches[i];
        let wn = worktrees.len();
        let mut checked_out = false;
        let mut k: usize = 0;
        while k < wn
            invariant
                0 <= k <= wn,
                wn == worktrees@.len(),
                checked_out ==> has_checkout(worktrees@, name@),
                !checked_out ==> forall|j: int|
                    0 <= j < k ==> !((#[trigger] worktrees@[j].branch) matches Some(b) && b@
                        == name@),
            decreases wn - k,
        {
            let matched = match &worktrees[k].branch {
                Some(b) => text::str_eq(b.as_str(), name.as_str()),
                None => false,
            };
            if matched {
                checked_out = true;
            }
            k = k + 1;
        }
        if !checked_out {
            let copy = name.clone();
            proof {
                assert(copy == branches@[i as int]);
            }
            v.push(copy);
        }
        i = i + 1;
    }
    proof {
        assert(branches@.subrange(0, n as int) =~= branches@);
    }
    v
}

/// Sorted by most recent commit first.
pub open spec fn sorted_desc(s: Seq<ListItem>) -> bool {
    forall|i: int, j: int|
        0 <= i < j < s.len() ==> s[i].timestamp_spec() >= s[j].timestamp_spec()
}

/// Whether no two items share a commit timestamp.
pub open spec fn distinct_timestamps(s: Seq<ListItem>) -> bool {
    forall|i: int, j: int|
        0 <= i < j < s.len() ==> s[i].timestamp_spec() != s[j].timestamp_spec()
}

/// Sort the items by commit timestamp, descending: most recently committed
/// first. The result is a permutation of the input.
pub fn sort_items(items: &mut Vec<ListItem>)
    ensures
        sorted_desc(final(items)@),
        final(items)@.to_multiset() == old(items)@.to_multiset(),
{
    broadcast use vstd::seq_lib::to_multiset_remove;
    broadcast use vstd::seq_lib::to_multiset_insert;
    broadcast use vstd::seq_lib::to_multiset_contains;

    let ghost orig = items@;
    if items.len() < 2 {
        return ;
    }
    let mut i: usize = 1;
    while i < items.len()
        invariant
            1 <= i <= items@.len(),
            items@.len() == orig.len(),
            items@.len() >= 2,
            sorted_desc(items@.subrange(0, i as int)),
            items@.to_multiset() == orig.to_multiset(),
        decreases items@.len() - i,
    {
        let ghost before = items@;
        let x = items.remove(i);
        let ghost pre = items@;
        proof {
            assert(pre =~= before.subrange(0, i as int) + before.subrange(
                i + 1,
                before.len() as int,
            ));
            assert(pre.subrange(0, i as int) =~= before.subrange(0, i as int));
            assert(sorted_desc(pre.subrange(0, i as int)));
            assert(x == before[i as int]);
            vstd::seq_lib::to_multiset_contains::<ListItem>(before, x);
            assert(before.to_multiset().count(x) > 0) by {
                assert(before[i as int] == x);
                assert(before.contains(x));
            }
            assert(pre == before.remove(i as int));
            vstd::seq_lib::to_multiset_remove::<ListItem>(before, i as int);
            assert(pre.to_multiset() == before.to_multiset().remove(x));
        }
        let mut j: usize = i;
        while j > 0 && items[j - 1].timestamp() < x.timestamp()
            invariant
                0 <= j <= i,
                i <= pre.len(),
                items@ == pre,
                sorted_desc(pre.subrange(0, i as int)),
                forall|q: int|
                    j <= q < i ==> pre[q].timestamp_spec() < x.timestamp_spec(),
            decreases j,
        {
            j = j - 1;
        }
        items.insert(j, x);
        proof {
            assert(items@ =~= pre.subrange(0, j as int) + seq![x] + pre.subrange(
                j as int,
                pre.len() as int,
            ));
            assert(items@ == pre.insert(j as int, x));
            vstd::seq_lib::to_multiset_insert::<ListItem>(pre, j as int, x);
            assert(items@.to_multiset() == pre.to_multiset().insert(x));
            assert(items@.to_multiset() =~= before.to_multiset());
            let s = items@.subrange(0, i + 1);
            assert(forall|q: int| 0 <= q < j ==> s[q] == pre[q]);
            assert(s[j as int] == x);
            assert(forall|q: int| j < q <= i ==> s[q] == pre[q - 1]);
            assert(sorted_desc(s)) by {
                assert(forall|p: int, q: int|
                    0 <= p < q < s.len() ==> s[p].timestamp_spec() >= s[q].timestamp_spec()) by {
                    assert(forall|p: int, q: int|
                        0 <= p < q < s.len() && p != j && q != j ==> s[p].timestamp_spec()
                            >= s[q].timestamp_spec());
                    assert(forall|q: int|
                        j < q <= i ==> x.timestamp_spec() >= s[q].timestamp_spec());
                    assert(forall|p: int|
                        0 <= p < j ==> s[p].timestamp_spec() >= x.timestamp_spec()) by {
                        if j > 0 {
                            assert(pre[j - 1].timestamp_spec() >= x.timestamp_spec());
                            assert(forall|p: int|
                                0 <= p < j ==> (#[trigger] pre[p].timestamp_spec()) >= pre[
                                    j - 1
                                ].timestamp_spec());
                        }
                    }
                }
            }
        }
        i = i + 1;
    }
    proof {
        assert(items@.subrange(0, items@.len() as int) =~= items@);
    }
}

/// Descending order over pairwise-distinct timestamps is strict: together
/// with the permutation guarantee of `sort_items`, the final order is
/// uniquely determined by the timestamps, whatever order enrichment
/// completed in.
pub proof fn lemma_sorted_distinct_strict(s: Seq<ListItem>)
    requires
        sorted_desc(s),
        distinct_timestamps(s),
    ensures
        forall|i: int, j: int|
            0 <= i < j < s.len() ==> s[i].timestamp_spec() > s[j].timestamp_spec(),
{
}

/// Two descending-sorted sequences over the same multiset of items, with
/// pairwise-distinct timestamps, are equal: however enrichment completion
/// interleaved, the sorted listing is the same.
pub proof fn lemma_sorted_permutation_unique(a: Seq<ListItem>, b: Seq<ListItem>)
    requires
        sorted_desc(a),
        sorted_desc(b),
        a.to_multiset() == b.to_multiset(),
        distinct_timestamps(a),
    ensures
        a == b,
    decreases a.len(),
{
    broadcast use vstd::seq_lib::to_multiset_contains;

    vstd::seq_lib::to_multiset_len::<ListItem>(a);
    vstd::seq_lib::to_multiset_len::<ListItem>(b);
    assert(a.len() == b.len());
    if a.len() == 0 {
        assert(a =~= b);
    } else {
        // the head of each sequence appears in the other
        assert(b.to_multiset().count(b[0]) > 0) by {
            assert(b.contains(b[0]));
        }
        assert(a.contains(b[0]));
        let i = choose|i: int| 0 <= i < a.len() && a[i] == b[0];
        assert(a.to_multiset().count(a[0]) > 0) by {
            assert(a.contains(a[0]));
        }
        assert(b.contains(a[0]));
        let j = choose|j: int| 0 <= j < b.len() && b[j] == a[0];
        // both orders force the heads to share a timestamp
        assert(a[0].timestamp_spec() >= a[i].timestamp_spec());
        assert(b[0].timestamp_spec() >= b[j].timestamp_spec());
        assert(a[0].timestamp_spec() == b[0].timestamp_spec());
        // distinct timestamps make the witness the head itself
        assert(i == 0) by {
            if i != 0 {
                assert(a[0].timestamp_spec() != a[i].timestamp_spec());
            }
        }
        assert(a[0] == b[0]);
        // drop the shared head and recurse
        let a2 = a.drop_first();
        let b2 = b.drop_first();
        assert(a2 =~= a.remove(0));
        assert(b2 =~= b.remove(0));
        vstd::seq_lib::to_multiset_remove::<ListItem>(a, 0);
        vstd::seq_lib::to_multiset_remove::<ListItem>(b, 0);
        assert(a2.to_multiset() == b2.to_multiset());
        assert(sorted_desc(a2)) by {
            assert(forall|p: int, q: int|
                0 <= p < q < a2.len() ==> a2[p] == a[p + 1] && a2[q] == a[q + 1]);
        }
        assert(sorted_desc(b2)) by {
            assert(forall|p: int, q: int|
                0 <= p < q < b2.len() ==> b2[p] == b[p + 1] && b2[q] == b[q + 1]);
        }
        assert(distinct_timestamps(a2)) by {
            assert(forall|p: int, q: int|
                0 <= p < q < a2.len() ==> a2[p] == a[p + 1] && a2[q] == a[q + 1]);
        }
        lemma_sorted_permutation_unique(a2, b2);
        assert(a =~= b) by {
            assert(forall|k: int| 1 <= k < a.len() ==> a[k] == a2[k - 1] && b[k] == b2[k - 1]);
        }
    }
}

}

verus! {

/// How many items are worktrees.
pub open spec fn worktree_count_of(items: Seq<ListItem>) -> int {
    items.filter(|it: ListItem| it is Worktree).len() as int
}

/// How many worktrees have uncommitted changes.
pub open spec fn dirty_count_of(items: Seq<ListItem>) -> int {
    items.filter(
        |it: ListItem|
            match it {
                ListItem::Worktree(w) => w.working_tree_diff.0 > 0 || w.working_tree_diff.1 > 0,
                _ => false,
            },
    ).len() as int
}

/// How many items are ahead of the base.
pub open spec fn ahead_count_of(items: Seq<ListItem>) -> int {
    items.filter(|it: ListItem| it.ahead_spec() > 0).len() as int
}

/// How many items are behind the base.
pub open spec fn behind_count_of(items: Seq<ListItem>) -> int {
    items.filter(|it: ListItem| it.behind_spec() > 0).len() as int
}

/// The comma-separated pieces of the summary line: the worktree (and
/// branch) counts, then the dirty/ahead/behind counts where nonzero.
pub open spec fn summary_parts(items: Seq<ListItem>, include_branches: bool) -> Seq<Seq<char>> {
    let wc = worktree_count_of(items);
    let bc = items.len() - wc;
    let dirty = dirty_count_of(items);
    let ahead = ahead_count_of(items);
    let behind = behind_count_of(items);
    let base: Seq<Seq<char>> = if include_branches {
        let b0 = seq![text::dec_str(wc as nat) + " worktrees"@];
        if bc > 0 {
            b0 + seq![text::dec_str(bc as nat) + " branches"@]
        } else {
            b0
        }
    } else {
        seq![
            text::dec_str(wc as nat) + " worktree"@ + (if wc == 1 {
                Seq::<char>::empty()
            } else {
                "s"@
            }),
        ]
    };
    let p1 = if dirty > 0 {
        base + seq![text::dec_str(dirty as nat) + " with changes"@]
    } else {
        base
    };
    let p2 = if ahead > 0 {
        p1 + seq![text::dec_str(ahead as nat) + " ahead"@]
    } else {
        p1
    };
    if behind > 0 {
        p2 + seq![text::dec_str(behind as nat) + " behind"@]
    } else {
        p2
    }
}

/// The whole summary block, starting with a blank line; an empty listing
/// shows the getting-started hints instead.
pub open spec fn summary_line_spec(items: Seq<ListItem>, include_branches: bool) -> Seq<char> {
    if items.len() == 0 {
        "\n\u{1f4a1} No worktrees found\n\u{1f4a1} Create one with: wt switch --create <branch>"@
    } else {
        "\nShowing "@ + text::join_with(summary_parts(items, include_branches), ", "@)
    }
}

/// Build the summary line shown under the listing.
pub fn display_summary(items: &Vec<ListItem>, include_branches: bool) -> (r: String)
    ensures
        r@ == summary_line_spec(items@, include_branches),
{
    if items.len() == 0 {
        let mut s = String::new();
        s.append(
            "\n\u{1f4a1} No worktrees found\n\u{1f4a1} Create one with: wt switch --create <branch>",
        );
        proof {
            assert(s@ =~= summary_line_spec(items@, include_branches));
        }
        return s;
    }
    let len = items.len();
    let mut wc: usize = 0;
    let mut dirty: usize = 0;
    let mut ahead: usize = 0;
    let mut behind: usize = 0;
    let mut k: usize = 0;
    proof {
        assert(items@.subrange(0, 0) =~= Seq::<ListItem>::empty());
        Seq::<ListItem>::lemma_filter_len(
            Seq::<ListItem>::empty(),
            |it: ListItem| it is Worktree,
        );
    }
    while k < len
        invariant
            0 <= k <= len,
            len == items@.len(),
            wc <= k && dirty <= k && ahead <= k && behind <= k,
            wc == worktree_count_of(items@.subrange(0, k as int)),
            dirty == dirty_count_of(items@.subrange(0, k as int)),
            ahead == ahead_count_of(items@.subrange(0, k as int)),
            behind == behind_count_of(items@.subrange(0, k as int)),
        decreases len - k,
    {
        let ghost prefix = items@.subrange(0, k as int);
        proof {
            assert(items@.subrange(0, k as int + 1) =~= prefix.push(items@[k as int]));
            Seq::<ListItem>::lemma_filter_len_push(
                prefix,
                |it: ListItem| it is Worktree,
                items@[k as int],
            );
            Seq::<ListItem>::lemma_filter_len_push(
                prefix,
                |it: ListItem|
                    match it {
                        ListItem::Worktree(w) => w.working_tree_diff.0 > 0
                            || w.working_tree_diff.1 > 0,
                        _ => false,
                    },
                items@[k as int],
            );
            Seq::<ListItem>::lemma_filter_len_push(
                prefix,
                |it: ListItem| it.ahead_spec() > 0,
                items@[k as int],
            );
            Seq::<ListItem>::lemma_filter_len_push(
                prefix,
                |it: ListItem| it.behind_spec() > 0,
                items@[k as int],
            );
        }
        let item = &items[k];
        match item {
            ListItem::Worktree(w) => {
                wc = wc + 1;
                let (a, d) = w.working_tree_diff;
                if a > 0 || d > 0 {
                    dirty = dirty + 1;
                }
            },
            _ => {},
        }
        if item.ahead() > 0 {
            ahead = ahead + 1;
        }
        if item.behind() > 0 {
            behind = behind + 1;
        }
        k = k + 1;
    }
    proof {
        assert(items@.subrange(0, len as int) =~= items@);
    }
    let bc: usize = len - wc;
    let mut parts: Vec<String> = Vec::new();
    if include_branches {
        let mut p0 = text::u64_to_string(wc as u64);
        p0.append(" worktrees");
        parts.push(p0);
        if bc > 0 {
            let mut p1 = text::u64_to_string(bc as u64);
            p1.append(" branches");
            parts.push(p1);
        }
    } else {
        let mut p = text::u64_to_string(wc as u64);
        p.append(" worktree");
        if wc != 1 {
            p.append("s");
        }
        parts.push(p);
    }
    if dirty > 0 {
        let mut p = text::u64_to_string(dirty as u64);
        p.append(" with changes");
        parts.push(p);
    }
    if ahead > 0 {
        let mut p = text::u64_to_string(ahead as u64);
        p.append(" ahead");
        parts.push(p);
    }
    if behind > 0 {
        let mut p = text::u64_to_string(behind as u64);
        p.append(" behind");
        parts.push(p);
    }
    proof {
        assert(parts.deep_view() =~= summary_parts(items@, include_branches));
    }
    let joined = text::join_strings(&parts, ", ");
    let mut s = String::new();
    s.append("\nShowing ");
    s.append(joined.as_str());
    proof {
        assert(s@ =~= summary_line_spec(items@, include_branches));
    }
    s
}

}
