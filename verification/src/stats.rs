//! Commit and diff statistics between a worktree's branch and a base ref,
//! and upstream tracking state.
//!
//! Each component names the queries it needs and interprets the outcomes the
//! driver hands back. With no base ref available the zero value is returned
//! and no query is named at all: "ahead of nothing" is meaningless and a
//! subprocess call would be wasted.

use vstd::prelude::*;

use crate::git::{GitError, GitQuery};

verus! {

/// Commit time and first message line of a ref, the sort key for listings.
#[derive(Clone, Debug)]
pub struct CommitDetails {
    pub timestamp: i64,
    pub commit_message: String,
}

/// What `CommitDetails::gather` returns for the two query outcomes: the
/// details on success, else the first failure in query order.
pub open spec fn gather_spec(
    timestamp: Result<i64, GitError>,
    message: Result<String, GitError>,
) -> Result<CommitDetails, GitError> {
    match timestamp {
        Err(e) => Err(e),
        Ok(t) => match message {
            Err(e) => Err(e),
            Ok(m) => Ok(CommitDetails { timestamp: t, commit_message: m }),
        },
    }
}

impl CommitDetails {
    /// The two queries that gather the details of `head`.
    pub fn queries(head: &String) -> (r: (GitQuery, GitQuery))
        ensures
            r.0 == (GitQuery::CommitTimestamp { reference: *head }),
            r.1 == (GitQuery::CommitMessage { reference: *head }),
    {
        (
            GitQuery::CommitTimestamp { reference: head.clone() },
            GitQuery::CommitMessage { reference: head.clone() },
        )
    }

    /// Assemble the details from the query outcomes.
    pub fn gather(timestamp: Result<i64, GitError>, message: Result<String, GitError>) -> (r:
        Result<CommitDetails, GitError>)
        ensures
            r == gather_spec(timestamp, message),
    {
        match timestamp {
            Err(e) => Err(e),
            Ok(t) => match message {
                Err(e) => Err(e),
                Ok(m) => Ok(CommitDetails { timestamp: t, commit_message: m }),
            },
        }
    }
}

/// Commits reachable from one ref but not the other, in each direction,
/// relative to a base ref.
#[derive(Clone, Debug, PartialEq, Eq, Structural)]
pub struct AheadBehind {
    pub ahead: usize,
    pub behind: usize,
}

impl Default for AheadBehind {
    /// The documented degenerate value when no base ref is available.
    fn default() -> (r: AheadBehind)
        ensures
            r.ahead == 0 && r.behind == 0,
    {
        AheadBehind { ahead: 0, behind: 0 }
    }
}

/// What `AheadBehind::compute` returns: the zero value without a query when
/// there is no base, else the counts or the query's failure.
pub open spec fn ahead_behind_spec(
    base: Option<String>,
    counts: Option<Result<(usize, usize), GitError>>,
) -> Result<AheadBehind, GitError> {
    match base {
        None => Ok(AheadBehind { ahead: 0, behind: 0 }),
        Some(_) => match counts {
            Some(Ok((ahead, behind))) => Ok(AheadBehind { ahead, behind }),
            Some(Err(e)) => Err(e),
            None => Ok(AheadBehind { ahead: 0, behind: 0 }),  // unreachable under the protocol
        },
    }
}

impl AheadBehind {
    /// The single query the component needs, and none at all when there is
    /// no base ref.
    pub fn query(base: Option<&String>, head: &String) -> (r: Option<GitQuery>)
        ensures
            match base {
                None => r is None,
                Some(b) => r == Some(GitQuery::AheadBehindCounts { base: *b, head: *head }),
            },
    {
        match base {
            None => None,
            Some(b) => Some(GitQuery::AheadBehindCounts { base: b.clone(), head: head.clone() }),
        }
    }

    /// Interpret the outcome of the counts query; `counts` is `Some` exactly
    /// when a base ref named a query.
    pub fn compute(base: Option<&String>, counts: Option<Result<(usize, usize), GitError>>) -> (r:
        Result<AheadBehind, GitError>)
        requires
            (base is Some) <==> (counts is Some),
        ensures
            r == ahead_behind_spec(
                match base {
                    Some(b) => Some(*b),
                    None => None,
                },
                counts,
            ),
    {
        match base {
            None => Ok(AheadBehind { ahead: 0, behind: 0 }),
            Some(_) => match counts {
                Some(Ok((ahead, behind))) => Ok(AheadBehind { ahead, behind }),
                Some(Err(e)) => Err(e),
                None => Ok(AheadBehind { ahead: 0, behind: 0 }),
            },
        }
    }

    /// With no base ref, the result is exactly the zero value and no query
    /// is named.
    pub proof fn lemma_zero_base_degenerate(counts: Option<Result<(usize, usize), GitError>>)
        ensures
            ahead_behind_spec(None, counts) == Ok::<AheadBehind, GitError>(
                AheadBehind { ahead: 0, behind: 0 },
            ),
    {
    }
}

/// Added/deleted line totals between a base ref and a head.
#[derive(Clone, Copy, Debug)]
pub struct BranchDiffTotals {
    pub diff: (usize, usize),
}

impl Default for BranchDiffTotals {
    /// The documented degenerate value when no base ref is available.
    fn default() -> (r: BranchDiffTotals)
        ensures
            r.diff == (0usize, 0usize),
    {
        BranchDiffTotals { diff: (0, 0) }
    }
}

/// What `BranchDiffTotals::compute` returns: the zero value without a query
/// when there is no base, else the totals or the query's failure.
pub open spec fn diff_totals_spec(
    base: Option<String>,
    diff: Option<Result<(usize, usize), GitError>>,
) -> Result<BranchDiffTotals, GitError> {
    match base {
        None => Ok(BranchDiffTotals { diff: (0usize, 0usize) }),
        Some(_) => match diff {
            Some(Ok(d)) => Ok(BranchDiffTotals { diff: d }),
            Some(Err(e)) => Err(e),
            None => Ok(BranchDiffTotals { diff: (0usize, 0usize) }),  // unreachable under the protocol
        },
    }
}

impl BranchDiffTotals {
    /// The single query the component needs, and none at all when there is
    /// no base ref.
    pub fn query(base: Option<&String>, head: &String) -> (r: Option<GitQuery>)
        ensures
            match base {
                None => r is None,
                Some(b) => r == Some(GitQuery::DiffStats { base: *b, head: *head }),
            },
    {
        match base {
            None => None,
            Some(b) => Some(GitQuery::DiffStats { base: b.clone(), head: head.clone() }),
        }
    }

    /// Interpret the outcome of the diff-stat query; `diff` is `Some`
    /// exactly when a base ref named a query.
    pub fn compute(base: Option<&String>, diff: Option<Result<(usize, usize), GitError>>) -> (r:
        Result<BranchDiffTotals, GitError>)
        requires
            (base is Some) <==> (diff is Some),
        ensures
            r == diff_totals_spec(
                match base {
                    Some(b) => Some(*b),
                    None => None,
                },
                diff,
            ),
    {
        match base {
            None => Ok(BranchDiffTotals { diff: (0, 0) }),
            Some(_) => match diff {
                Some(Ok(d)) => Ok(BranchDiffTotals { diff: d }),
                Some(Err(e)) => Err(e),
                None => Ok(BranchDiffTotals { diff: (0, 0) }),
            },
        }
    }

    /// With no base ref, the result is exactly the zero value and no query
    /// is named.
    pub proof fn lemma_zero_base_degenerate(diff: Option<Result<(usize, usize), GitError>>)
        ensures
            diff_totals_spec(None, diff) == Ok::<BranchDiffTotals, GitError>(
                BranchDiffTotals { diff: (0usize, 0usize) },
            ),
    {
    }
}

/// Sync state against a branch's configured upstream. Entirely empty when
/// the branch has no upstream: that is expected and common, not an error.
///
/// The full upstream ref is kept; the remote name (its part before the
/// first `/`) is derived on demand.
#[derive(Clone, Debug)]
pub struct UpstreamStatus {
    pub upstream: Option<String>,
    pub ahead: usize,
    pub behind: usize,
}

impl Default for UpstreamStatus {
    fn default() -> (r: UpstreamStatus)
        ensures
            r.upstream is None && r.ahead == 0 && r.behind == 0,
    {
        UpstreamStatus { upstream: None, ahead: 0, behind: 0 }
    }
}

/// The remote name of an upstream ref: the part before the first `/`, or
/// `origin` when there is no slash.
pub open spec fn remote_of_spec(upstream: Seq<char>) -> Seq<char> {
    if exists|i: int| 0 <= i < upstream.len() && upstream[i] == '/' {
        let i = choose|i: int|
            0 <= i < upstream.len() && upstream[i] == '/' && forall|j: int|
                0 <= j < i ==> upstream[j] != '/';
        upstream.subrange(0, i)
    } else {
        "origin"@
    }
}

/// Split the remote name off an upstream ref.
pub fn remote_of(upstream: &str) -> (r: String)
    ensures
        r@ == remote_of_spec(upstream@),
{
    match crate::text::find_char(upstream, '/') {
        Some(i) => {
            let r = upstream.substring_char(0, i).to_owned();
            proof {
                let k = choose|k: int|
                    0 <= k < upstream@.len() && upstream@[k] == '/' && forall|j: int|
                        0 <= j < k ==> upstream@[j] != '/';
                assert(k == i as int) by {
                    if k < i {
                        assert(upstream@[k] != '/');
                    }
                    if k > i {
                        assert(upstream@[i as int] != '/');
                    }
                }
            }
            r
        },
        None => {
            let mut s = String::new();
            s.append("origin");
            proof {
                assert(s@ =~= "origin"@);
            }
            s
        },
    }
}

impl UpstreamStatus {
    /// The upstream-resolution query; none for a detached HEAD.
    pub fn resolution_query(branch: Option<&String>) -> (r: Option<GitQuery>)
        ensures
            match branch {
                None => r is None,
                Some(b) => r == Some(GitQuery::UpstreamOf { branch: *b }),
            },
    {
        match branch {
            None => None,
            Some(b) => Some(GitQuery::UpstreamOf { branch: b.clone() }),
        }
    }

    /// The upstream ref to count against, if resolution produced one.
    /// Resolution failure and a missing upstream are both the empty state,
    /// not errors.
    pub fn counts_base(resolution: &Result<Option<String>, GitError>) -> (r: Option<&String>)
        ensures
            match resolution {
                Ok(Some(u)) => r == Some(u),
                _ => r is None,
            },
    {
        match resolution {
            Ok(Some(u)) => Some(u),
            _ => None,
        }
    }

    /// Interpret the outcomes. `resolution` is `Some` exactly when the
    /// branch named a resolution query, and `counts` is `Some` exactly when
    /// resolution produced an upstream.
    pub fn calculate(
        branch: Option<&String>,
        resolution: Option<Result<Option<String>, GitError>>,
        counts: Option<Result<(usize, usize), GitError>>,
    ) -> (r: Result<UpstreamStatus, GitError>)
        requires
            (branch is Some) <==> (resolution is Some),
            (counts is Some) <==> (resolution matches Some(Ok(Some(_)))),
        ensures
            r == upstream_status_spec(
                match branch {
                    Some(b) => Some(*b),
                    None => None,
                },
                resolution,
                counts,
            ),
    {
        match branch {
            None => Ok(UpstreamStatus { upstream: None, ahead: 0, behind: 0 }),
            Some(_) => match resolution {
                Some(Ok(Some(upstream))) => match counts {
                    Some(Ok((ahead, behind))) => Ok(
                        UpstreamStatus { upstream: Some(upstream), ahead, behind },
                    ),
                    Some(Err(e)) => Err(e),
                    None => Ok(UpstreamStatus { upstream: None, ahead: 0, behind: 0 }),
                },
                _ => Ok(UpstreamStatus { upstream: None, ahead: 0, behind: 0 }),
            },
        }
    }

    /// The remote name: the upstream's part before the first `/`.
    pub fn remote_name(&self) -> (r: Option<String>)
        ensures
            match self.upstream {
                Some(u) => r matches Some(g) && g@ == remote_of_spec(u@),
                None => r is None,
            },
    {
        match &self.upstream {
            Some(u) => Some(remote_of(u.as_str())),
            None => None,
        }
    }

    /// The rendering-relevant state: `None` when in sync (suppresses noise
    /// for up-to-date branches), else the remote name (defaulting to
    /// `origin`) with the counts.
    pub fn active(&self) -> (r: Option<(String, usize, usize)>)
        ensures
            self.ahead == 0 && self.behind == 0 ==> r is None,
            !(self.ahead == 0 && self.behind == 0) ==> (r matches Some((remote, ahead, behind))
                && ahead == self.ahead && behind == self.behind && (match self.upstream {
                Some(u) => remote@ == remote_of_spec(u@),
                None => remote@ == "origin"@,
            })),
    {
        if self.ahead == 0 && self.behind == 0 {
            None
        } else {
            let remote = match &self.upstream {
                Some(u) => remote_of(u.as_str()),
                None => {
                    let mut s = String::new();
                    s.append("origin");
                    proof {
                        assert(s@ =~= "origin"@);
                    }
                    s
                },
            };
            Some((remote, self.ahead, self.behind))
        }
    }
}

/// What `UpstreamStatus::calculate` returns: the empty state for a detached
/// HEAD, a missing upstream, or a failed resolution; else the upstream with
/// its counts, or the counts query's failure.
pub open spec fn upstream_status_spec(
    branch: Option<String>,
    resolution: Option<Result<Option<String>, GitError>>,
    counts: Option<Result<(usize, usize), GitError>>,
) -> Result<UpstreamStatus, GitError> {
    let empty = UpstreamStatus { upstream: None, ahead: 0, behind: 0 };
    match branch {
        None => Ok(empty),
        Some(_) => match resolution {
            Some(Ok(Some(u))) => match counts {
                Some(Ok((ahead, behind))) => Ok(
                    UpstreamStatus { upstream: Some(u), ahead, behind },
                ),
                Some(Err(e)) => Err(e),
                None => Ok(empty),  // unreachable under the protocol
            },
            _ => Ok(empty),
        },
    }
}

}
