use worktrunk::git::{GitError, GitQuery};
use worktrunk::stats::{AheadBehind, BranchDiffTotals, CommitDetails, UpstreamStatus};

#[test]
fn zero_base_yields_zero_without_any_query() {
    // with no base ref there is no query to issue, and the values are
    // exactly (0, 0)
    let head = "feature".to_string();
    assert!(AheadBehind::query(None, &head).is_none());
    assert!(BranchDiffTotals::query(None, &head).is_none());
    let counts = AheadBehind::compute(None, None).unwrap();
    assert_eq!(counts, AheadBehind { ahead: 0, behind: 0 });
    let diff = BranchDiffTotals::compute(None, None).unwrap();
    assert_eq!(diff.diff, (0, 0));
}

#[test]
fn base_present_names_the_queries_and_uses_the_counts() {
    let base = "main".to_string();
    let head = "feature".to_string();
    match AheadBehind::query(Some(&base), &head) {
        Some(GitQuery::AheadBehindCounts { base: b, head: h }) => {
            assert_eq!(b, "main");
            assert_eq!(h, "feature");
        }
        other => panic!("unexpected query: {:?}", other),
    }
    let counts = AheadBehind::compute(Some(&base), Some(Ok((4, 7)))).unwrap();
    assert_eq!(counts, AheadBehind { ahead: 4, behind: 7 });
    let err = AheadBehind::compute(
        Some(&base),
        Some(Err(GitError::CommandFailed("bad revision".to_string()))),
    )
    .unwrap_err();
    let GitError::CommandFailed(text) = err;
    assert_eq!(text, "bad revision");
}

#[test]
fn detail_queries_name_their_refs() {
    let head = "abc".to_string();
    let (t, m) = CommitDetails::queries(&head);
    assert_eq!(
        t,
        GitQuery::CommitTimestamp {
            reference: "abc".to_string()
        }
    );
    assert_eq!(
        m,
        GitQuery::CommitMessage {
            reference: "abc".to_string()
        }
    );
    let branch = "feature".to_string();
    assert_eq!(
        UpstreamStatus::resolution_query(Some(&branch)),
        Some(GitQuery::UpstreamOf {
            branch: "feature".to_string()
        })
    );
    assert_eq!(UpstreamStatus::resolution_query(None), None);
    let resolved: Result<Option<String>, GitError> = Ok(Some("origin/f".to_string()));
    assert_eq!(
        UpstreamStatus::counts_base(&resolved),
        Some(&"origin/f".to_string())
    );
    let absent: Result<Option<String>, GitError> = Ok(None);
    assert_eq!(UpstreamStatus::counts_base(&absent), None);
}

#[test]
fn commit_details_gather_propagates_first_failure() {
    let ok = CommitDetails::gather(Ok(42), Ok("subject".to_string())).unwrap();
    assert_eq!(ok.timestamp, 42);
    assert_eq!(ok.commit_message, "subject");
    let err = CommitDetails::gather(
        Err(GitError::CommandFailed("no commit".to_string())),
        Ok("subject".to_string()),
    )
    .unwrap_err();
    let GitError::CommandFailed(text) = err;
    assert_eq!(text, "no commit");
}

#[test]
fn upstream_absence_is_not_an_error() {
    let branch = "feature".to_string();
    // no upstream configured
    let none = UpstreamStatus::calculate(Some(&branch), Some(Ok(None)), None).unwrap();
    assert!(none.upstream.is_none());
    assert_eq!((none.ahead, none.behind), (0, 0));
    // resolution failed: still the empty state
    let failed = UpstreamStatus::calculate(
        Some(&branch),
        Some(Err(GitError::CommandFailed("fatal".to_string()))),
        None,
    )
    .unwrap();
    assert!(failed.upstream.is_none());
    // detached HEAD: no resolution at all
    let detached = UpstreamStatus::calculate(None, None, None).unwrap();
    assert!(detached.upstream.is_none());
}

#[test]
fn upstream_remote_splits_on_first_slash() {
    let branch = "feature".to_string();
    let status = UpstreamStatus::calculate(
        Some(&branch),
        Some(Ok(Some("origin/feature/x".to_string()))),
        Some(Ok((3, 2))),
    )
    .unwrap();
    assert_eq!(status.remote_name().as_deref(), Some("origin"));
    assert_eq!((status.ahead, status.behind), (3, 2));
    match status.active() {
        Some((remote, ahead, behind)) => {
            assert_eq!(remote, "origin");
            assert_eq!((ahead, behind), (3, 2));
        }
        None => panic!("expected an active upstream"),
    }
}

#[test]
fn upstream_in_sync_is_silent() {
    let branch = "feature".to_string();
    let status = UpstreamStatus::calculate(
        Some(&branch),
        Some(Ok(Some("origin/feature".to_string()))),
        Some(Ok((0, 0))),
    )
    .unwrap();
    assert!(status.active().is_none());
}
