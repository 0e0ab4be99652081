use worktrunk::git::{GitError, Worktree};
use worktrunk::list::{
    build_items, display_summary, sort_items, BranchInfo, BranchObservations, ListItem,
    WorktreeInfo, WorktreeObservations,
};
use worktrunk::stats::{AheadBehind, BranchDiffTotals, CommitDetails, UpstreamStatus};

fn worktree(path: &str, branch: Option<&str>, head: &str) -> Worktree {
    Worktree {
        path: path.to_string(),
        branch: branch.map(|b| b.to_string()),
        head: head.to_string(),
    }
}

fn plain_observations(timestamp: i64, queried: bool) -> WorktreeObservations {
    WorktreeObservations {
        timestamp: Ok(timestamp),
        message: Ok("commit message".to_string()),
        counts: if queried { Some(Ok((2, 1))) } else { None },
        working_tree_diff: Ok((0, 0)),
        branch_diff: if queried { Some(Ok((10, 5))) } else { None },
        upstream_resolution: Some(Ok(Some("origin/feature".to_string()))),
        upstream_counts: Some(Ok((1, 0))),
        worktree_state: Ok(None),
    }
}

#[test]
fn primary_worktree_skips_base_comparisons() {
    let primary = worktree("/repo", Some("main"), "c0");
    let obs = WorktreeObservations {
        timestamp: Ok(100),
        message: Ok("initial".to_string()),
        counts: None,
        working_tree_diff: Ok((3, 1)),
        branch_diff: None,
        upstream_resolution: Some(Ok(None)),
        upstream_counts: None,
        worktree_state: Ok(None),
    };
    let info = WorktreeInfo::from_worktree(&primary, &primary, obs).unwrap();
    assert!(info.is_primary);
    // the primary's figures are always the zero value
    assert_eq!(info.counts, AheadBehind { ahead: 0, behind: 0 });
    assert_eq!(info.branch_diff.diff, (0, 0));
    assert_eq!(info.working_tree_diff, (3, 1));
    assert_eq!(info.commit.timestamp, 100);
}

#[test]
fn linked_worktree_carries_query_results() {
    let primary = worktree("/repo", Some("main"), "c0");
    let feature = worktree("/repo.feature", Some("feature"), "c3");
    let info = WorktreeInfo::from_worktree(&feature, &primary, plain_observations(200, true))
        .unwrap();
    assert!(!info.is_primary);
    assert_eq!(info.counts, AheadBehind { ahead: 2, behind: 1 });
    assert_eq!(info.branch_diff.diff, (10, 5));
    assert_eq!(info.upstream.upstream.as_deref(), Some("origin/feature"));
    assert_eq!(info.upstream.remote_name().as_deref(), Some("origin"));
    assert_eq!(info.upstream.ahead, 1);
}

#[test]
fn worktree_enrichment_failure_is_fatal() {
    let primary = worktree("/repo", Some("main"), "c0");
    let feature = worktree("/repo.feature", Some("feature"), "c3");
    let mut obs = plain_observations(200, true);
    obs.counts = Some(Err(GitError::CommandFailed("bad object".to_string())));
    let err = WorktreeInfo::from_worktree(&feature, &primary, obs).unwrap_err();
    let GitError::CommandFailed(text) = err;
    assert_eq!(text, "bad object");
}

#[test]
fn branch_enrichment_trims_resolved_head() {
    let obs = BranchObservations {
        head: Ok("abc123\n".to_string()),
        timestamp: Ok(300),
        message: Ok("feature work".to_string()),
        counts: Some(Ok((1, 0))),
        branch_diff: Some(Ok((4, 2))),
        upstream_resolution: Ok(None),
        upstream_counts: None,
    };
    let main = "main".to_string();
    let info = BranchInfo::from_branch(&"feature".to_string(), Some(&main), obs).unwrap();
    assert_eq!(info.name, "feature");
    assert_eq!(info.head, "abc123");
    assert_eq!(info.counts, AheadBehind { ahead: 1, behind: 0 });
    assert!(info.upstream.upstream.is_none());
}

fn item(branch: &str, timestamp: i64, ahead: usize, dirty: bool) -> ListItem {
    ListItem::Worktree(WorktreeInfo {
        worktree: worktree(&format!("/repo.{}", branch), Some(branch), "c"),
        commit: CommitDetails {
            timestamp,
            commit_message: format!("work on {}", branch),
        },
        counts: AheadBehind { ahead, behind: 0 },
        working_tree_diff: if dirty { (1, 0) } else { (0, 0) },
        branch_diff: BranchDiffTotals { diff: (0, 0) },
        is_primary: false,
        upstream: UpstreamStatus {
            upstream: None,
            ahead: 0,
            behind: 0,
        },
        worktree_state: None,
    })
}

fn branch_item(name: &str, timestamp: i64) -> BranchInfo {
    BranchInfo {
        name: name.to_string(),
        head: "h".to_string(),
        commit: CommitDetails {
            timestamp,
            commit_message: "m".to_string(),
        },
        counts: AheadBehind { ahead: 0, behind: 0 },
        branch_diff: BranchDiffTotals { diff: (0, 0) },
        upstream: UpstreamStatus {
            upstream: None,
            ahead: 0,
            behind: 0,
        },
    }
}

#[test]
fn sort_orders_by_timestamp_descending() {
    // whatever order enrichment completed in, distinct timestamps t1 > t2 > t3
    // come out as t1, t2, t3
    let t1: i64 = 3000;
    let t2: i64 = 2000;
    let t3: i64 = 1000;
    let mut items = vec![item("b", t2, 0, false), item("c", t3, 0, false), item("a", t1, 0, false)];
    sort_items(&mut items);
    let stamps: Vec<i64> = items.iter().map(|i| i.timestamp()).collect();
    assert_eq!(stamps, vec![t1, t2, t3]);

    let mut other_completion_order =
        vec![item("c", t3, 0, false), item("a", t1, 0, false), item("b", t2, 0, false)];
    sort_items(&mut other_completion_order);
    let stamps2: Vec<i64> = other_completion_order.iter().map(|i| i.timestamp()).collect();
    assert_eq!(stamps2, vec![t1, t2, t3]);
}

#[test]
fn build_items_keeps_every_branch_and_warns_on_failures() {
    let infos = vec![];
    let branch_results = vec![
        ("good".to_string(), Ok(branch_item("good", 10))),
        (
            "bad".to_string(),
            Err(GitError::CommandFailed("fatal: unknown revision".to_string())),
        ),
    ];
    let (items, warnings) = build_items(infos, branch_results);
    // the failed branch is still listed, as a partial record
    assert_eq!(items.len(), 2);
    assert_eq!(items[0].branch_name(), "good");
    assert_eq!(items[1].branch_name(), "bad");
    assert!(matches!(items[1], ListItem::PartialBranch { .. }));
    assert_eq!(warnings.len(), 1);
    assert!(warnings[0].contains("Failed to enrich branch bad: fatal: unknown revision"));
    assert!(warnings[0].contains("limited information"));
}

#[test]
fn partial_branch_sorts_after_enriched_items() {
    let mut items = vec![
        ListItem::PartialBranch {
            name: "broken".to_string(),
        },
        item("a", 10, 0, false),
        ListItem::Branch(branch_item("dev", 5)),
    ];
    sort_items(&mut items);
    assert_eq!(items[0].branch_name(), "a");
    assert_eq!(items[1].branch_name(), "dev");
    assert_eq!(items[2].branch_name(), "broken");
    assert_eq!(items[2].ahead(), 0);
    assert_eq!(items[2].behind(), 0);
    assert!(!items[2].is_primary());
}

#[test]
fn item_accessors_report_branch_and_primary() {
    let detached = ListItem::Worktree(WorktreeInfo {
        worktree: worktree("/repo.x", None, "c"),
        commit: CommitDetails {
            timestamp: 1,
            commit_message: "m".to_string(),
        },
        counts: AheadBehind { ahead: 0, behind: 0 },
        working_tree_diff: (0, 0),
        branch_diff: BranchDiffTotals { diff: (0, 0) },
        is_primary: true,
        upstream: UpstreamStatus {
            upstream: None,
            ahead: 0,
            behind: 0,
        },
        worktree_state: None,
    });
    assert_eq!(detached.branch_name(), "(detached)");
    assert!(detached.is_primary());
    let br = ListItem::Branch(branch_item("dev", 5));
    assert_eq!(br.branch_name(), "dev");
    assert!(!br.is_primary());
}

#[test]
fn summary_counts_and_pluralizes() {
    let empty: Vec<ListItem> = vec![];
    assert_eq!(
        display_summary(&empty, false),
        "\n\u{1f4a1} No worktrees found\n\u{1f4a1} Create one with: wt switch --create <branch>"
    );

    let one = vec![item("a", 10, 0, false)];
    assert_eq!(display_summary(&one, false), "\nShowing 1 worktree");

    let mut items = vec![item("a", 10, 2, true), item("b", 9, 0, false)];
    assert_eq!(display_summary(&items, false), "\nShowing 2 worktrees, 1 with changes, 1 ahead");

    items.push(ListItem::Branch(branch_item("dev", 8)));
    assert_eq!(
        display_summary(&items, true),
        "\nShowing 2 worktrees, 1 branches, 1 with changes, 1 ahead"
    );
}
