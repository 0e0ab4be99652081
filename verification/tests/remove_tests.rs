use worktrunk::classify::{classify, Classification, IntegrationStatus, MergeSim};
use worktrunk::git::{GitError, GitQuery, Worktree};
use worktrunk::remove::{
    branch_deletion_query, classification_needed, decide_branch_plan, overall_exit_code,
    removal_guard, resolve_target, worktree_removal_query, BlockReason, BranchPlan,
    RemovalError, RemovalRequest, RemovalTarget, TargetOutcome, TargetReport,
};

fn wt(path: &str, branch: Option<&str>, head: &str) -> Worktree {
    Worktree {
        path: path.to_string(),
        branch: branch.map(|b| b.to_string()),
        head: head.to_string(),
    }
}

fn default_request() -> RemovalRequest {
    RemovalRequest {
        delete_branch: true,
        force_delete: false,
        force: false,
        foreground: false,
    }
}

/// Drive one resolved, unblocked target through classification, worktree
/// removal, and branch deletion, with the given simulated outcomes.
fn run_target(
    target: RemovalTarget,
    request: RemovalRequest,
    base: Option<String>,
    classification: Option<Classification>,
    removal_ok: bool,
    deletion_ok: bool,
) -> TargetOutcome {
    let name = match &target {
        RemovalTarget::Checkout(w) => w
            .branch
            .clone()
            .unwrap_or_else(|| w.path.clone()),
        RemovalTarget::BranchOnly { name } => name.clone(),
    };
    let path = match &target {
        RemovalTarget::Checkout(w) => Some(w.path.clone()),
        RemovalTarget::BranchOnly { .. } => None,
    };
    assert_eq!(
        classification_needed(&request, &target, base.as_ref()),
        classification.is_some()
    );
    let plan = decide_branch_plan(&request, &target, classification);
    let worktree_result = worktree_removal_query(&target).map(|query| {
        match query {
            GitQuery::RemoveWorktree { .. } => {}
            other => panic!("unexpected query: {:?}", other),
        }
        if removal_ok {
            Ok(())
        } else {
            Err(GitError::CommandFailed("removal failed".to_string()))
        }
    });
    let branch_result = branch_deletion_query(&plan, &target, &worktree_result).map(|query| {
        match query {
            GitQuery::DeleteBranch { .. } => {}
            other => panic!("unexpected query: {:?}", other),
        }
        if deletion_ok {
            Ok(())
        } else {
            Err(GitError::CommandFailed("deletion failed".to_string()))
        }
    });
    TargetOutcome {
        name,
        path,
        worktree_result,
        branch_plan: plan,
        branch_result,
    }
}

fn ancestor_classification() -> Classification {
    classify(
        "feature",
        "main",
        Ok(true),
        Err("unused".to_string()),
        Err("unused".to_string()),
    )
}

fn not_integrated_classification() -> Classification {
    classify(
        "feature",
        "main",
        Ok(false),
        Ok(("tree-f".to_string(), "tree-m".to_string())),
        Ok(MergeSim::Clean {
            tree: "tree-x".to_string(),
        }),
    )
}

#[test]
fn test_remove_already_on_default() {
    let worktrees = vec![wt("/repo", Some("main"), "c0")];
    let branches: Vec<String> = vec![];
    let target = resolve_target("@", &worktrees, "/repo", &branches).unwrap();
    let guard = removal_guard(&target, &worktrees[0], false, false);
    assert_eq!(guard, Some(BlockReason::PrimaryWorktree));
}

#[test]
fn test_remove_from_worktree() {
    let worktrees = vec![
        wt("/repo", Some("main"), "c0"),
        wt("/repo.feature-wt", Some("feature-wt"), "c0"),
    ];
    let branches: Vec<String> = vec![];
    let target = resolve_target("@", &worktrees, "/repo.feature-wt", &branches).unwrap();
    assert!(removal_guard(&target, &worktrees[0], false, false).is_none());
    let outcome = run_target(
        target,
        default_request(),
        Some("main".to_string()),
        Some(ancestor_classification()),
        true,
        true,
    );
    assert!(matches!(outcome.worktree_result, Some(Ok(()))));
    assert!(matches!(outcome.branch_result, Some(Ok(()))));
    assert_eq!(overall_exit_code(&vec![TargetReport::Completed(outcome)]), 0);
}

#[test]
fn test_remove_by_name_from_main() {
    let worktrees = vec![
        wt("/repo", Some("main"), "c0"),
        wt("/repo.feature-a", Some("feature-a"), "c0"),
    ];
    let branches: Vec<String> = vec![];
    let target = resolve_target("feature-a", &worktrees, "/repo", &branches).unwrap();
    match &target {
        RemovalTarget::Checkout(w) => assert_eq!(w.path, "/repo.feature-a"),
        other => panic!("unexpected target: {:?}", other),
    }
    let outcome = run_target(
        target,
        default_request(),
        Some("main".to_string()),
        Some(ancestor_classification()),
        true,
        true,
    );
    assert!(matches!(outcome.branch_plan, BranchPlan::Delete { force: false }));
    assert_eq!(overall_exit_code(&vec![TargetReport::Completed(outcome)]), 0);
}

#[test]
fn test_remove_by_name_from_other_worktree() {
    let worktrees = vec![
        wt("/repo", Some("main"), "c0"),
        wt("/repo.feature-a", Some("feature-a"), "c0"),
        wt("/repo.feature-b", Some("feature-b"), "c0"),
    ];
    let branches: Vec<String> = vec![];
    // from worktree A, remove worktree B by name
    let target = resolve_target("feature-b", &worktrees, "/repo.feature-a", &branches).unwrap();
    match &target {
        RemovalTarget::Checkout(w) => assert_eq!(w.path, "/repo.feature-b"),
        other => panic!("unexpected target: {:?}", other),
    }
    assert!(removal_guard(&target, &worktrees[0], false, false).is_none());
}

#[test]
fn test_remove_current_by_name() {
    let worktrees = vec![
        wt("/repo", Some("main"), "c0"),
        wt("/repo.feature-current", Some("feature-current"), "c0"),
    ];
    let branches: Vec<String> = vec![];
    let target =
        resolve_target("feature-current", &worktrees, "/repo.feature-current", &branches).unwrap();
    let outcome = run_target(
        target,
        default_request(),
        Some("main".to_string()),
        Some(ancestor_classification()),
        true,
        true,
    );
    assert!(matches!(outcome.worktree_result, Some(Ok(()))));
    assert!(matches!(outcome.branch_result, Some(Ok(()))));
}

#[test]
fn test_remove_nonexistent_worktree() {
    let worktrees = vec![wt("/repo", Some("main"), "c0")];
    let branches: Vec<String> = vec![];
    let err = resolve_target("nonexistent", &worktrees, "/repo", &branches).unwrap_err();
    match err {
        RemovalError::AmbiguousTarget { name } => assert_eq!(name, "nonexistent"),
    }
}

#[test]
fn test_remove_multiple_worktrees() {
    let worktrees = vec![
        wt("/repo", Some("main"), "c0"),
        wt("/repo.feature-a", Some("feature-a"), "c0"),
        wt("/repo.feature-b", Some("feature-b"), "c0"),
        wt("/repo.feature-c", Some("feature-c"), "c0"),
    ];
    let branches: Vec<String> = vec![];
    let mut outcomes = Vec::new();
    for name in ["feature-a", "feature-b", "feature-c"] {
        let target = resolve_target(name, &worktrees, "/repo", &branches).unwrap();
        assert!(removal_guard(&target, &worktrees[0], false, false).is_none());
        outcomes.push(run_target(
            target,
            default_request(),
            Some("main".to_string()),
            Some(ancestor_classification()),
            true,
            true,
        ));
    }
    assert_eq!(outcomes.len(), 3);
    let reports: Vec<TargetReport> = outcomes.into_iter().map(TargetReport::Completed).collect();
    assert_eq!(overall_exit_code(&reports), 0);
}

#[test]
fn test_remove_multiple_including_current() {
    let worktrees = vec![
        wt("/repo", Some("main"), "c0"),
        wt("/repo.feature-a", Some("feature-a"), "c0"),
        wt("/repo.feature-b", Some("feature-b"), "c0"),
        wt("/repo.feature-c", Some("feature-c"), "c0"),
    ];
    let branches: Vec<String> = vec![];
    let mut outcomes = Vec::new();
    // processed independently and in the user-given order, from worktree A
    for name in ["feature-a", "feature-b", "feature-c"] {
        let target = resolve_target(name, &worktrees, "/repo.feature-a", &branches).unwrap();
        outcomes.push(run_target(
            target,
            default_request(),
            Some("main".to_string()),
            Some(ancestor_classification()),
            true,
            true,
        ));
    }
    assert!(outcomes.iter().all(|o| matches!(o.worktree_result, Some(Ok(())))));
    let reports: Vec<TargetReport> = outcomes.into_iter().map(TargetReport::Completed).collect();
    assert_eq!(overall_exit_code(&reports), 0);
}

#[test]
fn test_remove_foreground() {
    let worktrees = vec![
        wt("/repo", Some("main"), "c0"),
        wt("/repo.feature-fg", Some("feature-fg"), "c0"),
    ];
    let branches: Vec<String> = vec![];
    let request = RemovalRequest {
        foreground: true,
        ..default_request()
    };
    let target = resolve_target("feature-fg", &worktrees, "/repo", &branches).unwrap();
    let outcome = run_target(
        target,
        request,
        Some("main".to_string()),
        Some(ancestor_classification()),
        true,
        true,
    );
    // the foreground flag changes no decision
    assert!(matches!(outcome.worktree_result, Some(Ok(()))));
    assert!(matches!(outcome.branch_result, Some(Ok(()))));
}

#[test]
fn test_remove_no_delete_branch() {
    let worktrees = vec![
        wt("/repo", Some("main"), "c0"),
        wt("/repo.feature-keep", Some("feature-keep"), "c0"),
    ];
    let branches: Vec<String> = vec![];
    let request = RemovalRequest {
        delete_branch: false,
        ..default_request()
    };
    let target = resolve_target("feature-keep", &worktrees, "/repo", &branches).unwrap();
    let outcome = run_target(target, request, Some("main".to_string()), None, true, true);
    assert!(matches!(outcome.branch_plan, BranchPlan::Keep));
    assert!(matches!(outcome.worktree_result, Some(Ok(()))));
    assert!(outcome.branch_result.is_none());
}

#[test]
fn test_remove_branch_only_merged() {
    let worktrees = vec![wt("/repo", Some("main"), "c0")];
    let branches = vec!["feature-merged".to_string()];
    let target = resolve_target("feature-merged", &worktrees, "/repo", &branches).unwrap();
    assert!(matches!(target, RemovalTarget::BranchOnly { .. }));
    assert!(removal_guard(&target, &worktrees[0], false, false).is_none());
    // the branch sits at the same commit as main: a plain ancestor
    let classification = classify(
        "feature-merged",
        "main",
        Ok(true),
        Err("unused".to_string()),
        Err("unused".to_string()),
    );
    let outcome = run_target(
        target,
        default_request(),
        Some("main".to_string()),
        Some(classification),
        true,
        true,
    );
    assert!(outcome.worktree_result.is_none());
    assert!(matches!(outcome.branch_result, Some(Ok(()))));
}

#[test]
fn test_remove_branch_only_unmerged() {
    let worktrees = vec![wt("/repo", Some("main"), "c1")];
    let branches = vec!["feature-unmerged".to_string()];
    let target = resolve_target("feature-unmerged", &worktrees, "/repo", &branches).unwrap();
    let outcome = run_target(
        target,
        default_request(),
        Some("main".to_string()),
        Some(not_integrated_classification()),
        true,
        true,
    );
    // deletion is skipped, reported, and not an error
    assert!(matches!(outcome.branch_plan, BranchPlan::SkippedNotIntegrated));
    assert!(outcome.branch_result.is_none());
    assert_eq!(overall_exit_code(&vec![TargetReport::Completed(outcome)]), 0);
}

#[test]
fn test_remove_branch_only_force_delete() {
    let worktrees = vec![wt("/repo", Some("main"), "c1")];
    let branches = vec!["feature-force".to_string()];
    let request = RemovalRequest {
        force_delete: true,
        ..default_request()
    };
    let target = resolve_target("feature-force", &worktrees, "/repo", &branches).unwrap();
    // force bypasses the classifier entirely
    assert!(!classification_needed(&request, &target, Some(&"main".to_string())));
    let outcome = run_target(target, request, Some("main".to_string()), None, true, true);
    assert!(matches!(outcome.branch_plan, BranchPlan::Delete { force: true }));
    assert!(matches!(outcome.branch_result, Some(Ok(()))));
}

#[test]
fn test_remove_from_detached_head_in_worktree() {
    let worktrees = vec![
        wt("/repo", Some("main"), "c0"),
        wt("/repo.feature-detached", None, "c2"),
    ];
    let branches: Vec<String> = vec![];
    let target = resolve_target("@", &worktrees, "/repo.feature-detached", &branches).unwrap();
    assert!(removal_guard(&target, &worktrees[0], false, false).is_none());
    // no branch to classify: removal falls back to path-based removal
    assert!(!classification_needed(&default_request(), &target, Some(&"main".to_string())));
    let outcome = run_target(
        target,
        default_request(),
        Some("main".to_string()),
        None,
        true,
        true,
    );
    assert!(matches!(outcome.branch_plan, BranchPlan::NoBranch));
    assert!(matches!(outcome.worktree_result, Some(Ok(()))));
    assert!(outcome.branch_result.is_none());
}

#[test]
fn test_remove_at_from_detached_head_in_worktree() {
    let worktrees = vec![
        wt("/repo", Some("main"), "c0"),
        wt("/repo.feature-detached-at", None, "c2"),
    ];
    let branches: Vec<String> = vec![];
    // `@` behaves exactly like no argument: the current worktree
    let target = resolve_target("@", &worktrees, "/repo.feature-detached-at", &branches).unwrap();
    let outcome = run_target(
        target,
        default_request(),
        Some("main".to_string()),
        None,
        true,
        true,
    );
    assert!(matches!(outcome.branch_plan, BranchPlan::NoBranch));
    assert!(matches!(outcome.worktree_result, Some(Ok(()))));
}

#[test]
fn partial_failure_keeps_worktree_removal_success() {
    // the branch deletion fails while the worktree directory is removable:
    // the removal still succeeds and both outcomes are reported
    let worktrees = vec![
        wt("/repo", Some("main"), "c0"),
        wt("/repo.feature", Some("feature"), "c3"),
    ];
    let branches: Vec<String> = vec![];
    let request = RemovalRequest {
        force_delete: true,
        ..default_request()
    };
    let target = resolve_target("feature", &worktrees, "/repo", &branches).unwrap();
    let outcome = run_target(target, request, Some("main".to_string()), None, true, false);
    assert!(matches!(outcome.worktree_result, Some(Ok(()))));
    assert!(matches!(outcome.branch_result, Some(Err(_))));
    assert_eq!(overall_exit_code(&vec![TargetReport::Completed(outcome)]), 1);
}

#[test]
fn failed_removal_skips_branch_deletion() {
    let worktrees = vec![
        wt("/repo", Some("main"), "c0"),
        wt("/repo.feature", Some("feature"), "c0"),
    ];
    let branches: Vec<String> = vec![];
    let target = resolve_target("feature", &worktrees, "/repo", &branches).unwrap();
    let outcome = run_target(
        target,
        default_request(),
        Some("main".to_string()),
        Some(ancestor_classification()),
        false,
        true,
    );
    // worktree removal runs first; its failure leaves the branch alone
    assert!(matches!(outcome.worktree_result, Some(Err(_))));
    assert!(outcome.branch_result.is_none());
    assert_eq!(overall_exit_code(&vec![TargetReport::Completed(outcome)]), 1);
}

#[test]
fn one_target_failure_leaves_other_targets_untouched() {
    let worktrees = vec![
        wt("/repo", Some("main"), "c0"),
        wt("/repo.feature-a", Some("feature-a"), "c0"),
        wt("/repo.feature-b", Some("feature-b"), "c0"),
    ];
    let branches: Vec<String> = vec![];
    let failing = resolve_target("feature-a", &worktrees, "/repo", &branches).unwrap();
    let succeeding = resolve_target("feature-b", &worktrees, "/repo", &branches).unwrap();
    let first = run_target(
        failing,
        default_request(),
        Some("main".to_string()),
        Some(ancestor_classification()),
        false,
        true,
    );
    let second = run_target(
        succeeding,
        default_request(),
        Some("main".to_string()),
        Some(ancestor_classification()),
        true,
        true,
    );
    assert!(matches!(second.worktree_result, Some(Ok(()))));
    assert_eq!(overall_exit_code(&vec![TargetReport::Completed(first), TargetReport::Completed(second)]), 1);
}

#[test]
fn test_remove_dirty_working_tree() {
    // the primary-worktree protection fires before the dirty guard
    let worktrees = vec![wt("/repo", Some("main"), "c0")];
    let branches: Vec<String> = vec![];
    let target = resolve_target("@", &worktrees, "/repo", &branches).unwrap();
    let guard = removal_guard(&target, &worktrees[0], true, false);
    assert_eq!(guard, Some(BlockReason::PrimaryWorktree));
}

#[test]
fn test_remove_by_name_dirty_target() {
    let worktrees = vec![
        wt("/repo", Some("main"), "c0"),
        wt("/repo.feature-dirty", Some("feature-dirty"), "c0"),
    ];
    let branches: Vec<String> = vec![];
    let target = resolve_target("feature-dirty", &worktrees, "/repo", &branches).unwrap();
    assert_eq!(
        removal_guard(&target, &worktrees[0], true, false),
        Some(BlockReason::DirtyWorkingTree)
    );
    // the override lifts the dirty guard, and only that guard
    assert_eq!(removal_guard(&target, &worktrees[0], true, true), None);
}

#[test]
fn test_remove_branch_not_fully_merged() {
    let worktrees = vec![
        wt("/repo", Some("main"), "c0"),
        wt("/repo.feature-unmerged", Some("feature-unmerged"), "c3"),
    ];
    let branches: Vec<String> = vec![];
    let target = resolve_target("feature-unmerged", &worktrees, "/repo", &branches).unwrap();
    let outcome = run_target(
        target,
        default_request(),
        Some("main".to_string()),
        Some(not_integrated_classification()),
        true,
        true,
    );
    // worktree removal succeeds while branch deletion is skipped
    assert!(matches!(outcome.worktree_result, Some(Ok(()))));
    assert!(matches!(outcome.branch_plan, BranchPlan::SkippedNotIntegrated));
    assert!(outcome.branch_result.is_none());
}

#[test]
fn test_remove_branch_matching_tree_content() {
    // not an ancestor, but the tip trees are byte-identical (squash landed
    // verbatim): content is integrated and the branch is deleted
    let classification = classify(
        "feature-squashed",
        "main",
        Ok(false),
        Ok(("tree-s".to_string(), "tree-s".to_string())),
        Err("unused".to_string()),
    );
    assert_eq!(classification.status, IntegrationStatus::TreeMatch);
    let worktrees = vec![wt("/repo", Some("main"), "c1")];
    let branches = vec!["feature-squashed".to_string()];
    let target = resolve_target("feature-squashed", &worktrees, "/repo", &branches).unwrap();
    let outcome = run_target(
        target,
        default_request(),
        Some("main".to_string()),
        Some(classification),
        true,
        true,
    );
    assert!(matches!(outcome.branch_plan, BranchPlan::Delete { force: false }));
    assert!(matches!(outcome.branch_result, Some(Ok(()))));
}

#[test]
fn test_remove_squash_merged_then_main_advanced() {
    // trees differ (main has advanced), but the merge simulation reproduces
    // main's tree exactly: merging the branch would add nothing
    let classification = classify(
        "feature-squash",
        "main",
        Ok(false),
        Ok(("tree-f".to_string(), "tree-m".to_string())),
        Ok(MergeSim::Clean {
            tree: "tree-m".to_string(),
        }),
    );
    assert_eq!(classification.status, IntegrationStatus::MergeNoOp);
    let worktrees = vec![wt("/repo", Some("main"), "c9")];
    let branches = vec!["feature-squash".to_string()];
    let target = resolve_target("feature-squash", &worktrees, "/repo", &branches).unwrap();
    let outcome = run_target(
        target,
        default_request(),
        Some("main".to_string()),
        Some(classification),
        true,
        true,
    );
    assert!(matches!(outcome.branch_plan, BranchPlan::Delete { force: false }));
    assert!(matches!(outcome.branch_result, Some(Ok(()))));
}

#[test]
fn test_remove_main_worktree_vs_linked_worktree() {
    let worktrees = vec![
        wt("/repo", Some("main"), "c0"),
        wt("/repo.feature", Some("feature"), "c0"),
    ];
    let branches: Vec<String> = vec![];
    // a linked worktree can be removed, from within it...
    let linked = resolve_target("@", &worktrees, "/repo.feature", &branches).unwrap();
    assert!(removal_guard(&linked, &worktrees[0], false, false).is_none());
    // ...and from the main worktree by name
    let by_name = resolve_target("feature", &worktrees, "/repo", &branches).unwrap();
    assert!(removal_guard(&by_name, &worktrees[0], false, false).is_none());
    // the main worktree cannot be removed, on its default branch...
    let main_target = resolve_target("@", &worktrees, "/repo", &branches).unwrap();
    assert_eq!(
        removal_guard(&main_target, &worktrees[0], false, false),
        Some(BlockReason::PrimaryWorktree)
    );
    // ...nor with a feature branch checked out in it
    let switched = vec![
        wt("/repo", Some("feature-in-main"), "c5"),
        wt("/repo.feature", Some("feature"), "c0"),
    ];
    let still_main = resolve_target("@", &switched, "/repo", &branches).unwrap();
    assert_eq!(
        removal_guard(&still_main, &switched[0], false, false),
        Some(BlockReason::PrimaryWorktree)
    );
}

#[test]
fn test_remove_default_branch_no_tautology() {
    // removing the default branch's own worktree from elsewhere: comparing
    // the branch to itself is trivially an ancestor, with no query at all
    let step = worktrunk::classify::classify_start("main", "main");
    match &step {
        worktrunk::classify::ClassifyStep::Done(c) => {
            assert_eq!(c.status, IntegrationStatus::Ancestor);
            assert!(c.diagnostic.is_none());
        }
        other => panic!("unexpected step: {:?}", other),
    }
    assert!(worktrunk::classify::queries_for(&step, "main", "main").is_empty());
    // in a bare-repository setup the bare checkout is the primary entry, so
    // the default branch's own worktree is a removable linked worktree
    let worktrees = vec![
        wt("/bare/repo.git", None, "c0"),
        wt("/bare/repo.main", Some("main"), "c0"),
        wt("/bare/repo.feature", Some("feature"), "c0"),
    ];
    let branches: Vec<String> = vec![];
    let target = resolve_target("main", &worktrees, "/bare/repo.feature", &branches).unwrap();
    assert!(removal_guard(&target, &worktrees[0], false, false).is_none());
    let classification = match step {
        worktrunk::classify::ClassifyStep::Done(c) => c,
        other => panic!("unexpected step: {:?}", other),
    };
    let outcome = run_target(
        target,
        default_request(),
        Some("main".to_string()),
        Some(classification),
        true,
        true,
    );
    assert!(matches!(outcome.worktree_result, Some(Ok(()))));
    assert!(matches!(outcome.branch_result, Some(Ok(()))));
}

#[test]
fn blocked_target_does_not_abort_remaining_targets() {
    // first target is the primary worktree (blocked); the second still runs
    let worktrees = vec![
        wt("/repo", Some("main"), "c0"),
        wt("/repo.feature-b", Some("feature-b"), "c0"),
    ];
    let branches: Vec<String> = vec![];
    let mut reports: Vec<TargetReport> = Vec::new();
    for name in ["@", "feature-b"] {
        let target = resolve_target(name, &worktrees, "/repo", &branches).unwrap();
        match removal_guard(&target, &worktrees[0], false, false) {
            Some(reason) => reports.push(TargetReport::Blocked {
                name: name.to_string(),
                reason,
            }),
            None => reports.push(TargetReport::Completed(run_target(
                target,
                default_request(),
                Some("main".to_string()),
                Some(ancestor_classification()),
                true,
                true,
            ))),
        }
    }
    assert!(matches!(
        reports[0],
        TargetReport::Blocked {
            reason: BlockReason::PrimaryWorktree,
            ..
        }
    ));
    match &reports[1] {
        TargetReport::Completed(outcome) => {
            assert!(matches!(outcome.worktree_result, Some(Ok(()))));
            assert_eq!(outcome.path.as_deref(), Some("/repo.feature-b"));
        }
        other => panic!("unexpected report: {:?}", other),
    }
    // the exit code reflects the worst outcome across all targets
    assert_eq!(overall_exit_code(&reports), 1);
}

#[test]
fn unresolvable_target_is_a_failure_outcome() {
    let reports = vec![TargetReport::NotFound {
        name: "nonexistent".to_string(),
    }];
    assert_eq!(overall_exit_code(&reports), 1);
    assert_eq!(overall_exit_code(&Vec::new()), 0);
}
