use worktrunk::classify::{
    classify, classify_on_ancestor, classify_on_merge, classify_on_trees, classify_start,
    ClassifyStep, IntegrationStatus, MergeSim,
};
use worktrunk::git::GitQuery;

#[test]
fn classification_is_idempotent() {
    // the same query outcomes twice give the same result
    let first = classify(
        "feature",
        "main",
        Ok(false),
        Ok(("t1".to_string(), "t2".to_string())),
        Ok(MergeSim::Conflicted),
    );
    let second = classify(
        "feature",
        "main",
        Ok(false),
        Ok(("t1".to_string(), "t2".to_string())),
        Ok(MergeSim::Conflicted),
    );
    assert_eq!(first.status, second.status);
    assert_eq!(first.diagnostic, second.diagnostic);
}

#[test]
fn ancestor_is_safe_and_first() {
    let c = classify(
        "feature",
        "main",
        Ok(true),
        Ok(("t1".to_string(), "t2".to_string())),
        Ok(MergeSim::Conflicted),
    );
    assert_eq!(c.status, IntegrationStatus::Ancestor);
    assert_ne!(c.status, IntegrationStatus::NotIntegrated);
}

#[test]
fn tree_identity_is_safe_despite_divergence() {
    // divergent histories whose tips have byte-identical trees
    let c = classify(
        "feature",
        "main",
        Ok(false),
        Ok(("same-tree".to_string(), "same-tree".to_string())),
        Err("unused".to_string()),
    );
    assert_eq!(c.status, IntegrationStatus::TreeMatch);
}

#[test]
fn merge_noop_after_squash_and_advance() {
    // squash-merged, then main advanced: trees differ, but merging the
    // branch reproduces main's tree exactly
    let c = classify(
        "feature",
        "main",
        Ok(false),
        Ok(("feature-tree".to_string(), "main-tree".to_string())),
        Ok(MergeSim::Clean {
            tree: "main-tree".to_string(),
        }),
    );
    assert_eq!(c.status, IntegrationStatus::MergeNoOp);
}

#[test]
fn non_integration_is_detected() {
    let merged_elsewhere = classify(
        "feature",
        "main",
        Ok(false),
        Ok(("feature-tree".to_string(), "main-tree".to_string())),
        Ok(MergeSim::Clean {
            tree: "other-tree".to_string(),
        }),
    );
    assert_eq!(merged_elsewhere.status, IntegrationStatus::NotIntegrated);
    let conflicted = classify(
        "feature",
        "main",
        Ok(false),
        Ok(("feature-tree".to_string(), "main-tree".to_string())),
        Ok(MergeSim::Conflicted),
    );
    assert_eq!(conflicted.status, IntegrationStatus::NotIntegrated);
}

#[test]
fn hard_failures_are_unknown_with_diagnostic() {
    let c = classify(
        "feature",
        "main",
        Err("fatal: bad object".to_string()),
        Ok(("t".to_string(), "t".to_string())),
        Ok(MergeSim::Conflicted),
    );
    assert_eq!(c.status, IntegrationStatus::Unknown);
    assert_eq!(c.diagnostic.as_deref(), Some("fatal: bad object"));
}

#[test]
fn steps_short_circuit_and_name_their_queries() {
    let start = classify_start("feature", "main");
    assert!(matches!(start, ClassifyStep::CheckAncestor));
    let queries = worktrunk::classify::queries_for(&start, "feature", "main");
    assert_eq!(queries.len(), 1);
    assert!(matches!(&queries[0], GitQuery::IsAncestor { .. }));

    let after_ancestor = classify_on_ancestor(Ok(false));
    assert!(matches!(after_ancestor, ClassifyStep::CheckTrees));
    let tree_queries = worktrunk::classify::queries_for(&after_ancestor, "feature", "main");
    assert_eq!(tree_queries.len(), 2);

    let after_trees = classify_on_trees(Ok(("a".to_string(), "b".to_string())));
    match &after_trees {
        ClassifyStep::CheckMerge { target_tree } => assert_eq!(target_tree, "b"),
        other => panic!("unexpected step: {:?}", other),
    }
    let merge_queries = worktrunk::classify::queries_for(&after_trees, "feature", "main");
    assert_eq!(merge_queries.len(), 1);
    assert!(matches!(&merge_queries[0], GitQuery::MergeSimulation { .. }));

    let done = classify_on_merge("b", Ok(MergeSim::Clean { tree: "b".to_string() }));
    match &done {
        ClassifyStep::Done(c) => assert_eq!(c.status, IntegrationStatus::MergeNoOp),
        other => panic!("unexpected step: {:?}", other),
    }
    assert!(worktrunk::classify::queries_for(&done, "feature", "main").is_empty());

    // an ancestor answer short-circuits everything after it
    let early = classify_on_ancestor(Ok(true));
    match &early {
        ClassifyStep::Done(c) => assert_eq!(c.status, IntegrationStatus::Ancestor),
        other => panic!("unexpected step: {:?}", other),
    }
}
