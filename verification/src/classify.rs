//! The integration classifier: decides whether a branch's content is already
//! present in a target branch, the hard precondition for safe deletion.
//!
//! Three checks run in order and short-circuit on the first definitive
//! answer: an ancestor test, a tree-identity test, and a merge simulation.
//! Each check is driven by one event from the git port; the step machine
//! makes the short-circuit visible: a step only names the queries it still
//! needs.

use vstd::prelude::*;

use crate::git::GitQuery;

verus! {

/// The classification outcome.
#[derive(Clone, Copy, PartialEq, Eq, Structural, Debug)]
pub enum IntegrationStatus {
    /// `branch` is an ancestor of `target`: a classic fast-forward merge.
    Ancestor,
    /// Histories diverged but the tip trees are byte-identical (e.g. a
    /// squash merge landed verbatim).
    TreeMatch,
    /// Merging `branch` into `target` would change nothing: the content is
    /// already subsumed even though `target` has advanced since.
    MergeNoOp,
    /// The branch has content that `target` does not.
    NotIntegrated,
    /// A query failed hard; never silently assume safety.
    Unknown,
}

/// A safe outcome permits branch deletion.
pub open spec fn is_safe(s: IntegrationStatus) -> bool {
    s is Ancestor || s is TreeMatch || s is MergeNoOp
}

/// Whether a status permits branch deletion.
pub fn status_is_safe(s: &IntegrationStatus) -> (r: bool)
    ensures
        r == is_safe(*s),
{
    match s {
        IntegrationStatus::Ancestor => true,
        IntegrationStatus::TreeMatch => true,
        IntegrationStatus::MergeNoOp => true,
        IntegrationStatus::NotIntegrated => false,
        IntegrationStatus::Unknown => false,
    }
}

/// A classification together with the diagnostic of a hard failure.
#[derive(Clone, Debug)]
pub struct Classification {
    pub status: IntegrationStatus,
    /// The raw git diagnostic; present exactly when the status is `Unknown`.
    pub diagnostic: Option<String>,
}

/// What the merge simulation reported.
#[derive(Clone, Debug)]
pub enum MergeSim {
    /// The three-way merge is clean and would produce this tree.
    Clean { tree: String },
    /// The simulation reported conflicts.
    Conflicted,
}

/// The spec-level value of a merge simulation report.
pub enum MergeSimView {
    Clean { tree: Seq<char> },
    Conflicted,
}

impl View for MergeSim {
    type V = MergeSimView;

    open spec fn view(&self) -> MergeSimView {
        match self {
            MergeSim::Clean { tree } => MergeSimView::Clean { tree: tree@ },
            MergeSim::Conflicted => MergeSimView::Conflicted,
        }
    }
}

/// The view of a query outcome whose payload is already plain.
pub open spec fn bool_outcome_view(r: Result<bool, String>) -> Result<bool, Seq<char>> {
    match r {
        Ok(b) => Ok(b),
        Err(e) => Err(e@),
    }
}

/// The view of the tree-identity outcome: the tree ids of `branch` and
/// `target`, in that order.
pub open spec fn trees_outcome_view(r: Result<(String, String), String>) -> Result<
    (Seq<char>, Seq<char>),
    Seq<char>,
> {
    match r {
        Ok((bt, tt)) => Ok((bt@, tt@)),
        Err(e) => Err(e@),
    }
}

/// The view of the merge-simulation outcome.
pub open spec fn merge_outcome_view(r: Result<MergeSim, String>) -> Result<
    MergeSimView,
    Seq<char>,
> {
    match r {
        Ok(m) => Ok(m@),
        Err(e) => Err(e@),
    }
}

/// The classification of `(branch, target)` given the three query outcomes,
/// in the tiered order: same ref, ancestor test, tree identity, merge
/// simulation. Later outcomes are ignored when an earlier check decides.
pub open spec fn classification_of(
    branch: Seq<char>,
    target: Seq<char>,
    anc: Result<bool, Seq<char>>,
    trees: Result<(Seq<char>, Seq<char>), Seq<char>>,
    merge: Result<MergeSimView, Seq<char>>,
) -> (IntegrationStatus, Option<Seq<char>>) {
    if branch == target {
        (IntegrationStatus::Ancestor, None)
    } else {
        match anc {
            Err(e) => (IntegrationStatus::Unknown, Some(e)),
            Ok(true) => (IntegrationStatus::Ancestor, None),
            Ok(false) => match trees {
                Err(e) => (IntegrationStatus::Unknown, Some(e)),
                Ok((branch_tree, target_tree)) => if branch_tree == target_tree {
                    (IntegrationStatus::TreeMatch, None)
                } else {
                    match merge {
                        Err(e) => (IntegrationStatus::Unknown, Some(e)),
                        Ok(MergeSimView::Clean { tree }) => if tree == target_tree {
                            (IntegrationStatus::MergeNoOp, None)
                        } else {
                            (IntegrationStatus::NotIntegrated, None)
                        },
                        Ok(MergeSimView::Conflicted) => (IntegrationStatus::NotIntegrated, None),
                    }
                },
            },
        }
    }
}

/// The view of a finished classification.
pub open spec fn classification_view(c: Classification) -> (IntegrationStatus, Option<Seq<char>>) {
    (
        c.status,
        match c.diagnostic {
            Some(d) => Some(d@),
            None => None,
        },
    )
}

/// The classifier's position between checks.
#[derive(Clone, Debug)]
pub enum ClassifyStep {
    /// The ancestor test is pending.
    CheckAncestor,
    /// Not an ancestor; the tree-identity test is pending.
    CheckTrees,
    /// Trees differ; the merge simulation against this target tree is
    /// pending.
    CheckMerge { target_tree: String },
    /// The classification is decided.
    Done(Classification),
}

/// Begin classifying `(branch, target)`. Comparing a branch to itself is
/// trivially `Ancestor`, with no query at all.
pub fn classify_start(branch: &str, target: &str) -> (r: ClassifyStep)
    ensures
        branch@ == target@ ==> (r matches ClassifyStep::Done(c) && classification_view(c) == (
            IntegrationStatus::Ancestor,
            None::<Seq<char>>,
        )),
        branch@ != target@ ==> r is CheckAncestor,
{
    if crate::text::str_eq(branch, target) {
        ClassifyStep::Done(
            Classification { status: IntegrationStatus::Ancestor, diagnostic: None },
        )
    } else {
        ClassifyStep::CheckAncestor
    }
}

/// Consume the ancestor-test outcome: an ancestor is safe outright, a hard
/// failure is `Unknown`, and a plain "no" moves on to the tree test.
pub fn classify_on_ancestor(outcome: Result<bool, String>) -> (r: ClassifyStep)
    ensures
        match bool_outcome_view(outcome) {
            Ok(true) => r matches ClassifyStep::Done(c) && classification_view(c) == (
                IntegrationStatus::Ancestor,
                None::<Seq<char>>,
            ),
            Ok(false) => r is CheckTrees,
            Err(e) => r matches ClassifyStep::Done(c) && classification_view(c) == (
                IntegrationStatus::Unknown,
                Some(e),
            ),
        },
{
    match outcome {
        Ok(true) => ClassifyStep::Done(
            Classification { status: IntegrationStatus::Ancestor, diagnostic: None },
        ),
        Ok(false) => ClassifyStep::CheckTrees,
        Err(e) => ClassifyStep::Done(
            Classification { status: IntegrationStatus::Unknown, diagnostic: Some(e) },
        ),
    }
}

/// Consume the tree-identity outcome: identical trees are safe, differing
/// trees move on to the merge simulation against the target's tree.
pub fn classify_on_trees(outcome: Result<(String, String), String>) -> (r: ClassifyStep)
    ensures
        match trees_outcome_view(outcome) {
            Ok((branch_tree, target_tree)) => if branch_tree == target_tree {
                r matches ClassifyStep::Done(c) && classification_view(c) == (
                    IntegrationStatus::TreeMatch,
                    None::<Seq<char>>,
                )
            } else {
                r matches ClassifyStep::CheckMerge { target_tree: t } && t@ == target_tree
            },
            Err(e) => r matches ClassifyStep::Done(c) && classification_view(c) == (
                IntegrationStatus::Unknown,
                Some(e),
            ),
        },
{
    match outcome {
        Ok((branch_tree, target_tree)) => {
            if crate::text::str_eq(branch_tree.as_str(), target_tree.as_str()) {
                ClassifyStep::Done(
                    Classification { status: IntegrationStatus::TreeMatch, diagnostic: None },
                )
            } else {
                ClassifyStep::CheckMerge { target_tree }
            }
        },
        Err(e) => ClassifyStep::Done(
            Classification { status: IntegrationStatus::Unknown, diagnostic: Some(e) },
        ),
    }
}

/// Consume the merge-simulation outcome: a clean merge that reproduces the
/// target's tree adds nothing, so the branch is subsumed; anything else
/// means unintegrated content.
pub fn classify_on_merge(target_tree: &str, outcome: Result<MergeSim, String>) -> (r:
    ClassifyStep)
    ensures
        match merge_outcome_view(outcome) {
            Ok(MergeSimView::Clean { tree }) => if tree == target_tree@ {
                r matches ClassifyStep::Done(c) && classification_view(c) == (
                    IntegrationStatus::MergeNoOp,
                    None::<Seq<char>>,
                )
            } else {
                r matches ClassifyStep::Done(c) && classification_view(c) == (
                    IntegrationStatus::NotIntegrated,
                    None::<Seq<char>>,
                )
            },
            Ok(MergeSimView::Conflicted) => r matches ClassifyStep::Done(c)
                && classification_view(c) == (
                IntegrationStatus::NotIntegrated,
                None::<Seq<char>>,
            ),
            Err(e) => r matches ClassifyStep::Done(c) && classification_view(c) == (
                IntegrationStatus::Unknown,
                Some(e),
            ),
        },
{
    match outcome {
        Ok(MergeSim::Clean { tree }) => {
            if crate::text::str_eq(tree.as_str(), target_tree) {
                ClassifyStep::Done(
                    Classification { status: IntegrationStatus::MergeNoOp, diagnostic: None },
                )
            } else {
                ClassifyStep::Done(
                    Classification { status: IntegrationStatus::NotIntegrated, diagnostic: None },
                )
            }
        },
        Ok(MergeSim::Conflicted) => ClassifyStep::Done(
            Classification { status: IntegrationStatus::NotIntegrated, diagnostic: None },
        ),
        Err(e) => ClassifyStep::Done(
            Classification { status: IntegrationStatus::Unknown, diagnostic: Some(e) },
        ),
    }
}

/// The queries a step still needs, in issue order. A decided step needs
/// none: the checks short-circuit, and the expensive merge simulation is
/// only ever named once the first two checks were inconclusive.
pub fn queries_for(step: &ClassifyStep, branch: &str, target: &str) -> (r: Vec<GitQuery>)
    ensures
        match step {
            ClassifyStep::CheckAncestor => r@.len() == 1 && (r@[0] matches
                GitQuery::IsAncestor { ancestor, descendant } && ancestor@ == branch@
                && descendant@ == target@),
            ClassifyStep::CheckTrees => r@.len() == 2 && (r@[0] matches
                GitQuery::TreeId { reference } && reference@ == branch@) && (r@[1] matches
                GitQuery::TreeId { reference } && reference@ == target@),
            ClassifyStep::CheckMerge { .. } => r@.len() == 1 && (r@[0] matches
                GitQuery::MergeSimulation { target: t, branch: b } && t@ == target@ && b@
                == branch@),
            ClassifyStep::Done(..) => r@.len() == 0,
        },
{
    let mut v: Vec<GitQuery> = Vec::new();
    match step {
        ClassifyStep::CheckAncestor => {
            v.push(
                GitQuery::IsAncestor { ancestor: branch.to_owned(), descendant: target.to_owned() },
            );
        },
        ClassifyStep::CheckTrees => {
            v.push(GitQuery::TreeId { reference: branch.to_owned() });
            v.push(GitQuery::TreeId { reference: target.to_owned() });
        },
        ClassifyStep::CheckMerge { .. } => {
            v.push(GitQuery::MergeSimulation { target: target.to_owned(), branch: branch.to_owned() });
        },
        ClassifyStep::Done(..) => {},
    }
    v
}

/// Classify from the complete set of query outcomes. The step functions
/// above are the lazy form the driver uses; this is their composition, and
/// its result is exactly `classification_of` on the outcome views.
pub fn classify(
    branch: &str,
    target: &str,
    anc: Result<bool, String>,
    trees: Result<(String, String), String>,
    merge: Result<MergeSim, String>,
) -> (r: Classification)
    ensures
        classification_view(r) == classification_of(
            branch@,
            target@,
            bool_outcome_view(anc),
            trees_outcome_view(trees),
            merge_outcome_view(merge),
        ),
{
    let step = classify_start(branch, target);
    let step = match step {
        ClassifyStep::CheckAncestor => classify_on_ancestor(anc),
        other => other,
    };
    let step = match step {
        ClassifyStep::CheckTrees => classify_on_trees(trees),
        other => other,
    };
    let step = match step {
        ClassifyStep::CheckMerge { target_tree } => classify_on_merge(target_tree.as_str(), merge),
        other => other,
    };
    match step {
        ClassifyStep::Done(c) => c,
        _ => vstd::pervasive::unreached(),
    }
}

/// Classification is a function of the observed query outcomes alone:
/// classifying `(branch, target)` twice with no intervening repository
/// mutation (so the port reports the same outcomes) yields the same result.
pub proof fn lemma_classification_idempotent(
    branch: Seq<char>,
    target: Seq<char>,
    anc1: Result<bool, String>,
    trees1: Result<(String, String), String>,
    merge1: Result<MergeSim, String>,
    anc2: Result<bool, String>,
    trees2: Result<(String, String), String>,
    merge2: Result<MergeSim, String>,
)
    requires
        bool_outcome_view(anc1) == bool_outcome_view(anc2),
        trees_outcome_view(trees1) == trees_outcome_view(trees2),
        merge_outcome_view(merge1) == merge_outcome_view(merge2),
    ensures
        classification_of(
            branch,
            target,
            bool_outcome_view(anc1),
            trees_outcome_view(trees1),
            merge_outcome_view(merge1),
        ) == classification_of(
            branch,
            target,
            bool_outcome_view(anc2),
            trees_outcome_view(trees2),
            merge_outcome_view(merge2),
        ),
{
}

/// If the port answered that `branch` is an ancestor of `target`, the
/// classification is `Ancestor` — in particular never `NotIntegrated` —
/// whatever the other checks would have said.
pub proof fn lemma_ancestor_implies_safe(
    branch: Seq<char>,
    target: Seq<char>,
    trees: Result<(Seq<char>, Seq<char>), Seq<char>>,
    merge: Result<MergeSimView, Seq<char>>,
)
    ensures
        classification_of(branch, target, Ok(true), trees, merge).0 == IntegrationStatus::Ancestor,
        classification_of(branch, target, Ok(true), trees, merge).0
            != IntegrationStatus::NotIntegrated,
{
}

/// Identical tip trees classify as `TreeMatch` even when the ancestor check
/// failed: divergent commit histories that converged on the same content
/// are safe.
pub proof fn lemma_tree_identity_implies_safe(
    branch: Seq<char>,
    target: Seq<char>,
    tree: Seq<char>,
    merge: Result<MergeSimView, Seq<char>>,
)
    requires
        branch != target,
    ensures
        classification_of(branch, target, Ok(false), Ok((tree, tree)), merge).0
            == IntegrationStatus::TreeMatch,
        is_safe(classification_of(branch, target, Ok(false), Ok((tree, tree)), merge).0),
{
}

/// A squash-merged branch whose target has since advanced: the trees
/// differ, but a clean merge simulation that reproduces the target's tree
/// classifies as `MergeNoOp`, not `NotIntegrated`.
pub proof fn lemma_merge_noop_detected(
    branch: Seq<char>,
    target: Seq<char>,
    branch_tree: Seq<char>,
    target_tree: Seq<char>,
)
    requires
        branch != target,
        branch_tree != target_tree,
    ensures
        classification_of(
            branch,
            target,
            Ok(false),
            Ok((branch_tree, target_tree)),
            Ok(MergeSimView::Clean { tree: target_tree }),
        ).0 == IntegrationStatus::MergeNoOp,
{
}

/// A branch with a commit absent from the target whose content survives no
/// check — not an ancestor, trees differ, and the merge simulation either
/// conflicts or produces a tree other than the target's — classifies as
/// `NotIntegrated`.
pub proof fn lemma_non_integration_detected(
    branch: Seq<char>,
    target: Seq<char>,
    branch_tree: Seq<char>,
    target_tree: Seq<char>,
    merge: MergeSimView,
)
    requires
        branch != target,
        branch_tree != target_tree,
        match merge {
            MergeSimView::Clean { tree } => tree != target_tree,
            MergeSimView::Conflicted => true,
        },
    ensures
        classification_of(branch, target, Ok(false), Ok((branch_tree, target_tree)), Ok(merge)).0
            == IntegrationStatus::NotIntegrated,
{
}

}
