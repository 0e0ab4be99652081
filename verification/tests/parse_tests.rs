use worktrunk::parse::{
    interpret_upstream, parse_ahead_behind, parse_count_pair, parse_numstat, parse_timestamp,
    parse_worktree_list,
};

#[test]
fn count_pair_reads_left_and_right() {
    assert_eq!(parse_count_pair("3\t5\n"), Some((3, 5)));
    assert_eq!(parse_count_pair("  0\t0  "), Some((0, 0)));
    assert_eq!(parse_count_pair("3 5"), None);
    assert_eq!(parse_count_pair("x\t5"), None);
    assert_eq!(parse_count_pair(""), None);
}

#[test]
fn ahead_behind_swaps_to_ahead_first() {
    // for base...head the left count is "behind", the right "ahead"
    assert_eq!(parse_ahead_behind("2\t7\n"), Some((7, 2)));
}

#[test]
fn timestamps_parse_signed_seconds() {
    assert_eq!(parse_timestamp("1736900000\n"), Some(1736900000));
    assert_eq!(parse_timestamp("  -86400 "), Some(-86400));
    assert_eq!(parse_timestamp("not-a-number"), None);
    assert_eq!(parse_timestamp(""), None);
    // beyond the i64 range
    assert_eq!(parse_timestamp("99999999999999999999"), None);
}

#[test]
fn numstat_sums_added_and_deleted() {
    let out = "3\t1\tsrc/a.rs\n10\t0\tsrc/b.rs\n";
    assert_eq!(parse_numstat(out), Some((13, 1)));
}

#[test]
fn numstat_counts_binary_files_as_zero() {
    let out = "-\t-\tassets/logo.png\n2\t2\tREADME.md\n";
    assert_eq!(parse_numstat(out), Some((2, 2)));
}

#[test]
fn numstat_empty_output_is_zero() {
    assert_eq!(parse_numstat(""), Some((0, 0)));
    assert_eq!(parse_numstat("\n"), Some((0, 0)));
}

#[test]
fn numstat_rejects_malformed_lines() {
    assert_eq!(parse_numstat("3 1 src/a.rs\n"), None);
    assert_eq!(parse_numstat("x\t1\tsrc/a.rs\n"), None);
}

#[test]
fn worktree_list_parses_porcelain_blocks() {
    let out = "worktree /repo\nHEAD 1111111111111111111111111111111111111111\nbranch refs/heads/main\n\nworktree /repo.feature\nHEAD 2222222222222222222222222222222222222222\nbranch refs/heads/feature\n\nworktree /repo.detached\nHEAD 3333333333333333333333333333333333333333\ndetached\n";
    let worktrees = parse_worktree_list(out);
    assert_eq!(worktrees.len(), 3);
    assert_eq!(worktrees[0].path, "/repo");
    assert_eq!(worktrees[0].branch.as_deref(), Some("main"));
    assert_eq!(
        worktrees[0].head,
        "1111111111111111111111111111111111111111"
    );
    assert_eq!(worktrees[1].path, "/repo.feature");
    assert_eq!(worktrees[1].branch.as_deref(), Some("feature"));
    assert_eq!(worktrees[2].path, "/repo.detached");
    assert_eq!(worktrees[2].branch, None);
    assert_eq!(
        worktrees[2].head,
        "3333333333333333333333333333333333333333"
    );
}

#[test]
fn worktree_list_handles_bare_entries_and_empty_output() {
    let out = "worktree /srv/repo.git\nbare\n";
    let worktrees = parse_worktree_list(out);
    assert_eq!(worktrees.len(), 1);
    assert_eq!(worktrees[0].path, "/srv/repo.git");
    assert_eq!(worktrees[0].branch, None);
    assert_eq!(worktrees[0].head, "");
    assert!(parse_worktree_list("").is_empty());
}

#[test]
fn upstream_interpretation_distinguishes_absence_from_failure() {
    let resolved = interpret_upstream(Ok("origin/feature\n".to_string())).unwrap();
    assert_eq!(resolved.as_deref(), Some("origin/feature"));
    let absent = interpret_upstream(Err(
        "fatal: no upstream configured for branch 'feature'".to_string(),
    ))
    .unwrap();
    assert_eq!(absent, None);
    let failure = interpret_upstream(Err("fatal: bad revision".to_string()));
    assert!(failure.is_err());
}
