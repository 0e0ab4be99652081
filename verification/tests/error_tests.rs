use worktrunk::error::{
    branch_already_exists, branch_deletion_failed, cannot_remove_main_worktree,
    conflicting_changes, detached_head, error_message, exit_code, from_io_error,
    is_command_not_approved, merge_commits_found, no_worktree_found, not_fast_forward,
    not_interactive, parse_error, push_failed, rebase_conflict, switch_failed,
    uncommitted_changes, untracked_files, worktree_creation_failed, worktree_missing,
    worktree_path_exists, worktree_path_occupied, worktree_removal_failed, HookType,
    WorktrunkError,
};

#[test]
fn display_worktree_removal_failed() {
    let msg = worktree_removal_failed(
        "feature-x",
        "/tmp/repo.feature-x",
        "fatal: worktree is dirty\nerror: could not remove worktree",
    );
    assert_eq!(
        msg,
        "\u{274c} Failed to remove worktree for feature-x at /tmp/repo.feature-x\n  fatal: worktree is dirty\n  error: could not remove worktree"
    );
}

#[test]
fn display_push_failed() {
    let msg = push_failed(
        "To /Users/user/workspace/repo/.git\n ! [remote rejected] HEAD -> main (Up-to-date check failed)\nerror: failed to push some refs to '/Users/user/workspace/repo/.git'",
    );
    assert_eq!(
        msg,
        "\u{274c} Push failed\n  To /Users/user/workspace/repo/.git\n   ! [remote rejected] HEAD -> main (Up-to-date check failed)\n  error: failed to push some refs to '/Users/user/workspace/repo/.git'"
    );
}

#[test]
fn simple_messages_have_expected_text() {
    assert_eq!(error_message("boom"), "\u{274c} boom");
    assert_eq!(parse_error("bad"), "\u{274c} bad");
    assert!(detached_head().contains("detached HEAD"));
    assert!(untracked_files().contains("untracked files"));
    assert!(uncommitted_changes().contains("uncommitted changes"));
    assert!(branch_already_exists("dev").contains("Branch dev already exists"));
    assert!(worktree_missing("dev").contains("Worktree directory missing for dev"));
    assert_eq!(
        no_worktree_found("dev"),
        "\u{274c} No worktree found for branch dev"
    );
    assert!(merge_commits_found().contains("merge commits"));
    assert!(not_interactive().contains("non-interactive"));
    assert!(cannot_remove_main_worktree().contains("Cannot remove main worktree"));
    assert!(worktree_path_exists("/x").contains("Directory already exists: /x"));
}

#[test]
fn block_messages_trim_and_indent() {
    // a blank diagnostic leaves the header alone
    assert_eq!(switch_failed("dev", "   \n  "), "\u{274c} Failed to switch to dev");
    assert_eq!(
        branch_deletion_failed("dev", "boom"),
        "\u{274c} Failed to delete branch dev\n  boom"
    );
    let created = worktree_creation_failed("dev", Some("main"), "no space");
    assert_eq!(
        created,
        "\u{274c} Failed to create worktree for dev from base main\n  no space"
    );
}

#[test]
fn occupied_and_conflict_messages() {
    let occupied = worktree_path_occupied("dev", "/repo.dev", Some("other"));
    assert!(occupied.contains("Cannot create worktree for dev"));
    assert!(occupied.contains("/repo.dev (currently on other)"));
    let plain = worktree_path_occupied("dev", "/repo.dev", None);
    assert!(!plain.contains("currently on"));

    let files = vec!["a.txt".to_string(), "b.txt".to_string()];
    let msg = conflicting_changes(&files, "/repo.dev");
    assert!(msg.contains("  a.txt\n  b.txt"));
    assert!(msg.contains("Commit or stash these changes in /repo.dev first"));

    let nff = not_fast_forward("main", "commits", "files");
    assert!(nff.contains("Can't push to local main branch"));
    assert!(nff.contains("\ncommits"));
    assert!(nff.contains("\nfiles"));

    let rc = rebase_conflict("main", "");
    assert!(rc.contains("Resolve conflicts"));
    let rc2 = rebase_conflict("main", "CONFLICT in a.txt");
    assert!(rc2.contains("\n  CONFLICT in a.txt"));
}

#[test]
fn exit_code_extraction() {
    let child = WorktrunkError::ChildProcessExited {
        code: 130,
        message: "interrupted".to_string(),
    };
    assert_eq!(exit_code(&child), Some(130));
    let hook = WorktrunkError::HookCommandFailed {
        hook_type: HookType::PostCreate,
        command_name: Some("setup".to_string()),
        error: "boom".to_string(),
        exit_code: Some(2),
    };
    assert_eq!(exit_code(&hook), Some(2));
    assert_eq!(exit_code(&WorktrunkError::CommandNotApproved), None);
}

#[test]
fn command_not_approved_is_silent() {
    assert!(is_command_not_approved(&WorktrunkError::CommandNotApproved));
    let child = WorktrunkError::ChildProcessExited {
        code: 1,
        message: "x".to_string(),
    };
    assert!(!is_command_not_approved(&child));
    assert_eq!(WorktrunkError::CommandNotApproved.message(), "");
}

#[test]
fn hook_failure_message_names_hook() {
    let hook = WorktrunkError::HookCommandFailed {
        hook_type: HookType::PreMerge,
        command_name: Some("lint".to_string()),
        error: "exit 1".to_string(),
        exit_code: Some(1),
    };
    let msg = hook.message();
    assert!(msg.contains("pre-merge command failed: lint: exit 1"));
    assert!(msg.contains("--no-verify"));
}

#[test]
fn from_io_error_parses_embedded_exit_codes() {
    match from_io_error("CHILD_EXIT_CODE:130 Command failed by signal") {
        Some(WorktrunkError::ChildProcessExited { code, message }) => {
            assert_eq!(code, 130);
            assert_eq!(message, "Command failed by signal");
        }
        other => panic!("unexpected: {:?}", other),
    }
    assert!(from_io_error("plain io error").is_none());
    assert!(from_io_error("CHILD_EXIT_CODE:abc oops").is_none());
    assert!(from_io_error("CHILD_EXIT_CODE:12").is_none());
    match from_io_error("CHILD_EXIT_CODE:-9 killed") {
        Some(WorktrunkError::ChildProcessExited { code, message }) => {
            assert_eq!(code, -9);
            assert_eq!(message, "killed");
        }
        other => panic!("unexpected: {:?}", other),
    }
}
