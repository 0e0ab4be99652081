//! Semantic errors and user-facing message builders.
//!
//! `WorktrunkError` is a minimal enum for errors that need special handling
//! (exit-code extraction, silent errors). The free functions build the exact
//! message text shown for each failure; every builder's contract states the
//! full text it returns.

use vstd::prelude::*;
use vstd::string::*;

use crate::text;

verus! {

/// Which lifecycle hook a command ran under.
#[derive(Clone, Copy, PartialEq, Eq, Structural, Debug)]
pub enum HookType {
    PostCreate,
    PostStart,
    PreMerge,
}

impl HookType {
    /// The hook's name as it appears in configuration and messages.
    pub open spec fn name_spec(self) -> Seq<char> {
        match self {
            HookType::PostCreate => "post-create"@,
            HookType::PostStart => "post-start"@,
            HookType::PreMerge => "pre-merge"@,
        }
    }

    pub fn name(&self) -> (r: &'static str)
        ensures
            r@ == self.name_spec(),
    {
        match self {
            HookType::PostCreate => "post-create",
            HookType::PostStart => "post-start",
            HookType::PreMerge => "pre-merge",
        }
    }
}

/// Semantic errors that require special handling at the command boundary.
///
/// Most failures travel as formatted message strings; this enum is only for
/// cases that need exit-code extraction or silent treatment.
#[derive(Debug)]
pub enum WorktrunkError {
    /// Child process exited with a non-zero code (preserves the exit code).
    ChildProcessExited { code: i32, message: String },
    /// A hook command failed.
    HookCommandFailed {
        hook_type: HookType,
        command_name: Option<String>,
        error: String,
        exit_code: Option<i32>,
    },
    /// A command was not approved by the user (silent error).
    CommandNotApproved,
}

/// The exit code an error carries, if any.
pub open spec fn exit_code_spec(err: &WorktrunkError) -> Option<i32> {
    match err {
        WorktrunkError::ChildProcessExited { code, .. } => Some(*code),
        WorktrunkError::HookCommandFailed { exit_code, .. } => *exit_code,
        WorktrunkError::CommandNotApproved => None,
    }
}

/// Extract the exit code from an error, if applicable.
pub fn exit_code(err: &WorktrunkError) -> (r: Option<i32>)
    ensures
        r == exit_code_spec(err),
{
    match err {
        WorktrunkError::ChildProcessExited { code, .. } => Some(*code),
        WorktrunkError::HookCommandFailed { exit_code, .. } => *exit_code,
        WorktrunkError::CommandNotApproved => None,
    }
}

/// Check whether an error is the silent `CommandNotApproved`.
pub fn is_command_not_approved(err: &WorktrunkError) -> (r: bool)
    ensures
        r == (err is CommandNotApproved),
{
    match err {
        WorktrunkError::CommandNotApproved => true,
        _ => false,
    }
}

impl WorktrunkError {
    /// The message text shown for this error.
    pub open spec fn message_spec(&self) -> Seq<char> {
        match self {
            WorktrunkError::ChildProcessExited { message, .. } => "\u{274c} "@ + message@,
            WorktrunkError::HookCommandFailed { hook_type, command_name, error, .. } => {
                let name_suffix = match command_name {
                    Some(n) => ": "@ + n@,
                    None => Seq::<char>::empty(),
                };
                "\u{274c} "@ + hook_type.name_spec() + " command failed"@ + name_suffix + ": "@
                    + error@ + "\n\n\u{1f4a1} Use --no-verify to skip "@ + hook_type.name_spec()
                    + " commands"@
            },
            WorktrunkError::CommandNotApproved => Seq::<char>::empty(),
        }
    }

    /// Render this error's message (the silent error renders as empty).
    pub fn message(&self) -> (r: String)
        ensures
            r@ == self.message_spec(),
    {
        match self {
            WorktrunkError::ChildProcessExited { message, .. } => {
                let mut s = String::new();
                s.append("\u{274c} ");
                s.append(message.as_str());
                proof {
                    assert(s@ =~= self.message_spec());
                }
                s
            },
            WorktrunkError::HookCommandFailed { hook_type, command_name, error, .. } => {
                let mut s = String::new();
                s.append("\u{274c} ");
                s.append(hook_type.name());
                s.append(" command failed");
                match command_name {
                    Some(n) => {
                        s.append(": ");
                        s.append(n.as_str());
                    },
                    None => {},
                }
                s.append(": ");
                s.append(error.as_str());
                s.append("\n\n\u{1f4a1} Use --no-verify to skip ");
                s.append(hook_type.name());
                s.append(" commands");
                proof {
                    assert(s@ =~= self.message_spec());
                }
                s
            },
            WorktrunkError::CommandNotApproved => String::new(),
        }
    }
}

/// What `from_io_error` recovers from a child-process error message: an
/// embedded `CHILD_EXIT_CODE:{code} {message}` protocol line.
pub open spec fn child_exit_parse(msg: Seq<char>) -> Option<(i32, Seq<char>)> {
    let p = "CHILD_EXIT_CODE:"@;
    if text::has_prefix(msg, p) {
        let rest = msg.subrange(p.len() as int, msg.len() as int);
        let i = text::first_space(rest);
        if i >= 0 {
            match text::parse_i32_spec(rest.subrange(0, i)) {
                Some(code) => Some((code, rest.subrange(i + 1, rest.len() as int))),
                None => None,
            }
        } else {
            None
        }
    } else {
        None
    }
}

/// Recover a `ChildProcessExited` error from an I/O error message.
///
/// The streaming executor embeds exit codes in error messages as
/// `CHILD_EXIT_CODE:{code} {original_message}`; this parses that protocol
/// back out. Any other message yields `None`.
pub fn from_io_error(msg: &str) -> (r: Option<WorktrunkError>)
    ensures
        match child_exit_parse(msg@) {
            Some((code, message)) => r matches Some(e) && (e matches
                WorktrunkError::ChildProcessExited { code: c, message: m } && c == code && m@
                == message),
            None => r is None,
        },
{
    let prefix = "CHILD_EXIT_CODE:";
    if !text::starts_with_str(msg, prefix) {
        return None;
    }
    let plen = prefix.unicode_len();
    let mlen = msg.unicode_len();
    let rest = msg.substring_char(plen, mlen);
    let ghost rest_view = msg@.subrange(prefix@.len() as int, msg@.len() as int);
    match text::find_char(rest, ' ') {
        Some(i) => {
            proof {
                text::lemma_first_space_characterize(rest@, i as int);
            }
            let code_part = rest.substring_char(0, i);
            let rlen = rest.unicode_len();
            let message_part = rest.substring_char(i + 1, rlen);
            match text::parse_i32(code_part) {
                Some(code) => Some(
                    WorktrunkError::ChildProcessExited {
                        code,
                        message: message_part.to_owned(),
                    },
                ),
                None => None,
            }
        },
        None => {
            proof {
                text::lemma_first_space_none(rest@);
            }
            None
        },
    }
}

}

verus! {

/// A header followed by the trimmed diagnostic text in a gutter block, or
/// the header alone when the diagnostic is blank.
pub open spec fn error_block_spec(header: Seq<char>, error: Seq<char>) -> Seq<char> {
    let trimmed = text::trim_spec(error);
    if trimmed.len() == 0 {
        header
    } else {
        header + seq!['\n'] + text::with_gutter(trimmed)
    }
}

/// Format an error with a header and gutter content.
fn format_error_block(header: String, error: &str) -> (r: String)
    ensures
        r@ == error_block_spec(header@, error@),
{
    let trimmed = text::trim(error);
    if trimmed.unicode_len() == 0 {
        header
    } else {
        let mut s = header;
        text::push_char(&mut s, '\n');
        let g = text::format_with_gutter(trimmed);
        s.append(g.as_str());
        s
    }
}

pub open spec fn error_message_spec(msg: Seq<char>) -> Seq<char> {
    "\u{274c} "@ + msg
}

/// Generic formatted error message.
pub fn error_message(msg: &str) -> (r: String)
    ensures
        r@ == error_message_spec(msg@),
{
    let mut s = String::new();
    s.append("\u{274c} ");
    s.append(msg);
    s
}

/// Parse error.
pub fn parse_error(msg: &str) -> (r: String)
    ensures
        r@ == error_message_spec(msg@),
{
    error_message(msg)
}

pub open spec fn detached_head_spec() -> Seq<char> {
    "\u{274c} Not on a branch (detached HEAD)\n\n\u{1f4a1} You are in detached HEAD state"@
}

/// Detached HEAD error.
pub fn detached_head() -> (r: String)
    ensures
        r@ == detached_head_spec(),
{
    let mut s = String::new();
    s.append("\u{274c} Not on a branch (detached HEAD)\n\n\u{1f4a1} You are in detached HEAD state");
    proof {
        assert(s@ =~= detached_head_spec());
    }
    s
}

pub open spec fn untracked_files_spec() -> Seq<char> {
    "\u{274c} Working tree has untracked files\n\n\u{1f4a1} Add them with 'git add' and try again"@
}

/// Untracked files error.
pub fn untracked_files() -> (r: String)
    ensures
        r@ == untracked_files_spec(),
{
    let mut s = String::new();
    s.append(
        "\u{274c} Working tree has untracked files\n\n\u{1f4a1} Add them with 'git add' and try again",
    );
    proof {
        assert(s@ =~= untracked_files_spec());
    }
    s
}

pub open spec fn uncommitted_changes_spec() -> Seq<char> {
    "\u{274c} Working tree has uncommitted changes\n\n\u{1f4a1} Commit or stash them first"@
}

/// Uncommitted changes error.
pub fn uncommitted_changes() -> (r: String)
    ensures
        r@ == uncommitted_changes_spec(),
{
    let mut s = String::new();
    s.append(
        "\u{274c} Working tree has uncommitted changes\n\n\u{1f4a1} Commit or stash them first",
    );
    proof {
        assert(s@ =~= uncommitted_changes_spec());
    }
    s
}

pub open spec fn branch_already_exists_spec(branch: Seq<char>) -> Seq<char> {
    "\u{274c} Branch "@ + branch + " already exists\n\n\u{1f4a1} Remove --create flag to switch to it"@
}

/// Branch already exists error.
pub fn branch_already_exists(branch: &str) -> (r: String)
    ensures
        r@ == branch_already_exists_spec(branch@),
{
    let mut s = String::new();
    s.append("\u{274c} Branch ");
    s.append(branch);
    s.append(" already exists\n\n\u{1f4a1} Remove --create flag to switch to it");
    proof {
        assert(s@ =~= branch_already_exists_spec(branch@));
    }
    s
}

pub open spec fn worktree_missing_spec(branch: Seq<char>) -> Seq<char> {
    "\u{274c} Worktree directory missing for "@ + branch
        + "\n\n\u{1f4a1} Run 'git worktree prune' to clean up"@
}

/// Worktree missing error.
pub fn worktree_missing(branch: &str) -> (r: String)
    ensures
        r@ == worktree_missing_spec(branch@),
{
    let mut s = String::new();
    s.append("\u{274c} Worktree directory missing for ");
    s.append(branch);
    s.append("\n\n\u{1f4a1} Run 'git worktree prune' to clean up");
    proof {
        assert(s@ =~= worktree_missing_spec(branch@));
    }
    s
}

pub open spec fn no_worktree_found_spec(branch: Seq<char>) -> Seq<char> {
    "\u{274c} No worktree found for branch "@ + branch
}

/// No worktree found error.
pub fn no_worktree_found(branch: &str) -> (r: String)
    ensures
        r@ == no_worktree_found_spec(branch@),
{
    let mut s = String::new();
    s.append("\u{274c} No worktree found for branch ");
    s.append(branch);
    proof {
        assert(s@ =~= no_worktree_found_spec(branch@));
    }
    s
}

pub open spec fn worktree_path_occupied_spec(
    branch: Seq<char>,
    path: Seq<char>,
    occupant: Option<Seq<char>>,
) -> Seq<char> {
    let occupant_note = match occupant {
        Some(b) => " (currently on "@ + b + ")"@,
        None => Seq::<char>::empty(),
    };
    "\u{274c} Cannot create worktree for "@ + branch
        + ": target path already exists\n\n\u{1f4a1} Reuse the existing worktree at "@ + path
        + occupant_note + " or remove it before retrying"@
}

/// Worktree path occupied error.
pub fn worktree_path_occupied(branch: &str, path: &str, occupant: Option<&str>) -> (r: String)
    ensures
        r@ == worktree_path_occupied_spec(
            branch@,
            path@,
            match occupant {
                Some(o) => Some(o@),
                None => None,
            },
        ),
{
    let mut s = String::new();
    s.append("\u{274c} Cannot create worktree for ");
    s.append(branch);
    s.append(": target path already exists\n\n\u{1f4a1} Reuse the existing worktree at ");
    s.append(path);
    match occupant {
        Some(b) => {
            s.append(" (currently on ");
            s.append(b);
            s.append(")");
        },
        None => {},
    }
    s.append(" or remove it before retrying");
    proof {
        assert(s@ =~= worktree_path_occupied_spec(
            branch@,
            path@,
            match occupant {
                Some(o) => Some(o@),
                None => None,
            },
        ));
    }
    s
}

pub open spec fn conflicting_changes_spec(
    files: Seq<Seq<char>>,
    worktree_path: Seq<char>,
) -> Seq<char> {
    let listing: Seq<char> = if files.len() == 0 {
        Seq::<char>::empty()
    } else {
        text::with_gutter(text::join_lines(files))
    };
    "\u{274c} Cannot push: conflicting uncommitted changes in:\n\n"@ + listing
        + "\n\u{1f4a1} Commit or stash these changes in "@ + worktree_path + " first"@
}

/// Conflicting changes error.
pub fn conflicting_changes(files: &Vec<String>, worktree_path: &str) -> (r: String)
    ensures
        r@ == conflicting_changes_spec(files.deep_view(), worktree_path@),
{
    let mut s = String::new();
    s.append("\u{274c} Cannot push: conflicting uncommitted changes in:\n\n");
    if files.len() > 0 {
        let joined = text::join_with_newlines(files);
        let listing = text::format_with_gutter(joined.as_str());
        s.append(listing.as_str());
    }
    s.append("\n\u{1f4a1} Commit or stash these changes in ");
    s.append(worktree_path);
    s.append(" first");
    proof {
        assert(s@ =~= conflicting_changes_spec(files.deep_view(), worktree_path@));
    }
    s
}

pub open spec fn not_fast_forward_spec(
    target_branch: Seq<char>,
    commits_formatted: Seq<char>,
    files_formatted: Seq<char>,
) -> Seq<char> {
    let commits_part: Seq<char> = if commits_formatted.len() == 0 {
        Seq::<char>::empty()
    } else {
        seq!['\n'] + commits_formatted
    };
    let files_part: Seq<char> = if files_formatted.len() == 0 {
        Seq::<char>::empty()
    } else {
        seq!['\n'] + files_formatted
    };
    "\u{274c} Can't push to local "@ + target_branch + " branch: it has newer commits\n"@
        + commits_part + files_part + "\n\u{1f4a1} Use 'wt merge' to rebase your changes onto "@
        + target_branch
}

/// Not fast-forward error.
pub fn not_fast_forward(target_branch: &str, commits_formatted: &str, files_formatted: &str) -> (r:
    String)
    ensures
        r@ == not_fast_forward_spec(target_branch@, commits_formatted@, files_formatted@),
{
    let mut s = String::new();
    s.append("\u{274c} Can't push to local ");
    s.append(target_branch);
    s.append(" branch: it has newer commits\n");
    if commits_formatted.unicode_len() > 0 {
        text::push_char(&mut s, '\n');
        s.append(commits_formatted);
    }
    if files_formatted.unicode_len() > 0 {
        text::push_char(&mut s, '\n');
        s.append(files_formatted);
    }
    s.append("\n\u{1f4a1} Use 'wt merge' to rebase your changes onto ");
    s.append(target_branch);
    proof {
        assert(s@ =~= not_fast_forward_spec(target_branch@, commits_formatted@, files_formatted@));
    }
    s
}

pub open spec fn merge_commits_found_spec() -> Seq<char> {
    "\u{274c} Found merge commits in push range\n\n\u{1f4a1} Use --allow-merge-commits to push non-linear history"@
}

/// Merge commits found error.
pub fn merge_commits_found() -> (r: String)
    ensures
        r@ == merge_commits_found_spec(),
{
    let mut s = String::new();
    s.append(
        "\u{274c} Found merge commits in push range\n\n\u{1f4a1} Use --allow-merge-commits to push non-linear history",
    );
    proof {
        assert(s@ =~= merge_commits_found_spec());
    }
    s
}

pub open spec fn not_interactive_spec() -> Seq<char> {
    "\u{274c} Cannot prompt for approval in non-interactive environment\n\n\u{1f4a1} In CI/CD, use --force to skip prompts. To pre-approve commands, use 'wt beta ask-approvals'"@
}

/// Not interactive error.
pub fn not_interactive() -> (r: String)
    ensures
        r@ == not_interactive_spec(),
{
    let mut s = String::new();
    s.append(
        "\u{274c} Cannot prompt for approval in non-interactive environment\n\n\u{1f4a1} In CI/CD, use --force to skip prompts. To pre-approve commands, use 'wt beta ask-approvals'",
    );
    proof {
        assert(s@ =~= not_interactive_spec());
    }
    s
}

pub open spec fn push_failed_spec(error: Seq<char>) -> Seq<char> {
    error_block_spec("\u{274c} Push failed"@, error)
}

/// Push failed error.
pub fn push_failed(error: &str) -> (r: String)
    ensures
        r@ == push_failed_spec(error@),
{
    let mut header = String::new();
    header.append("\u{274c} Push failed");
    proof {
        assert(header@ =~= "\u{274c} Push failed"@);
    }
    format_error_block(header, error)
}

pub open spec fn rebase_conflict_spec(target_branch: Seq<char>, git_output: Seq<char>) -> Seq<
    char,
> {
    let header = "\u{274c} Rebase onto "@ + target_branch + " incomplete"@;
    if git_output.len() == 0 {
        header
            + "\n\n\u{1f4a1} Resolve conflicts and run 'git rebase --continue'\n\u{1f4a1} Or abort with 'git rebase --abort'"@
    } else {
        header + seq!['\n'] + text::with_gutter(git_output)
    }
}

/// Rebase conflict error.
pub fn rebase_conflict(target_branch: &str, git_output: &str) -> (r: String)
    ensures
        r@ == rebase_conflict_spec(target_branch@, git_output@),
{
    let mut s = String::new();
    s.append("\u{274c} Rebase onto ");
    s.append(target_branch);
    s.append(" incomplete");
    if git_output.unicode_len() == 0 {
        s.append(
            "\n\n\u{1f4a1} Resolve conflicts and run 'git rebase --continue'\n\u{1f4a1} Or abort with 'git rebase --abort'",
        );
    } else {
        text::push_char(&mut s, '\n');
        let g = text::format_with_gutter(git_output);
        s.append(g.as_str());
    }
    proof {
        assert(s@ =~= rebase_conflict_spec(target_branch@, git_output@));
    }
    s
}

pub open spec fn worktree_path_exists_spec(path: Seq<char>) -> Seq<char> {
    "\u{274c} Directory already exists: "@ + path
        + "\n\n\u{1f4a1} Remove the directory or use a different branch name"@
}

/// Worktree path exists error.
pub fn worktree_path_exists(path: &str) -> (r: String)
    ensures
        r@ == worktree_path_exists_spec(path@),
{
    let mut s = String::new();
    s.append("\u{274c} Directory already exists: ");
    s.append(path);
    s.append("\n\n\u{1f4a1} Remove the directory or use a different branch name");
    proof {
        assert(s@ =~= worktree_path_exists_spec(path@));
    }
    s
}

pub open spec fn worktree_creation_failed_spec(
    branch: Seq<char>,
    base_branch: Option<Seq<char>>,
    error: Seq<char>,
) -> Seq<char> {
    let base_suffix = match base_branch {
        Some(base) => " from base "@ + base,
        None => Seq::<char>::empty(),
    };
    error_block_spec("\u{274c} Failed to create worktree for "@ + branch + base_suffix, error)
}

/// Worktree creation failed error.
pub fn worktree_creation_failed(branch: &str, base_branch: Option<&str>, error: &str) -> (r:
    String)
    ensures
        r@ == worktree_creation_failed_spec(
            branch@,
            match base_branch {
                Some(b) => Some(b@),
                None => None,
            },
            error@,
        ),
{
    let mut header = String::new();
    header.append("\u{274c} Failed to create worktree for ");
    header.append(branch);
    match base_branch {
        Some(base) => {
            header.append(" from base ");
            header.append(base);
        },
        None => {},
    }
    proof {
        assert(header@ =~= "\u{274c} Failed to create worktree for "@ + branch@ + (match base_branch {
            Some(b) => " from base "@ + b@,
            None => Seq::<char>::empty(),
        }));
    }
    format_error_block(header, error)
}

pub open spec fn switch_failed_spec(branch: Seq<char>, error: Seq<char>) -> Seq<char> {
    error_block_spec("\u{274c} Failed to switch to "@ + branch, error)
}

/// Switch failed error.
pub fn switch_failed(branch: &str, error: &str) -> (r: String)
    ensures
        r@ == switch_failed_spec(branch@, error@),
{
    let mut header = String::new();
    header.append("\u{274c} Failed to switch to ");
    header.append(branch);
    proof {
        assert(header@ =~= "\u{274c} Failed to switch to "@ + branch@);
    }
    format_error_block(header, error)
}

pub open spec fn worktree_removal_failed_spec(
    branch: Seq<char>,
    path: Seq<char>,
    error: Seq<char>,
) -> Seq<char> {
    error_block_spec(
        "\u{274c} Failed to remove worktree for "@ + branch + " at "@ + path,
        error,
    )
}

/// Worktree removal failed error.
pub fn worktree_removal_failed(branch: &str, path: &str, error: &str) -> (r: String)
    ensures
        r@ == worktree_removal_failed_spec(branch@, path@, error@),
{
    let mut header = String::new();
    header.append("\u{274c} Failed to remove worktree for ");
    header.append(branch);
    header.append(" at ");
    header.append(path);
    proof {
        assert(header@ =~= "\u{274c} Failed to remove worktree for "@ + branch@ + " at "@ + path@);
    }
    format_error_block(header, error)
}

pub open spec fn branch_deletion_failed_spec(branch: Seq<char>, error: Seq<char>) -> Seq<char> {
    error_block_spec("\u{274c} Failed to delete branch "@ + branch, error)
}

/// Branch deletion failed error.
pub fn branch_deletion_failed(branch: &str, error: &str) -> (r: String)
    ensures
        r@ == branch_deletion_failed_spec(branch@, error@),
{
    let mut header = String::new();
    header.append("\u{274c} Failed to delete branch ");
    header.append(branch);
    proof {
        assert(header@ =~= "\u{274c} Failed to delete branch "@ + branch@);
    }
    format_error_block(header, error)
}

pub open spec fn cannot_remove_main_worktree_spec() -> Seq<char> {
    "\u{274c} Cannot remove main worktree\n\n\u{1f4a1} Use 'wt remove' from a secondary worktree, or 'wt switch' to change branches"@
}

/// Cannot remove main worktree error.
pub fn cannot_remove_main_worktree() -> (r: String)
    ensures
        r@ == cannot_remove_main_worktree_spec(),
{
    let mut s = String::new();
    s.append(
        "\u{274c} Cannot remove main worktree\n\n\u{1f4a1} Use 'wt remove' from a secondary worktree, or 'wt switch' to change branches",
    );
    proof {
        assert(s@ =~= cannot_remove_main_worktree_spec());
    }
    s
}

}
