//! Command configuration and the approval book-keeping: turning a command
//! entry into named (name, command) pairs, and deciding which commands of a
//! batch still need the user's approval.

use vstd::prelude::*;
use vstd::string::*;

use crate::text;

verus! {

/// A command entry in configuration: one command, an ordered list, or
/// named commands as key/command pairs.
#[derive(Debug)]
pub enum CommandConfig {
    Single(String),
    Multiple(Vec<String>),
    Named(Vec<(String, String)>),
}

/// Pairs sorted by name, lexicographically ascending.
pub open spec fn pairs_sorted(s: Seq<(String, String)>) -> bool {
    forall|i: int, j: int|
        0 <= i < j < s.len() ==> !text::lex_lt(#[trigger] s[j].0@, #[trigger] s[i].0@)
}

/// Convert a command entry to a vector of (name, command) pairs.
///
/// A single string keeps the exact prefix without numbering; an array
/// appends a 1-based index to the prefix; a named table keeps the given
/// names, sorted alphabetically for deterministic iteration order.
pub fn command_config_to_vec(config: &CommandConfig, default_prefix: &str) -> (r: Vec<
    (String, String),
>)
    ensures
        config matches CommandConfig::Single(cmd) ==> (r@.len() == 1 && r@[0].0@
            == default_prefix@ && r@[0].1@ == cmd@),
        config matches CommandConfig::Multiple(cmds) ==> (r@.len() == cmds@.len() && forall|
            i: int,
        |
            0 <= i < cmds@.len() ==> ((#[trigger] r@[i].0@) == default_prefix@ + "-"@
                + text::dec_str((i + 1) as nat) && r@[i].1@ == cmds@[i]@)),
        config matches CommandConfig::Named(pairs) ==> (pairs_sorted(r@) && r@.to_multiset()
            == pairs@.to_multiset()),
{
    match config {
        CommandConfig::Single(cmd) => {
            let name = default_prefix.to_owned();
            let command = cmd.clone();
            let ghost pair = (name, command);
            let mut v: Vec<(String, String)> = Vec::new();
            v.push((name, command));
            proof {
                assert(v@ =~= seq![pair]);
                assert(v@.len() == 1);
                assert(v@[0].0@ == default_prefix@);
                assert(v@[0].1@ == cmd@);
            }
            v
        },
        CommandConfig::Multiple(cmds) => {
            let n = cmds.len();
            let mut v: Vec<(String, String)> = Vec::new();
            let mut i: usize = 0;
            while i < n
                invariant
                    0 <= i <= n,
                    n == cmds@.len(),
                    v@.len() == i,
                    forall|k: int|
                        0 <= k < i ==> ((#[trigger] v@[k].0@) == default_prefix@ + "-"@
                            + text::dec_str((k + 1) as nat) && v@[k].1@ == cmds@[k]@),
                decreases n - i,
            {
                let mut name = default_prefix.to_owned();
                name.append("-");
                let num = text::u64_to_string((i + 1) as u64);
                name.append(num.as_str());
                v.push((name, cmds[i].clone()));
                i = i + 1;
            }
            v
        },
        CommandConfig::Named(pairs) => {
            let mut v: Vec<(String, String)> = Vec::new();
            let n = pairs.len();
            let mut i: usize = 0;
            while i < n
                invariant
                    0 <= i <= n,
                    n == pairs@.len(),
                    v@ =~= pairs@.subrange(0, i as int),
                decreases n - i,
            {
                v.push((pairs[i].0.clone(), pairs[i].1.clone()));
                proof {
                    assert(v@ =~= pairs@.subrange(0, i + 1));
                }
                i = i + 1;
            }
            proof {
                assert(v@ =~= pairs@);
            }
            sort_pairs(&mut v);
            v
        },
    }
}

/// Sort the pairs by name, ascending; the result is a permutation.
fn sort_pairs(v: &mut Vec<(String, String)>)
    ensures
        pairs_sorted(final(v)@),
        final(v)@.to_multiset() == old(v)@.to_multiset(),
{
    let ghost orig = v@;
    if v.len() < 2 {
        return ;
    }
    let mut i: usize = 1;
    while i < v.len()
        invariant
            1 <= i <= v@.len(),
            v@.len() == orig.len(),
            v@.len() >= 2,
            pairs_sorted(v@.subrange(0, i as int)),
            v@.to_multiset() == orig.to_multiset(),
        decreases v@.len() - i,
    {
        let ghost before = v@;
        let x = v.remove(i);
        let ghost pre = v@;
        proof {
            assert(pre =~= before.subrange(0, i as int) + before.subrange(
                i + 1,
                before.len() as int,
            ));
            assert(pre.subrange(0, i as int) =~= before.subrange(0, i as int));
            assert(x == before[i as int]);
            vstd::seq_lib::to_multiset_contains::<(String, String)>(before, x);
            assert(before.to_multiset().count(x) > 0) by {
                assert(before[i as int] == x);
                assert(before.contains(x));
            }
            assert(pre == before.remove(i as int));
            vstd::seq_lib::to_multiset_remove::<(String, String)>(before, i as int);
            assert(pre.to_multiset() == before.to_multiset().remove(x));
        }
        let mut j: usize = i;
        while j > 0 && text::str_lex_lt(x.0.as_str(), v[j - 1].0.as_str())
            invariant
                0 <= j <= i,
                i <= pre.len(),
                v@ == pre,
                pairs_sorted(pre.subrange(0, i as int)),
                forall|q: int| j <= q < i ==> text::lex_lt(x.0@, (#[trigger] pre[q].0@)),
            decreases j,
        {
            j = j - 1;
        }
        v.insert(j, x);
        proof {
            assert(v@ =~= pre.subrange(0, j as int) + seq![x] + pre.subrange(
                j as int,
                pre.len() as int,
            ));
            assert(v@ == pre.insert(j as int, x));
            vstd::seq_lib::to_multiset_insert::<(String, String)>(pre, j as int, x);
            assert(v@.to_multiset() == pre.to_multiset().insert(x));
            assert(v@.to_multiset() =~= before.to_multiset());
            let s = v@.subrange(0, i + 1);
            assert(forall|q: int| 0 <= q < j ==> s[q] == pre[q]);
            assert(s[j as int] == x);
            assert(forall|q: int| j < q <= i ==> s[q] == pre[q - 1]);
            assert forall|p: int, q: int| 0 <= p < q < s.len() implies !text::lex_lt(
                s[q].0@,
                s[p].0@,
            ) by {
                if p == j {
                    // s[p] is x; s[q] is pre[q - 1] with lex_lt(x, pre[q - 1])
                    text::lemma_lex_asym(x.0@, pre[q - 1].0@);
                } else if q == j {
                    // s[q] is x; s[p] is pre[p] with p < j
                    if j > 0 {
                        assert(!text::lex_lt(x.0@, pre[j - 1].0@));
                        if p < j - 1 {
                            assert(!text::lex_lt(pre[j - 1].0@, pre[p].0@));
                            text::lemma_lex_le_trans(pre[p].0@, pre[j - 1].0@, x.0@);
                        }
                    }
                } else if p < j && q > j {
                    assert(s[p] == pre[p]);
                    assert(s[q] == pre[q - 1]);
                    assert(!text::lex_lt(pre[q - 1].0@, pre[p].0@));
                }
            }
            assert(pairs_sorted(s));
        }
        i = i + 1;
    }
    proof {
        assert(v@.subrange(0, v@.len() as int) =~= v@);
    }
}

/// One approved command for a project.
#[derive(Debug)]
pub struct ApprovedCommand {
    pub project: String,
    pub command: String,
}

/// The user-level configuration the engine consults: which commands have
/// been approved for which project.
#[derive(Debug)]
pub struct WorktrunkConfig {
    pub approved_commands: Vec<ApprovedCommand>,
}

/// Whether the list holds an approval of `command` for `project`.
pub open spec fn approved_in(
    cmds: Seq<ApprovedCommand>,
    project: Seq<char>,
    command: Seq<char>,
) -> bool {
    exists|i: int|
        0 <= i < cmds.len() && (#[trigger] cmds[i]).project@ == project && cmds[i].command@
            == command
}

/// Whether the configuration approves `command` for `project`.
pub open spec fn command_approved(
    cfg: WorktrunkConfig,
    project: Seq<char>,
    command: Seq<char>,
) -> bool {
    approved_in(cfg.approved_commands@, project, command)
}

/// An approval stays valid when the list only grows.
proof fn lemma_approved_monotone(
    s1: Seq<ApprovedCommand>,
    s2: Seq<ApprovedCommand>,
    project: Seq<char>,
    command: Seq<char>,
)
    requires
        approved_in(s1, project, command),
        s1.len() <= s2.len(),
        s2.subrange(0, s1.len() as int) == s1,
    ensures
        approved_in(s2, project, command),
{
    let i = choose|i: int|
        0 <= i < s1.len() && (#[trigger] s1[i]).project@ == project && s1[i].command@ == command;
    assert(s2.subrange(0, s1.len() as int)[i] == s1[i]);
    assert(s2[i] == s1[i]);
}

impl WorktrunkConfig {
    /// Whether this command is already approved for the project.
    pub fn is_command_approved(&self, project_id: &str, command: &str) -> (r: bool)
        ensures
            r == command_approved(*self, project_id@, command@),
    {
        let n = self.approved_commands.len();
        let mut i: usize = 0;
        while i < n
            invariant
                0 <= i <= n,
                n == self.approved_commands@.len(),
                forall|j: int|
                    0 <= j < i ==> !((#[trigger] self.approved_commands@[j]).project@ == project_id@
                        && self.approved_commands@[j].command@ == command@),
            decreases n - i,
        {
            let entry = &self.approved_commands[i];
            if text::str_eq(entry.project.as_str(), project_id) && text::str_eq(
                entry.command.as_str(),
                command,
            ) {
                return true;
            }
            i = i + 1;
        }
        false
    }
}

/// The commands of a batch that still need the user's approval, in batch
/// order.
pub fn commands_needing_approval(
    commands: &Vec<(String, String)>,
    config: &WorktrunkConfig,
    project_id: &str,
) -> (r: Vec<(String, String)>)
    ensures
        r@ == commands@.filter(
            |p: (String, String)| !command_approved(*config, project_id@, p.1@),
        ),
{
    let n = commands.len();
    let mut v: Vec<(String, String)> = Vec::new();
    proof {
        assert(commands@.subrange(0, 0) =~= Seq::<(String, String)>::empty());
        vstd::prelude::Seq::<(String, String)>::lemma_filter_len(
            Seq::<(String, String)>::empty(),
            |p: (String, String)| !command_approved(*config, project_id@, p.1@),
        );
        assert(v@ =~= commands@.subrange(0, 0).filter(
            |p: (String, String)| !command_approved(*config, project_id@, p.1@),
        ));
    }
    let mut i: usize = 0;
    while i < n
        invariant
            0 <= i <= n,
            n == commands@.len(),
            v@ == commands@.subrange(0, i as int).filter(
                |p: (String, String)| !command_approved(*config, project_id@, p.1@),
            ),
        decreases n - i,
    {
        let ghost prefix = commands@.subrange(0, i as int);
        let ghost pred = |p: (String, String)| !command_approved(*config, project_id@, p.1@);
        proof {
            assert(commands@.subrange(0, i + 1) =~= prefix.push(commands@[i as int]));
            Seq::<(String, String)>::lemma_filter_push(prefix, commands@[i as int], pred);
        }
        let entry = &commands[i];
        if !config.is_command_approved(project_id, entry.1.as_str()) {
            let copy = (entry.0.clone(), entry.1.clone());
            proof {
                assert(copy == commands@[i as int]);
            }
            v.push(copy);
        }
        i = i + 1;
    }
    proof {
        assert(commands@.subrange(0, n as int) =~= commands@);
    }
    v
}

/// Record the batch's approvals: each command not already approved — by
/// the configuration or by an approval added earlier in this batch — is
/// appended for the project. Nothing is removed, and nothing outside the
/// batch is added.
pub fn record_approvals(
    config: &mut WorktrunkConfig,
    project_id: &str,
    commands: &Vec<(String, String)>,
)
    ensures
        final(config).approved_commands@.len() >= old(config).approved_commands@.len(),
        final(config).approved_commands@.subrange(
            0,
            old(config).approved_commands@.len() as int,
        ) == old(config).approved_commands@,
        forall|k: int|
            0 <= k < commands@.len() ==> command_approved(
                *final(config),
                project_id@,
                (#[trigger] commands@[k]).1@,
            ),
        forall|j: int|
            old(config).approved_commands@.len() <= j < final(config).approved_commands@.len()
                ==> ((#[trigger] final(config).approved_commands@[j]).project@ == project_id@ && (
            exists|k: int|
                0 <= k < commands@.len() && (#[trigger] commands@[k]).1@
                    == final(config).approved_commands@[j].command@) && !approved_in(
                final(config).approved_commands@.subrange(0, j),
                project_id@,
                final(config).approved_commands@[j].command@,
            )),
{
    let ghost base = config.approved_commands@;
    let n = commands.len();
    let mut k: usize = 0;
    while k < n
        invariant
            0 <= k <= n,
            n == commands@.len(),
            config.approved_commands@.len() >= base.len(),
            config.approved_commands@.subrange(0, base.len() as int) == base,
            forall|q: int|
                0 <= q < k ==> command_approved(
                    *config,
                    project_id@,
                    (#[trigger] commands@[q]).1@,
                ),
            forall|j: int|
                base.len() <= j < config.approved_commands@.len() ==> ((
                #[trigger] config.approved_commands@[j]).project@ == project_id@ && (exists|q: int|
                    0 <= q < commands@.len() && (#[trigger] commands@[q]).1@
                        == config.approved_commands@[j].command@) && !approved_in(
                    config.approved_commands@.subrange(0, j),
                    project_id@,
                    config.approved_commands@[j].command@,
                )),
        decreases n - k,
    {
        let ghost snap = config.approved_commands@;
        let entry = &commands[k];
        if !config.is_command_approved(project_id, entry.1.as_str()) {
            let added = ApprovedCommand {
                project: project_id.to_owned(),
                command: entry.1.clone(),
            };
            config.approved_commands.push(added);
            proof {
                assert(config.approved_commands@.subrange(0, snap.len() as int) =~= snap);
                assert(config.approved_commands@.subrange(0, base.len() as int) =~= base);
                assert(config.approved_commands@[snap.len() as int].command@ == commands@[
                    k as int
                ].1@);
                assert(command_approved(*config, project_id@, commands@[k as int].1@)) by {
                    assert(config.approved_commands@[snap.len() as int].project@ == project_id@);
                }
                assert forall|q: int|
                    0 <= q < k implies command_approved(
                    *config,
                    project_id@,
                    (#[trigger] commands@[q]).1@,
                ) by {
                    lemma_approved_monotone(
                        snap,
                        config.approved_commands@,
                        project_id@,
                        commands@[q].1@,
                    );
                }
                assert forall|j: int|
                    base.len() <= j < config.approved_commands@.len() implies ((
                #[trigger] config.approved_commands@[j]).project@ == project_id@ && (exists|q: int|
                    0 <= q < commands@.len() && (#[trigger] commands@[q]).1@
                        == config.approved_commands@[j].command@) && !approved_in(
                    config.approved_commands@.subrange(0, j),
                    project_id@,
                    config.approved_commands@[j].command@,
                )) by {
                    if j < snap.len() {
                        assert(config.approved_commands@[j] == snap[j]);
                        assert(config.approved_commands@.subrange(0, j) =~= snap.subrange(0, j));
                    } else {
                        assert(j == snap.len());
                        assert(config.approved_commands@.subrange(0, j) =~= snap);
                        assert(commands@[k as int].1@ == config.approved_commands@[j].command@);
                    }
                }
            }
        } else {
            proof {
                assert forall|q: int|
                    0 <= q < k + 1 implies command_approved(
                    *config,
                    project_id@,
                    (#[trigger] commands@[q]).1@,
                ) by {}
            }
        }
        k = k + 1;
    }
}

/// Whether a prompt reply grants approval: the reply, trimmed, is `y`,
/// compared case-insensitively over ASCII.
pub fn approval_granted(reply: &str) -> (r: bool)
    ensures
        r == (text::ascii_lower(text::trim_spec(reply@)) == "y"@),
{
    let trimmed = text::trim(reply);
    let lower = text::to_ascii_lower(trimmed);
    text::str_eq(lower.as_str(), "y")
}

/// Shared execution context for command handlers that operate on the
/// current worktree: the branch the user stands on, the loaded
/// configuration, the worktree's path, and the repository root.
#[derive(Debug)]
pub struct CommandEnv {
    pub branch: String,
    pub config: WorktrunkConfig,
    pub worktree_path: String,
    pub repo_root: String,
}

/// A borrowed view of the environment for one command run.
#[derive(Debug)]
pub struct CommandContext<'a> {
    pub config: &'a WorktrunkConfig,
    pub branch: &'a str,
    pub worktree_path: &'a str,
    pub repo_root: &'a str,
    pub force: bool,
}

impl CommandEnv {
    /// Build a `CommandContext` tied to this environment.
    pub fn context(&self, force: bool) -> (r: CommandContext<'_>)
        ensures
            *r.config == self.config,
            r.branch@ == self.branch@,
            r.worktree_path@ == self.worktree_path@,
            r.repo_root@ == self.repo_root@,
            r.force == force,
    {
        CommandContext {
            config: &self.config,
            branch: self.branch.as_str(),
            worktree_path: self.worktree_path.as_str(),
            repo_root: self.repo_root.as_str(),
            force,
        }
    }
}

}
