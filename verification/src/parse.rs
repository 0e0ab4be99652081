//! Interpreting the textual outputs of git queries: symmetric ahead/behind
//! commit counts, numstat diff totals, and commit timestamps. The engine
//! never trusts git's output shape; every reading is checked.

use vstd::prelude::*;

use crate::git::{Worktree, WorktreeView};
use crate::text;

verus! {

/// The two counts of a `--left-right --count` output: left then right,
/// separated by a tab, with surrounding whitespace ignored.
pub open spec fn count_pair_spec(out: Seq<char>) -> Option<(u64, u64)> {
    let t = text::trim_spec(out);
    let i = text::first_index_of(t, '\t');
    if 0 <= i < t.len() {
        match (
            text::parse_u64_spec(t.subrange(0, i)),
            text::parse_u64_spec(t.subrange(i + 1, t.len() as int)),
        ) {
            (Some(left), Some(right)) => Some((left, right)),
            _ => None,
        }
    } else {
        None
    }
}

/// Parse a left/right count pair.
pub fn parse_count_pair(out: &str) -> (r: Option<(u64, u64)>)
    ensures
        r == count_pair_spec(out@),
{
    let t = text::trim(out);
    match text::find_char(t, '\t') {
        Some(i) => {
            proof {
                text::lemma_first_index_characterize(t@, '\t', i as int);
            }
            let tlen = t.unicode_len();
            let left = text::parse_u64(t.substring_char(0, i));
            let right = text::parse_u64(t.substring_char(i + 1, tlen));
            match (left, right) {
                (Some(l), Some(r)) => Some((l, r)),
                _ => None,
            }
        },
        None => {
            proof {
                text::lemma_first_index_none(t@, '\t');
            }
            None
        },
    }
}

/// The ahead/behind counts read from `base...head` output: the left count
/// is commits only in the base (behind), the right count commits only in
/// the head (ahead).
pub open spec fn ahead_behind_spec_of(out: Seq<char>) -> Option<(u64, u64)> {
    match count_pair_spec(out) {
        Some((left, right)) => Some((right, left)),
        None => None,
    }
}

/// Parse symmetric ahead/behind counts, returned as `(ahead, behind)`.
pub fn parse_ahead_behind(out: &str) -> (r: Option<(u64, u64)>)
    ensures
        r == ahead_behind_spec_of(out@),
{
    match parse_count_pair(out) {
        Some((left, right)) => Some((right, left)),
        None => None,
    }
}

/// A commit timestamp: an optional minus sign and digits, in range for an
/// `i64`, with surrounding whitespace ignored.
pub open spec fn timestamp_spec(out: Seq<char>) -> Option<i64> {
    let t = text::trim_spec(out);
    let negative = t.len() > 0 && t[0] == '-';
    let digits = if negative {
        t.drop_first()
    } else {
        t
    };
    match text::parse_u64_spec(digits) {
        Some(v) => if negative {
            if v <= 0x8000_0000_0000_0000 {
                Some((0 - v as int) as i64)
            } else {
                None
            }
        } else {
            if v <= 0x7fff_ffff_ffff_ffff {
                Some(v as i64)
            } else {
                None
            }
        },
        None => None,
    }
}

/// Parse a commit timestamp in seconds since the epoch.
pub fn parse_timestamp(out: &str) -> (r: Option<i64>)
    ensures
        r == timestamp_spec(out@),
{
    let t = text::trim(out);
    let tlen = t.unicode_len();
    let negative = tlen > 0 && t.get_char(0) == '-';
    let digits = if negative {
        t.substring_char(1, tlen)
    } else {
        t
    };
    proof {
        if negative {
            assert(digits@ =~= t@.drop_first());
        }
    }
    match text::parse_u64(digits) {
        Some(v) => {
            if negative {
                if v <= 0x8000_0000_0000_0000 {
                    if v == 0x8000_0000_0000_0000 {
                        Some(i64::MIN)
                    } else {
                        Some(-(v as i64))
                    }
                } else {
                    None
                }
            } else {
                if v <= 0x7fff_ffff_ffff_ffff {
                    Some(v as i64)
                } else {
                    None
                }
            }
        },
        None => None,
    }
}

}

verus! {

/// The lines of `s`, split on newlines; the trailing newline of the last
/// line adds no empty line.
pub open spec fn split_lines(s: Seq<char>) -> Seq<Seq<char>>
    decreases s.len(),
{
    if s.len() == 0 {
        Seq::<Seq<char>>::empty()
    } else {
        let i = text::first_index_of(s, '\n');
        if 0 <= i < s.len() {
            seq![s.subrange(0, i)] + split_lines(s.subrange(i + 1, s.len() as int))
        } else {
            seq![s]
        }
    }
}

/// A numstat field: a count, or `-` for a binary file, which counts as
/// zero lines.
pub open spec fn field_val(f: Seq<char>) -> Option<nat> {
    if f == "-"@ {
        Some(0)
    } else {
        match text::parse_u64_spec(f) {
            Some(v) => Some(v as nat),
            None => None,
        }
    }
}

/// One numstat line: added, a tab, deleted, a tab, and the path.
pub open spec fn line_counts(line: Seq<char>) -> Option<(nat, nat)> {
    let i = text::first_index_of(line, '\t');
    if 0 <= i < line.len() {
        let rest = line.subrange(i + 1, line.len() as int);
        let j = text::first_index_of(rest, '\t');
        if 0 <= j < rest.len() {
            match (field_val(line.subrange(0, i)), field_val(rest.subrange(0, j))) {
                (Some(a), Some(d)) => Some((a, d)),
                _ => None,
            }
        } else {
            None
        }
    } else {
        None
    }
}

/// The summed totals over all lines; blank lines are skipped, and any
/// malformed line makes the whole output unreadable.
pub open spec fn totals_of(lines: Seq<Seq<char>>) -> Option<(nat, nat)>
    decreases lines.len(),
{
    if lines.len() == 0 {
        Some((0, 0))
    } else {
        match totals_of(lines.drop_first()) {
            None => None,
            Some(rest) => if lines[0].len() == 0 {
                Some(rest)
            } else {
                match line_counts(lines[0]) {
                    Some((a, d)) => Some(((a + rest.0) as nat, (d + rest.1) as nat)),
                    None => None,
                }
            },
        }
    }
}

/// The added/deleted totals of a whole numstat output, when both fit in a
/// `u64`.
pub open spec fn numstat_spec(out: Seq<char>) -> Option<(u64, u64)> {
    match totals_of(split_lines(out)) {
        Some((a, d)) => if a <= 0xffff_ffff_ffff_ffff && d <= 0xffff_ffff_ffff_ffff {
            Some((a as u64, d as u64))
        } else {
            None
        },
        None => None,
    }
}

/// Parse one numstat line into its added/deleted counts.
fn parse_numstat_line(line: &str) -> (r: Option<(u64, u64)>)
    ensures
        match line_counts(line@) {
            Some((a, d)) => r matches Some(p) && p.0 == a && p.1 == d,
            None => r is None,
        },
{
    let llen = line.unicode_len();
    let i = match text::find_char(line, '\t') {
        Some(i) => {
            proof {
                text::lemma_first_index_characterize(line@, '\t', i as int);
            }
            i
        },
        None => {
            proof {
                text::lemma_first_index_none(line@, '\t');
            }
            return None;
        },
    };
    let rest = line.substring_char(i + 1, llen);
    let rlen = rest.unicode_len();
    let j = match text::find_char(rest, '\t') {
        Some(j) => {
            proof {
                text::lemma_first_index_characterize(rest@, '\t', j as int);
            }
            j
        },
        None => {
            proof {
                text::lemma_first_index_none(rest@, '\t');
            }
            return None;
        },
    };
    let added_field = line.substring_char(0, i);
    let deleted_field = rest.substring_char(0, j);
    let added = parse_field(added_field);
    let deleted = parse_field(deleted_field);
    match (added, deleted) {
        (Some(a), Some(d)) => Some((a, d)),
        _ => None,
    }
}

/// Parse one numstat field.
fn parse_field(f: &str) -> (r: Option<u64>)
    ensures
        match field_val(f@) {
            Some(v) => r matches Some(got) && got == v,
            None => r is None,
        },
{
    if text::str_eq(f, "-") {
        Some(0)
    } else {
        text::parse_u64(f)
    }
}

/// Parse a whole numstat output into its added/deleted line totals.
pub fn parse_numstat(out: &str) -> (r: Option<(u64, u64)>)
    ensures
        r == numstat_spec(out@),
{
    let mut added: u64 = 0;
    let mut deleted: u64 = 0;
    let mut pos: usize = 0;
    let len = out.unicode_len();
    proof {
        assert(out@.subrange(0, len as int) =~= out@);
    }
    while pos < len
        invariant
            0 <= pos <= len,
            len == out@.len(),
            match totals_of(split_lines(out@)) {
                Some((a, d)) => (match totals_of(
                    split_lines(out@.subrange(pos as int, len as int)),
                ) {
                    Some((ra, rd)) => a == added + ra && d == deleted + rd,
                    None => false,
                }),
                None => totals_of(split_lines(out@.subrange(pos as int, len as int))) is None,
            },
        decreases len - pos,
    {
        let ghost rest_view = out@.subrange(pos as int, len as int);
        let rest = out.substring_char(pos, len);
        let (line, next_pos): (&str, usize) = match text::find_char(rest, '\n') {
            Some(i) => {
                proof {
                    text::lemma_first_index_characterize(rest@, '\n', i as int);
                }
                (rest.substring_char(0, i), pos + i + 1)
            },
            None => {
                proof {
                    text::lemma_first_index_none(rest@, '\n');
                }
                (rest, len)
            },
        };
        proof {
            let i = text::first_index_of(rest_view, '\n');
            if 0 <= i < rest_view.len() {
                assert(split_lines(rest_view) == seq![rest_view.subrange(0, i)] + split_lines(
                    rest_view.subrange(i + 1, rest_view.len() as int),
                ));
                assert(split_lines(rest_view).drop_first() =~= split_lines(
                    rest_view.subrange(i + 1, rest_view.len() as int),
                ));
                assert(rest_view.subrange(i + 1, rest_view.len() as int) =~= out@.subrange(
                    pos + i + 1,
                    len as int,
                ));
                assert(line@ =~= rest_view.subrange(0, i));
            } else {
                assert(split_lines(rest_view) =~= seq![rest_view]);
                assert(split_lines(rest_view).drop_first() =~= Seq::<Seq<char>>::empty());
                assert(out@.subrange(len as int, len as int) =~= Seq::<char>::empty());
            }
            assert(split_lines(rest_view)[0] == line@);
        }
        let llen = line.unicode_len();
        if llen > 0 {
            match parse_numstat_line(line) {
                Some((a, d)) => {
                    if a > u64::MAX - added || d > u64::MAX - deleted {
                        proof {
                            assert(totals_of(split_lines(out@)) matches Some((ta, td)) ==> ta
                                > 0xffff_ffff_ffff_ffff || td > 0xffff_ffff_ffff_ffff);
                        }
                        return None;
                    }
                    added = added + a;
                    deleted = deleted + d;
                },
                None => {
                    proof {
                        assert(totals_of(split_lines(rest_view)) is None);
                    }
                    return None;
                },
            }
        }
        pos = next_pos;
    }
    proof {
        assert(out@.subrange(len as int, len as int) =~= Seq::<char>::empty());
        assert(split_lines(Seq::<char>::empty()) =~= Seq::<Seq<char>>::empty());
    }
    Some((added, deleted))
}

}

verus! {

/// The record a pending block has accumulated so far, flushed when the
/// block ends.
pub open spec fn flushed(cur: Option<WorktreeView>) -> Seq<WorktreeView> {
    match cur {
        Some(w) => seq![w],
        None => Seq::<WorktreeView>::empty(),
    }
}

/// The worktrees described by the lines of a porcelain listing, given the
/// pending block. A `worktree` line opens a block (flushing the previous
/// one), `HEAD` and `branch` lines fill it, a blank line ends it, and any
/// other attribute (`bare`, `detached`, ...) leaves it as it stands.
pub open spec fn worktree_views_from(
    lines: Seq<Seq<char>>,
    cur: Option<WorktreeView>,
) -> Seq<WorktreeView>
    decreases lines.len(),
{
    if lines.len() == 0 {
        flushed(cur)
    } else {
        let line = lines[0];
        let rest = lines.drop_first();
        if line.len() == 0 {
            flushed(cur) + worktree_views_from(rest, None)
        } else if text::has_prefix(line, "worktree "@) {
            flushed(cur) + worktree_views_from(
                rest,
                Some(
                    WorktreeView {
                        path: line.subrange("worktree "@.len() as int, line.len() as int),
                        branch: None,
                        head: Seq::<char>::empty(),
                    },
                ),
            )
        } else if text::has_prefix(line, "HEAD "@) {
            match cur {
                Some(w) => worktree_views_from(
                    rest,
                    Some(
                        WorktreeView {
                            path: w.path,
                            branch: w.branch,
                            head: line.subrange("HEAD "@.len() as int, line.len() as int),
                        },
                    ),
                ),
                None => worktree_views_from(rest, None),
            }
        } else if text::has_prefix(line, "branch refs/heads/"@) {
            match cur {
                Some(w) => worktree_views_from(
                    rest,
                    Some(
                        WorktreeView {
                            path: w.path,
                            branch: Some(
                                line.subrange(
                                    "branch refs/heads/"@.len() as int,
                                    line.len() as int,
                                ),
                            ),
                            head: w.head,
                        },
                    ),
                ),
                None => worktree_views_from(rest, None),
            }
        } else {
            worktree_views_from(rest, cur)
        }
    }
}

/// The worktrees described by a `worktree list --porcelain` output, in
/// listing order; the first one is the primary worktree.
pub open spec fn worktree_list_spec(out: Seq<char>) -> Seq<WorktreeView> {
    worktree_views_from(split_lines(out), None)
}

/// The views of a sequence of worktrees.
pub open spec fn views_of(v: Seq<Worktree>) -> Seq<WorktreeView> {
    v.map_values(|w: Worktree| w@)
}

/// The view of the pending block.
pub open spec fn pending_view(cur: Option<Worktree>) -> Option<WorktreeView> {
    match cur {
        Some(w) => Some(w@),
        None => None,
    }
}

/// Parse a porcelain worktree listing.
pub fn parse_worktree_list(out: &str) -> (r: Vec<Worktree>)
    ensures
        views_of(r@) == worktree_list_spec(out@),
{
    let mut result: Vec<Worktree> = Vec::new();
    let mut cur: Option<Worktree> = None;
    let mut pos: usize = 0;
    let len = out.unicode_len();
    proof {
        assert(out@.subrange(0, len as int) =~= out@);
        assert(views_of(result@) =~~= Seq::<WorktreeView>::empty());
    }
    while pos < len
        invariant
            0 <= pos <= len,
            len == out@.len(),
            worktree_list_spec(out@) == views_of(result@) + worktree_views_from(
                split_lines(out@.subrange(pos as int, len as int)),
                pending_view(cur),
            ),
        decreases len - pos,
    {
        let ghost rest_view = out@.subrange(pos as int, len as int);
        let ghost cur_view: Option<WorktreeView> = pending_view(cur);
        let rest = out.substring_char(pos, len);
        let (line, next_pos): (&str, usize) = match text::find_char(rest, '\n') {
            Some(i) => {
                proof {
                    text::lemma_first_index_characterize(rest@, '\n', i as int);
                }
                (rest.substring_char(0, i), pos + i + 1)
            },
            None => {
                proof {
                    text::lemma_first_index_none(rest@, '\n');
                }
                (rest, len)
            },
        };
        let ghost tail_lines = split_lines(out@.subrange(next_pos as int, len as int));
        proof {
            let i = text::first_index_of(rest_view, '\n');
            if 0 <= i < rest_view.len() {
                assert(split_lines(rest_view) == seq![rest_view.subrange(0, i)] + split_lines(
                    rest_view.subrange(i + 1, rest_view.len() as int),
                ));
                assert(rest_view.subrange(i + 1, rest_view.len() as int) =~= out@.subrange(
                    pos + i + 1,
                    len as int,
                ));
                assert(split_lines(rest_view).drop_first() =~~= tail_lines);
                assert(line@ =~= rest_view.subrange(0, i));
            } else {
                assert(split_lines(rest_view) =~= seq![rest_view]);
                assert(out@.subrange(len as int, len as int) =~= Seq::<char>::empty());
                assert(split_lines(rest_view).drop_first() =~~= tail_lines);
            }
            assert(split_lines(rest_view)[0] == line@);
            assert(split_lines(rest_view).len() > 0);
        }
        let llen = line.unicode_len();
        if llen == 0 {
            let prev = cur;
            cur = None;
            match prev {
                Some(w) => {
                    let ghost old_views = views_of(result@);
                    let ghost wv = w@;
                    result.push(w);
                    proof {
                        assert(views_of(result@) =~~= old_views.push(wv));
                    }
                },
                None => {},
            }
        } else if text::starts_with_str(line, "worktree ") {
            let prev = cur;
            let plen = "worktree ".unicode_len();
            let path = line.substring_char(plen, llen).to_owned();
            cur = Some(Worktree { path, branch: None, head: String::new() });
            match prev {
                Some(w) => {
                    let ghost old_views = views_of(result@);
                    let ghost wv = w@;
                    result.push(w);
                    proof {
                        assert(views_of(result@) =~~= old_views.push(wv));
                    }
                },
                None => {},
            }
        } else if text::starts_with_str(line, "HEAD ") {
            let prev = cur;
            cur = match prev {
                Some(w) => {
                    let plen = "HEAD ".unicode_len();
                    let head = line.substring_char(plen, llen).to_owned();
                    Some(Worktree { path: w.path, branch: w.branch, head })
                },
                None => None,
            };
        } else if text::starts_with_str(line, "branch refs/heads/") {
            let prev = cur;
            cur = match prev {
                Some(w) => {
                    let plen = "branch refs/heads/".unicode_len();
                    let branch = line.substring_char(plen, llen).to_owned();
                    Some(Worktree { path: w.path, branch: Some(branch), head: w.head })
                },
                None => None,
            };
        }
        pos = next_pos;
        proof {
            assert(worktree_list_spec(out@) =~~= views_of(result@) + worktree_views_from(
                split_lines(out@.subrange(pos as int, len as int)),
                pending_view(cur),
            ));
        }
    }
    proof {
        assert(out@.subrange(len as int, len as int) =~= Seq::<char>::empty());
        assert(split_lines(Seq::<char>::empty()) =~= Seq::<Seq<char>>::empty());
    }
    match cur {
        Some(w) => {
            let ghost old_views = views_of(result@);
            let ghost wv = w@;
            result.push(w);
            proof {
                assert(views_of(result@) =~~= old_views.push(wv));
                assert(views_of(result@) =~~= worktree_list_spec(out@));
            }
        },
        None => {
            proof {
                assert(views_of(result@) =~~= worktree_list_spec(out@));
            }
        },
    }
    result
}

}

verus! {

use crate::git::GitError;

/// The upstream resolution read from the port's outcome: the trimmed
/// upstream ref on success. A failure that merely reports a missing
/// upstream means the branch has none — expected and common, not an error;
/// any other failure stays one.
pub fn interpret_upstream(outcome: Result<String, String>) -> (r: Result<Option<String>, GitError>)
    ensures
        match outcome {
            Ok(out) => (r matches Ok(Some(u)) && u@ == text::trim_spec(out@)),
            Err(e) => if text::contains_seq(e@, "no upstream"@) {
                r == Ok::<Option<String>, GitError>(None)
            } else {
                (r matches Err(GitError::CommandFailed(m)) && m@ == e@)
            },
        },
{
    match outcome {
        Ok(out) => Ok(Some(text::trim(out.as_str()).to_owned())),
        Err(e) => {
            if text::contains_str(e.as_str(), "no upstream") {
                Ok(None)
            } else {
                Err(GitError::CommandFailed(e))
            }
        },
    }
}

}

verus! {

/// Whether a porcelain status output reports any change: a worktree is
/// dirty exactly when something remains after trimming.
pub fn dirty_of_status(out: &str) -> (r: bool)
    ensures
        r == (text::trim_spec(out@).len() > 0),
{
    let t = text::trim(out);
    t.unicode_len() > 0
}

}
