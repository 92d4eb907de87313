//! The structured result of one status engine invocation: branch
//! information, ahead/behind divergence, and the file-state tally.

use vstd::prelude::*;
use vstd::string::StringExecFns;

use crate::header::{header_divergence, header_name_bytes, parse_header};
use crate::tally::{
    entries_tally_matches, file_tally_from_entries, file_tally_from_lines, lines_tally_matches,
    EntryState, FileStatusTally,
};
use crate::text::{find_pat, find_pat_from, lemma_find_pat_from, nl_pat, sub_bytes, utf8_decode,
    utf8_to_string};

verus! {

/// An opaque commit identifier: the raw object-id bytes of a commit.
#[derive(Debug, Clone, PartialEq, Eq)]
pub struct CommitId {
    pub bytes: Vec<u8>,
}

/// The currently checked-out branch. `local_commit` is absent when HEAD is
/// unborn; `upstream_commit` is absent when no tracking branch is configured.
#[derive(Debug, Clone, PartialEq, Eq)]
pub struct BranchInfo {
    pub name: String,
    pub local_commit: Option<CommitId>,
    pub upstream_commit: Option<CommitId>,
}

/// Commits reachable from the local branch tip and not the upstream tip
/// (`ahead`), and the other way around (`behind`).
#[derive(Debug, Clone, Copy, PartialEq, Eq, Structural)]
pub struct DivergenceCount {
    pub ahead: u64,
    pub behind: u64,
}

/// The top-level result of one engine invocation. `branch` is absent outside
/// any repository; `divergence` is absent whenever it cannot be computed —
/// never reported as a zero-valued default.
#[derive(Debug, Clone, PartialEq, Eq)]
pub struct StatusSummary {
    pub branch: Option<BranchInfo>,
    pub divergence: Option<DivergenceCount>,
    pub tally: FileStatusTally,
}

/// The placeholder branch label shown when no branch name is available.
pub open spec fn big_bang_chars() -> Seq<char> {
    "Big Bang"@
}

/// The placeholder branch label as a string.
pub fn big_bang() -> (s: String)
    ensures
        s@ == big_bang_chars(),
{
    String::from_str("Big Bang")
}

/// The newline-separated lines of `t`, from position `start` on.
/// A trailing newline yields a final empty line.
pub open spec fn lines_from(t: Seq<u8>, start: int) -> Seq<Seq<u8>>
    decreases t.len() - start,
{
    if !(0 <= start <= t.len()) {
        Seq::empty()
    } else {
        let i = find_pat_from(t, nl_pat(), start);
        if start <= i && i + 1 <= t.len() {
            seq![t.subrange(start, i)] + lines_from(t, i + 1)
        } else {
            seq![t.subrange(start, t.len() as int)]
        }
    }
}

/// The newline-separated lines of `t`.
pub open spec fn lines_of(t: Seq<u8>) -> Seq<Seq<u8>> {
    lines_from(t, 0)
}

/// Splits `t` into its newline-separated lines.
pub fn split_lines(t: &[u8]) -> (ls: Vec<Vec<u8>>)
    ensures
        ls.deep_view() == lines_of(t@),
        ls@.len() >= 1,
{
    let tlen = t.len();
    let nl = nl_pat_vec();
    let mut ls: Vec<Vec<u8>> = Vec::new();
    let mut start: usize = 0;
    loop
        invariant
            start <= tlen == t@.len(),
            nl@ == nl_pat(),
            lines_of(t@) == ls.deep_view() + lines_from(t@, start as int),
        decreases t@.len() - start,
    {
        let ghost pre = ls.deep_view();
        match find_pat(t, nl.as_slice(), start) {
            Some(i) => {
                proof {
                    lemma_find_pat_from(t@, nl_pat(), start as int);
                }
                let piece = sub_bytes(t, start, i);
                ls.push(piece);
                proof {
                    assert(ls.deep_view() =~~= pre.push(t@.subrange(start as int, i as int)));
                    assert(lines_from(t@, start as int) =~= seq![
                        t@.subrange(start as int, i as int)
                    ] + lines_from(t@, i + 1));
                    assert(lines_of(t@) =~= ls.deep_view() + lines_from(t@, i + 1));
                }
                start = i + 1;
            },
            None => {
                let piece = sub_bytes(t, start, tlen);
                ls.push(piece);
                proof {
                    assert(ls.deep_view() =~~= pre.push(
                        t@.subrange(start as int, t@.len() as int),
                    ));
                    assert(lines_from(t@, start as int) =~= seq![
                        t@.subrange(start as int, t@.len() as int)
                    ]);
                    assert(lines_of(t@) =~= ls.deep_view());
                    assert(ls.deep_view() == lines_of(t@));
                }
                return ls;
            },
        }
    }
}

/// A header line carries a usable branch name: one is present and it decodes
/// as UTF-8. A name the engine cannot decode counts as "no usable branch".
pub open spec fn header_name_usable(l: Seq<u8>) -> bool {
    match header_name_bytes(l) {
        Some(b) => utf8_decode(b) is Some,
        None => false,
    }
}

/// The branch name characters that a header line yields: the decoded name
/// when it is usable, else the placeholder label.
pub open spec fn header_branch_chars(l: Seq<u8>) -> Seq<char> {
    match header_name_bytes(l) {
        Some(b) => match utf8_decode(b) {
            Some(cs) => cs,
            None => big_bang_chars(),
        },
        None => big_bang_chars(),
    }
}

/// What a summary built from textual status data must hold: the branch is
/// always present (the data came from a live repository), its name comes from
/// the header line or falls back to the placeholder, commit ids are not part
/// of textual data, divergence comes from the header's bracket suffix and
/// only stands beside a usable branch name, and the tally counts every
/// status line after the header.
pub open spec fn is_text_summary(t: Seq<u8>, s: StatusSummary) -> bool {
    &&& s.branch is Some
    &&& s.branch->0.name@ == header_branch_chars(lines_of(t)[0])
    &&& s.branch->0.local_commit is None
    &&& s.branch->0.upstream_commit is None
    &&& (s.divergence is Some <==> (header_name_usable(lines_of(t)[0])
        && header_divergence(lines_of(t)[0]) is Some
        && header_divergence(lines_of(t)[0]).unwrap().0 <= u64::MAX
        && header_divergence(lines_of(t)[0]).unwrap().1 <= u64::MAX))
    &&& s.divergence is Some ==> s.divergence->0.ahead
        == header_divergence(lines_of(t)[0]).unwrap().0
        && s.divergence->0.behind == header_divergence(lines_of(t)[0]).unwrap().1
    &&& lines_tally_matches(lines_of(t).skip(1), s.tally)
}

/// Builds the status summary from machine-readable textual status data:
/// a branch/tracking header line, then one line per changed path with a
/// two-character state code. A header whose name is absent or does not
/// decode yields the placeholder branch and no divergence: without a usable
/// branch there are no commits to diverge from.
pub fn summarize_from_text(t: &[u8]) -> (s: StatusSummary)
    ensures
        is_text_summary(t@, s),
{
    let ls = split_lines(t);
    let header = parse_header(ls[0].as_slice());
    proof {
        assert(ls.deep_view()[0] =~= ls@[0]@);
    }
    let (name, usable) = match header.name {
        Some(nb) => {
            match utf8_to_string(nb) {
                Some(decoded) => (decoded, true),
                None => (big_bang(), false),
            }
        },
        None => (big_bang(), false),
    };
    let divergence = if usable {
        header.divergence
    } else {
        None
    };
    let tally = file_tally_from_lines(&ls, 1);
    proof {
        assert(ls.deep_view().skip(1) =~= lines_of(t@).skip(1));
    }
    StatusSummary {
        branch: Some(BranchInfo { name, local_commit: None, upstream_commit: None }),
        divergence,
        tally,
    }
}

/// A single-byte newline pattern, as an executable vector.
fn nl_pat_vec() -> (v: Vec<u8>)
    ensures
        v@ == nl_pat(),
{
    let mut v: Vec<u8> = Vec::new();
    v.push(10);
    proof {
        assert(v@ =~= nl_pat());
    }
    v
}

/// What a summary built from native repository data must hold. Outside any
/// repository everything is absent and the tally is zero. Inside one, the
/// branch is the one handed in, or carries the placeholder name when none is
/// usable; divergence is present exactly when both commits and both walk
/// counts are; the tally counts the entries, or is zero when the status
/// query yielded none.
pub open spec fn is_parts_summary(
    repo_found: bool,
    branch: Option<BranchInfo>,
    walk: Option<(u64, u64)>,
    entries: Option<Vec<EntryState>>,
    s: StatusSummary,
) -> bool {
    &&& !repo_found ==> s.branch is None && s.divergence is None
        && s.tally == (FileStatusTally { staged: 0, unstaged: 0, untracked: 0, conflicted: 0 })
    &&& repo_found ==> {
        &&& branch is Some ==> s.branch == branch
        &&& branch is None ==> s.branch is Some && s.branch->0.name@ == big_bang_chars()
            && s.branch->0.local_commit is None && s.branch->0.upstream_commit is None
        &&& (s.divergence is Some <==> (branch is Some && branch->0.local_commit is Some
            && branch->0.upstream_commit is Some && walk is Some))
        &&& s.divergence is Some ==> s.divergence->0.ahead == walk.unwrap().0
            && s.divergence->0.behind == walk.unwrap().1
        &&& match entries {
            Some(es) => entries_tally_matches(es@, s.tally),
            None => s.tally == (FileStatusTally {
                staged: 0,
                unstaged: 0,
                untracked: 0,
                conflicted: 0,
            }),
        }
    }
}

/// Builds the status summary from data a native repository library yields:
/// whether a repository was found, the checked-out branch with its commit
/// ids, the ahead/behind counts of a commit-graph walk, and the per-entry
/// state flags of a status query. Divergence is reported only when both
/// commits are present — absent inputs yield an absent result, never zero.
pub fn summarize_from_parts(
    repo_found: bool,
    branch: Option<BranchInfo>,
    walk: Option<(u64, u64)>,
    entries: Option<Vec<EntryState>>,
) -> (s: StatusSummary)
    ensures
        is_parts_summary(repo_found, branch, walk, entries, s),
{
    if !repo_found {
        return StatusSummary {
            branch: None,
            divergence: None,
            tally: FileStatusTally::zero(),
        };
    }
    let divergence = match (&branch, &walk) {
        (Some(b), Some(w)) => {
            if b.local_commit.is_some() && b.upstream_commit.is_some() {
                Some(DivergenceCount { ahead: w.0, behind: w.1 })
            } else {
                None
            }
        },
        _ => None,
    };
    let tally = match &entries {
        Some(es) => file_tally_from_entries(es),
        None => FileStatusTally::zero(),
    };
    let branch_out = match branch {
        Some(b) => Some(b),
        None => Some(BranchInfo {
            name: big_bang(),
            local_commit: None,
            upstream_commit: None,
        }),
    };
    StatusSummary { branch: branch_out, divergence, tally }
}

/// The engine is deterministic: any two summaries of the same textual status
/// data agree on every observable field — branch name, commit ids,
/// divergence, and tally.
pub proof fn lemma_text_summary_unique(t: Seq<u8>, s1: StatusSummary, s2: StatusSummary)
    requires
        is_text_summary(t, s1),
        is_text_summary(t, s2),
    ensures
        s1.branch->0.name@ == s2.branch->0.name@,
        s1.branch->0.local_commit == s2.branch->0.local_commit,
        s1.branch->0.upstream_commit == s2.branch->0.upstream_commit,
        s1.divergence == s2.divergence,
        s1.tally == s2.tally,
{
}

/// The engine is deterministic on native repository data too: any two
/// summaries of the same discovered state agree on every observable field.
pub proof fn lemma_parts_summary_unique(
    repo_found: bool,
    branch: Option<BranchInfo>,
    walk: Option<(u64, u64)>,
    entries: Option<Vec<EntryState>>,
    s1: StatusSummary,
    s2: StatusSummary,
)
    requires
        is_parts_summary(repo_found, branch, walk, entries, s1),
        is_parts_summary(repo_found, branch, walk, entries, s2),
    ensures
        (s1.branch is Some) == (s2.branch is Some),
        s1.branch is Some ==> s1.branch->0.name@ == s2.branch->0.name@
            && s1.branch->0.local_commit == s2.branch->0.local_commit
            && s1.branch->0.upstream_commit == s2.branch->0.upstream_commit,
        s1.divergence == s2.divergence,
        s1.tally == s2.tally,
{
}

} // verus!
