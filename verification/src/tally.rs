//! Aggregation of per-path states into staged/unstaged/untracked/conflicted
//! counts, for both forms of raw status data: textual status lines and
//! per-entry state flags from a native repository library.

use vstd::prelude::*;

use crate::codes::{
    classify_code, code_ambiguous, code_conflicted, code_staged, code_unstaged, code_untracked,
    is_change_code,
};

verus! {

/// How many elements of `s` satisfy `p`.
pub open spec fn count_matching<T>(s: Seq<T>, p: spec_fn(T) -> bool) -> nat
    decreases s.len(),
{
    if s.len() == 0 {
        0
    } else {
        count_matching(s.drop_last(), p) + (if p(s.last()) { 1nat } else { 0nat })
    }
}

/// Appending one element raises the count by one exactly when it matches.
pub proof fn lemma_count_matching_push<T>(s: Seq<T>, x: T, p: spec_fn(T) -> bool)
    ensures
        count_matching(s.push(x), p) == count_matching(s, p) + (if p(x) { 1nat } else { 0nat }),
{
    assert(s.push(x).drop_last() =~= s);
    assert(s.push(x).last() == x);
}

/// Aggregated counts across every entry of the raw status data. A path may
/// feed several counters at once (staged and unstaged), except conflicted
/// paths, which feed the conflicted counter alone.
#[derive(Debug, Clone, Copy, PartialEq, Eq, Structural)]
pub struct FileStatusTally {
    pub staged: u64,
    pub unstaged: u64,
    pub untracked: u64,
    pub conflicted: u64,
}

impl FileStatusTally {
    /// The all-zero tally.
    pub fn zero() -> (t: FileStatusTally)
        ensures
            t == (FileStatusTally { staged: 0, unstaged: 0, untracked: 0, conflicted: 0 }),
    {
        FileStatusTally { staged: 0, unstaged: 0, untracked: 0, conflicted: 0 }
    }
}

/// A textual status line is well formed when it has two code characters,
/// a separating space, and a non-empty path.
pub open spec fn line_shape_ok(l: Seq<u8>) -> bool {
    l.len() >= 4 && l[2] == 32
}

/// The line feeds the staged counter.
pub open spec fn line_staged(l: Seq<u8>) -> bool {
    line_shape_ok(l) && code_staged(l[0], l[1])
}

/// The line feeds the unstaged counter.
pub open spec fn line_unstaged(l: Seq<u8>) -> bool {
    line_shape_ok(l) && code_unstaged(l[0], l[1])
}

/// The line feeds the untracked counter.
pub open spec fn line_untracked(l: Seq<u8>) -> bool {
    line_shape_ok(l) && code_untracked(l[0], l[1])
}

/// The line feeds the conflicted counter.
pub open spec fn line_conflicted(l: Seq<u8>) -> bool {
    line_shape_ok(l) && code_conflicted(l[0], l[1])
}

/// The tally that a sequence of status lines yields: each counter is the
/// number of lines whose code feeds it. Malformed lines feed nothing.
pub open spec fn lines_tally_matches(lines: Seq<Seq<u8>>, t: FileStatusTally) -> bool {
    &&& t.staged == count_matching(lines, |l: Seq<u8>| line_staged(l))
    &&& t.unstaged == count_matching(lines, |l: Seq<u8>| line_unstaged(l))
    &&& t.untracked == count_matching(lines, |l: Seq<u8>| line_untracked(l))
    &&& t.conflicted == count_matching(lines, |l: Seq<u8>| line_conflicted(l))
}

/// Classifies every status line from `start` on and aggregates the counts.
pub fn file_tally_from_lines(lines: &Vec<Vec<u8>>, start: usize) -> (t: FileStatusTally)
    requires
        start <= lines@.len(),
    ensures
        lines_tally_matches(lines.deep_view().skip(start as int), t),
{
    let ghost all = lines.deep_view().skip(start as int);
    let mut t = FileStatusTally::zero();
    let mut i: usize = start;
    while i < lines.len()
        invariant
            start <= i <= lines@.len(),
            all == lines.deep_view().skip(start as int),
            lines_tally_matches(lines.deep_view().subrange(start as int, i as int), t),
            t.staged <= i - start,
            t.unstaged <= i - start,
            t.untracked <= i - start,
            t.conflicted <= i - start,
        decreases lines@.len() - i,
    {
        let ghost pre = lines.deep_view().subrange(start as int, i as int);
        let line = &lines[i];
        proof {
            assert(lines.deep_view()[i as int] =~= line@);
            assert(lines.deep_view().subrange(start as int, i + 1) =~= pre.push(line@));
            lemma_count_matching_push(pre, line@, |l: Seq<u8>| line_staged(l));
            lemma_count_matching_push(pre, line@, |l: Seq<u8>| line_unstaged(l));
            lemma_count_matching_push(pre, line@, |l: Seq<u8>| line_untracked(l));
            lemma_count_matching_push(pre, line@, |l: Seq<u8>| line_conflicted(l));
        }
        if line.len() >= 4 && line[2] == 32 {
            let c = classify_code(line[0], line[1]);
            if c.staged {
                t.staged = t.staged + 1;
            }
            if c.unstaged {
                t.unstaged = t.unstaged + 1;
            }
            if c.untracked {
                t.untracked = t.untracked + 1;
            }
            if c.conflicted {
                t.conflicted = t.conflicted + 1;
            }
        }
        i = i + 1;
    }
    proof {
        assert(lines.deep_view().subrange(start as int, lines@.len() as int) =~= all);
    }
    t
}

/// The per-path state flags that a native repository library reports for one
/// entry: what changed in the index against HEAD, what changed in the
/// worktree against the index, and whether the path is conflicted.
#[derive(Debug, Clone, Copy, PartialEq, Eq, Structural)]
pub struct EntryState {
    pub index_new: bool,
    pub index_modified: bool,
    pub index_deleted: bool,
    pub index_renamed: bool,
    pub index_typechange: bool,
    pub wt_new: bool,
    pub wt_modified: bool,
    pub wt_deleted: bool,
    pub wt_typechange: bool,
    pub conflicted: bool,
}

/// The entry feeds the staged counter: some index-side change is recorded and
/// the path is not conflicted.
pub open spec fn entry_staged(e: EntryState) -> bool {
    !e.conflicted && (e.index_new || e.index_modified || e.index_deleted || e.index_renamed
        || e.index_typechange)
}

/// The entry feeds the unstaged counter: some worktree-side change to a
/// tracked path is recorded and the path is not conflicted.
pub open spec fn entry_unstaged(e: EntryState) -> bool {
    !e.conflicted && (e.wt_modified || e.wt_deleted || e.wt_typechange)
}

/// The entry feeds the untracked counter: the path is new in the worktree and
/// not conflicted.
pub open spec fn entry_untracked(e: EntryState) -> bool {
    !e.conflicted && e.wt_new
}

/// The entry feeds the conflicted counter alone.
pub open spec fn entry_conflicted(e: EntryState) -> bool {
    e.conflicted
}

/// The tally that a sequence of entry states yields.
pub open spec fn entries_tally_matches(es: Seq<EntryState>, t: FileStatusTally) -> bool {
    &&& t.staged == count_matching(es, |e: EntryState| entry_staged(e))
    &&& t.unstaged == count_matching(es, |e: EntryState| entry_unstaged(e))
    &&& t.untracked == count_matching(es, |e: EntryState| entry_untracked(e))
    &&& t.conflicted == count_matching(es, |e: EntryState| entry_conflicted(e))
}

/// The entry state that a two-character status code encodes: the index
/// character sets the matching index-side flag (rename and copy both record a
/// changed identity), the worktree character sets the matching worktree-side
/// flag, `??` marks a new worktree path, and `UU` marks a conflict.
pub open spec fn entry_of_code(x: u8, y: u8) -> EntryState {
    EntryState {
        index_new: x == 65,
        index_modified: x == 77,
        index_deleted: x == 68,
        index_renamed: x == 82 || x == 67,
        index_typechange: x == 84,
        wt_new: x == 63 && y == 63,
        wt_modified: y == 77,
        wt_deleted: y == 68,
        wt_typechange: y == 84,
        conflicted: x == 85 && y == 85,
    }
}

/// The two data-source strategies agree: outside the ambiguous unmerged set,
/// a status code and the entry state it encodes classify a path identically
/// on all four counters. The worktree character is one the status data
/// source emits without rename detection: modified, deleted, or type-changed.
pub proof fn lemma_strategies_agree(x: u8, y: u8)
    requires
        !code_ambiguous(x, y),
        is_change_code(y) ==> y == 77 || y == 68 || y == 84,
    ensures
        entry_staged(entry_of_code(x, y)) == code_staged(x, y),
        entry_unstaged(entry_of_code(x, y)) == code_unstaged(x, y),
        entry_untracked(entry_of_code(x, y)) == code_untracked(x, y),
        entry_conflicted(entry_of_code(x, y)) == code_conflicted(x, y),
{
}

/// Classifies every entry state and aggregates the counts.
pub fn file_tally_from_entries(es: &Vec<EntryState>) -> (t: FileStatusTally)
    ensures
        entries_tally_matches(es@, t),
{
    let mut t = FileStatusTally::zero();
    let mut i: usize = 0;
    while i < es.len()
        invariant
            0 <= i <= es@.len(),
            entries_tally_matches(es@.subrange(0, i as int), t),
            t.staged <= i,
            t.unstaged <= i,
            t.untracked <= i,
            t.conflicted <= i,
        decreases es@.len() - i,
    {
        let ghost pre = es@.subrange(0, i as int);
        let e = es[i];
        proof {
            assert(es@.subrange(0, i + 1) =~= pre.push(e));
            lemma_count_matching_push(pre, e, |e: EntryState| entry_staged(e));
            lemma_count_matching_push(pre, e, |e: EntryState| entry_unstaged(e));
            lemma_count_matching_push(pre, e, |e: EntryState| entry_untracked(e));
            lemma_count_matching_push(pre, e, |e: EntryState| entry_conflicted(e));
        }
        if !e.conflicted {
            if e.index_new || e.index_modified || e.index_deleted || e.index_renamed
                || e.index_typechange {
                t.staged = t.staged + 1;
            }
            if e.wt_modified || e.wt_deleted || e.wt_typechange {
                t.unstaged = t.unstaged + 1;
            }
            if e.wt_new {
                t.untracked = t.untracked + 1;
            }
        } else {
            t.conflicted = t.conflicted + 1;
        }
        i = i + 1;
    }
    proof {
        assert(es@.subrange(0, es@.len() as int) =~= es@);
    }
    t
}

} // verus!
