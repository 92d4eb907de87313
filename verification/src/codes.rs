//! Classification of two-character status codes.
//!
//! A status line carries an index-state character (vs. HEAD) and a
//! worktree-state character (vs. the index). The recognized change markers
//! form a closed set; fully conflicted paths count as conflicted only, and
//! a closed set of ambiguous unmerged combinations counts toward nothing.

use vstd::prelude::*;

verus! {

/// A recognized non-clean change marker on either axis:
/// modified, added, deleted, renamed, copied, or type-changed.
pub open spec fn is_change_code(b: u8) -> bool {
    b == 77 || b == 65 || b == 68 || b == 82 || b == 67 || b == 84
}

/// The code of an untracked path: `??`.
pub open spec fn code_untracked(x: u8, y: u8) -> bool {
    x == 63 && y == 63
}

/// The code of a fully conflicted path: `UU`.
pub open spec fn code_conflicted(x: u8, y: u8) -> bool {
    x == 85 && y == 85
}

/// The closed set of ambiguous unmerged combinations
/// (`DD`, `AU`, `UD`, `UA`, `DU`, `AA`): none of them counts anywhere.
pub open spec fn code_ambiguous(x: u8, y: u8) -> bool {
    (x == 68 && y == 68) || (x == 65 && y == 85) || (x == 85 && y == 68)
        || (x == 85 && y == 65) || (x == 68 && y == 85) || (x == 65 && y == 65)
}

/// The path counts as staged: the index state is a recognized change and the
/// code is neither untracked, conflicted, nor ambiguous.
pub open spec fn code_staged(x: u8, y: u8) -> bool {
    !code_untracked(x, y) && !code_conflicted(x, y) && !code_ambiguous(x, y)
        && is_change_code(x)
}

/// The path counts as unstaged: the worktree state is a recognized change and
/// the code is neither untracked, conflicted, nor ambiguous.
pub open spec fn code_unstaged(x: u8, y: u8) -> bool {
    !code_untracked(x, y) && !code_conflicted(x, y) && !code_ambiguous(x, y)
        && is_change_code(y)
}

/// Which counters one two-character code feeds.
#[derive(Debug, Clone, Copy, PartialEq, Eq, Structural)]
pub struct CodeClass {
    pub staged: bool,
    pub unstaged: bool,
    pub untracked: bool,
    pub conflicted: bool,
}

/// Classifies one two-character status code.
pub fn classify_code(x: u8, y: u8) -> (c: CodeClass)
    ensures
        c.staged == code_staged(x, y),
        c.unstaged == code_unstaged(x, y),
        c.untracked == code_untracked(x, y),
        c.conflicted == code_conflicted(x, y),
{
    let untracked = x == 63 && y == 63;
    let conflicted = x == 85 && y == 85;
    let ambiguous = (x == 68 && y == 68) || (x == 65 && y == 85) || (x == 85 && y == 68)
        || (x == 85 && y == 65) || (x == 68 && y == 85) || (x == 65 && y == 65);
    let excluded = untracked || conflicted || ambiguous;
    CodeClass {
        staged: !excluded && is_change_byte(x),
        unstaged: !excluded && is_change_byte(y),
        untracked,
        conflicted,
    }
}

/// Whether a byte is a recognized change marker.
fn is_change_byte(b: u8) -> (r: bool)
    ensures
        r == is_change_code(b),
{
    b == 77 || b == 65 || b == 68 || b == 82 || b == 67 || b == 84
}

/// An untracked code (`??`) feeds the untracked counter and no other.
pub proof fn lemma_untracked_counts_alone(x: u8, y: u8)
    requires
        x == 63,
        y == 63,
    ensures
        code_untracked(x, y),
        !code_staged(x, y),
        !code_unstaged(x, y),
        !code_conflicted(x, y),
{
}

/// A fully conflicted code (`UU`) feeds the conflicted counter and no other.
pub proof fn lemma_conflicted_counts_alone(x: u8, y: u8)
    requires
        x == 85,
        y == 85,
    ensures
        code_conflicted(x, y),
        !code_staged(x, y),
        !code_unstaged(x, y),
        !code_untracked(x, y),
{
}

/// An ambiguous unmerged code feeds no counter at all.
pub proof fn lemma_ambiguous_counts_nowhere(x: u8, y: u8)
    requires
        code_ambiguous(x, y),
    ensures
        !code_staged(x, y),
        !code_unstaged(x, y),
        !code_untracked(x, y),
        !code_conflicted(x, y),
{
}

/// A change marker paired with a clean worktree state counts as staged only;
/// a clean index state paired with a change marker counts as unstaged only;
/// change markers on both axes count as both, and never as untracked or
/// conflicted.
pub proof fn lemma_two_axis_counting(x: u8, y: u8)
    ensures
        is_change_code(x) && y == 32 ==> code_staged(x, y) && !code_unstaged(x, y)
            && !code_untracked(x, y) && !code_conflicted(x, y),
        x == 32 && is_change_code(y) ==> code_unstaged(x, y) && !code_staged(x, y)
            && !code_untracked(x, y) && !code_conflicted(x, y),
        is_change_code(x) && is_change_code(y) && !code_ambiguous(x, y) ==> code_staged(x, y)
            && code_unstaged(x, y) && !code_untracked(x, y) && !code_conflicted(x, y),
{
}

} // verus!
