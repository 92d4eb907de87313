//! Rendering of a status summary as display segments, and the path / cluster
//! segment builders around it.
//!
//! Counts render with no numeric label when exactly one, with the literal
//! count when above one; a zero count suppresses its segment entirely.

use vstd::prelude::*;
use vstd::string::StringExecFns;

use crate::summary::{big_bang_chars, StatusSummary};
use crate::text::{dec_chars, remove_char, u64_to_dec, utf8_lossy, utf8_lossy_string,
    without_char};
use crate::{Segment, TermColor, BRIGHT_BLACK, BRIGHT_GREEN, BRIGHT_MAGENTA, BRIGHT_RED,
    BRIGHT_WHITE, BRIGHT_YELLOW, CYAN, RED};

verus! {

/// The numeric label of a count: blank at one, the decimal count above one.
pub open spec fn label_chars(n: nat) -> Seq<char> {
    if n <= 1 {
        Seq::empty()
    } else {
        dec_chars(n)
    }
}

/// Renders the numeric label of a count.
pub fn count_label(n: u64) -> (s: String)
    ensures
        s@ == label_chars(n as nat),
{
    if n > 1 {
        u64_to_dec(n)
    } else {
        String::new()
    }
}

/// The branch glyph that opens the branch segment.
pub open spec fn branch_glyph() -> Seq<char> {
    " \u{e0a0} "@
}

/// The check-mark glyph of the ahead, behind, and staged segments.
pub open spec fn check_glyph() -> Seq<char> {
    "\u{2714}"@
}

/// The pencil glyph of the unstaged segment.
pub open spec fn pencil_glyph() -> Seq<char> {
    "\u{270e}"@
}

/// The question-mark glyph of the untracked segment.
pub open spec fn question_glyph() -> Seq<char> {
    "?"@
}

/// The cross glyph of the conflicted segment.
pub open spec fn cross_glyph() -> Seq<char> {
    "\u{2716}"@
}

/// The content of the branch segment: glyph, name, a closing space.
pub open spec fn branch_content(name: Seq<char>) -> Seq<char> {
    branch_glyph() + name + " "@
}

/// The content of a counted segment: space, label, glyph, space.
pub open spec fn counted_content(n: nat, glyph: Seq<char>) -> Seq<char> {
    " "@ + label_chars(n) + glyph + " "@
}

/// The branch name a summary displays: the branch's own name, or the
/// placeholder label when no branch is present.
pub open spec fn summary_branch_chars(s: StatusSummary) -> Seq<char> {
    match s.branch {
        Some(b) => b.name@,
        None => big_bang_chars(),
    }
}

/// The observable triple of one rendered segment: content, foreground,
/// background.
pub open spec fn seg_triple(seg: Segment, m: (Seq<char>, TermColor, TermColor)) -> bool {
    seg.content@ == m.0 && seg.fg == m.1 && seg.bg == m.2 && seg.separator is None
        && seg.separator_fg is None
}

/// Rendered segments match a model list element by element.
pub open spec fn segs_match(v: Seq<Segment>, m: Seq<(Seq<char>, TermColor, TermColor)>) -> bool {
    v.len() == m.len() && forall|q: int| 0 <= q < m.len() ==> seg_triple(#[trigger] v[q], m[q])
}

/// Matching lists stay matching under concatenation.
proof fn lemma_segs_match_append(
    v1: Seq<Segment>,
    m1: Seq<(Seq<char>, TermColor, TermColor)>,
    v2: Seq<Segment>,
    m2: Seq<(Seq<char>, TermColor, TermColor)>,
)
    requires
        segs_match(v1, m1),
        segs_match(v2, m2),
    ensures
        segs_match(v1 + v2, m1 + m2),
{
    assert forall|q: int| 0 <= q < (m1 + m2).len() implies seg_triple(
        #[trigger] (v1 + v2)[q],
        (m1 + m2)[q],
    ) by {
        if q < m1.len() {
            assert(seg_triple(v1[q], m1[q]));
        } else {
            assert(seg_triple(v2[q - m1.len()], m2[q - m1.len()]));
        }
    }
}

/// The branch segment of a summary: always present.
pub open spec fn branch_part(s: StatusSummary) -> Seq<(Seq<char>, TermColor, TermColor)> {
    seq![(branch_content(summary_branch_chars(s)), BRIGHT_WHITE, BRIGHT_BLACK)]
}

/// The ahead segment: present exactly when the divergence reports commits to
/// push.
pub open spec fn ahead_part(s: StatusSummary) -> Seq<(Seq<char>, TermColor, TermColor)> {
    match s.divergence {
        Some(d) => if d.ahead > 0 {
            seq![(counted_content(d.ahead as nat, check_glyph()), BRIGHT_WHITE, BRIGHT_BLACK)]
        } else {
            Seq::empty()
        },
        None => Seq::empty(),
    }
}

/// The behind segment: present exactly when the divergence reports commits to
/// pull.
pub open spec fn behind_part(s: StatusSummary) -> Seq<(Seq<char>, TermColor, TermColor)> {
    match s.divergence {
        Some(d) => if d.behind > 0 {
            seq![(counted_content(d.behind as nat, check_glyph()), BRIGHT_WHITE, BRIGHT_BLACK)]
        } else {
            Seq::empty()
        },
        None => Seq::empty(),
    }
}

/// The staged segment: present exactly when the tally counts staged paths.
pub open spec fn staged_part(s: StatusSummary) -> Seq<(Seq<char>, TermColor, TermColor)> {
    if s.tally.staged > 0 {
        seq![(counted_content(s.tally.staged as nat, check_glyph()), BRIGHT_WHITE, BRIGHT_YELLOW)]
    } else {
        Seq::empty()
    }
}

/// The unstaged segment: present exactly when the tally counts unstaged
/// paths.
pub open spec fn unstaged_part(s: StatusSummary) -> Seq<(Seq<char>, TermColor, TermColor)> {
    if s.tally.unstaged > 0 {
        seq![(counted_content(s.tally.unstaged as nat, pencil_glyph()), BRIGHT_WHITE, BRIGHT_RED)]
    } else {
        Seq::empty()
    }
}

/// The untracked segment: present exactly when the tally counts untracked
/// paths.
pub open spec fn untracked_part(s: StatusSummary) -> Seq<(Seq<char>, TermColor, TermColor)> {
    if s.tally.untracked > 0 {
        seq![(
            counted_content(s.tally.untracked as nat, question_glyph()),
            BRIGHT_WHITE,
            BRIGHT_GREEN,
        )]
    } else {
        Seq::empty()
    }
}

/// The conflicted segment: present exactly when the tally counts conflicted
/// paths.
pub open spec fn conflicted_part(s: StatusSummary) -> Seq<(Seq<char>, TermColor, TermColor)> {
    if s.tally.conflicted > 0 {
        seq![(counted_content(s.tally.conflicted as nat, cross_glyph()), BRIGHT_WHITE, RED)]
    } else {
        Seq::empty()
    }
}

/// Every segment a summary renders, in display order.
pub open spec fn git_segments_model(s: StatusSummary) -> Seq<(Seq<char>, TermColor, TermColor)> {
    branch_part(s) + ahead_part(s) + behind_part(s) + staged_part(s) + unstaged_part(s)
        + untracked_part(s) + conflicted_part(s)
}

/// Builds a counted segment: space, label, glyph, space.
fn counted_segment(n: u64, glyph: &str, fg: TermColor, bg: TermColor) -> (seg: Segment)
    ensures
        seg.content@ == counted_content(n as nat, glyph@),
        seg.fg == fg,
        seg.bg == bg,
        seg.separator is None,
        seg.separator_fg is None,
{
    let mut c = String::from_str(" ");
    let label = count_label(n);
    c.append(label.as_str());
    c.append(glyph);
    c.append(" ");
    proof {
        assert(c@ =~= counted_content(n as nat, glyph@));
    }
    Segment::new(c, fg, bg)
}

/// Renders a status summary as its display segments: the branch segment,
/// then one segment per non-zero count — ahead, behind, staged, unstaged,
/// untracked, conflicted — each suppressed entirely at zero.
#[verifier::rlimit(60)]
pub fn git_segments(s: &StatusSummary) -> (v: Vec<Segment>)
    ensures
        segs_match(v@, git_segments_model(*s)),
{
    let mut v: Vec<Segment> = Vec::new();

    let name = match &s.branch {
        Some(b) => b.name.clone(),
        None => crate::summary::big_bang(),
    };
    let mut c = String::from_str(" \u{e0a0} ");
    c.append(name.as_str());
    c.append(" ");
    proof {
        assert(c@ =~= branch_content(summary_branch_chars(*s)));
    }
    v.push(Segment::new(c, BRIGHT_WHITE, BRIGHT_BLACK));
    let ghost m = branch_part(*s);
    proof {
        assert(segs_match(v@, m));
    }

    match &s.divergence {
        Some(d) => {
            if d.ahead > 0 {
                let seg = counted_segment(d.ahead, "\u{2714}", BRIGHT_WHITE, BRIGHT_BLACK);
                proof {
                    lemma_segs_match_append(v@, m, seq![seg], ahead_part(*s));
                    assert(v@.push(seg) =~= v@ + seq![seg]);
                }
                v.push(seg);
            }
        },
        None => {},
    }
    let ghost m = m + ahead_part(*s);
    proof {
        assert(segs_match(v@, m));
    }

    match &s.divergence {
        Some(d) => {
            if d.behind > 0 {
                let seg = counted_segment(d.behind, "\u{2714}", BRIGHT_WHITE, BRIGHT_BLACK);
                proof {
                    lemma_segs_match_append(v@, m, seq![seg], behind_part(*s));
                    assert(v@.push(seg) =~= v@ + seq![seg]);
                }
                v.push(seg);
            }
        },
        None => {},
    }
    let ghost m = m + behind_part(*s);
    proof {
        assert(segs_match(v@, m));
    }

    if s.tally.staged > 0 {
        let seg = counted_segment(s.tally.staged, "\u{2714}", BRIGHT_WHITE, BRIGHT_YELLOW);
        proof {
            lemma_segs_match_append(v@, m, seq![seg], staged_part(*s));
            assert(v@.push(seg) =~= v@ + seq![seg]);
        }
        v.push(seg);
    }
    let ghost m = m + staged_part(*s);
    proof {
        assert(segs_match(v@, m));
    }

    if s.tally.unstaged > 0 {
        let seg = counted_segment(s.tally.unstaged, "\u{270e}", BRIGHT_WHITE, BRIGHT_RED);
        proof {
            lemma_segs_match_append(v@, m, seq![seg], unstaged_part(*s));
            assert(v@.push(seg) =~= v@ + seq![seg]);
        }
        v.push(seg);
    }
    let ghost m = m + unstaged_part(*s);
    proof {
        assert(segs_match(v@, m));
    }

    if s.tally.untracked > 0 {
        let seg = counted_segment(s.tally.untracked, "?", BRIGHT_WHITE, BRIGHT_GREEN);
        proof {
            lemma_segs_match_append(v@, m, seq![seg], untracked_part(*s));
            assert(v@.push(seg) =~= v@ + seq![seg]);
        }
        v.push(seg);
    }
    let ghost m = m + untracked_part(*s);
    proof {
        assert(segs_match(v@, m));
    }

    if s.tally.conflicted > 0 {
        let seg = counted_segment(s.tally.conflicted, "\u{2716}", BRIGHT_WHITE, RED);
        proof {
            lemma_segs_match_append(v@, m, seq![seg], conflicted_part(*s));
            assert(v@.push(seg) =~= v@ + seq![seg]);
        }
        v.push(seg);
    }
    let ghost m = m + conflicted_part(*s);
    proof {
        assert(segs_match(v@, m));
        assert(m == git_segments_model(*s));
    }

    v
}

/// The home marker that replaces the home-directory prefix of a path.
pub open spec fn home_marker() -> Seq<char> {
    "~"@
}

/// `h` is a component-wise prefix of `c`.
pub open spec fn is_component_prefix(h: Seq<Seq<char>>, c: Seq<Seq<char>>) -> bool {
    h.len() <= c.len() && forall|i: int| 0 <= i < h.len() ==> h[i] == c[i]
}

/// Replaces the home-directory prefix of a path by the home marker: when the
/// home components lead the path, they collapse to `~`; otherwise the path is
/// unchanged.
pub fn normalize_components(cwd: Vec<String>, home: &Option<Vec<String>>) -> (r: Vec<String>)
    ensures
        match home {
            Some(h) => if is_component_prefix(h.deep_view(), cwd.deep_view()) {
                r.deep_view() == seq![home_marker()] + cwd.deep_view().skip(h@.len() as int)
            } else {
                r.deep_view() == cwd.deep_view()
            },
            None => r.deep_view() == cwd.deep_view(),
        },
{
    match home {
        Some(h) => {
            if components_have_prefix(&cwd, h) {
                let mut r: Vec<String> = Vec::new();
                r.push(String::from_str("~"));
                let mut i: usize = h.len();
                while i < cwd.len()
                    invariant
                        h@.len() <= i <= cwd@.len(),
                        r.deep_view() =~= seq![home_marker()] + cwd.deep_view().subrange(
                            h@.len() as int,
                            i as int,
                        ),
                    decreases cwd@.len() - i,
                {
                    let ghost pre = r.deep_view();
                    r.push(cwd[i].clone());
                    proof {
                        assert(r.deep_view() =~~= pre.push(cwd.deep_view()[i as int]));
                        assert(r.deep_view() =~= seq![home_marker()]
                            + cwd.deep_view().subrange(h@.len() as int, i + 1));
                    }
                    i = i + 1;
                }
                proof {
                    assert(cwd.deep_view().subrange(h@.len() as int, cwd@.len() as int)
                        =~= cwd.deep_view().skip(h@.len() as int));
                }
                r
            } else {
                cwd
            }
        },
        None => cwd,
    }
}

/// Whether the components of `h` lead the components of `c`.
fn components_have_prefix(c: &Vec<String>, h: &Vec<String>) -> (r: bool)
    ensures
        r == is_component_prefix(h.deep_view(), c.deep_view()),
{
    if h.len() > c.len() {
        return false;
    }
    let mut i: usize = 0;
    while i < h.len()
        invariant
            0 <= i <= h@.len() <= c@.len(),
            forall|k: int| 0 <= k < i ==> h.deep_view()[k] == c.deep_view()[k],
        decreases h@.len() - i,
    {
        if !(h[i] == c[i]) {
            assert(h.deep_view()[i as int] != c.deep_view()[i as int]);
            return false;
        }
        assert(h.deep_view()[i as int] == c.deep_view()[i as int]);
        i = i + 1;
    }
    true
}

/// The path separator glyph between path segments.
pub open spec fn path_sep_glyph() -> Seq<char> {
    "\u{e0b1}"@
}

/// The characters of an optional string.
pub open spec fn opt_str_chars(o: Option<String>) -> Option<Seq<char>> {
    match o {
        Some(s) => Some(s@),
        None => None,
    }
}

/// Renders path components as segments: each component padded by spaces, the
/// home marker highlighted, a thin separator after every component that is
/// neither the last nor the home marker.
pub fn cwd_segments(parts: &Vec<String>) -> (v: Vec<Segment>)
    ensures
        v@.len() == parts@.len(),
        forall|q: int| 0 <= q < v@.len() ==> {
            let p = parts.deep_view()[q];
            let is_home = p == home_marker();
            let last = q == parts@.len() - 1;
            &&& (#[trigger] v@[q]).content@ == " "@ + p + " "@
            &&& v@[q].fg == BRIGHT_WHITE
            &&& v@[q].bg == if is_home { BRIGHT_MAGENTA } else { CYAN }
            &&& opt_str_chars(v@[q].separator) == if !last && !is_home {
                Some(path_sep_glyph())
            } else {
                None::<Seq<char>>
            }
            &&& v@[q].separator_fg == if !last && !is_home {
                Some(BRIGHT_WHITE)
            } else {
                None::<TermColor>
            }
        },
{
    let n = parts.len();
    let mut v: Vec<Segment> = Vec::new();
    let mut i: usize = 0;
    let marker = String::from_str("~");
    while i < n
        invariant
            0 <= i <= n == parts@.len(),
            marker@ == home_marker(),
            v@.len() == i,
            forall|q: int| 0 <= q < i ==> {
                let p = parts.deep_view()[q];
                let is_home = p == home_marker();
                let last = q == parts@.len() - 1;
                &&& (#[trigger] v@[q]).content@ == " "@ + p + " "@
                &&& v@[q].fg == BRIGHT_WHITE
                &&& v@[q].bg == if is_home { BRIGHT_MAGENTA } else { CYAN }
                &&& opt_str_chars(v@[q].separator) == if !last && !is_home {
                    Some(path_sep_glyph())
                } else {
                    None::<Seq<char>>
                }
                &&& v@[q].separator_fg == if !last && !is_home {
                    Some(BRIGHT_WHITE)
                } else {
                    None::<TermColor>
                }
            },
        decreases n - i,
    {
        let p = &parts[i];
        let is_home = p.eq(&marker);
        let last = i == n - 1;
        let mut c = String::from_str(" ");
        c.append(p.as_str());
        c.append(" ");
        let seg = Segment {
            content: c,
            fg: BRIGHT_WHITE,
            bg: if is_home { BRIGHT_MAGENTA } else { CYAN },
            separator: if !last && !is_home { Some(String::from_str("\u{e0b1}")) } else { None },
            separator_fg: if !last && !is_home { Some(BRIGHT_WHITE) } else { None },
        };
        v.push(seg);
        proof {
            assert(parts.deep_view()[i as int] =~= parts@[i as int]@);
            assert(v@[i as int].content@ =~= " "@ + parts.deep_view()[i as int] + " "@);
            assert((parts.deep_view()[i as int] == home_marker()) == is_home);
            assert((i as int == parts@.len() - 1) == last);
        }
        i = i + 1;
    }
    v
}

/// The gear glyph that opens the cluster-context segment.
pub open spec fn gear_glyph() -> Seq<char> {
    " \u{2699} "@
}

/// Renders the cluster-context segment around an already cleaned context
/// name.
pub fn k8s_segment(context: &String) -> (seg: Segment)
    ensures
        seg.content@ == gear_glyph() + context@ + " "@,
        seg.fg == BRIGHT_WHITE,
        seg.bg == BRIGHT_YELLOW,
        seg.separator is None,
        seg.separator_fg is None,
{
    let mut c = String::from_str(" \u{2699} ");
    c.append(context.as_str());
    c.append(" ");
    Segment::new(c, BRIGHT_WHITE, BRIGHT_YELLOW)
}

/// Renders the cluster-context segment straight from the raw bytes the
/// context query printed: the bytes are decoded lossily, then every newline
/// character is removed from the decoded text.
pub fn k8s_segment_from_output(raw: &Vec<u8>) -> (seg: Segment)
    ensures
        seg.content@ == gear_glyph() + without_char(utf8_lossy(raw@), '\n') + " "@,
        seg.fg == BRIGHT_WHITE,
        seg.bg == BRIGHT_YELLOW,
        seg.separator is None,
        seg.separator_fg is None,
{
    let decoded = utf8_lossy_string(raw);
    let context = remove_char(decoded.as_str(), '\n');
    k8s_segment(&context)
}

/// The default separator glyph closing a segment that sets none of its own.
pub open spec fn default_sep_glyph() -> Seq<char> {
    "\u{e0b0}"@
}

/// The separator a rendered segment displays: its own, or the default glyph.
pub fn separator_content(seg: &Segment) -> (s: String)
    ensures
        s@ == match seg.separator {
            Some(sep) => sep@,
            None => default_sep_glyph(),
        },
{
    match &seg.separator {
        Some(sep) => sep.clone(),
        None => String::from_str("\u{e0b0}"),
    }
}

} // verus!
