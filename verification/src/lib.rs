//! A segmented status line ("powerline") library whose core is a verified
//! git repository status engine: it parses machine-readable status data,
//! classifies every changed path into staged/unstaged/untracked/conflicted
//! tallies, extracts branch and ahead/behind divergence information, and
//! renders the resulting summary as display segments.

use vstd::prelude::*;
use vstd::string::StringSliceAdditionalSpecFns;

pub mod codes;
pub mod header;
pub mod render;
pub mod summary;
pub mod tally;
pub mod text;

verus! {

/// Terminal color, numbered as ANSI palette indices (0-7 normal, 8-15 bright).
pub type TermColor = u32;

pub const BLACK: TermColor = 0;

pub const RED: TermColor = 1;

pub const GREEN: TermColor = 2;

pub const YELLOW: TermColor = 3;

pub const BLUE: TermColor = 4;

pub const MAGENTA: TermColor = 5;

pub const CYAN: TermColor = 6;

pub const WHITE: TermColor = 7;

pub const BRIGHT_BLACK: TermColor = 8;

pub const BRIGHT_RED: TermColor = 9;

pub const BRIGHT_GREEN: TermColor = 10;

pub const BRIGHT_YELLOW: TermColor = 11;

pub const BRIGHT_BLUE: TermColor = 12;

pub const BRIGHT_MAGENTA: TermColor = 13;

pub const BRIGHT_CYAN: TermColor = 14;

pub const BRIGHT_WHITE: TermColor = 15;

/// A unit of display within a powerline.
#[derive(Debug, Clone, PartialEq, Eq)]
pub struct Segment {
    pub content: String,
    pub fg: TermColor,
    pub bg: TermColor,
    pub separator: Option<String>,
    pub separator_fg: Option<TermColor>,
}

impl Segment {
    /// Builds a segment with the given content and colors and no custom
    /// separator.
    pub fn new(content: String, fg: TermColor, bg: TermColor) -> (s: Segment)
        ensures
            s.content@ == content@,
            s.fg == fg,
            s.bg == bg,
            s.separator is None,
            s.separator_fg is None,
    {
        Segment { content, fg, bg, separator: None, separator_fg: None }
    }
}

/// The kinds of segment source this status line can compose.
#[derive(Debug, Clone, Copy, PartialEq, Eq, Structural)]
pub enum SegmentType {
    Cwd,
    Git,
    K8s,
}

/// The segment type that a name selects: exactly `cwd`, `git`, or `k8s`.
pub open spec fn segment_type_of(s: Seq<u8>) -> Option<SegmentType> {
    if s == seq![99u8, 119u8, 100u8] {
        Some(SegmentType::Cwd)
    } else if s == seq![103u8, 105u8, 116u8] {
        Some(SegmentType::Git)
    } else if s == seq![107u8, 56u8, 115u8] {
        Some(SegmentType::K8s)
    } else {
        None
    }
}

/// Parses a segment-type name.
pub fn parse_segment_type(s: &str) -> (r: Option<SegmentType>)
    ensures
        r == segment_type_of(s.spec_bytes()),
{
    let b = s.as_bytes();
    if b.len() == 3 && b[0] == 99 && b[1] == 119 && b[2] == 100 {
        proof {
            assert(b@ =~= seq![99u8, 119u8, 100u8]);
        }
        Some(SegmentType::Cwd)
    } else if b.len() == 3 && b[0] == 103 && b[1] == 105 && b[2] == 116 {
        proof {
            assert(b@ =~= seq![103u8, 105u8, 116u8]);
        }
        Some(SegmentType::Git)
    } else if b.len() == 3 && b[0] == 107 && b[1] == 56 && b[2] == 115 {
        proof {
            assert(b@ =~= seq![107u8, 56u8, 115u8]);
        }
        Some(SegmentType::K8s)
    } else {
        proof {
            if b@ == seq![99u8, 119u8, 100u8] || b@ == seq![103u8, 105u8, 116u8]
                || b@ == seq![107u8, 56u8, 115u8] {
                assert(b@.len() == 3);
            }
        }
        None
    }
}

impl core::str::FromStr for SegmentType {
    type Err = ();

    fn from_str(s: &str) -> Result<SegmentType, ()> {
        match parse_segment_type(s) {
            Some(t) => Ok(t),
            None => Err(()),
        }
    }
}

} // verus!
