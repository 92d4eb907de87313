use powerline::header::parse_header;
use powerline::summary::{summarize_from_parts, summarize_from_text, BranchInfo, CommitId};
use powerline::tally::{file_tally_from_entries, EntryState};
use powerline::text::parse_u64;

fn entry(
    index_new: bool,
    index_modified: bool,
    wt_new: bool,
    wt_modified: bool,
    conflicted: bool,
) -> EntryState {
    EntryState {
        index_new,
        index_modified,
        index_deleted: false,
        index_renamed: false,
        index_typechange: false,
        wt_new,
        wt_modified,
        wt_deleted: false,
        wt_typechange: false,
        conflicted,
    }
}

#[test]
fn header_with_ahead_and_behind() {
    let s = summarize_from_text(b"## main...origin/main [ahead 2, behind 1]\n");
    let b = s.branch.expect("branch expected");
    assert_eq!(b.name, "main");
    let d = s.divergence.expect("divergence expected");
    assert_eq!(d.ahead, 2);
    assert_eq!(d.behind, 1);
}

#[test]
fn header_without_bracket_has_no_divergence() {
    let with_remote = summarize_from_text(b"## main...origin/main\n");
    assert!(with_remote.divergence.is_none());
    assert_eq!(with_remote.branch.unwrap().name, "main");

    let without_remote = summarize_from_text(b"## main\n");
    assert!(without_remote.divergence.is_none());
    assert_eq!(without_remote.branch.unwrap().name, "main");
}

#[test]
fn header_ahead_only() {
    let s = summarize_from_text(b"## main...origin/main [ahead 2]\n");
    let d = s.divergence.expect("divergence expected");
    assert_eq!(d.ahead, 2);
    assert_eq!(d.behind, 0);
    assert_eq!(s.tally.staged, 0);
    assert_eq!(s.tally.unstaged, 0);
    assert_eq!(s.tally.untracked, 0);
    assert_eq!(s.tally.conflicted, 0);
}

#[test]
fn header_behind_only() {
    let s = summarize_from_text(b"## dev...origin/dev [behind 7]\n");
    let d = s.divergence.expect("divergence expected");
    assert_eq!(d.ahead, 0);
    assert_eq!(d.behind, 7);
}

#[test]
fn header_malformed_bracket_is_absent_not_zero() {
    assert!(summarize_from_text(b"## m...o [ahead x]\n").divergence.is_none());
    assert!(summarize_from_text(b"## m...o [ahead ]\n").divergence.is_none());
    assert!(summarize_from_text(b"## m...o [behind 1, ahead 2]\n").divergence.is_none());
    assert!(summarize_from_text(b"## m...o [ahead 2, behind 1] x\n").divergence.is_none());
}

#[test]
fn header_count_too_large_is_absent() {
    let s = summarize_from_text(b"## m...o [ahead 99999999999999999999]\n");
    assert!(s.divergence.is_none());
}

#[test]
fn parse_header_direct() {
    let h = parse_header(b"## topic...origin/topic [ahead 12, behind 3]");
    assert_eq!(h.name.as_deref(), Some(b"topic".as_slice()));
    let d = h.divergence.unwrap();
    assert_eq!(d.ahead, 12);
    assert_eq!(d.behind, 3);

    let none = parse_header(b"not a header");
    assert!(none.name.is_none());
    assert!(none.divergence.is_none());
}

#[test]
fn untracked_code_counts_alone() {
    let s = summarize_from_text(b"## main\n?? new.txt\n");
    assert_eq!(s.tally.untracked, 1);
    assert_eq!(s.tally.staged, 0);
    assert_eq!(s.tally.unstaged, 0);
    assert_eq!(s.tally.conflicted, 0);
}

#[test]
fn conflicted_code_counts_alone() {
    let s = summarize_from_text(b"## main\nUU clash.txt\n");
    assert_eq!(s.tally.conflicted, 1);
    assert_eq!(s.tally.staged, 0);
    assert_eq!(s.tally.unstaged, 0);
    assert_eq!(s.tally.untracked, 0);
}

#[test]
fn ambiguous_codes_count_nowhere() {
    let text = b"## main\nDD a\nAU b\nUD c\nUA d\nDU e\nAA f\n";
    let s = summarize_from_text(text);
    assert_eq!(s.tally.staged, 0);
    assert_eq!(s.tally.unstaged, 0);
    assert_eq!(s.tally.untracked, 0);
    assert_eq!(s.tally.conflicted, 0);
}

#[test]
fn two_axis_codes() {
    let staged_only = summarize_from_text(b"## main\nM  a.rs\n");
    assert_eq!(staged_only.tally.staged, 1);
    assert_eq!(staged_only.tally.unstaged, 0);

    let unstaged_only = summarize_from_text(b"## main\n M a.rs\n");
    assert_eq!(unstaged_only.tally.staged, 0);
    assert_eq!(unstaged_only.tally.unstaged, 1);

    let both = summarize_from_text(b"## main\nMM a.rs\n");
    assert_eq!(both.tally.staged, 1);
    assert_eq!(both.tally.unstaged, 1);
}

#[test]
fn summarize_is_idempotent() {
    let text = b"## main...origin/main [ahead 2, behind 1]\nM  a\n M b\n?? c\nUU d\n";
    let first = summarize_from_text(text);
    let second = summarize_from_text(text);
    assert_eq!(first, second);
}

#[test]
fn empty_repository_yields_placeholder() {
    let s = summarize_from_parts(true, None, None, Some(Vec::new()));
    assert_eq!(s.branch.unwrap().name, "Big Bang");
    assert!(s.divergence.is_none());
    assert_eq!(s.tally.staged, 0);
    assert_eq!(s.tally.unstaged, 0);
    assert_eq!(s.tally.untracked, 0);
    assert_eq!(s.tally.conflicted, 0);
}

#[test]
fn no_repository_yields_empty_summary() {
    let s = summarize_from_parts(false, None, None, None);
    assert!(s.branch.is_none());
    assert!(s.divergence.is_none());
    assert_eq!(s.tally.staged, 0);
}

#[test]
fn mixed_worktree_tally() {
    let s = summarize_from_text(b"## main\nA  staged.rs\n M edited.rs\n?? fresh.rs\n");
    assert_eq!(s.tally.staged, 1);
    assert_eq!(s.tally.unstaged, 1);
    assert_eq!(s.tally.untracked, 1);
    assert_eq!(s.tally.conflicted, 0);
}

#[test]
fn mixed_worktree_tally_from_entries() {
    let es = vec![
        entry(true, false, false, false, false),
        entry(false, false, false, true, false),
        entry(false, false, true, false, false),
    ];
    let t = file_tally_from_entries(&es);
    assert_eq!(t.staged, 1);
    assert_eq!(t.unstaged, 1);
    assert_eq!(t.untracked, 1);
    assert_eq!(t.conflicted, 0);
}

#[test]
fn conflicted_entry_counts_alone() {
    let es = vec![entry(true, true, false, true, true)];
    let t = file_tally_from_entries(&es);
    assert_eq!(t.staged, 0);
    assert_eq!(t.unstaged, 0);
    assert_eq!(t.untracked, 0);
    assert_eq!(t.conflicted, 1);
}

#[test]
fn ahead_clean_tree() {
    let s = summarize_from_text(b"## main...origin/main [ahead 2]\n");
    let d = s.divergence.unwrap();
    assert_eq!(d.ahead, 2);
    assert_eq!(d.behind, 0);
    assert_eq!(s.tally.staged, 0);
    assert_eq!(s.tally.unstaged, 0);
    assert_eq!(s.tally.untracked, 0);
    assert_eq!(s.tally.conflicted, 0);
}

#[test]
fn divergence_needs_both_commits() {
    let local = Some(CommitId { bytes: vec![1u8; 20] });
    let with_both = BranchInfo {
        name: "main".to_string(),
        local_commit: local.clone(),
        upstream_commit: Some(CommitId { bytes: vec![2u8; 20] }),
    };
    let s = summarize_from_parts(true, Some(with_both), Some((2, 0)), None);
    let d = s.divergence.unwrap();
    assert_eq!(d.ahead, 2);
    assert_eq!(d.behind, 0);

    let without_upstream = BranchInfo {
        name: "main".to_string(),
        local_commit: local,
        upstream_commit: None,
    };
    let s = summarize_from_parts(true, Some(without_upstream), Some((2, 0)), None);
    assert!(s.divergence.is_none());
}

#[test]
fn non_utf8_branch_name_falls_back() {
    let s = summarize_from_text(b"## b\xffad...origin/x\n");
    assert_eq!(s.branch.unwrap().name, "Big Bang");
}

#[test]
fn unusable_branch_name_suppresses_divergence() {
    let s = summarize_from_text(b"## b\xffad...origin/x [ahead 2, behind 1]\n");
    assert_eq!(s.branch.unwrap().name, "Big Bang");
    assert!(s.divergence.is_none());

    let nameless = summarize_from_text(b"## ...origin/x [ahead 2]\n");
    assert_eq!(nameless.branch.unwrap().name, "Big Bang");
    assert!(nameless.divergence.is_none());
}

#[test]
fn utf8_branch_name_is_kept() {
    let s = summarize_from_text("## h\u{e9}llo...origin/x [ahead 2]\n".as_bytes());
    assert_eq!(s.branch.unwrap().name, "h\u{e9}llo");
    let d = s.divergence.unwrap();
    assert_eq!(d.ahead, 2);
    assert_eq!(d.behind, 0);
}

#[test]
fn empty_input_yields_placeholder_branch() {
    let s = summarize_from_text(b"");
    assert_eq!(s.branch.unwrap().name, "Big Bang");
    assert!(s.divergence.is_none());
    assert_eq!(s.tally.untracked, 0);
}

#[test]
fn parse_u64_bounds() {
    assert_eq!(parse_u64(b"0"), Some(0));
    assert_eq!(parse_u64(b"42"), Some(42));
    assert_eq!(parse_u64(b"18446744073709551615"), Some(u64::MAX));
    assert_eq!(parse_u64(b"18446744073709551616"), None);
    assert_eq!(parse_u64(b""), None);
    assert_eq!(parse_u64(b"1x"), None);
}

#[test]
fn strategies_agree_on_example() {
    let text = summarize_from_text(b"## main\nM  a\n M b\nMM c\n?? d\nUU e\n");
    let es = vec![
        entry(false, true, false, false, false),
        entry(false, false, false, true, false),
        entry(false, true, false, true, false),
        entry(false, false, true, false, false),
        entry(false, false, false, false, true),
    ];
    let t = file_tally_from_entries(&es);
    assert_eq!(text.tally, t);
}

#[test]
fn parts_summarize_is_idempotent() {
    let branch = BranchInfo {
        name: "main".to_string(),
        local_commit: Some(CommitId { bytes: vec![7u8; 20] }),
        upstream_commit: Some(CommitId { bytes: vec![9u8; 20] }),
    };
    let es = vec![entry(true, false, false, false, false)];
    let first = summarize_from_parts(true, Some(branch.clone()), Some((1, 4)), Some(es.clone()));
    let second = summarize_from_parts(true, Some(branch), Some((1, 4)), Some(es));
    assert_eq!(first, second);
}

#[test]
fn malformed_status_lines_feed_nothing() {
    let s = summarize_from_text(b"## main\nM\nMM\nM x\n");
    assert_eq!(s.tally.staged, 0);
    assert_eq!(s.tally.unstaged, 0);
    assert_eq!(s.tally.untracked, 0);
    assert_eq!(s.tally.conflicted, 0);
}
