use std::str::FromStr;

use powerline::render::{count_label, cwd_segments, git_segments, k8s_segment,
    k8s_segment_from_output, normalize_components, separator_content};
use powerline::summary::summarize_from_text;
use powerline::{parse_segment_type, Segment, SegmentType, BRIGHT_BLACK, BRIGHT_GREEN,
    BRIGHT_MAGENTA, BRIGHT_RED, BRIGHT_WHITE, BRIGHT_YELLOW, CYAN};

#[test]
fn count_label_rendering_rule() {
    assert_eq!(count_label(0), "");
    assert_eq!(count_label(1), "");
    assert_eq!(count_label(2), "2");
    assert_eq!(count_label(10), "10");
    assert_eq!(count_label(1234), "1234");
}

#[test]
fn git_segments_suppress_zero_counts() {
    let s = summarize_from_text(b"## main\n");
    let v = git_segments(&s);
    assert_eq!(v.len(), 1);
    assert_eq!(v[0].content, " \u{e0a0} main ");
    assert_eq!(v[0].fg, BRIGHT_WHITE);
    assert_eq!(v[0].bg, BRIGHT_BLACK);
}

#[test]
fn git_segments_single_count_has_no_label() {
    let s = summarize_from_text(b"## main...origin/main [ahead 1]\nM  a\n");
    let v = git_segments(&s);
    assert_eq!(v.len(), 3);
    assert_eq!(v[1].content, " \u{2714} ");
    assert_eq!(v[1].bg, BRIGHT_BLACK);
    assert_eq!(v[2].content, " \u{2714} ");
    assert_eq!(v[2].bg, BRIGHT_YELLOW);
}

#[test]
fn git_segments_larger_counts_show_number() {
    let s = summarize_from_text(
        b"## main...origin/main [ahead 2, behind 3]\nM  a\nMM b\n?? c\n?? d\n?? e\nUU f\n",
    );
    let v = git_segments(&s);
    // branch, ahead, behind, staged, unstaged, untracked, conflicted
    assert_eq!(v.len(), 7);
    assert_eq!(v[1].content, " 2\u{2714} ");
    assert_eq!(v[2].content, " 3\u{2714} ");
    assert_eq!(v[3].content, " 2\u{2714} ");
    assert_eq!(v[3].bg, BRIGHT_YELLOW);
    assert_eq!(v[4].content, " \u{270e} ");
    assert_eq!(v[4].bg, BRIGHT_RED);
    assert_eq!(v[5].content, " 3? ");
    assert_eq!(v[5].bg, BRIGHT_GREEN);
    assert_eq!(v[6].content, " \u{2716} ");
}

#[test]
fn git_segments_placeholder_branch() {
    let s = summarize_from_text(b"\n");
    let v = git_segments(&s);
    assert_eq!(v.len(), 1);
    assert_eq!(v[0].content, " \u{e0a0} Big Bang ");
}

#[test]
fn normalize_replaces_home_prefix() {
    let cwd = vec!["home".to_string(), "dev".to_string(), "proj".to_string()];
    let home = Some(vec!["home".to_string(), "dev".to_string()]);
    let r = normalize_components(cwd, &home);
    assert_eq!(r, vec!["~".to_string(), "proj".to_string()]);
}

#[test]
fn normalize_keeps_foreign_path() {
    let cwd = vec!["usr".to_string(), "lib".to_string()];
    let home = Some(vec!["home".to_string(), "dev".to_string()]);
    let r = normalize_components(cwd.clone(), &home);
    assert_eq!(r, cwd);

    let cwd2 = vec!["usr".to_string()];
    let r2 = normalize_components(cwd2.clone(), &None);
    assert_eq!(r2, cwd2);
}

#[test]
fn cwd_segments_colors_and_separators() {
    let parts = vec!["~".to_string(), "dev".to_string(), "proj".to_string()];
    let v = cwd_segments(&parts);
    assert_eq!(v.len(), 3);
    assert_eq!(v[0].content, " ~ ");
    assert_eq!(v[0].bg, BRIGHT_MAGENTA);
    assert!(v[0].separator.is_none());
    assert_eq!(v[1].content, " dev ");
    assert_eq!(v[1].bg, CYAN);
    assert_eq!(v[1].separator.as_deref(), Some("\u{e0b1}"));
    assert_eq!(v[1].separator_fg, Some(BRIGHT_WHITE));
    assert_eq!(v[2].content, " proj ");
    assert!(v[2].separator.is_none());
    assert!(v[2].separator_fg.is_none());
}

#[test]
fn k8s_segment_content() {
    let seg = k8s_segment(&"staging".to_string());
    assert_eq!(seg.content, " \u{2699} staging ");
    assert_eq!(seg.fg, BRIGHT_WHITE);
    assert_eq!(seg.bg, BRIGHT_YELLOW);
}

#[test]
fn k8s_segment_cleans_raw_output() {
    let seg = k8s_segment_from_output(&b"staging\n".to_vec());
    assert_eq!(seg.content, " \u{2699} staging ");
    assert_eq!(seg.bg, BRIGHT_YELLOW);
    assert!(seg.separator.is_none());
    assert!(seg.separator_fg.is_none());

    let multi = k8s_segment_from_output(&b"one\ntwo\n".to_vec());
    assert_eq!(multi.content, " \u{2699} onetwo ");

    let lossy = k8s_segment_from_output(&b"st\xffg\n".to_vec());
    assert_eq!(lossy.content, " \u{2699} st\u{fffd}g ");

    // Decoding comes first: a newline byte splitting an invalid sequence
    // leaves two replacement characters, and never merges the halves.
    let split = k8s_segment_from_output(&b"\xc2\x0a\x80".to_vec());
    assert_eq!(split.content, " \u{2699} \u{fffd}\u{fffd} ");
}

#[test]
fn parse_segment_type_names() {
    assert_eq!(parse_segment_type("cwd"), Some(SegmentType::Cwd));
    assert_eq!(parse_segment_type("git"), Some(SegmentType::Git));
    assert_eq!(parse_segment_type("k8s"), Some(SegmentType::K8s));
    assert_eq!(parse_segment_type("gitx"), None);
    assert_eq!(parse_segment_type(""), None);
}

#[test]
fn separator_content_default() {
    let seg = Segment::new("x".to_string(), BRIGHT_WHITE, CYAN);
    assert_eq!(separator_content(&seg), "\u{e0b0}");

    let mut custom = Segment::new("x".to_string(), BRIGHT_WHITE, CYAN);
    custom.separator = Some("\u{e0b1}".to_string());
    assert_eq!(separator_content(&custom), "\u{e0b1}");
}

#[test]
fn segment_type_from_str() {
    assert!(matches!(SegmentType::from_str("cwd"), Ok(SegmentType::Cwd)));
    assert!(matches!(SegmentType::from_str("git"), Ok(SegmentType::Git)));
    assert!(matches!(SegmentType::from_str("k8s"), Ok(SegmentType::K8s)));
    assert!(SegmentType::from_str("other").is_err());
}

#[test]
fn segment_new_defaults() {
    let seg = Segment::new("hi".to_string(), BRIGHT_WHITE, BRIGHT_BLACK);
    assert_eq!(seg.content, "hi");
    assert!(seg.separator.is_none());
    assert!(seg.separator_fg.is_none());
}
