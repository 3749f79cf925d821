use gai::config::RuleConfig;
use gai::diffs::{file_diff_from, DiffLine, DiffLinePosition, DiffLineType, HunkHeader, LineSource};
use gai::log::{recent_count, since_cutoff, GitLog};
use gai::plan::reword_steps;

fn header() -> HunkHeader {
    HunkHeader { old_start: 0, old_lines: 0, new_start: 1, new_lines: 1 }
}

fn added(text: &str) -> DiffLine {
    DiffLine {
        content: text.to_string(),
        line_type: DiffLineType::Add,
        position: DiffLinePosition { old_lineno: None, new_lineno: Some(1) },
    }
}

#[test]
fn file_diff_is_untracked_exactly_for_new_file_patches() {
    let f = file_diff_from("n.rs", LineSource::NewFilePatch, vec![(header(), added("x"))]);
    assert!(f.untracked);
    assert_eq!(f.lines, 1);
    let g = file_diff_from("n.rs", LineSource::Diff, vec![(header(), added("x"))]);
    assert!(!g.untracked);
    assert_eq!(g.hunks.len(), 1);
}

#[test]
fn log_title_round_trip() {
    for m in ["feat(core)!: add x", "fix: repair y", "docs(readme): say z"] {
        assert_eq!(GitLog::from_bytes(m.as_bytes()).title(), m);
    }
}

#[test]
fn since_cutoff_and_recent_count() {
    assert_eq!(since_cutoff(1000, Some(100)), 900);
    assert_eq!(since_cutoff(1000, None), 0);
    assert_eq!(recent_count(&vec![950, 920, 890, 990], 900), 2);
    assert_eq!(recent_count(&vec![950, 920], 900), 2);
    assert_eq!(recent_count(&vec![], 900), 0);
}

#[test]
fn reword_steps_pair_commits_with_messages() {
    let hashes = vec!["a".to_string(), "b".to_string()];
    let (steps, err) = reword_steps(&hashes, &vec!["m1".to_string(), "m2".to_string()]);
    assert_eq!(steps, vec![("a".to_string(), "m1".to_string()), ("b".to_string(), "m2".to_string())]);
    assert_eq!(err, None);
    let (steps, err) = reword_steps(&hashes, &vec!["m1".to_string()]);
    assert_eq!(steps.len(), 1);
    assert_eq!(err.as_deref(), Some("bad index"));
}

#[test]
fn rules_scope_phrases_follow_their_flags() {
    let mut c = RuleConfig::default();
    c.exclude_extension_in_scope = true;
    c.allow_empty_scope = true;
    let t = c.build_rules();
    assert!(t.contains("DO NOT include the file extension"));
    assert!(t.contains("The component name or \"\""));
    c.exclude_extension_in_scope = false;
    c.allow_empty_scope = false;
    let t = c.build_rules();
    assert!(!t.contains("DO NOT include the file extension"));
    assert!(!t.contains("The component name or \"\""));
}
