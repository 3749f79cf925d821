use gai::commit::{group_hunk_ids, plan_file_staging, retain_other_files, FileStaging};
use gai::diffs::{DiffLine, DiffLinePosition, DiffLineType, FileDiff, Hunk, HunkHeader};
use gai::errors::GitError;
use gai::plan::{parse_count, plan_steps, sort_operations, CountInput, PlanOperation, PlanOperationKind, PlanStep};

fn op(i: u32, kind: PlanOperationKind, msg: Option<&str>) -> PlanOperation {
    PlanOperation {
        commit_index: i,
        operation: kind,
        new_message: msg.map(|m| m.to_string()),
        reasoning: String::new(),
    }
}

fn hashes() -> Vec<String> {
    vec!["h0".to_string(), "h1".to_string(), "h2".to_string()]
}

#[test]
fn operations_sorted_stably() {
    let s = sort_operations(vec![
        op(2, PlanOperationKind::Pick, None),
        op(0, PlanOperationKind::Drop, None),
        op(2, PlanOperationKind::Reword, Some("r")),
        op(1, PlanOperationKind::Pick, None),
    ]);
    let keys: Vec<(u32, PlanOperationKind)> = s.iter().map(|o| (o.commit_index, o.operation)).collect();
    assert_eq!(
        keys,
        vec![(0, PlanOperationKind::Drop), (1, PlanOperationKind::Pick), (2, PlanOperationKind::Pick), (2, PlanOperationKind::Reword)]
    );
}

#[test]
fn plan_to_steps() {
    let (steps, err) = plan_steps(
        vec![
            op(2, PlanOperationKind::Squash, Some("sq")),
            op(0, PlanOperationKind::Pick, None),
            op(1, PlanOperationKind::Drop, None),
            op(1, PlanOperationKind::Reword, Some("rw")),
        ],
        &hashes(),
    );
    assert!(err.is_none());
    assert_eq!(steps.len(), 3);
    assert!(matches!(&steps[0], PlanStep::Pick(h) if h == "h0"));
    assert!(matches!(&steps[1], PlanStep::Reword(h, m) if h == "h1" && m == "rw"));
    assert!(matches!(&steps[2], PlanStep::Squash(h, m) if h == "h2" && m == "sq"));
}

#[test]
fn plan_stops_without_message() {
    let (steps, err) = plan_steps(
        vec![op(0, PlanOperationKind::Pick, None), op(1, PlanOperationKind::Squash, None), op(2, PlanOperationKind::Pick, None)],
        &hashes(),
    );
    assert_eq!(steps.len(), 1);
    assert_eq!(err.unwrap(), "no message in schema for a squash, not good, bailing");
    let (steps, err) = plan_steps(vec![op(1, PlanOperationKind::Reword, None)], &hashes());
    assert!(steps.is_empty());
    assert_eq!(err.unwrap(), "no message in schema for a reword, not good, bailing");
}

#[test]
fn counts_typed_in() {
    assert_eq!(parse_count("3"), CountInput::Count(3));
    assert_eq!(parse_count("+4"), CountInput::Count(4));
    assert_eq!(parse_count("0"), CountInput::Zero);
    assert_eq!(parse_count("x"), CountInput::Invalid);
    assert_eq!(parse_count(""), CountInput::Invalid);
}

#[test]
fn hunk_ids_grouped_by_file() {
    let g = group_hunk_ids(&vec!["a.rs:1".to_string(), "b.rs:0".to_string(), "a.rs:3".to_string()]).unwrap();
    assert_eq!(g, vec![("a.rs".to_string(), vec![1, 3]), ("b.rs".to_string(), vec![0])]);
    match group_hunk_ids(&vec!["a.rs:1".to_string(), "broken".to_string(), "bad".to_string()]) {
        Err(GitError::InvalidHunk(t)) => assert_eq!(t, "broken"),
        _ => panic!("expected InvalidHunk"),
    }
}

fn fd(path: &str, ids: &[usize], untracked: bool) -> FileDiff {
    FileDiff {
        path: path.to_string(),
        hunks: ids
            .iter()
            .map(|&id| Hunk {
                id,
                header: HunkHeader { old_start: 0, old_lines: 0, new_start: 0, new_lines: 0 },
                lines: vec![DiffLine {
                    content: "x".to_string(),
                    line_type: DiffLineType::Add,
                    position: DiffLinePosition { old_lineno: None, new_lineno: None },
                }],
            })
            .collect(),
        lines: ids.len(),
        untracked,
    }
}

#[test]
fn staging_plan_of_a_file() {
    let og = vec![fd("a.rs", &[0, 1], false), fd("n.txt", &[0], true)];
    match plan_file_staging(&og, "a.rs", vec![1]).unwrap() {
        FileStaging::Hunks(hs) => {
            assert_eq!(hs.len(), 1);
            assert_eq!(hs[0].id, 1);
        },
        FileStaging::WholeFile => panic!("expected hunks"),
    }
    assert!(matches!(plan_file_staging(&og, "n.txt", vec![9]).unwrap(), FileStaging::WholeFile));
    match plan_file_staging(&og, "zz", vec![0]) {
        Err(GitError::Generic(m)) => assert_eq!(m, "zz is not in the og_file_diffs"),
        _ => panic!("expected Generic"),
    }
    match plan_file_staging(&og, "a.rs", vec![5]) {
        Err(GitError::Generic(m)) => assert_eq!(m, "no matching hunks found in a.rs"),
        _ => panic!("expected Generic"),
    }
}

#[test]
fn staged_file_leaves_the_diffs() {
    let mut og = vec![fd("a.rs", &[0], false), fd("b.rs", &[0], false), fd("a.rs", &[1], false)];
    retain_other_files(&mut og, "a.rs");
    assert_eq!(og.len(), 1);
    assert_eq!(og[0].path, "b.rs");
}
