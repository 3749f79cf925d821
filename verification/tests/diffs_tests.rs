use gai::diffs::{
    build_file_diff, find_file_diff, find_file_hunks, get_hunk_ids, hunk_id_string, is_newline,
    remove_hunks, DiffLine, DiffLinePosition, DiffLineType, Diffs, FileDiff, Hunk, HunkHeader,
    HunkId,
};
use gai::errors::GitError;

fn pos() -> DiffLinePosition {
    DiffLinePosition { old_lineno: None, new_lineno: None }
}

fn line(text: &str, t: DiffLineType) -> DiffLine {
    DiffLine { content: text.to_string(), line_type: t, position: pos() }
}

fn header(n: u32) -> HunkHeader {
    HunkHeader { old_start: n, old_lines: 1, new_start: n, new_lines: 1 }
}

fn hunk(id: usize, lines: Vec<DiffLine>) -> Hunk {
    Hunk { id, header: header(id as u32), lines }
}

fn file(path: &str, hunks: Vec<Hunk>, untracked: bool) -> FileDiff {
    FileDiff { path: path.to_string(), hunks, lines: 0, untracked }
}

fn sample() -> Diffs {
    Diffs {
        files: vec![
            file(
                "src/main.rs",
                vec![
                    hunk(0, vec![line("a", DiffLineType::Add)]),
                    hunk(1, vec![line("b", DiffLineType::Delete), line("c", DiffLineType::Unchanged)]),
                ],
                false,
            ),
            file("README.md", vec![hunk(0, vec![line("d", DiffLineType::Add)])], true),
        ],
    }
}

#[test]
fn hunk_id_text_is_path_colon_index() {
    assert_eq!(hunk_id_string("src/main.rs", 12), "src/main.rs:12");
}

#[test]
fn hunk_id_parses_at_first_colon() {
    let id = HunkId::try_from("src/a.rs:3").unwrap();
    assert_eq!(id.path, "src/a.rs");
    assert_eq!(id.index, 3);
    let id = HunkId::try_from("a:+7").unwrap();
    assert_eq!(id.path, "a");
    assert_eq!(id.index, 7);
    assert!(HunkId::try_from("a:b:7").is_err());
}

#[test]
fn hunk_id_errors_carry_the_text() {
    match HunkId::try_from("no-colon") {
        Err(GitError::InvalidHunk(t)) => assert_eq!(t, "no-colon"),
        _ => panic!("expected InvalidHunk"),
    }
    match HunkId::try_from("x:99999999999999999999999") {
        Err(GitError::InvalidHunk(t)) => assert_eq!(t, "x:99999999999999999999999"),
        _ => panic!("expected InvalidHunk"),
    }
}

#[test]
fn hunk_ids_parse_back() {
    let d = sample();
    let texts = d.as_hunks();
    assert_eq!(texts, vec!["src/main.rs:0", "src/main.rs:1", "README.md:0"]);
    let ids = get_hunk_ids(&d.files);
    for (t, id) in texts.iter().zip(ids.iter()) {
        let parsed = HunkId::try_from(t.as_str()).unwrap();
        assert_eq!(parsed.path, id.path);
        assert_eq!(parsed.index, id.index);
    }
}

#[test]
fn files_in_order() {
    assert_eq!(sample().as_files(), vec!["src/main.rs", "README.md"]);
}

#[test]
fn find_file_diff_by_path() {
    let d = sample();
    assert_eq!(find_file_diff(&d.files, "README.md").unwrap().path, "README.md");
    match find_file_diff(&d.files, "missing.rs") {
        Err(GitError::Generic(m)) => assert_eq!(m, "missing.rs is not in the og_file_diffs"),
        _ => panic!("expected Generic"),
    }
}

#[test]
fn find_file_hunks_by_id() {
    let d = sample();
    let hs = find_file_hunks(&d.files[0], vec![1, 5]).unwrap();
    assert_eq!(hs.len(), 1);
    assert_eq!(hs[0].id, 1);
    match find_file_hunks(&d.files[0], vec![7]) {
        Err(GitError::Generic(m)) => assert_eq!(m, "no matching hunks found in src/main.rs"),
        _ => panic!("expected Generic"),
    }
}

#[test]
fn picked_and_removed_hunks_partition() {
    let mut d = sample();
    let picked = find_file_hunks(&d.files[0], vec![0]).unwrap();
    remove_hunks(&mut d.files, "src/main.rs", &[0]);
    assert_eq!(picked.len() + d.files[0].hunks.len(), 2);
    assert_eq!(d.files[0].hunks[0].id, 1);
    assert_eq!(d.files[1].hunks.len(), 1);
}

#[test]
fn request_text_of_diffs() {
    let d = sample();
    assert_eq!(
        d.to_request_string(),
        "HunkId[src/main.rs:0]\n+a\nHunkId[src/main.rs:1]\n-b\n c\n\nHunkId[README.md:0]\n+d\n\n"
    );
}

#[test]
fn consecutive_lines_of_a_header_form_one_hunk() {
    let events = vec![
        (header(1), line("x", DiffLineType::Add)),
        (header(1), line("y", DiffLineType::Add)),
        (header(9), line("z", DiffLineType::Delete)),
    ];
    let f = build_file_diff("f.rs", events, false);
    assert_eq!(f.hunks.len(), 2);
    assert_eq!(f.hunks[0].lines.len(), 2);
    assert_eq!(f.hunks[1].id, 1);
    assert_eq!(f.lines, 3);
}

#[test]
fn raw_lines_lose_their_line_breaks() {
    let l = DiffLine::from_raw("\r\nhello\n", DiffLineType::Add, pos());
    assert_eq!(l.content, "hello");
    assert!(is_newline('\n'));
    assert!(is_newline('\r'));
    assert!(!is_newline(' '));
}

#[test]
fn line_prefixes() {
    assert_eq!(DiffLineType::Add.prefix(), "+");
    assert_eq!(DiffLineType::Delete.prefix(), "-");
    assert_eq!(DiffLineType::Unchanged.prefix(), " ");
    assert_eq!(DiffLineType::Header.prefix(), "");
}

#[test]
fn line_kinds_from_git() {
    assert_eq!(DiffLineType::from_git(git2::DiffLineType::Addition), DiffLineType::Add);
    assert_eq!(DiffLineType::from_git(git2::DiffLineType::DeleteEOFNL), DiffLineType::Delete);
    assert_eq!(DiffLineType::from_git(git2::DiffLineType::HunkHeader), DiffLineType::Header);
    assert_eq!(DiffLineType::from_git(git2::DiffLineType::Context), DiffLineType::Unchanged);
    assert_eq!(DiffLineType::from_git(git2::DiffLineType::Binary), DiffLineType::Unchanged);
    assert_eq!(DiffLineType::from_origin(gai::diffs::LineOrigin::AddEOFNL), DiffLineType::Add);
}
