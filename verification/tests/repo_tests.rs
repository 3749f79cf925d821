use gai::gaigit::{
    get_file_diffs_as_str as plain_diffs, new_file_hunk, process_file_diff, record_diff_line,
    record_untracked,
};
use gai::gitdiff::GitDiff;
use gai::repo::{
    branch_label, create_patches, get_file_diffs_as_str, DiffType, GaiFile, GaiStatus, HunkDiff,
    LineDiff,
};

fn ld(t: DiffType, c: &str) -> LineDiff {
    LineDiff { diff_type: t, content: c.to_string() }
}

fn files() -> Vec<GaiFile> {
    vec![
        GaiFile {
            path: "a.rs".to_string(),
            should_truncate: false,
            hunks: vec![
                HunkDiff {
                    header: "@@ -1,1 +1,1 @@".to_string(),
                    line_diffs: vec![ld(DiffType::Deletions, "old\n"), ld(DiffType::Additions, "new\n")],
                },
                HunkDiff {
                    header: "@@ -9 +9 @@\n".to_string(),
                    line_diffs: vec![ld(DiffType::Unchanged, "same\n")],
                },
            ],
        },
        GaiFile { path: "Cargo.lock".to_string(), should_truncate: true, hunks: vec![] },
        GaiFile { path: "empty.rs".to_string(), should_truncate: false, hunks: vec![] },
    ]
}

#[test]
fn status_text() {
    let s = GaiStatus {
        s_new: vec!["n".to_string()],
        s_modified: vec!["m".to_string()],
        s_deleted: vec![],
        s_renamed: vec![("o".to_string(), "p".to_string())],
        u_new: vec!["u".to_string()],
        u_modified: vec![],
        u_deleted: vec!["d".to_string()],
        u_renamed: vec![],
    };
    assert_eq!(
        s.get_repo_status_as_str(),
        "Staged:\nA  n\nM  m\nR  o -> p\n\nUnstaged:\n? u\nD d\n"
    );
    assert_eq!(s.staged_len(), 3);
    assert_eq!(s.unstaged_len(), 2);
    let only_unstaged = GaiStatus {
        s_new: vec![],
        s_modified: vec![],
        s_deleted: vec![],
        s_renamed: vec![],
        u_new: vec![],
        u_modified: vec!["x".to_string()],
        u_deleted: vec![],
        u_renamed: vec![("a".to_string(), "b".to_string())],
    };
    assert_eq!(only_unstaged.get_repo_status_as_str(), "Unstaged:\nM x\nR a -> b\n");
}

#[test]
fn empty_status_text() {
    let s = GaiStatus {
        s_new: vec![],
        s_modified: vec![],
        s_deleted: vec![],
        s_renamed: vec![],
        u_new: vec![],
        u_modified: vec![],
        u_deleted: vec![],
        u_renamed: vec![],
    };
    assert_eq!(s.get_repo_status_as_str(), "");
}

#[test]
fn file_diff_texts_for_a_request() {
    let m = get_file_diffs_as_str(&files());
    assert_eq!(m.len(), 2);
    assert_eq!(m[0].0, "a.rs");
    assert_eq!(
        m[0].1,
        "Hunk_id[a.rs:0]\n@@ -1,1 +1,1 @@\n-old\n+new\n\nHunk_id[a.rs:1]\n@@ -9 +9 @@\n\n same\n\n"
    );
    assert_eq!(m[1], ("Cargo.lock".to_string(), "Truncated File".to_string()));
}

#[test]
fn same_path_keeps_one_entry() {
    let mut fs = files();
    fs.push(GaiFile { path: "Cargo.lock".to_string(), should_truncate: true, hunks: vec![] });
    let m = get_file_diffs_as_str(&fs);
    assert_eq!(m.len(), 2);
}

#[test]
fn patch_of_hunks() {
    let p = create_patches(
        &files(),
        &["a.rs:1".to_string(), "bad".to_string(), "a.rs:0".to_string(), "zz.rs:0".to_string(), "a.rs:7".to_string()],
    );
    assert_eq!(
        p,
        "diff --git a/a.rs b/a.rs\n--- a/a.rs\n+++ b/a.rs\n@@ -9 +9 @@\n same\n@@ -1,1 +1,1 @@\n-old\n+new\n"
    );
    assert_eq!(create_patches(&files(), &[]), "");
}

#[test]
fn branch_labels() {
    assert_eq!(branch_label(Ok(Some("main"))), "main");
    assert_eq!(branch_label(Ok(None)), "HEAD");
    assert_eq!(branch_label(Err("oops")), "bad branch oops");
}

#[test]
fn lines_go_to_the_hunk_of_their_header() {
    let mut hs: Vec<HunkDiff> = Vec::new();
    process_file_diff(&mut hs, Some(b"@@ a @@"), '+', b"x\n");
    process_file_diff(&mut hs, Some(b"@@ b @@"), '-', b"y\n");
    process_file_diff(&mut hs, Some(b"@@ a @@"), ' ', b"z\n");
    process_file_diff(&mut hs, Some(b"@@ a @@"), 'F', b"ignored");
    process_file_diff(&mut hs, None, '+', b"ignored");
    process_file_diff(&mut hs, Some(&[0xff]), '+', &[0xfe]);
    assert_eq!(hs.len(), 3);
    assert_eq!(hs[0].line_diffs.len(), 2);
    assert_eq!(hs[0].line_diffs[1].diff_type, DiffType::Unchanged);
    assert_eq!(hs[2].header, "not a valid utf8 header from hunk");
    assert_eq!(hs[2].line_diffs[0].content, "not a valid utf8 line from hunk");
}

#[test]
fn working_tree_lines_and_truncation() {
    let mut fd: Vec<(String, Vec<HunkDiff>)> = Vec::new();
    let mut truncated: Vec<String> = Vec::new();
    let to_truncate = vec!["lock".to_string()];
    record_diff_line(&mut fd, &mut truncated, &to_truncate, "a.rs", Some(b"@@ h @@"), '+', b"1\n");
    record_diff_line(&mut fd, &mut truncated, &to_truncate, "Cargo.lock", Some(b"@@ h @@"), '+', b"2\n");
    record_diff_line(&mut fd, &mut truncated, &to_truncate, "a.rs", Some(b"@@ h @@"), '-', b"3\n");
    assert_eq!(fd.len(), 2);
    assert_eq!(fd[0].1[0].line_diffs.len(), 2);
    assert_eq!(truncated, vec!["Cargo.lock".to_string()]);
    record_untracked(&mut fd, &mut truncated, &to_truncate, "new.txt", Some("l1\nl2"));
    record_untracked(&mut fd, &mut truncated, &to_truncate, "x.lock", Some("zzz"));
    assert_eq!(fd.len(), 3);
    assert_eq!(fd[2].1[0].header, "new file 2");
    assert_eq!(fd[2].1[0].line_diffs[1].content, "l2\n");
    assert_eq!(truncated.len(), 2);
    let m = plain_diffs(&fd);
    assert_eq!(m[0], ("a.rs".to_string(), "@@ h @@\n+1\n-3\n\n".to_string()));
    assert_eq!(m[2].1, "new file 2\n+l1\n+l2\n\n");
}

#[test]
fn new_file_hunk_counts_lines() {
    let h = new_file_hunk("a\r\nb\n");
    assert_eq!(h.header, "new file 2");
    assert_eq!(h.line_diffs[0].content, "a\n");
    assert_eq!(h.line_diffs[0].diff_type, DiffType::Additions);
    assert_eq!(new_file_hunk("").header, "new file 0");
}

#[test]
fn earlier_diff_drops_the_first_line_of_a_file() {
    let mut d = GitDiff::new();
    d.add_line("a.rs", Some(b"@@ h @@"), '+', b"first\n");
    d.add_line("a.rs", Some(b"@@ h @@"), '+', b"second\n");
    d.add_line("a.rs", Some(b"@@ h @@"), 'X', b"third\n");
    d.add_line("a.rs", Some(b"@@ k @@"), '-', b"fourth\n");
    assert_eq!(d.diffs.len(), 1);
    let hunks = &d.diffs[0].1;
    assert_eq!(hunks.len(), 2);
    assert_eq!(hunks[0].diffy[0].1.len(), 2);
    assert_eq!(hunks[0].diffy[0].1[1].diff_type, DiffType::Unchanged);
    assert_eq!(hunks[1].diffy[0].0, "@@ k @@");
}
