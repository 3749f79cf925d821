//! Collecting the diff of the working tree file by file, as git reports it
//! line by line, and the diff text of each file for a request.
use vstd::prelude::*;
use vstd::string::*;
use vstd::utf8::{decode_utf8, valid_utf8};

use crate::assoc::{TextMap, assoc_insert, assoc_put, text_map_view};
use crate::repo::{DiffType, HunkDiff, HunkView, LineDiff, LineView, diff_char, lines_text};
use crate::text::{
    decimal, ends_with_any, ends_with_one_of, lines, push_char, push_str, split_lines, str_eq,
    to_chars, trim, trim_chars, u64_to_decimal, utf8_str, from_chars,
};

verus! {

/// The type of a diff line from its origin character: '+' added, '-'
/// deleted, ' ' kept; other origins are not lines of a hunk.
pub open spec fn origin_type(c: char) -> Option<DiffType> {
    if c == '+' {
        Some(DiffType::Additions)
    } else if c == '-' {
        Some(DiffType::Deletions)
    } else if c == ' ' {
        Some(DiffType::Unchanged)
    } else {
        None
    }
}

/// The bytes as text when they are UTF-8, else `fallback`.
pub open spec fn text_or(bytes: Seq<u8>, fallback: Seq<char>) -> Seq<char> {
    if valid_utf8(bytes) {
        decode_utf8(bytes)
    } else {
        fallback
    }
}

/// Index of the first hunk with the given header.
pub open spec fn header_index(hs: Seq<HunkView>, header: Seq<char>, i: int) -> Option<int>
    decreases hs.len() - i,
{
    if i < 0 || i >= hs.len() {
        None
    } else if hs[i].0 == header {
        Some(i)
    } else {
        header_index(hs, header, i + 1)
    }
}

/// The hunks of a file after one more line of its diff: a line of a hunk is
/// added to the hunk with its header, or to a new hunk at the end; a line
/// outside any hunk, or with another origin, changes nothing.
pub open spec fn process_spec(
    hs: Seq<HunkView>,
    header: Option<Seq<u8>>,
    origin: char,
    content: Seq<u8>,
) -> Seq<HunkView> {
    match header {
        None => hs,
        Some(hb) => match origin_type(origin) {
            None => hs,
            Some(t) => {
                let h = text_or(hb, "not a valid utf8 header from hunk"@);
                let line = (t, text_or(content, "not a valid utf8 line from hunk"@));
                match header_index(hs, h, 0) {
                    Some(i) => hs.update(i, (hs[i].0, hs[i].1.push(line))),
                    None => hs.push((h, seq![line])),
                }
            },
        },
    }
}

/// The hunks as values.
pub open spec fn hunks_view(hs: Seq<HunkDiff>) -> Seq<HunkView> {
    hs.map_values(|h: HunkDiff| h@)
}

/// The bytes as a string, or `fallback` when they are not UTF-8.
fn string_or(bytes: &[u8], fallback: &str) -> (r: String)
    ensures
        r@ == text_or(bytes@, fallback@),
{
    match utf8_str(bytes) {
        Some(s) => String::from_str(s),
        None => String::from_str(fallback),
    }
}

/// Adds one line of the diff of a file to its hunks.
pub fn process_file_diff(
    diff_hunks: &mut Vec<HunkDiff>,
    header: Option<&[u8]>,
    origin: char,
    content: &[u8],
)
    ensures
        hunks_view(final(diff_hunks)@) == process_spec(
            hunks_view(old(diff_hunks)@),
            match header {
                Some(h) => Some(h@),
                None => None,
            },
            origin,
            content@,
        ),
{
    let hb = match header {
        Some(h) => h,
        None => return,
    };
    let diff_type = if origin == '+' {
        DiffType::Additions
    } else if origin == '-' {
        DiffType::Deletions
    } else if origin == ' ' {
        DiffType::Unchanged
    } else {
        return;
    };
    let h = string_or(hb, "not a valid utf8 header from hunk");
    let c = string_or(content, "not a valid utf8 line from hunk");
    let ghost hs = hunks_view(diff_hunks@);
    let ghost line: LineView = (diff_type, c@);
    let mut i: usize = 0;
    while i < diff_hunks.len() && !str_eq(diff_hunks[i].header.as_str(), h.as_str())
        invariant
            i <= diff_hunks.len(),
            hs == hunks_view(diff_hunks@),
            header_index(hs, h@, 0) == header_index(hs, h@, i as int),
        decreases diff_hunks.len() - i,
    {
        assert(hs[i as int].0 == diff_hunks@[i as int].header@);
        i = i + 1;
    }
    if i < diff_hunks.len() {
        assert(hs[i as int].0 == diff_hunks@[i as int].header@);
        assert(header_index(hs, h@, i as int) == Some(i as int));
        let mut hunk = diff_hunks.remove(i);
        hunk.line_diffs.push(LineDiff { diff_type, content: c });
        assert(hunk@ == (hs[i as int].0, hs[i as int].1.push(line)));
        diff_hunks.insert(i, hunk);
        assert(hunks_view(diff_hunks@) == hs.update(i as int, (hs[i as int].0, hs[i as int].1.push(line))));
    } else {
        let mut lines_v: Vec<LineDiff> = Vec::new();
        lines_v.push(LineDiff { diff_type, content: c });
        let hunk = HunkDiff { header: h, line_diffs: lines_v };
        assert(hunk@.1 == seq![line]);
        diff_hunks.push(hunk);
        assert(hunks_view(diff_hunks@) == hs.push((hunk@.0, seq![line])));
    }
}

/// The diffs of the files as values: path and hunks, in the order the paths
/// first came.
pub type FileDiffsView = Seq<(Seq<char>, Seq<HunkView>)>;

/// The diffs of the files as values.
pub open spec fn file_diffs_view(v: Seq<(String, Vec<HunkDiff>)>) -> FileDiffsView {
    v.map_values(|e: (String, Vec<HunkDiff>)| (e.0@, hunks_view(e.1@)))
}

/// Index of the first file at `path`.
pub open spec fn diff_index(m: FileDiffsView, path: Seq<char>, i: int) -> Option<int>
    decreases m.len() - i,
{
    if i < 0 || i >= m.len() {
        None
    } else if m[i].0 == path {
        Some(i)
    } else {
        diff_index(m, path, i + 1)
    }
}

/// The diffs after one more line of the diff of the working tree: the file
/// gets an entry when it has none, and the line goes to its hunks.
pub open spec fn line_spec(
    m: FileDiffsView,
    path: Seq<char>,
    header: Option<Seq<u8>>,
    origin: char,
    content: Seq<u8>,
) -> FileDiffsView {
    match diff_index(m, path, 0) {
        Some(i) => m.update(i, (path, process_spec(m[i].1, header, origin, content))),
        None => m.push((path, process_spec(Seq::empty(), header, origin, content))),
    }
}

/// The paths recorded as truncated after one more line: its path is added,
/// once per line, when it ends with a name to truncate.
pub open spec fn truncated_after(
    t: Seq<Seq<char>>,
    path: Seq<char>,
    to_truncate: Seq<Seq<char>>,
) -> Seq<Seq<char>> {
    if ends_with_any(path, to_truncate, to_truncate.len() as int) {
        t.push(path)
    } else {
        t
    }
}

/// Index of the file at `path` among the diffs.
fn find_diff(file_diffs: &Vec<(String, Vec<HunkDiff>)>, path: &str) -> (r: Option<usize>)
    ensures
        match r {
            Some(i) => diff_index(file_diffs_view(file_diffs@), path@, 0) == Some(i as int) && i
                < file_diffs.len() && file_diffs@[i as int].0@ == path@,
            None => diff_index(file_diffs_view(file_diffs@), path@, 0) is None,
        },
{
    let ghost m = file_diffs_view(file_diffs@);
    let mut i: usize = 0;
    while i < file_diffs.len()
        invariant
            i <= file_diffs.len(),
            m == file_diffs_view(file_diffs@),
            diff_index(m, path@, 0) == diff_index(m, path@, i as int),
        decreases file_diffs.len() - i,
    {
        assert(m[i as int].0 == file_diffs@[i as int].0@);
        if str_eq(file_diffs[i].0.as_str(), path) {
            return Some(i);
        }
        i = i + 1;
    }
    None
}

/// Takes one line of the diff of the working tree, as git reports it with the
/// path of its file, the header of its hunk and its origin and content.
pub fn record_diff_line(
    file_diffs: &mut Vec<(String, Vec<HunkDiff>)>,
    truncated_files: &mut Vec<String>,
    files_to_truncate: &Vec<String>,
    path: &str,
    header: Option<&[u8]>,
    origin: char,
    content: &[u8],
)
    ensures
        final(truncated_files)@.map_values(|t: String| t@) == truncated_after(
            old(truncated_files)@.map_values(|t: String| t@),
            path@,
            files_to_truncate@.map_values(|t: String| t@),
        ),
        file_diffs_view(final(file_diffs)@) == line_spec(
            file_diffs_view(old(file_diffs)@),
            path@,
            match header {
                Some(h) => Some(h@),
                None => None,
            },
            origin,
            content@,
        ),
{
    if ends_with_one_of(path, files_to_truncate) {
        let ghost t = truncated_files@;
        truncated_files.push(String::from_str(path));
        assert(truncated_files@.map_values(|t: String| t@) == t.map_values(|t: String| t@).push(
            path@,
        ));
    }
    let ghost m = file_diffs_view(file_diffs@);
    match find_diff(file_diffs, path) {
        Some(i) => {
            let (p, mut hunks) = file_diffs.remove(i);
            assert(hunks_view(hunks@) == m[i as int].1);
            process_file_diff(&mut hunks, header, origin, content);
            let ghost pv = p@;
            file_diffs.insert(i, (p, hunks));
            assert(file_diffs_view(file_diffs@) == m.update(
                i as int,
                (pv, hunks_view(hunks@)),
            ));
        },
        None => {
            let mut hunks: Vec<HunkDiff> = Vec::new();
            assert(hunks_view(hunks@) == Seq::<HunkView>::empty());
            process_file_diff(&mut hunks, header, origin, content);
            let ghost hv = hunks_view(hunks@);
            file_diffs.push((String::from_str(path), hunks));
            assert(file_diffs_view(file_diffs@) == m.push((path@, hv)));
        },
    }
}

/// The hunk an untracked file is sent as: the header "new file n" for its `n`
/// lines, and each line as added, followed by a line break.
pub open spec fn new_file_hunk_spec(content: Seq<char>) -> HunkView {
    let ls = lines(content);
    (
        "new file "@ + decimal(ls.len()),
        ls.map_values(|l: Seq<char>| (DiffType::Additions, l + seq!['\n'])),
    )
}

/// The hunk an untracked file is sent as.
pub fn new_file_hunk(content: &str) -> (r: HunkDiff)
    ensures
        r@ == new_file_hunk_spec(content@),
{
    let chars = to_chars(content);
    let ls = split_lines(&chars);
    let ghost lv = ls@.map_values(|l: Vec<char>| l@);
    let mut line_diffs: Vec<LineDiff> = Vec::new();
    let mut i: usize = 0;
    while i < ls.len()
        invariant
            i <= ls.len(),
            lv == ls@.map_values(|l: Vec<char>| l@),
            lv == lines(content@),
            line_diffs@.map_values(|l: LineDiff| l@) == lv.take(i as int).map_values(
                |l: Seq<char>| (DiffType::Additions, l + seq!['\n']),
            ),
        decreases ls.len() - i,
    {
        let mut c = from_chars(&ls[i]);
        push_char(&mut c, '\n');
        assert(ls@[i as int]@ == lv[i as int]);
        assert(c@ =~= lv[i as int] + seq!['\n']);
        let ghost before = line_diffs@.map_values(|l: LineDiff| l@);
        line_diffs.push(LineDiff { diff_type: DiffType::Additions, content: c });
        assert(line_diffs@.map_values(|l: LineDiff| l@) == before.push(
            (DiffType::Additions, lv[i as int] + seq!['\n']),
        ));
        assert(lv.take(i + 1) == lv.take(i as int).push(lv[i as int]));
        assert(lv.take(i + 1).map_values(|l: Seq<char>| (DiffType::Additions, l + seq!['\n']))
            == lv.take(i as int).map_values(|l: Seq<char>| (DiffType::Additions, l + seq!['\n'])).push(
            (DiffType::Additions, lv[i as int] + seq!['\n']),
        ));
        i = i + 1;
    }
    assert(lv.take(ls.len() as int) == lv);
    let mut header = String::from_str("new file ");
    let n = u64_to_decimal(ls.len() as u64);
    push_str(&mut header, n.as_str());
    HunkDiff { header, line_diffs }
}

/// Index of the first file at `path`, at or after `i`.
pub open spec fn set_diff(m: FileDiffsView, path: Seq<char>, hs: Seq<HunkView>) -> FileDiffsView {
    match diff_index(m, path, 0) {
        Some(i) => m.update(i, (path, hs)),
        None => m.push((path, hs)),
    }
}

/// The diffs after an untracked file is looked at: a file whose path ends
/// with a name to truncate is only recorded as truncated; else, when its
/// content could be read, it is sent as one new-file hunk.
pub open spec fn untracked_spec(
    m: FileDiffsView,
    path: Seq<char>,
    content: Option<Seq<char>>,
    to_truncate: Seq<Seq<char>>,
) -> FileDiffsView {
    if ends_with_any(path, to_truncate, to_truncate.len() as int) {
        m
    } else {
        match content {
            Some(c) => set_diff(m, path, seq![new_file_hunk_spec(c)]),
            None => m,
        }
    }
}

/// Takes an untracked file with its content, when it could be read.
pub fn record_untracked(
    file_diffs: &mut Vec<(String, Vec<HunkDiff>)>,
    truncated_files: &mut Vec<String>,
    files_to_truncate: &Vec<String>,
    path: &str,
    content: Option<&str>,
)
    ensures
        final(truncated_files)@.map_values(|t: String| t@) == truncated_after(
            old(truncated_files)@.map_values(|t: String| t@),
            path@,
            files_to_truncate@.map_values(|t: String| t@),
        ),
        file_diffs_view(final(file_diffs)@) == untracked_spec(
            file_diffs_view(old(file_diffs)@),
            path@,
            match content {
                Some(c) => Some(c@),
                None => None,
            },
            files_to_truncate@.map_values(|t: String| t@),
        ),
{
    if ends_with_one_of(path, files_to_truncate) {
        let ghost t = truncated_files@;
        truncated_files.push(String::from_str(path));
        assert(truncated_files@.map_values(|t: String| t@) == t.map_values(|t: String| t@).push(
            path@,
        ));
        return;
    }
    let text = match content {
        Some(c) => c,
        None => return,
    };
    let hunk = new_file_hunk(text);
    let ghost hv = seq![hunk@];
    let mut hunks: Vec<HunkDiff> = Vec::new();
    hunks.push(hunk);
    assert(hunks_view(hunks@) == hv);
    let ghost m = file_diffs_view(file_diffs@);
    match find_diff(file_diffs, path) {
        Some(i) => {
            file_diffs.set(i, (String::from_str(path), hunks));
            assert(file_diffs_view(file_diffs@) == m.update(i as int, (path@, hv)));
        },
        None => {
            file_diffs.push((String::from_str(path), hunks));
            assert(file_diffs_view(file_diffs@) == m.push((path@, hv)));
        },
    }
}

/// The text of the hunks of a file: each header, its marked lines and a
/// blank line.
pub open spec fn plain_hunks_text(hs: Seq<HunkView>, n: int) -> Seq<char>
    decreases n,
{
    if n <= 0 || n > hs.len() {
        Seq::empty()
    } else {
        plain_hunks_text(hs, n - 1) + hs[n - 1].0 + "\n"@ + lines_text(
            hs[n - 1].1,
            hs[n - 1].1.len() as int,
        ) + "\n"@
    }
}

/// The diff texts of the first `n` files, keyed by path, leaving out those
/// that are only whitespace.
pub open spec fn plain_diffs_map(m: FileDiffsView, n: int) -> TextMap
    decreases n,
{
    if n <= 0 || n > m.len() {
        Seq::empty()
    } else {
        let t = plain_hunks_text(m[n - 1].1, m[n - 1].1.len() as int);
        if trim(t).len() == 0 {
            plain_diffs_map(m, n - 1)
        } else {
            assoc_put(plain_diffs_map(m, n - 1), m[n - 1].0, t)
        }
    }
}

/// Appends the marked lines of a hunk.
fn push_hunk_lines(out: &mut String, h: &HunkDiff)
    ensures
        final(out)@ == old(out)@ + lines_text(h@.1, h@.1.len() as int),
{
    let ghost start = out@;
    let ghost ls = h@.1;
    let mut j: usize = 0;
    while j < h.line_diffs.len()
        invariant
            j <= h.line_diffs.len(),
            ls == h@.1,
            out@ == start + lines_text(ls, j as int),
        decreases h.line_diffs.len() - j,
    {
        let line = &h.line_diffs[j];
        assert(line@ == ls[j as int]);
        push_char(out, diff_char(line.diff_type));
        push_str(out, line.content.as_str());
        j = j + 1;
    }
}

/// The diff text of each file, keyed by its path.
pub fn get_file_diffs_as_str(file_diffs: &Vec<(String, Vec<HunkDiff>)>) -> (r: Vec<(String, String)>)
    ensures
        text_map_view(r@) == plain_diffs_map(
            file_diffs_view(file_diffs@),
            file_diffs@.len() as int,
        ),
{
    let ghost m = file_diffs_view(file_diffs@);
    let mut out: Vec<(String, String)> = Vec::new();
    let mut k: usize = 0;
    while k < file_diffs.len()
        invariant
            k <= file_diffs.len(),
            m == file_diffs_view(file_diffs@),
            text_map_view(out@) == plain_diffs_map(m, k as int),
        decreases file_diffs.len() - k,
    {
        let (path, hunks) = &file_diffs[k];
        let ghost hs = m[k as int].1;
        assert(hunks_view(hunks@) == hs);
        let mut diff_str = String::new();
        let mut i: usize = 0;
        while i < hunks.len()
            invariant
                i <= hunks.len(),
                hs == hunks_view(hunks@),
                diff_str@ == plain_hunks_text(hs, i as int),
            decreases hunks.len() - i,
        {
            let hunk = &hunks[i];
            assert(hunk@ == hs[i as int]);
            push_str(&mut diff_str, hunk.header.as_str());
            push_str(&mut diff_str, "\n");
            push_hunk_lines(&mut diff_str, hunk);
            push_str(&mut diff_str, "\n");
            i = i + 1;
        }
        let chars = to_chars(diff_str.as_str());
        let trimmed = trim_chars(&chars);
        if trimmed.len() > 0 {
            assoc_insert(&mut out, path.clone(), diff_str);
        }
        k = k + 1;
    }
    out
}

} // verus!
