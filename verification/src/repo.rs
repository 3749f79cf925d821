//! The working tree as gai sees it: the status of its files, their hunks, and
//! the texts made from them for a request and for staging hunks as a patch.
use vstd::prelude::*;
use vstd::string::*;

use crate::assoc::{TextMap, assoc_insert, assoc_put, keys_unique, lemma_put_keeps_keys_unique, text_map_view};
use crate::diffs::{hunk_id_text, parse_usize, spec_parse_hunk_id, HunkId};
use crate::text::{decimal, push_char, push_str, str_eq, to_chars, trim, trim_chars, u64_to_decimal};

verus! {

/// The paths of the files by their status, staged and unstaged.
#[derive(Debug)]
pub struct GaiStatus {
    pub s_new: Vec<String>,
    pub s_modified: Vec<String>,
    pub s_deleted: Vec<String>,
    /// Old and new path.
    pub s_renamed: Vec<(String, String)>,
    pub u_new: Vec<String>,
    pub u_modified: Vec<String>,
    pub u_deleted: Vec<String>,
    pub u_renamed: Vec<(String, String)>,
}

/// A changed file and its hunks.
#[derive(Debug)]
pub struct GaiFile {
    pub path: String,
    pub should_truncate: bool,
    pub hunks: Vec<HunkDiff>,
}

/// A hunk: its header, such as "@@ -12,8 +12,9 @@", and its lines.
#[derive(Debug)]
pub struct HunkDiff {
    pub header: String,
    pub line_diffs: Vec<LineDiff>,
}

/// A line of a hunk.
#[derive(Debug)]
pub struct LineDiff {
    pub diff_type: DiffType,
    pub content: String,
}

/// Whether a line is kept, added or deleted.
#[derive(Clone, Copy, PartialEq, Eq, Structural, Debug, Hash)]
pub enum DiffType {
    Unchanged,
    Additions,
    Deletions,
}

impl Default for DiffType {
    fn default() -> (r: Self)
        ensures
            r == DiffType::Unchanged,
    {
        DiffType::Unchanged
    }
}

/// A line as values.
pub type LineView = (DiffType, Seq<char>);

/// A hunk as values.
pub type HunkView = (Seq<char>, Seq<LineView>);

/// A file as values: path, whether it is truncated, hunks.
pub type GaiFileView = (Seq<char>, bool, Seq<HunkView>);

impl View for LineDiff {
    type V = LineView;

    open spec fn view(&self) -> LineView {
        (self.diff_type, self.content@)
    }
}

impl View for HunkDiff {
    type V = HunkView;

    open spec fn view(&self) -> HunkView {
        (self.header@, self.line_diffs@.map_values(|l: LineDiff| l@))
    }
}

impl View for GaiFile {
    type V = GaiFileView;

    open spec fn view(&self) -> GaiFileView {
        (self.path@, self.should_truncate, self.hunks@.map_values(|h: HunkDiff| h@))
    }
}

/// The files as values.
pub open spec fn files_view(files: Seq<GaiFile>) -> Seq<GaiFileView> {
    files.map_values(|f: GaiFile| f@)
}

/// The paths as values.
pub open spec fn paths_view(v: Seq<String>) -> Seq<Seq<char>> {
    v.map_values(|p: String| p@)
}

/// The renames as values.
pub open spec fn renames_view(v: Seq<(String, String)>) -> Seq<(Seq<char>, Seq<char>)> {
    v.map_values(|p: (String, String)| (p.0@, p.1@))
}

/// The character a line is marked with in a diff.
pub open spec fn type_char(t: DiffType) -> char {
    match t {
        DiffType::Unchanged => ' ',
        DiffType::Additions => '+',
        DiffType::Deletions => '-',
    }
}

/// The character a line is marked with in a diff.
pub fn diff_char(t: DiffType) -> (c: char)
    ensures
        c == type_char(t),
{
    match t {
        DiffType::Unchanged => ' ',
        DiffType::Additions => '+',
        DiffType::Deletions => '-',
    }
}

/// The first `n` lines, each marked and followed by its content.
pub open spec fn lines_text(ls: Seq<LineView>, n: int) -> Seq<char>
    decreases n,
{
    if n <= 0 || n > ls.len() {
        Seq::empty()
    } else {
        lines_text(ls, n - 1).push(type_char(ls[n - 1].0)) + ls[n - 1].1
    }
}

/// One line per path: `tag`, the path and a newline.
pub open spec fn status_lines(tag: Seq<char>, paths: Seq<Seq<char>>, n: int) -> Seq<char>
    decreases n,
{
    if n <= 0 || n > paths.len() {
        Seq::empty()
    } else {
        status_lines(tag, paths, n - 1) + tag + paths[n - 1] + "\n"@
    }
}

/// One line per rename: `tag`, the old path, " -> ", the new path.
pub open spec fn rename_lines(tag: Seq<char>, renames: Seq<(Seq<char>, Seq<char>)>, n: int) -> Seq<
    char,
>
    decreases n,
{
    if n <= 0 || n > renames.len() {
        Seq::empty()
    } else {
        rename_lines(tag, renames, n - 1) + tag + renames[n - 1].0 + " -> "@ + renames[n - 1].1
            + "\n"@
    }
}

/// The staged part of a status text.
pub open spec fn staged_text(s: &GaiStatus) -> Seq<char> {
    let (a, m, d, r) = (
        paths_view(s.s_new@),
        paths_view(s.s_modified@),
        paths_view(s.s_deleted@),
        renames_view(s.s_renamed@),
    );
    status_lines("A  "@, a, a.len() as int) + status_lines("M  "@, m, m.len() as int)
        + status_lines("D  "@, d, d.len() as int) + rename_lines("R  "@, r, r.len() as int)
}

/// The unstaged part of a status text.
pub open spec fn unstaged_text(s: &GaiStatus) -> Seq<char> {
    let (a, m, d, r) = (
        paths_view(s.u_new@),
        paths_view(s.u_modified@),
        paths_view(s.u_deleted@),
        renames_view(s.u_renamed@),
    );
    status_lines("? "@, a, a.len() as int) + status_lines("M "@, m, m.len() as int)
        + status_lines("D "@, d, d.len() as int) + rename_lines("R "@, r, r.len() as int)
}

/// The status text: a "Staged:" block and an "Unstaged:" block, each only when
/// it has lines.
pub open spec fn status_text(s: &GaiStatus) -> Seq<char> {
    (if staged_text(s).len() > 0 {
        "Staged:\n"@ + staged_text(s) + "\n"@
    } else {
        Seq::empty()
    }) + (if unstaged_text(s).len() > 0 {
        "Unstaged:\n"@ + unstaged_text(s)
    } else {
        Seq::empty()
    })
}

/// Appends one line per path.
fn push_status_lines(out: &mut String, tag: &str, paths: &Vec<String>)
    ensures
        final(out)@ == old(out)@ + status_lines(tag@, paths_view(paths@), paths@.len() as int),
{
    let ghost start = out@;
    let ghost ps = paths_view(paths@);
    let mut i: usize = 0;
    while i < paths.len()
        invariant
            i <= paths.len(),
            ps == paths_view(paths@),
            out@ == start + status_lines(tag@, ps, i as int),
        decreases paths.len() - i,
    {
        push_str(out, tag);
        push_str(out, paths[i].as_str());
        push_str(out, "\n");
        i = i + 1;
    }
}

/// Appends one line per rename.
fn push_rename_lines(out: &mut String, tag: &str, renames: &Vec<(String, String)>)
    ensures
        final(out)@ == old(out)@ + rename_lines(
            tag@,
            renames_view(renames@),
            renames@.len() as int,
        ),
{
    let ghost start = out@;
    let ghost rs = renames_view(renames@);
    let mut i: usize = 0;
    while i < renames.len()
        invariant
            i <= renames.len(),
            rs == renames_view(renames@),
            out@ == start + rename_lines(tag@, rs, i as int),
        decreases renames.len() - i,
    {
        push_str(out, tag);
        push_str(out, renames[i].0.as_str());
        push_str(out, " -> ");
        push_str(out, renames[i].1.as_str());
        push_str(out, "\n");
        i = i + 1;
    }
}

impl GaiStatus {
    /// Number of staged paths.
    pub open spec fn spec_staged_len(&self) -> nat {
        self.s_new@.len() + self.s_modified@.len() + self.s_deleted@.len() + self.s_renamed@.len()
    }

    /// Number of unstaged paths.
    pub open spec fn spec_unstaged_len(&self) -> nat {
        self.u_new@.len() + self.u_modified@.len() + self.u_deleted@.len() + self.u_renamed@.len()
    }

    /// Number of staged paths.
    pub fn staged_len(&self) -> (r: usize)
        requires
            self.spec_staged_len() <= usize::MAX,
        ensures
            r == self.spec_staged_len(),
    {
        self.s_new.len() + self.s_modified.len() + self.s_deleted.len() + self.s_renamed.len()
    }

    /// Number of unstaged paths.
    pub fn unstaged_len(&self) -> (r: usize)
        requires
            self.spec_unstaged_len() <= usize::MAX,
        ensures
            r == self.spec_unstaged_len(),
    {
        self.u_new.len() + self.u_modified.len() + self.u_deleted.len() + self.u_renamed.len()
    }

    /// The status as text: "A  path" lines and the like under "Staged:", and
    /// "? path" lines and the like under "Unstaged:".
    pub fn get_repo_status_as_str(&self) -> (r: String)
        ensures
            r@ == status_text(self),
    {
        let mut staged = String::new();
        let ghost e = staged@;
        push_status_lines(&mut staged, "A  ", &self.s_new);
        push_status_lines(&mut staged, "M  ", &self.s_modified);
        push_status_lines(&mut staged, "D  ", &self.s_deleted);
        push_rename_lines(&mut staged, "R  ", &self.s_renamed);
        assert(staged@ == e + staged_text(self));
        let mut unstaged = String::new();
        push_status_lines(&mut unstaged, "? ", &self.u_new);
        push_status_lines(&mut unstaged, "M ", &self.u_modified);
        push_status_lines(&mut unstaged, "D ", &self.u_deleted);
        push_rename_lines(&mut unstaged, "R ", &self.u_renamed);
        assert(unstaged@ == e + unstaged_text(self));
        proof {
            reveal_strlit("\n");
        }
        assert(e.len() == 0);
        assert(staged@ == staged_text(self));
        assert(unstaged@ == unstaged_text(self));
        let mut status_str = String::new();
        if !staged.as_str().is_empty() {
            push_str(&mut status_str, "Staged:\n");
            push_str(&mut status_str, staged.as_str());
            push_char(&mut status_str, '\n');
        }
        let ghost mid = status_str@;
        assert(mid == (if staged_text(self).len() > 0 {
            "Staged:\n"@ + staged_text(self) + "\n"@
        } else {
            Seq::empty()
        }));
        if !unstaged.as_str().is_empty() {
            push_str(&mut status_str, "Unstaged:\n");
            push_str(&mut status_str, unstaged.as_str());
        }
        status_str
    }
}

/// The text of one hunk in a request: its id, header, lines and a blank line.
pub open spec fn hunk_request_text(path: Seq<char>, i: nat, h: HunkView) -> Seq<char> {
    "Hunk_id["@ + path + ":"@ + decimal(i) + "]\n"@ + h.0 + "\n"@ + lines_text(
        h.1,
        h.1.len() as int,
    ) + "\n"@
}

/// The text of the first `n` hunks of a file in a request.
pub open spec fn hunks_request_text(path: Seq<char>, hs: Seq<HunkView>, n: int) -> Seq<char>
    decreases n,
{
    if n <= 0 || n > hs.len() {
        Seq::empty()
    } else {
        hunks_request_text(path, hs, n - 1) + hunk_request_text(path, (n - 1) as nat, hs[n - 1])
    }
}

/// The diff texts of the first `n` files, keyed by path: "Truncated File" for
/// a truncated file, else its hunks, left out when that is only whitespace.
pub open spec fn file_diffs_map(files: Seq<GaiFileView>, n: int) -> TextMap
    decreases n,
{
    if n <= 0 || n > files.len() {
        Seq::empty()
    } else {
        let m = file_diffs_map(files, n - 1);
        let f = files[n - 1];
        if f.1 {
            assoc_put(m, f.0, "Truncated File"@)
        } else {
            let t = hunks_request_text(f.0, f.2, f.2.len() as int);
            if trim(t).len() == 0 {
                m
            } else {
                assoc_put(m, f.0, t)
            }
        }
    }
}

/// Appends the marked lines of a hunk.
fn push_lines(out: &mut String, h: &HunkDiff)
    ensures
        final(out)@ == old(out)@ + lines_text(h@.1, h@.1.len() as int),
{
    let ghost start = out@;
    let ghost ls = h@.1;
    let mut j: usize = 0;
    while j < h.line_diffs.len()
        invariant
            j <= h.line_diffs.len(),
            ls == h@.1,
            out@ == start + lines_text(ls, j as int),
        decreases h.line_diffs.len() - j,
    {
        let line = &h.line_diffs[j];
        assert(line@ == ls[j as int]);
        push_char(out, diff_char(line.diff_type));
        push_str(out, line.content.as_str());
        j = j + 1;
    }
}

/// The diff text of each file, keyed by its path, for a request.
pub fn get_file_diffs_as_str(files: &Vec<GaiFile>) -> (r: Vec<(String, String)>)
    ensures
        text_map_view(r@) == file_diffs_map(files_view(files@), files@.len() as int),
{
    let ghost fs = files_view(files@);
    let mut out: Vec<(String, String)> = Vec::new();
    let mut k: usize = 0;
    while k < files.len()
        invariant
            k <= files.len(),
            fs == files_view(files@),
            text_map_view(out@) == file_diffs_map(fs, k as int),
        decreases files.len() - k,
    {
        let f = &files[k];
        assert(f@ == fs[k as int]);
        if f.should_truncate {
            assoc_insert(&mut out, f.path.clone(), String::from_str("Truncated File"));
        } else {
            let ghost hs = f@.2;
            let mut diff_str = String::new();
            let mut i: usize = 0;
            while i < f.hunks.len()
                invariant
                    i <= f.hunks.len(),
                    hs == f@.2,
                    diff_str@ == hunks_request_text(f.path@, hs, i as int),
                decreases f.hunks.len() - i,
            {
                let hunk = &f.hunks[i];
                assert(hunk@ == hs[i as int]);
                push_str(&mut diff_str, "Hunk_id[");
                push_str(&mut diff_str, f.path.as_str());
                push_str(&mut diff_str, ":");
                let d = u64_to_decimal(i as u64);
                push_str(&mut diff_str, d.as_str());
                push_str(&mut diff_str, "]\n");
                push_str(&mut diff_str, hunk.header.as_str());
                push_str(&mut diff_str, "\n");
                push_lines(&mut diff_str, hunk);
                push_str(&mut diff_str, "\n");
                i = i + 1;
            }
            let chars = to_chars(diff_str.as_str());
            let trimmed = trim_chars(&chars);
            if trimmed.len() > 0 {
                assoc_insert(&mut out, f.path.clone(), diff_str);
            }
        }
        k = k + 1;
    }
    out
}

/// Index of the first file whose path is `path`.
pub open spec fn file_index(files: Seq<GaiFileView>, path: Seq<char>, i: int) -> Option<int>
    decreases files.len() - i,
{
    if i < 0 || i >= files.len() {
        None
    } else if files[i].0 == path {
        Some(i)
    } else {
        file_index(files, path, i + 1)
    }
}

/// The lines that open the part of a patch about `path`.
pub open spec fn patch_file_header(path: Seq<char>) -> Seq<char> {
    "diff --git a/"@ + path + " b/"@ + path + "\n"@ + "--- a/"@ + path + "\n"@ + "+++ b/"@ + path
        + "\n"@
}

/// The patch text of one hunk: its header, ended by a newline, then its
/// marked lines.
pub open spec fn hunk_patch_text(h: HunkView) -> Seq<char> {
    h.0 + (if h.0.len() > 0 && h.0.last() == '\n' {
        Seq::empty()
    } else {
        "\n"@
    }) + lines_text(h.1, h.1.len() as int)
}

/// The patch and the file it is at after one more hunk id. An id that does
/// not parse, names no file, or names no hunk of that file adds nothing.
pub open spec fn patch_step(
    files: Seq<GaiFileView>,
    state: (Seq<char>, Seq<char>),
    id: Seq<char>,
) -> (Seq<char>, Seq<char>) {
    let (patch, current) = state;
    match spec_parse_hunk_id(id) {
        None => state,
        Some((path, i)) => match file_index(files, path, 0) {
            None => state,
            Some(fi) => if i >= files[fi].2.len() {
                state
            } else {
                let head = if current != path {
                    patch_file_header(path)
                } else {
                    Seq::empty()
                };
                (patch + head + hunk_patch_text(files[fi].2[i as int]), path)
            },
        },
    }
}

/// The patch and the file it is at after the first `n` hunk ids.
pub open spec fn patch_after(files: Seq<GaiFileView>, ids: Seq<Seq<char>>, n: int) -> (
    Seq<char>,
    Seq<char>,
)
    decreases n,
{
    if n <= 0 || n > ids.len() {
        (Seq::empty(), Seq::empty())
    } else {
        patch_step(files, patch_after(files, ids, n - 1), ids[n - 1])
    }
}

/// Index of the first file with the given path.
fn position_of_file(files: &Vec<GaiFile>, path: &str) -> (r: Option<usize>)
    ensures
        match r {
            Some(i) => file_index(files_view(files@), path@, 0) == Some(i as int) && i
                < files.len(),
            None => file_index(files_view(files@), path@, 0) is None,
        },
{
    let ghost fs = files_view(files@);
    let mut i: usize = 0;
    while i < files.len()
        invariant
            i <= files.len(),
            fs == files_view(files@),
            file_index(fs, path@, 0) == file_index(fs, path@, i as int),
        decreases files.len() - i,
    {
        if str_eq(files[i].path.as_str(), path) {
            return Some(i);
        }
        i = i + 1;
    }
    None
}

/// Adds the hunk named by `hunk_id` to the patch, as `patch_step` says.
fn add_hunk_to_patch(files: &Vec<GaiFile>, hunk_id: &str, patch: &mut String, current_file: &mut String)
    ensures
        (final(patch)@, final(current_file)@) == patch_step(
            files_view(files@),
            (old(patch)@, old(current_file)@),
            hunk_id@,
        ),
{
    let ghost fs = files_view(files@);
    match HunkId::try_from(hunk_id) {
        Err(_) => {},
        Ok(id) => {
            match position_of_file(files, id.path.as_str()) {
                None => {},
                Some(fi) => {
                    let file = &files[fi];
                    assert(file@ == fs[fi as int]);
                    if id.index < file.hunks.len() {
                        let hunk = &file.hunks[id.index];
                        assert(hunk@ == fs[fi as int].2[id.index as int]);
                        let ghost before = (patch@, current_file@);
                        if !str_eq(current_file.as_str(), id.path.as_str()) {
                            push_str(patch, "diff --git a/");
                            push_str(patch, id.path.as_str());
                            push_str(patch, " b/");
                            push_str(patch, id.path.as_str());
                            push_str(patch, "\n");
                            push_str(patch, "--- a/");
                            push_str(patch, id.path.as_str());
                            push_str(patch, "\n");
                            push_str(patch, "+++ b/");
                            push_str(patch, id.path.as_str());
                            push_str(patch, "\n");
                            *current_file = id.path.clone();
                        }
                        let ghost mid = patch@;
                        assert(mid == before.0 + (if before.1 != id.path@ {
                            patch_file_header(id.path@)
                        } else {
                            Seq::empty()
                        }));
                        push_str(patch, hunk.header.as_str());
                        proof {
                            reveal_strlit("\n");
                        }
                        let hv = to_chars(hunk.header.as_str());
                        if !(hv.len() > 0 && hv[hv.len() - 1] == '\n') {
                            push_char(patch, '\n');
                        }
                        push_lines(patch, hunk);
                        assert(patch@ == mid + hunk_patch_text(hunk@));
                    }
                },
            }
        },
    }
}

/// A patch that stages the hunks named by `hunk_ids` ("path:index"): for each
/// hunk its header and lines, and before the hunks of a file the lines that
/// name it whenever the file changes. Ids that do not name a hunk are skipped.
pub fn create_patches(files: &Vec<GaiFile>, hunk_ids: &[String]) -> (r: String)
    ensures
        r@ == patch_after(files_view(files@), paths_view(hunk_ids@), hunk_ids@.len() as int).0,
{
    let ghost fs = files_view(files@);
    let ghost ids = paths_view(hunk_ids@);
    let mut patch = String::new();
    let mut current_file = String::new();
    let mut k: usize = 0;
    while k < hunk_ids.len()
        invariant
            k <= hunk_ids.len(),
            fs == files_view(files@),
            ids == paths_view(hunk_ids@),
            (patch@, current_file@) == patch_after(fs, ids, k as int),
        decreases hunk_ids.len() - k,
    {
        assert(ids[k as int] == hunk_ids[k as int]@);
        add_hunk_to_patch(files, hunk_ids[k].as_str(), &mut patch, &mut current_file);
        k = k + 1;
    }
    patch
}

/// Lines under a non-empty tag are empty only when there are no paths.
proof fn lemma_status_lines_empty(tag: Seq<char>, ps: Seq<Seq<char>>, n: int)
    requires
        tag.len() > 0,
        0 <= n <= ps.len(),
    ensures
        (status_lines(tag, ps, n).len() == 0) == (n == 0),
    decreases n,
{
    if n > 0 {
        lemma_status_lines_empty(tag, ps, n - 1);
    }
}

/// Rename lines under a non-empty tag are empty only when there are none.
proof fn lemma_rename_lines_empty(tag: Seq<char>, rs: Seq<(Seq<char>, Seq<char>)>, n: int)
    requires
        tag.len() > 0,
        0 <= n <= rs.len(),
    ensures
        (rename_lines(tag, rs, n).len() == 0) == (n == 0),
    decreases n,
{
    if n > 0 {
        lemma_rename_lines_empty(tag, rs, n - 1);
    }
}

/// The status text is empty exactly when no path is staged or unstaged.
pub proof fn lemma_status_text_empty(s: &GaiStatus)
    ensures
        (status_text(s).len() == 0) == (s.spec_staged_len() == 0 && s.spec_unstaged_len() == 0),
{
    reveal_strlit("A  ");
    reveal_strlit("M  ");
    reveal_strlit("D  ");
    reveal_strlit("R  ");
    reveal_strlit("? ");
    reveal_strlit("M ");
    reveal_strlit("D ");
    reveal_strlit("R ");
    reveal_strlit("Staged:\n");
    reveal_strlit("Unstaged:\n");
    lemma_status_lines_empty("A  "@, paths_view(s.s_new@), s.s_new@.len() as int);
    lemma_status_lines_empty("M  "@, paths_view(s.s_modified@), s.s_modified@.len() as int);
    lemma_status_lines_empty("D  "@, paths_view(s.s_deleted@), s.s_deleted@.len() as int);
    lemma_rename_lines_empty("R  "@, renames_view(s.s_renamed@), s.s_renamed@.len() as int);
    lemma_status_lines_empty("? "@, paths_view(s.u_new@), s.u_new@.len() as int);
    lemma_status_lines_empty("M "@, paths_view(s.u_modified@), s.u_modified@.len() as int);
    lemma_status_lines_empty("D "@, paths_view(s.u_deleted@), s.u_deleted@.len() as int);
    lemma_rename_lines_empty("R "@, renames_view(s.u_renamed@), s.u_renamed@.len() as int);
}

/// The diff texts of the files name each path at most once.
pub proof fn lemma_file_diffs_keys_unique(files: Seq<GaiFileView>, n: int)
    requires
        0 <= n <= files.len(),
    ensures
        keys_unique(file_diffs_map(files, n)),
    decreases n,
{
    if n > 0 {
        lemma_file_diffs_keys_unique(files, n - 1);
        let m = file_diffs_map(files, n - 1);
        let f = files[n - 1];
        lemma_put_keeps_keys_unique(m, f.0, "Truncated File"@);
        lemma_put_keeps_keys_unique(m, f.0, hunks_request_text(f.0, f.2, f.2.len() as int));
    }
}

/// The name shown for the branch: the short name of HEAD, "HEAD" when it
/// has none, or "bad branch" and the error when HEAD cannot be read.
pub fn branch_label(head: Result<Option<&str>, &str>) -> (r: String)
    ensures
        r@ == match head {
            Ok(Some(name)) => name@,
            Ok(None) => "HEAD"@,
            Err(e) => "bad branch "@ + e@,
        },
{
    match head {
        Ok(Some(name)) => String::from_str(name),
        Ok(None) => String::from_str("HEAD"),
        Err(e) => {
            let mut s = String::from_str("bad branch ");
            push_str(&mut s, e);
            s
        },
    }
}

/// The line "tag path\n" for each path, first path first.
pub open spec fn tagged_lines(tag: Seq<char>, paths: Seq<Seq<char>>) -> Seq<char>
    decreases paths.len(),
{
    if paths.len() == 0 {
        Seq::empty()
    } else {
        tag + paths[0] + "\n"@ + tagged_lines(tag, paths.drop_first())
    }
}

/// The line "tag old -> new\n" for each rename, first rename first.
pub open spec fn tagged_renames(tag: Seq<char>, rs: Seq<(Seq<char>, Seq<char>)>) -> Seq<char>
    decreases rs.len(),
{
    if rs.len() == 0 {
        Seq::empty()
    } else {
        tag + rs[0].0 + " -> "@ + rs[0].1 + "\n"@ + tagged_renames(tag, rs.drop_first())
    }
}

/// `head`, `body` and `tail` when `body` is not empty; nothing otherwise.
pub open spec fn block(head: Seq<char>, body: Seq<char>, tail: Seq<char>) -> Seq<char> {
    if body.len() > 0 {
        head + body + tail
    } else {
        Seq::empty()
    }
}

proof fn lemma_tagged_push(tag: Seq<char>, ps: Seq<Seq<char>>, x: Seq<char>)
    ensures
        tagged_lines(tag, ps.push(x)) == tagged_lines(tag, ps) + tag + x + "\n"@,
    decreases ps.len(),
{
    if ps.len() == 0 {
        assert(ps.push(x).drop_first() =~= Seq::<Seq<char>>::empty());
        assert(tagged_lines(tag, ps.push(x).drop_first()) == Seq::<char>::empty());
        assert(tagged_lines(tag, ps) == Seq::<char>::empty());
        assert(ps.push(x)[0] == x);
        assert(tagged_lines(tag, ps.push(x)) =~= tag + x + "\n"@);
    } else {
        assert(ps.push(x).drop_first() =~= ps.drop_first().push(x));
        lemma_tagged_push(tag, ps.drop_first(), x);
        assert(tagged_lines(tag, ps.push(x)) =~= tagged_lines(tag, ps) + tag + x + "\n"@);
    }
}

proof fn lemma_status_lines_tagged(tag: Seq<char>, ps: Seq<Seq<char>>, n: int)
    requires
        0 <= n <= ps.len(),
    ensures
        status_lines(tag, ps, n) == tagged_lines(tag, ps.take(n)),
    decreases n,
{
    if n == 0 {
        assert(ps.take(0) =~= Seq::<Seq<char>>::empty());
    } else {
        lemma_status_lines_tagged(tag, ps, n - 1);
        assert(ps.take(n) =~= ps.take(n - 1).push(ps[n - 1]));
        lemma_tagged_push(tag, ps.take(n - 1), ps[n - 1]);
    }
}

proof fn lemma_renames_push(tag: Seq<char>, rs: Seq<(Seq<char>, Seq<char>)>, x: (Seq<char>, Seq<char>))
    ensures
        tagged_renames(tag, rs.push(x)) == tagged_renames(tag, rs) + tag + x.0 + " -> "@ + x.1
            + "\n"@,
    decreases rs.len(),
{
    if rs.len() == 0 {
        assert(rs.push(x).drop_first() =~= Seq::<(Seq<char>, Seq<char>)>::empty());
        assert(tagged_renames(tag, rs.push(x).drop_first()) == Seq::<char>::empty());
        assert(tagged_renames(tag, rs) == Seq::<char>::empty());
        assert(rs.push(x)[0] == x);
        assert(tagged_renames(tag, rs.push(x)) =~= tag + x.0 + " -> "@ + x.1 + "\n"@);
    } else {
        assert(rs.push(x).drop_first() =~= rs.drop_first().push(x));
        lemma_renames_push(tag, rs.drop_first(), x);
        assert(tagged_renames(tag, rs.push(x)) =~= tagged_renames(tag, rs) + tag + x.0 + " -> "@
            + x.1 + "\n"@);
    }
}

proof fn lemma_rename_lines_tagged(tag: Seq<char>, rs: Seq<(Seq<char>, Seq<char>)>, n: int)
    requires
        0 <= n <= rs.len(),
    ensures
        rename_lines(tag, rs, n) == tagged_renames(tag, rs.take(n)),
    decreases n,
{
    if n == 0 {
        assert(rs.take(0) =~= Seq::<(Seq<char>, Seq<char>)>::empty());
    } else {
        lemma_rename_lines_tagged(tag, rs, n - 1);
        assert(rs.take(n) =~= rs.take(n - 1).push(rs[n - 1]));
        lemma_renames_push(tag, rs.take(n - 1), rs[n - 1]);
    }
}

/// Law: the status text is a "Staged:" block made only of the staged paths
/// (each new, modified, deleted and renamed path on its own "A  ", "M  ",
/// "D  " or "R  " line, in that order, and an empty line after), followed by
/// an "Unstaged:" block made only of the unstaged paths ("? ", "M ", "D ",
/// "R " lines); a block is left out when it has no line.
pub proof fn lemma_status_text_blocks(s: &GaiStatus)
    ensures
        status_text(s) == block(
            "Staged:\n"@,
            tagged_lines("A  "@, paths_view(s.s_new@)) + tagged_lines(
                "M  "@,
                paths_view(s.s_modified@),
            ) + tagged_lines("D  "@, paths_view(s.s_deleted@)) + tagged_renames(
                "R  "@,
                renames_view(s.s_renamed@),
            ),
            "\n"@,
        ) + block(
            "Unstaged:\n"@,
            tagged_lines("? "@, paths_view(s.u_new@)) + tagged_lines(
                "M "@,
                paths_view(s.u_modified@),
            ) + tagged_lines("D "@, paths_view(s.u_deleted@)) + tagged_renames(
                "R "@,
                renames_view(s.u_renamed@),
            ),
            Seq::empty(),
        ),
{
    let (a, m, d, r) = (
        paths_view(s.s_new@),
        paths_view(s.s_modified@),
        paths_view(s.s_deleted@),
        renames_view(s.s_renamed@),
    );
    let (ua, um, ud, ur) = (
        paths_view(s.u_new@),
        paths_view(s.u_modified@),
        paths_view(s.u_deleted@),
        renames_view(s.u_renamed@),
    );
    lemma_status_lines_tagged("A  "@, a, a.len() as int);
    lemma_status_lines_tagged("M  "@, m, m.len() as int);
    lemma_status_lines_tagged("D  "@, d, d.len() as int);
    lemma_rename_lines_tagged("R  "@, r, r.len() as int);
    lemma_status_lines_tagged("? "@, ua, ua.len() as int);
    lemma_status_lines_tagged("M "@, um, um.len() as int);
    lemma_status_lines_tagged("D "@, ud, ud.len() as int);
    lemma_rename_lines_tagged("R "@, ur, ur.len() as int);
    assert(a.take(a.len() as int) == a);
    assert(m.take(m.len() as int) == m);
    assert(d.take(d.len() as int) == d);
    assert(r.take(r.len() as int) == r);
    assert(ua.take(ua.len() as int) == ua);
    assert(um.take(um.len() as int) == um);
    assert(ud.take(ud.len() as int) == ud);
    assert(ur.take(ur.len() as int) == ur);
}

/// The path and the hunk an id "path:index" names, when it names a hunk of
/// one of the files.
pub open spec fn named_hunk(files: Seq<GaiFileView>, id: Seq<char>) -> Option<(Seq<char>, HunkView)> {
    match spec_parse_hunk_id(id) {
        None => None,
        Some((path, i)) => match file_index(files, path, 0) {
            None => None,
            Some(fi) => if i < files[fi].2.len() {
                Some((path, files[fi].2[i as int]))
            } else {
                None
            },
        },
    }
}

/// The path of the last id among `ids` that names a hunk; empty when none does.
pub open spec fn last_named_file(files: Seq<GaiFileView>, ids: Seq<Seq<char>>) -> Seq<char>
    decreases ids.len(),
{
    if ids.len() == 0 {
        Seq::empty()
    } else {
        match named_hunk(files, ids.last()) {
            Some((p, _)) => p,
            None => last_named_file(files, ids.drop_last()),
        }
    }
}

proof fn lemma_patch_after_prefix(files: Seq<GaiFileView>, ids: Seq<Seq<char>>, id: Seq<char>, n: int)
    requires
        0 <= n <= ids.len(),
    ensures
        patch_after(files, ids.push(id), n) == patch_after(files, ids, n),
    decreases n,
{
    if n > 0 {
        lemma_patch_after_prefix(files, ids, id, n - 1);
        assert(ids.push(id)[n - 1] == ids[n - 1]);
    }
}

proof fn lemma_patch_after_file(files: Seq<GaiFileView>, ids: Seq<Seq<char>>, n: int)
    requires
        0 <= n <= ids.len(),
    ensures
        patch_after(files, ids, n).1 == last_named_file(files, ids.take(n)),
    decreases n,
{
    if n == 0 {
        assert(ids.take(0) =~= Seq::<Seq<char>>::empty());
    } else {
        lemma_patch_after_file(files, ids, n - 1);
        assert(ids.take(n).drop_last() =~= ids.take(n - 1));
        assert(ids.take(n).last() == ids[n - 1]);
    }
}

/// Law: a patch grows one hunk id at a time. An id that names no hunk adds
/// nothing; an id naming hunk `h` of file `p` adds the text of `h`, preceded
/// by the header of `p` ("diff --git a/p b/p", "--- a/p", "+++ b/p")
/// whenever the last id before it that named a hunk was of another file.
pub proof fn lemma_patch_push(files: Seq<GaiFileView>, ids: Seq<Seq<char>>, id: Seq<char>)
    ensures
        patch_after(files, ids.push(id), ids.len() as int + 1).0 == match named_hunk(files, id) {
            None => patch_after(files, ids, ids.len() as int).0,
            Some((p, h)) => patch_after(files, ids, ids.len() as int).0 + (if last_named_file(
                files,
                ids,
            ) != p {
                "diff --git a/"@ + p + " b/"@ + p + "\n"@ + "--- a/"@ + p + "\n"@ + "+++ b/"@ + p
                    + "\n"@
            } else {
                Seq::empty()
            }) + hunk_patch_text(h),
        },
{
    let n = ids.len() as int;
    lemma_patch_after_prefix(files, ids, id, n);
    lemma_patch_after_file(files, ids, n);
    assert(ids.take(n) == ids);
    assert(ids.push(id)[n] == id);
}

} // verus!
