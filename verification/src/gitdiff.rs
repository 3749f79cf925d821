//! An earlier form of the diff of the working tree: each file holds hunks
//! that map a header to its lines.
use vstd::prelude::*;
use vstd::string::*;

use crate::gaigit::text_or;
use crate::repo::{DiffType, LineDiff, LineView};
use crate::text::{str_eq, utf8_str};

verus! {

/// The diffs of the files, each under its path, in the order the paths came.
#[derive(Debug)]
pub struct GitDiff {
    pub diffs: Vec<(String, Vec<HunkDiff>)>,
}

/// A hunk: the lines under each header.
#[derive(Debug)]
pub struct HunkDiff {
    pub diffy: Vec<(String, Vec<LineDiff>)>,
}

/// A hunk as values.
pub type HunkView = Seq<(Seq<char>, Seq<LineView>)>;

/// The lines of a hunk as values.
pub open spec fn lines_view(v: Seq<LineDiff>) -> Seq<LineView> {
    v.map_values(|l: LineDiff| l@)
}

impl View for HunkDiff {
    type V = HunkView;

    open spec fn view(&self) -> HunkView {
        self.diffy@.map_values(|e: (String, Vec<LineDiff>)| (e.0@, lines_view(e.1@)))
    }
}

/// The hunks as values.
pub open spec fn hunks_view(hs: Seq<HunkDiff>) -> Seq<HunkView> {
    hs.map_values(|h: HunkDiff| h@)
}

/// The diffs as values.
pub open spec fn diffs_view(v: Seq<(String, Vec<HunkDiff>)>) -> Seq<(Seq<char>, Seq<HunkView>)> {
    v.map_values(|e: (String, Vec<HunkDiff>)| (e.0@, hunks_view(e.1@)))
}

impl GitDiff {
    /// No diffs.
    pub fn new() -> (r: GitDiff)
        ensures
            r.diffs@.len() == 0,
    {
        GitDiff { diffs: Vec::new() }
    }
}

/// Index of the first entry of `h` for `header`.
pub open spec fn key_in(h: HunkView, header: Seq<char>, i: int) -> Option<int>
    decreases h.len() - i,
{
    if i < 0 || i >= h.len() {
        None
    } else if h[i].0 == header {
        Some(i)
    } else {
        key_in(h, header, i + 1)
    }
}

/// Index of the first hunk that has lines for `header`.
pub open spec fn hunk_with(hs: Seq<HunkView>, header: Seq<char>, i: int) -> Option<int>
    decreases hs.len() - i,
{
    if i < 0 || i >= hs.len() {
        None
    } else if key_in(hs[i], header, 0) is Some {
        Some(i)
    } else {
        hunk_with(hs, header, i + 1)
    }
}

/// The type of a line from its origin: '+' added, '-' deleted, anything else
/// kept.
pub open spec fn origin_kind(c: char) -> DiffType {
    if c == '+' {
        DiffType::Additions
    } else if c == '-' {
        DiffType::Deletions
    } else {
        DiffType::Unchanged
    }
}

/// The hunks after one more line: outside a hunk nothing changes; else the
/// line goes under its header in the first hunk that has that header, or into
/// a new hunk of its own.
pub open spec fn process_spec(
    hs: Seq<HunkView>,
    header: Option<Seq<u8>>,
    origin: char,
    content: Seq<u8>,
) -> Seq<HunkView> {
    match header {
        None => hs,
        Some(hb) => {
            let h = text_or(hb, "not a valid utf8 header from hunk"@);
            let line = (origin_kind(origin), text_or(content, "not a valid utf8 line from hunk"@));
            match hunk_with(hs, h, 0) {
                Some(i) => {
                    let k = key_in(hs[i], h, 0)->0;
                    hs.update(i, hs[i].update(k, (h, hs[i][k].1.push(line))))
                },
                None => hs.push(seq![(h, seq![line])]),
            }
        },
    }
}

/// The bytes as a string, or `fallback` when they are not UTF-8.
fn string_or(bytes: &[u8], fallback: &str) -> (r: String)
    ensures
        r@ == text_or(bytes@, fallback@),
{
    match utf8_str(bytes) {
        Some(s) => String::from_str(s),
        None => String::from_str(fallback),
    }
}

/// Index of the entry of a hunk for `header`.
fn key_position(h: &HunkDiff, header: &str) -> (r: Option<usize>)
    ensures
        match r {
            Some(k) => key_in(h@, header@, 0) == Some(k as int) && k < h.diffy.len()
                && h@[k as int].0 == header@,
            None => key_in(h@, header@, 0) is None,
        },
{
    let ghost hv = h@;
    let mut k: usize = 0;
    while k < h.diffy.len()
        invariant
            k <= h.diffy.len(),
            hv == h@,
            key_in(hv, header@, 0) == key_in(hv, header@, k as int),
        decreases h.diffy.len() - k,
    {
        assert(hv[k as int].0 == h.diffy@[k as int].0@);
        if str_eq(h.diffy[k].0.as_str(), header) {
            return Some(k);
        }
        k = k + 1;
    }
    None
}

/// Adds one line of the diff of a file to its hunks.
pub fn process_file_diff(
    diff_hunks: &mut Vec<HunkDiff>,
    header: Option<&[u8]>,
    origin: char,
    content: &[u8],
)
    ensures
        hunks_view(final(diff_hunks)@) == process_spec(
            hunks_view(old(diff_hunks)@),
            match header {
                Some(h) => Some(h@),
                None => None,
            },
            origin,
            content@,
        ),
{
    let hb = match header {
        Some(h) => h,
        None => return,
    };
    let h = string_or(hb, "not a valid utf8 header from hunk");
    let c = string_or(content, "not a valid utf8 line from hunk");
    let diff_type = if origin == '+' {
        DiffType::Additions
    } else if origin == '-' {
        DiffType::Deletions
    } else {
        DiffType::Unchanged
    };
    let ghost hs = hunks_view(diff_hunks@);
    let ghost line: LineView = (diff_type, c@);
    match find_hunk(diff_hunks, h.as_str()) {
        Some((i, k)) => {
            let mut hunk = diff_hunks.remove(i);
            assert(hunk@ == hs[i as int]);
            let (key, mut ls) = hunk.diffy.remove(k);
            assert(hs[i as int][k as int] == (key@, lines_view(ls@)));
            let ghost before = lines_view(ls@);
            ls.push(LineDiff { diff_type, content: c });
            let ghost kv = key@;
            let ghost lsv = lines_view(ls@);
            assert(lsv == before.push(line));
            hunk.diffy.insert(k, (key, ls));
            assert(hunk@ == hs[i as int].update(k as int, (kv, lsv)));
            diff_hunks.insert(i, hunk);
            assert(hunks_view(diff_hunks@) == hs.update(i as int, hunk@));
        },
        None => {
            let mut ls: Vec<LineDiff> = Vec::new();
            ls.push(LineDiff { diff_type, content: c });
            assert(lines_view(ls@) == seq![line]);
            let mut diffy: Vec<(String, Vec<LineDiff>)> = Vec::new();
            let ghost hv = h@;
            diffy.push((h, ls));
            let hunk = HunkDiff { diffy };
            assert(hunk@ == seq![(hv, seq![line])]);
            diff_hunks.push(hunk);
            assert(hunks_view(diff_hunks@) == hs.push(seq![(hv, seq![line])]));
        },
    }
}

/// The hunk that has lines for `header`, and the index of its entry for it.
fn find_hunk(diff_hunks: &Vec<HunkDiff>, header: &str) -> (r: Option<(usize, usize)>)
    ensures
        match r {
            Some((i, k)) => hunk_with(hunks_view(diff_hunks@), header@, 0) == Some(i as int) && i
                < diff_hunks.len() && key_in(diff_hunks@[i as int]@, header@, 0) == Some(k as int)
                && k < diff_hunks@[i as int].diffy.len() && diff_hunks@[i as int]@[k as int].0
                == header@,
            None => hunk_with(hunks_view(diff_hunks@), header@, 0) is None,
        },
{
    let ghost hs = hunks_view(diff_hunks@);
    let mut i: usize = 0;
    while i < diff_hunks.len()
        invariant
            i <= diff_hunks.len(),
            hs == hunks_view(diff_hunks@),
            hunk_with(hs, header@, 0) == hunk_with(hs, header@, i as int),
        decreases diff_hunks.len() - i,
    {
        assert(hs[i as int] == diff_hunks@[i as int]@);
        match key_position(&diff_hunks[i], header) {
            Some(k) => {
                assert(hunk_with(hs, header@, i as int) == Some(i as int));
                return Some((i, k));
            },
            None => {},
        }
        i = i + 1;
    }
    None
}

/// Index of the file at `path`.
pub open spec fn path_in(m: Seq<(Seq<char>, Seq<HunkView>)>, path: Seq<char>, i: int) -> Option<int>
    decreases m.len() - i,
{
    if i < 0 || i >= m.len() {
        None
    } else if m[i].0 == path {
        Some(i)
    } else {
        path_in(m, path, i + 1)
    }
}

/// The diffs after one more line of a file: a file seen for the first time
/// only gets an empty entry and the line is left out; else the line goes to
/// its hunks.
pub open spec fn line_spec(
    m: Seq<(Seq<char>, Seq<HunkView>)>,
    path: Seq<char>,
    header: Option<Seq<u8>>,
    origin: char,
    content: Seq<u8>,
) -> Seq<(Seq<char>, Seq<HunkView>)> {
    match path_in(m, path, 0) {
        Some(i) => m.update(i, (m[i].0, process_spec(m[i].1, header, origin, content))),
        None => m.push((path, Seq::empty())),
    }
}

impl GitDiff {
    /// Takes one line of the diff of the working tree.
    pub fn add_line(&mut self, path: &str, header: Option<&[u8]>, origin: char, content: &[u8])
        ensures
            diffs_view(final(self).diffs@) == line_spec(
                diffs_view(old(self).diffs@),
                path@,
                match header {
                    Some(h) => Some(h@),
                    None => None,
                },
                origin,
                content@,
            ),
    {
        let ghost m = diffs_view(self.diffs@);
        let mut i: usize = 0;
        while i < self.diffs.len() && !str_eq(self.diffs[i].0.as_str(), path)
            invariant
                i <= self.diffs.len(),
                m == diffs_view(self.diffs@),
                path_in(m, path@, 0) == path_in(m, path@, i as int),
            decreases self.diffs.len() - i,
        {
            assert(m[i as int].0 == self.diffs@[i as int].0@);
            i = i + 1;
        }
        if i < self.diffs.len() {
            assert(m[i as int].0 == self.diffs@[i as int].0@);
            assert(path_in(m, path@, i as int) == Some(i as int));
            let (p, mut hunks) = self.diffs.remove(i);
            assert(hunks_view(hunks@) == m[i as int].1);
            process_file_diff(&mut hunks, header, origin, content);
            let ghost pv = p@;
            let ghost hv = hunks_view(hunks@);
            self.diffs.insert(i, (p, hunks));
            assert(diffs_view(self.diffs@) == m.update(i as int, (pv, hv)));
        } else {
            let hunks: Vec<HunkDiff> = Vec::new();
            assert(hunks_view(hunks@) =~= Seq::<HunkView>::empty());
            self.diffs.push((String::from_str(path), hunks));
            assert(diffs_view(self.diffs@) == m.push((path@, Seq::empty())));
        }
    }
}

} // verus!
