//! Diff bookkeeping: files, hunks and lines of a diff, the hunk ids that an LLM
//! names hunks by ("path:index"), and the text a diff is sent as.
use git2::DiffLineType as GitLineType;
use vstd::prelude::*;
use vstd::pervasive::*;
use vstd::string::*;

use crate::errors::GitError;
use crate::status::StatusStrategy;
use crate::text::{
    copy_range, decimal, digit_char, find_char, find_char_in, find_from, from_chars, push_char, push_str, str_eq, to_chars,
    u64_to_decimal,
};

verus! {

/// Diffing strategy.
#[derive(Debug)]
pub struct DiffStrategy {
    /// which changes are diffed
    pub status_strategy: StatusStrategy,
    /// files that are shown as truncated
    pub truncated_files: Vec<String>,
    /// files to ignore, besides what .gitignore ignores
    pub ignored_files: Vec<String>,
}

impl DiffStrategy {
    /// The default strategy: both staged and unstaged changes, nothing truncated
    /// or ignored.
    pub fn new() -> (r: DiffStrategy)
        ensures
            r.status_strategy == StatusStrategy::Both,
            r.truncated_files@.len() == 0,
            r.ignored_files@.len() == 0,
    {
        DiffStrategy {
            status_strategy: StatusStrategy::Both,
            truncated_files: Vec::new(),
            ignored_files: Vec::new(),
        }
    }
}

/// A set of file diffs.
#[derive(Debug)]
pub struct Diffs {
    pub files: Vec<FileDiff>,
}

/// A hunk named by the path of its file and its index within that file,
/// written "path:index".
#[derive(Debug)]
pub struct HunkId {
    pub path: String,
    pub index: usize,
}

/// The diff of one file.
#[derive(Debug)]
pub struct FileDiff {
    pub path: String,
    pub hunks: Vec<Hunk>,
    /// number of diff lines over all hunks
    pub lines: usize,
    /// the file is not tracked yet
    pub untracked: bool,
}

/// One hunk of a file diff.
#[derive(Debug)]
pub struct Hunk {
    /// index of the hunk within its file
    pub id: usize,
    pub header: HunkHeader,
    pub lines: Vec<DiffLine>,
}

/// The ranges a hunk covers.
#[derive(Clone, Copy, PartialEq, Eq, Structural, Debug)]
pub struct HunkHeader {
    pub old_start: u32,
    pub old_lines: u32,
    pub new_start: u32,
    pub new_lines: u32,
}

/// Kind of a single diff line.
#[derive(Clone, Copy, PartialEq, Eq, Structural, Debug)]
pub enum DiffLineType {
    /// surrounding line, no change
    Unchanged,
    /// header of the hunk
    Header,
    /// line added
    Add,
    /// line deleted
    Delete,
}

/// Line numbers of a diff line in the old and the new file.
#[derive(Clone, Copy, PartialEq, Eq, Structural, Debug)]
pub struct DiffLinePosition {
    pub old_lineno: Option<u32>,
    pub new_lineno: Option<u32>,
}

/// One line of a hunk.
#[derive(Debug)]
pub struct DiffLine {
    pub content: String,
    pub line_type: DiffLineType,
    pub position: DiffLinePosition,
}

/// A diff line as a value: content, kind and position.
pub type LineView = (Seq<char>, DiffLineType, DiffLinePosition);

/// A hunk as a value: id, header and lines.
pub type HunkView = (nat, HunkHeader, Seq<LineView>);

/// A file diff as a value: path, hunks, line count and untracked flag.
pub type FileView = (Seq<char>, Seq<HunkView>, nat, bool);

impl View for DiffLine {
    type V = LineView;

    open spec fn view(&self) -> LineView {
        (self.content@, self.line_type, self.position)
    }
}

impl View for Hunk {
    type V = HunkView;

    open spec fn view(&self) -> HunkView {
        (self.id as nat, self.header, self.lines@.map_values(|l: DiffLine| l@))
    }
}

impl View for FileDiff {
    type V = FileView;

    open spec fn view(&self) -> FileView {
        (self.path@, self.hunks@.map_values(|h: Hunk| h@), self.lines as nat, self.untracked)
    }
}

impl View for Diffs {
    type V = Seq<FileView>;

    open spec fn view(&self) -> Seq<FileView> {
        self.files@.map_values(|f: FileDiff| f@)
    }
}

impl View for HunkId {
    type V = (Seq<char>, nat);

    open spec fn view(&self) -> (Seq<char>, nat) {
        (self.path@, self.index as nat)
    }
}

impl Default for DiffLineType {
    fn default() -> (r: Self)
        ensures
            r == DiffLineType::Unchanged,
    {
        DiffLineType::Unchanged
    }
}

impl DiffLineType {
    /// The prefix a line of this kind is written with in a diff.
    pub open spec fn spec_prefix(&self) -> Seq<char> {
        match self {
            DiffLineType::Unchanged => seq![' '],
            DiffLineType::Header => Seq::empty(),
            DiffLineType::Add => seq!['+'],
            DiffLineType::Delete => seq!['-'],
        }
    }

    /// The prefix a line of this kind is written with in a diff.
    pub fn prefix(&self) -> (r: String)
        ensures
            r@ == self.spec_prefix(),
    {
        let mut r = String::new();
        match self {
            DiffLineType::Unchanged => push_char(&mut r, ' '),
            DiffLineType::Header => {},
            DiffLineType::Add => push_char(&mut r, '+'),
            DiffLineType::Delete => push_char(&mut r, '-'),
        }
        r
    }
}

/// The kind of a diff line in git2.
#[verifier::external_type_specification]
#[verifier::external_body]
pub struct ExDiffLineType(GitLineType);

/// The kinds of line git reports in a diff.
#[derive(Clone, Copy, PartialEq, Eq, Structural, Debug)]
pub enum LineOrigin {
    Context,
    Addition,
    Deletion,
    ContextEOFNL,
    AddEOFNL,
    DeleteEOFNL,
    FileHeader,
    HunkHeader,
    Binary,
}

/// The variant of git2's `DiffLineType` that `t` is, as the library's own
/// `LineOrigin` of the same name. The type is opaque here, so which variant a
/// value is gets a name rather than a statement.
pub uninterp spec fn git_line_origin(t: GitLineType) -> LineOrigin;

/// Tells apart the variants of git2's `DiffLineType`, one arm each, giving the
/// `LineOrigin` of the same name: the result is `git_line_origin(t)`, a
/// function of `t` alone.
#[verifier::external_body]
fn line_origin(t: GitLineType) -> (r: LineOrigin)
    ensures
        r == git_line_origin(t),
{
    match t {
        GitLineType::Context => LineOrigin::Context,
        GitLineType::Addition => LineOrigin::Addition,
        GitLineType::Deletion => LineOrigin::Deletion,
        GitLineType::ContextEOFNL => LineOrigin::ContextEOFNL,
        GitLineType::AddEOFNL => LineOrigin::AddEOFNL,
        GitLineType::DeleteEOFNL => LineOrigin::DeleteEOFNL,
        GitLineType::FileHeader => LineOrigin::FileHeader,
        GitLineType::HunkHeader => LineOrigin::HunkHeader,
        GitLineType::Binary => LineOrigin::Binary,
    }
}

impl DiffLineType {
    /// The kind of a line from its origin: hunk headers are headers, deletions
    /// and additions (with or without a final line break) are deletions and
    /// additions, anything else is unchanged.
    pub open spec fn spec_from_origin(o: LineOrigin) -> DiffLineType {
        match o {
            LineOrigin::HunkHeader => DiffLineType::Header,
            LineOrigin::DeleteEOFNL | LineOrigin::Deletion => DiffLineType::Delete,
            LineOrigin::AddEOFNL | LineOrigin::Addition => DiffLineType::Add,
            _ => DiffLineType::Unchanged,
        }
    }

    /// The kind of a line from its origin.
    pub fn from_origin(o: LineOrigin) -> (r: DiffLineType)
        ensures
            r == Self::spec_from_origin(o),
    {
        match o {
            LineOrigin::HunkHeader => DiffLineType::Header,
            LineOrigin::DeleteEOFNL | LineOrigin::Deletion => DiffLineType::Delete,
            LineOrigin::AddEOFNL | LineOrigin::Addition => DiffLineType::Add,
            _ => DiffLineType::Unchanged,
        }
    }

    /// The kind of a line git2 reports: that of its origin, as
    /// `from_origin` gives it.
    pub fn from_git(t: GitLineType) -> (r: DiffLineType)
        ensures
            r == Self::spec_from_origin(git_line_origin(t)),
    {
        DiffLineType::from_origin(line_origin(t))
    }
}

impl DiffLine {
    /// A diff line whose content is `raw` without the line-break characters
    /// (`\n`, `\r`) at either end.
    pub fn from_raw(raw: &str, line_type: DiffLineType, position: DiffLinePosition) -> (r:
        DiffLine)
        ensures
            r.content@ == trim_newlines(raw@),
            r.line_type == line_type,
            r.position == position,
    {
        let v = to_chars(raw);
        let t = trim_newline_chars(&v);
        DiffLine { content: from_chars(&t), line_type, position }
    }

    /// An equal copy.
    pub fn duplicate(&self) -> (r: DiffLine)
        ensures
            r@ == self@,
    {
        DiffLine {
            content: self.content.clone(),
            line_type: self.line_type,
            position: self.position,
        }
    }
}

/// Whether `c` is a line-break character (`\n` or `\r`).
pub open spec fn spec_is_newline(c: char) -> bool {
    c == '\n' || c == '\r'
}

/// Whether `c` is a line-break character (`\n` or `\r`).
pub fn is_newline(c: char) -> (r: bool)
    ensures
        r == spec_is_newline(c),
{
    c == '\n' || c == '\r'
}

/// First index at or after `i` that is not a line break.
pub open spec fn nl_start_from(s: Seq<char>, i: int) -> int
    decreases s.len() - i,
{
    if 0 <= i < s.len() && spec_is_newline(s[i]) {
        nl_start_from(s, i + 1)
    } else {
        i
    }
}

/// Last end position at or before `j` (not before `lo`) not preceded by a line break.
pub open spec fn nl_end_to(s: Seq<char>, lo: int, j: int) -> int
    decreases j - lo,
{
    if lo < j && j <= s.len() && spec_is_newline(s[j - 1]) {
        nl_end_to(s, lo, j - 1)
    } else {
        j
    }
}

/// `str::trim_matches(is_newline)`.
pub open spec fn trim_newlines(s: Seq<char>) -> Seq<char> {
    let a = nl_start_from(s, 0);
    s.subrange(a, nl_end_to(s, a, s.len() as int))
}

/// `v` without line-break characters at either end.
pub fn trim_newline_chars(v: &[char]) -> (r: Vec<char>)
    ensures
        r@ == trim_newlines(v@),
{
    let mut i: usize = 0;
    while i < v.len() && is_newline(v[i])
        invariant
            i <= v.len(),
            nl_start_from(v@, 0) == nl_start_from(v@, i as int),
        decreases v.len() - i,
    {
        i = i + 1;
    }
    let mut j: usize = v.len();
    while j > i && is_newline(v[j - 1])
        invariant
            i <= j <= v.len(),
            i == nl_start_from(v@, 0),
            nl_end_to(v@, i as int, v.len() as int) == nl_end_to(v@, i as int, j as int),
        decreases j - i,
    {
        j = j - 1;
    }
    copy_range(v, i, j)
}

impl Hunk {
    /// An equal copy.
    pub fn duplicate(&self) -> (r: Hunk)
        ensures
            r@ == self@,
    {
        let mut lines: Vec<DiffLine> = Vec::new();
        let mut i: usize = 0;
        while i < self.lines.len()
            invariant
                i <= self.lines.len(),
                lines@.map_values(|l: DiffLine| l@) == self.lines@.map_values(|l: DiffLine| l@).take(
                    i as int,
                ),
            decreases self.lines.len() - i,
        {
            let ghost before = lines@.map_values(|l: DiffLine| l@);
            lines.push(self.lines[i].duplicate());
            assert(lines@.map_values(|l: DiffLine| l@) == before.push(self.lines@[i as int]@));
            i = i + 1;
        }
        assert(self.lines@.map_values(|l: DiffLine| l@).take(self.lines.len() as int)
            == self.lines@.map_values(|l: DiffLine| l@));
        Hunk { id: self.id, header: self.header, lines }
    }
}

// ---------------------------------------------------------------------------
// Hunk ids

/// The text "path:index" that names hunk `index` of file `path`.
pub open spec fn hunk_id_text(path: Seq<char>, index: nat) -> Seq<char> {
    path + seq![':'] + decimal(index)
}

/// "path:index".
pub fn hunk_id_string(path: &str, index: usize) -> (r: String)
    ensures
        r@ == hunk_id_text(path@, index as nat),
{
    let mut s = String::from_str(path);
    push_char(&mut s, ':');
    let d = u64_to_decimal(index as u64);
    push_str(&mut s, d.as_str());
    s
}

/// What `usize::from_str` gives for `s`: an optional `+`, then one or more
/// decimal digits whose value fits in a `usize`.
pub open spec fn parse_usize(s: Seq<char>) -> Option<nat> {
    let digits = usize_digits(s);
    if digits.len() == 0 || !all_digits(digits) {
        None
    } else if digits_value(digits) > usize::MAX {
        None
    } else {
        Some(digits_value(digits))
    }
}

/// The text after an optional leading `+`.
pub open spec fn usize_digits(s: Seq<char>) -> Seq<char> {
    if s.len() > 0 && s[0] == '+' {
        s.drop_first()
    } else {
        s
    }
}

/// Whether every character is an ASCII decimal digit.
pub open spec fn all_digits(s: Seq<char>) -> bool {
    forall|i: int| 0 <= i < s.len() ==> '0' <= #[trigger] s[i] <= '9'
}

/// The value of a string of decimal digits.
pub open spec fn digits_value(s: Seq<char>) -> nat
    decreases s.len(),
{
    if s.len() == 0 {
        0
    } else {
        digits_value(s.drop_last()) * 10 + ((s.last() as u32) - ('0' as u32)) as nat
    }
}

/// Parses a `usize` as `str::parse::<usize>` does.
pub fn parse_usize_exec(v: &[char]) -> (r: Option<usize>)
    ensures
        r matches Some(n) ==> parse_usize(v@) == Some(n as nat),
        r is None ==> parse_usize(v@) is None,
{
    let start: usize = if v.len() > 0 && v[0] == '+' {
        1
    } else {
        0
    };
    let ghost digits = usize_digits(v@);
    assert(digits == v@.subrange(start as int, v.len() as int));
    if start == v.len() {
        assert(digits.len() == 0);
        return None;
    }
    let mut value: usize = 0;
    let mut overflow = false;
    let mut i: usize = start;
    while i < v.len()
        invariant
            start <= i <= v.len(),
            digits == v@.subrange(start as int, v.len() as int),
            digits == usize_digits(v@),
            all_digits(v@.subrange(start as int, i as int)),
            !overflow ==> value as nat == digits_value(v@.subrange(start as int, i as int)),
            overflow ==> digits_value(v@.subrange(start as int, i as int)) > usize::MAX,
        decreases v.len() - i,
    {
        let c = v[i];
        if !('0' <= c && c <= '9') {
            assert(!all_digits(digits)) by {
                assert(digits[i - start] == c);
            }
            return None;
        }
        let d = (c as u32 - '0' as u32) as usize;
        let ghost prev = v@.subrange(start as int, i as int);
        let ghost next = v@.subrange(start as int, i + 1);
        assert(next.drop_last() == prev);
        assert(next.last() == c);
        assert(all_digits(next)) by {
            assert forall|k: int| 0 <= k < next.len() implies '0' <= #[trigger] next[k] <= '9' by {
                if k < prev.len() {
                    assert(next[k] == prev[k]);
                }
            }
        }
        if !overflow {
            if value > (usize::MAX - d) / 10 {
                overflow = true;
                assert(digits_value(next) == digits_value(prev) * 10 + d);
                assert(value * 10 + d > usize::MAX) by (nonlinear_arith)
                    requires
                        value > (usize::MAX - d) / 10,
                        d <= usize::MAX,
                ;
            } else {
                assert(value * 10 + d <= usize::MAX) by (nonlinear_arith)
                    requires
                        value <= (usize::MAX - d) / 10,
                        d <= usize::MAX,
                ;
                value = value * 10 + d;
            }
        } else {
            assert(digits_value(next) == digits_value(prev) * 10 + d);
            assert(digits_value(prev) * 10 + d > usize::MAX) by (nonlinear_arith)
                requires
                    digits_value(prev) > usize::MAX,
            ;
        }
        i = i + 1;
    }
    if overflow {
        None
    } else {
        Some(value)
    }
}

/// What parsing "path:index" into a hunk id gives: the text before the first ':'
/// and the number after it, if both are there.
pub open spec fn spec_parse_hunk_id(s: Seq<char>) -> Option<(Seq<char>, nat)> {
    match find_char(s, ':') {
        None => None,
        Some(k) => match parse_usize(s.subrange(k + 1, s.len() as int)) {
            None => None,
            Some(n) => Some((s.subrange(0, k), n)),
        },
    }
}

impl HunkId {
    /// Parses "path:index". Fails with `InvalidHunk` carrying the text when it has
    /// no ':' or the text after the first ':' is not a `usize`.
    pub fn try_from(v: &str) -> (r: Result<HunkId, GitError>)
        ensures
            match r {
                Ok(id) => spec_parse_hunk_id(v@) == Some(id@),
                Err(e) => spec_parse_hunk_id(v@) is None && (e matches GitError::InvalidHunk(t)
                    && t@ == v@),
            },
    {
        let chars = to_chars(v);
        match find_char_in(&chars, ':') {
            None => Err(GitError::InvalidHunk(String::from_str(v))),
            Some(k) => {
                let rest = copy_range(&chars, k + 1, chars.len());
                match parse_usize_exec(&rest) {
                    None => Err(GitError::InvalidHunk(String::from_str(v))),
                    Some(n) => {
                        let path = copy_range(&chars, 0, k);
                        Ok(HunkId { path: from_chars(&path), index: n })
                    },
                }
            },
        }
    }
}

// ---------------------------------------------------------------------------
// Lists of files and hunks

/// The hunk id texts of the hunks of one file.
pub open spec fn file_hunk_ids(f: FileView) -> Seq<Seq<char>> {
    f.1.map_values(|h: HunkView| hunk_id_text(f.0, h.0))
}

/// The hunk id texts of all hunks, file by file.
pub open spec fn all_hunk_ids(files: Seq<FileView>) -> Seq<Seq<char>>
    decreases files.len(),
{
    if files.len() == 0 {
        Seq::empty()
    } else {
        all_hunk_ids(files.drop_last()) + file_hunk_ids(files.last())
    }
}

/// The hunk ids (path, index) of all hunks, file by file.
pub open spec fn all_hunk_pairs(files: Seq<FileView>) -> Seq<(Seq<char>, nat)>
    decreases files.len(),
{
    if files.len() == 0 {
        Seq::empty()
    } else {
        all_hunk_pairs(files.drop_last()) + files.last().1.map_values(
            |h: HunkView| (files.last().0, h.0),
        )
    }
}

impl Diffs {
    /// The paths of the files, in order.
    pub fn as_files(&self) -> (r: Vec<String>)
        ensures
            r@.map_values(|s: String| s@) == self@.map_values(|f: FileView| f.0),
    {
        let mut r: Vec<String> = Vec::new();
        let mut i: usize = 0;
        while i < self.files.len()
            invariant
                i <= self.files.len(),
                r@.map_values(|s: String| s@) == self@.map_values(|f: FileView| f.0).take(
                    i as int,
                ),
            decreases self.files.len() - i,
        {
            let ghost before = r@.map_values(|s: String| s@);
            r.push(self.files[i].path.clone());
            assert(r@.map_values(|s: String| s@) == before.push(self.files@[i as int].path@));
            i = i + 1;
        }
        assert(self@.map_values(|f: FileView| f.0).take(self.files.len() as int) == self@.map_values(
            |f: FileView| f.0,
        ));
        r
    }

    /// The hunk ids of all hunks as "path:index" texts, file by file.
    pub fn as_hunks(&self) -> (r: Vec<String>)
        ensures
            r@.map_values(|s: String| s@) == all_hunk_ids(self@),
    {
        let mut r: Vec<String> = Vec::new();
        let mut i: usize = 0;
        while i < self.files.len()
            invariant
                i <= self.files.len(),
                r@.map_values(|s: String| s@) == all_hunk_ids(self@.take(i as int)),
            decreases self.files.len() - i,
        {
            let file = &self.files[i];
            let ghost fv = file@;
            let ghost base = r@.map_values(|s: String| s@);
            let mut j: usize = 0;
            while j < file.hunks.len()
                invariant
                    j <= file.hunks.len(),
                    fv == file@,
                    r@.map_values(|s: String| s@) == base + file_hunk_ids(fv).take(j as int),
                decreases file.hunks.len() - j,
            {
                let ghost before = r@.map_values(|s: String| s@);
                let s = hunk_id_string(file.path.as_str(), file.hunks[j].id);
                r.push(s);
                assert(file_hunk_ids(fv).take(j + 1) == file_hunk_ids(fv).take(j as int).push(
                    hunk_id_text(fv.0, file.hunks@[j as int].id as nat),
                ));
                assert(r@.map_values(|s: String| s@) == before.push(s@));
                j = j + 1;
            }
            assert(file_hunk_ids(fv).take(file.hunks.len() as int) == file_hunk_ids(fv));
            assert(self@.take(i + 1).drop_last() == self@.take(i as int));
            assert(self@.take(i + 1).last() == fv);
            i = i + 1;
        }
        assert(self@.take(self.files.len() as int) == self@);
        r
    }
}

/// The hunk ids of all hunks of `file_diffs`, file by file.
pub fn get_hunk_ids(file_diffs: &[FileDiff]) -> (r: Vec<HunkId>)
    ensures
        r@.map_values(|h: HunkId| h@) == all_hunk_pairs(file_diffs@.map_values(|f: FileDiff| f@)),
{
    let ghost files = file_diffs@.map_values(|f: FileDiff| f@);
    let mut r: Vec<HunkId> = Vec::new();
    let mut i: usize = 0;
    while i < file_diffs.len()
        invariant
            i <= file_diffs.len(),
            files == file_diffs@.map_values(|f: FileDiff| f@),
            r@.map_values(|h: HunkId| h@) == all_hunk_pairs(files.take(i as int)),
        decreases file_diffs.len() - i,
    {
        let file = &file_diffs[i];
        let ghost fv = file@;
        let ghost base = r@.map_values(|h: HunkId| h@);
        let ghost pairs = fv.1.map_values(|h: HunkView| (fv.0, h.0));
        let mut j: usize = 0;
        while j < file.hunks.len()
            invariant
                j <= file.hunks.len(),
                fv == file@,
                pairs == fv.1.map_values(|h: HunkView| (fv.0, h.0)),
                r@.map_values(|h: HunkId| h@) == base + pairs.take(j as int),
            decreases file.hunks.len() - j,
        {
            let ghost before = r@.map_values(|h: HunkId| h@);
            let id = HunkId { path: file.path.clone(), index: file.hunks[j].id };
            r.push(id);
            assert(pairs.take(j + 1) == pairs.take(j as int).push(pairs[j as int]));
            assert(r@.map_values(|h: HunkId| h@) == before.push(id@));
            j = j + 1;
        }
        assert(pairs.take(file.hunks.len() as int) == pairs);
        assert(files.take(i + 1).drop_last() == files.take(i as int));
        assert(files.take(i + 1).last() == fv);
        i = i + 1;
    }
    assert(files.take(file_diffs.len() as int) == files);
    r
}

/// Index of the first file whose path is `path`.
pub open spec fn first_file_with_path(files: Seq<FileView>, path: Seq<char>, i: int) -> Option<int>
    decreases files.len() - i,
{
    if i < 0 || i >= files.len() {
        None
    } else if files[i].0 == path {
        Some(i)
    } else {
        first_file_with_path(files, path, i + 1)
    }
}

/// Index of the first file diff with the given path.
pub fn position_of_path(file_diffs: &[FileDiff], path: &str) -> (r: Option<usize>)
    ensures
        match r {
            Some(i) => first_file_with_path(file_diffs@.map_values(|f: FileDiff| f@), path@, 0)
                == Some(i as int) && i < file_diffs.len(),
            None => first_file_with_path(file_diffs@.map_values(|f: FileDiff| f@), path@, 0) is None,
        },
{
    let ghost files = file_diffs@.map_values(|f: FileDiff| f@);
    let mut i: usize = 0;
    while i < file_diffs.len()
        invariant
            i <= file_diffs.len(),
            files == file_diffs@.map_values(|f: FileDiff| f@),
            first_file_with_path(files, path@, 0) == first_file_with_path(files, path@, i as int),
        decreases file_diffs.len() - i,
    {
        if str_eq(file_diffs[i].path.as_str(), path) {
            return Some(i);
        }
        i = i + 1;
    }
    None
}

/// The first file diff whose path is `file_path`; fails, naming the path, when
/// there is none.
pub fn find_file_diff<'a>(og_file_diffs: &'a [FileDiff], file_path: &str) -> (r: Result<
    &'a FileDiff,
    GitError,
>)
    ensures
        match first_file_with_path(og_file_diffs@.map_values(|f: FileDiff| f@), file_path@, 0) {
            Some(i) => r matches Ok(f) && f@ == og_file_diffs@[i]@,
            None => r matches Err(e) && e matches GitError::Generic(m) && m@ == file_path@
                + " is not in the og_file_diffs"@,
        },
{
    match position_of_path(og_file_diffs, file_path) {
        Some(i) => Ok(&og_file_diffs[i]),
        None => {
            let mut m = String::from_str(file_path);
            push_str(&mut m, " is not in the og_file_diffs");
            Err(GitError::Generic(m))
        },
    }
}

/// Whether `x` occurs in `v`.
pub fn contains_usize(v: &[usize], x: usize) -> (r: bool)
    ensures
        r == v@.contains(x),
{
    let mut i: usize = 0;
    while i < v.len()
        invariant
            i <= v.len(),
            forall|j: int| 0 <= j < i ==> v@[j] != x,
        decreases v.len() - i,
    {
        if v[i] == x {
            assert(v@[i as int] == x);
            return true;
        }
        i = i + 1;
    }
    false
}

/// The hunks of the first `n` among `hunks` whose id is (or, when `keep` is false,
/// is not) in `ids`, in order.
pub open spec fn select_hunks(hunks: Seq<HunkView>, ids: Seq<usize>, keep: bool, n: int) -> Seq<
    HunkView,
>
    decreases n,
{
    if n <= 0 || n > hunks.len() {
        Seq::empty()
    } else if (ids.contains(hunks[n - 1].0 as usize) && hunks[n - 1].0 <= usize::MAX) == keep {
        select_hunks(hunks, ids, keep, n - 1).push(hunks[n - 1])
    } else {
        select_hunks(hunks, ids, keep, n - 1)
    }
}

/// The hunks whose id is (`keep`) or is not (`!keep`) in `ids`, in order.
pub open spec fn filter_hunks(hunks: Seq<HunkView>, ids: Seq<usize>, keep: bool) -> Seq<HunkView> {
    select_hunks(hunks, ids, keep, hunks.len() as int)
}

/// Copies of the hunks whose id is (or, when `keep` is false, is not) in `ids`.
pub fn copy_hunks_by_id(hunks: &Vec<Hunk>, ids: &[usize], keep: bool) -> (r: Vec<Hunk>)
    ensures
        r@.map_values(|h: Hunk| h@) == filter_hunks(hunks@.map_values(|h: Hunk| h@), ids@, keep),
{
    let ghost hv = hunks@.map_values(|h: Hunk| h@);
    let mut r: Vec<Hunk> = Vec::new();
    let mut i: usize = 0;
    while i < hunks.len()
        invariant
            i <= hunks.len(),
            hv == hunks@.map_values(|h: Hunk| h@),
            r@.map_values(|h: Hunk| h@) == select_hunks(hv, ids@, keep, i as int),
        decreases hunks.len() - i,
    {
        let ghost before = r@.map_values(|h: Hunk| h@);
        assert(hv[i as int].0 as usize == hunks@[i as int].id);
        if contains_usize(ids, hunks[i].id) == keep {
            let h = hunks[i].duplicate();
            r.push(h);
            assert(r@.map_values(|h: Hunk| h@) == before.push(h@));
        }
        i = i + 1;
    }
    r
}

/// The hunks of `file_diff` whose id is in `ids`; fails, naming the file, when
/// there are none.
pub fn find_file_hunks(file_diff: &FileDiff, ids: Vec<usize>) -> (r: Result<Vec<Hunk>, GitError>)
    ensures
        match r {
            Ok(hs) => hs@.map_values(|h: Hunk| h@) == filter_hunks(file_diff@.1, ids@, true)
                && hs@.len() > 0,
            Err(e) => filter_hunks(file_diff@.1, ids@, true).len() == 0 && (e matches GitError::Generic(
                m,
            ) && m@ == "no matching hunks found in "@ + file_diff.path@),
        },
{
    let hunks = copy_hunks_by_id(&file_diff.hunks, ids.as_slice(), true);
    if hunks.len() == 0 {
        let mut m = String::from_str("no matching hunks found in ");
        push_str(&mut m, file_diff.path.as_str());
        return Err(GitError::Generic(m));
    }
    Ok(hunks)
}

/// Removes, from the first file diff whose path is `file_path`, the hunks whose id
/// is in `used_ids`; leaves everything else as it was.
pub fn remove_hunks(file_diffs: &mut Vec<FileDiff>, file_path: &str, used_ids: &[usize])
    ensures
        final(file_diffs)@.len() == old(file_diffs)@.len(),
        match first_file_with_path(old(file_diffs)@.map_values(|f: FileDiff| f@), file_path@, 0) {
            Some(i) => {
                &&& final(file_diffs)@[i]@ == (
                    old(file_diffs)@[i]@.0,
                    filter_hunks(old(file_diffs)@[i]@.1, used_ids@, false),
                    old(file_diffs)@[i]@.2,
                    old(file_diffs)@[i]@.3,
                )
                &&& forall|j: int|
                    0 <= j < old(file_diffs)@.len() && j != i ==> #[trigger] final(file_diffs)@[j]@
                        == old(file_diffs)@[j]@
            },
            None => forall|j: int|
                0 <= j < old(file_diffs)@.len() ==> #[trigger] final(file_diffs)@[j]@ == old(
                    file_diffs,
                )@[j]@,
        },
{
    match position_of_path(file_diffs.as_slice(), file_path) {
        None => {},
        Some(i) => {
            let kept = copy_hunks_by_id(&file_diffs[i].hunks, used_ids, false);
            let f = FileDiff {
                path: file_diffs[i].path.clone(),
                hunks: kept,
                lines: file_diffs[i].lines,
                untracked: file_diffs[i].untracked,
            };
            file_diffs.set(i, f);
        },
    }
}

// ---------------------------------------------------------------------------
// Diff text sent with a request

/// A line of a hunk as text: its prefix, its content and a line break.
pub open spec fn line_text(l: LineView) -> Seq<char> {
    l.1.spec_prefix() + l.0 + seq!['\n']
}

/// The lines of a hunk as text.
pub open spec fn lines_text(ls: Seq<LineView>) -> Seq<char>
    decreases ls.len(),
{
    if ls.len() == 0 {
        Seq::empty()
    } else {
        lines_text(ls.drop_last()) + line_text(ls.last())
    }
}

/// A hunk as text: "HunkId[path:index]" and its lines.
pub open spec fn hunk_text(path: Seq<char>, h: HunkView) -> Seq<char> {
    "HunkId["@ + hunk_id_text(path, h.0) + "]\n"@ + lines_text(h.2)
}

/// The hunks of a file as text.
pub open spec fn hunks_text(path: Seq<char>, hs: Seq<HunkView>) -> Seq<char>
    decreases hs.len(),
{
    if hs.len() == 0 {
        Seq::empty()
    } else {
        hunks_text(path, hs.drop_last()) + hunk_text(path, hs.last())
    }
}

/// The text of a set of file diffs: each file's hunks followed by an empty line.
pub open spec fn diffs_text(files: Seq<FileView>) -> Seq<char>
    decreases files.len(),
{
    if files.len() == 0 {
        Seq::empty()
    } else {
        diffs_text(files.drop_last()) + hunks_text(files.last().0, files.last().1) + seq!['\n']
    }
}

/// Appends the text of a hunk.
fn push_hunk_text(s: &mut String, path: &str, h: &Hunk)
    ensures
        final(s)@ == old(s)@ + hunk_text(path@, h@),
{
    push_str(s, "HunkId[");
    let id = hunk_id_string(path, h.id);
    push_str(s, id.as_str());
    push_str(s, "]\n");
    let ghost s1 = s@;
    let ghost lv = h@.2;
    let mut i: usize = 0;
    while i < h.lines.len()
        invariant
            i <= h.lines.len(),
            lv == h@.2,
            s@ == s1 + lines_text(lv.take(i as int)),
        decreases h.lines.len() - i,
    {
        let line = &h.lines[i];
        let p = line.line_type.prefix();
        push_str(s, p.as_str());
        push_str(s, line.content.as_str());
        push_char(s, '\n');
        assert(lv.take(i + 1).drop_last() == lv.take(i as int));
        assert(lv.take(i + 1).last() == line@);
        i = i + 1;
    }
    assert(lv.take(h.lines.len() as int) == lv);
}

impl Diffs {
    /// The text the diffs are sent as: for every file, each hunk as
    /// "HunkId[path:index]" followed by its lines (prefix and content), and an empty
    /// line after the file.
    pub fn to_request_string(&self) -> (r: String)
        ensures
            r@ == diffs_text(self@),
    {
        let mut s = String::new();
        let mut i: usize = 0;
        while i < self.files.len()
            invariant
                i <= self.files.len(),
                s@ == diffs_text(self@.take(i as int)),
            decreases self.files.len() - i,
        {
            let file = &self.files[i];
            let ghost fv = file@;
            let ghost s0 = s@;
            let mut j: usize = 0;
            while j < file.hunks.len()
                invariant
                    j <= file.hunks.len(),
                    fv == file@,
                    s@ == s0 + hunks_text(fv.0, fv.1.take(j as int)),
                decreases file.hunks.len() - j,
            {
                push_hunk_text(&mut s, file.path.as_str(), &file.hunks[j]);
                assert(fv.1.take(j + 1).drop_last() == fv.1.take(j as int));
                assert(fv.1.take(j + 1).last() == file.hunks@[j as int]@);
                j = j + 1;
            }
            assert(fv.1.take(file.hunks.len() as int) == fv.1);
            push_char(&mut s, '\n');
            assert(self@.take(i + 1).drop_last() == self@.take(i as int));
            assert(self@.take(i + 1).last() == fv);
            i = i + 1;
        }
        assert(self@.take(self.files.len() as int) == self@);
        s
    }
}

// ---------------------------------------------------------------------------
// Building a file diff from the lines a diff reports

/// The hunks that the first `n` diff lines form: a new hunk starts wherever the
/// header differs from the previous line's.
pub open spec fn group_lines(events: Seq<(HunkHeader, LineView)>, n: int) -> Seq<(HunkHeader, Seq<LineView>)>
    decreases n,
{
    if n <= 0 || n > events.len() {
        Seq::empty()
    } else {
        let g = group_lines(events, n - 1);
        let (h, l) = events[n - 1];
        if g.len() > 0 && g.last().0 == h {
            g.update(g.len() - 1, (h, g.last().1.push(l)))
        } else {
            g.push((h, seq![l]))
        }
    }
}

/// The hunks of a grouping, numbered from 0.
pub open spec fn number_hunks(g: Seq<(HunkHeader, Seq<LineView>)>) -> Seq<HunkView> {
    Seq::new(g.len(), |i: int| (i as nat, g[i].0, g[i].1))
}

/// The file diff that diff lines `events` (each with the header of its hunk) make.
pub open spec fn spec_file_diff(path: Seq<char>, events: Seq<(HunkHeader, LineView)>, untracked: bool) -> FileView {
    (path, number_hunks(group_lines(events, events.len() as int)), events.len(), untracked)
}

/// The view of a list of (header, line) pairs.
pub open spec fn events_view(events: Seq<(HunkHeader, DiffLine)>) -> Seq<(HunkHeader, LineView)> {
    events.map_values(|e: (HunkHeader, DiffLine)| (e.0, e.1@))
}

/// Where the lines of a file's diff are read from.
#[derive(Clone, Copy, PartialEq, Eq, Structural, Debug)]
pub enum LineSource {
    /// A patch of the file's content against an empty buffer.
    NewFilePatch,
    /// The diff itself.
    Diff,
}

/// Where the lines of a file's diff are read from: a lone untracked file
/// whose content could be read is patched against an empty buffer; a lone
/// untracked file without a path is an error; anything else is read from the
/// diff.
pub open spec fn spec_line_source(
    delta_count: nat,
    first_untracked: bool,
    has_path: bool,
    content_read: bool,
) -> Result<LineSource, Seq<char>> {
    if delta_count == 1 && first_untracked {
        if !has_path {
            Err("new file path is unspecified."@)
        } else if content_read {
            Ok(LineSource::NewFilePatch)
        } else {
            Ok(LineSource::Diff)
        }
    } else {
        Ok(LineSource::Diff)
    }
}

/// Chooses where the lines of a file's diff are read from, given how many
/// deltas the diff has, whether the first is an untracked file, whether it
/// has a path and whether its content could be read.
pub fn line_source(delta_count: usize, first_untracked: bool, has_path: bool, content_read: bool) -> (r:
    Result<LineSource, GitError>)
    ensures
        match r {
            Ok(src) => spec_line_source(delta_count as nat, first_untracked, has_path, content_read)
                == Ok::<LineSource, Seq<char>>(src),
            Err(e) => e is Generic && spec_line_source(
                delta_count as nat,
                first_untracked,
                has_path,
                content_read,
            ) == Err::<LineSource, Seq<char>>(e.spec_message()),
        },
{
    if delta_count == 1 && first_untracked {
        if !has_path {
            Err(GitError::Generic(String::from_str("new file path is unspecified.")))
        } else if content_read {
            Ok(LineSource::NewFilePatch)
        } else {
            Ok(LineSource::Diff)
        }
    } else {
        Ok(LineSource::Diff)
    }
}

/// Builds the diff of file `path` from the lines its diff reports, in order, each
/// with the header of its hunk: consecutive lines with the same header form one
/// hunk, and hunks are numbered from 0.
pub fn build_file_diff(path: &str, events: Vec<(HunkHeader, DiffLine)>, untracked: bool) -> (r: FileDiff)
    ensures
        r@ == spec_file_diff(path@, events_view(events@), untracked),
{
    let ghost ev = events_view(events@);
    let n = events.len();
    let mut hunks: Vec<Hunk> = Vec::new();
    let mut current: Option<HunkHeader> = None;
    let mut current_lines: Vec<DiffLine> = Vec::new();
    let mut events = events;
    let mut rev: Vec<(HunkHeader, DiffLine)> = Vec::new();
    // take the lines out in order
    while events.len() > 0
        invariant
            events@.len() + rev@.len() == n,
            events_view(events@) + events_view(rev@).reverse() == ev,
        decreases events.len(),
    {
        let e = events.pop().unwrap();
        let ghost old_ev = events_view(events@.push(e));
        rev.push(e);
        assert(events_view(events@.push(e)) == events_view(events@).push((e.0, e.1@)));
        assert(events_view(rev@) == events_view(rev@.drop_last()).push((e.0, e.1@)));
        assert(events_view(rev@).reverse() == seq![(e.0, e.1@)] + events_view(rev@.drop_last()).reverse());
    }
    assert(events_view(events@) =~= Seq::empty());
    assert(events_view(rev@).reverse() == ev);
    let mut i: usize = 0;
    while rev.len() > 0
        invariant
            i + rev@.len() == n,
            n == ev.len(),
            events_view(rev@).reverse() == ev.skip(i as int),
            ({
                let g = group_lines(ev, i as int);
                &&& current is None <==> g.len() == 0
                &&& current is None ==> current_lines@.len() == 0
                &&& current matches Some(h) ==> (
                    g.len() == hunks@.len() + 1
                    && g.last() == (h, current_lines@.map_values(|l: DiffLine| l@))
                    && hunks@.map_values(|x: Hunk| x@) == number_hunks(g.drop_last())
                )
                &&& current is None ==> hunks@.len() == 0
            }),
        decreases rev.len(),
    {
        let e = rev.pop().unwrap();
        let ghost evi = ev[i as int];
        assert(ev.skip(i as int)[0] == evi);
        assert(events_view(rev@.push(e)).reverse()[0] == (e.0, e.1@));
        assert(evi == (e.0, e.1@));
        assert(events_view(rev@.push(e)) == events_view(rev@).push((e.0, e.1@)));
        assert(ev.skip(i + 1) == ev.skip(i as int).drop_first());
        let ghost g0 = group_lines(ev, i as int);
        let (h, line) = e;
        match current {
            None => {
                current = Some(h);
                current_lines.push(line);
                assert(current_lines@.map_values(|l: DiffLine| l@) == seq![evi.1]);
            },
            Some(ch) => {
                if ch == h {
                    let ghost before = current_lines@.map_values(|l: DiffLine| l@);
                    current_lines.push(line);
                    assert(current_lines@.map_values(|l: DiffLine| l@) == before.push(evi.1));
                    let ghost g1 = group_lines(ev, i + 1);
                    assert(g1.drop_last() == g0.drop_last());
                } else {
                    let ghost before = hunks@.map_values(|x: Hunk| x@);
                    let id = hunks.len();
                    let mut done: Vec<DiffLine> = Vec::new();
                    std::mem::swap(&mut done, &mut current_lines);
                    let hk = Hunk { id, header: ch, lines: done };
                    hunks.push(hk);
                    assert(hunks@.map_values(|x: Hunk| x@) == before.push(hk@));
                    assert(number_hunks(g0) == number_hunks(g0.drop_last()).push(hk@));
                    current = Some(h);
                    current_lines.push(line);
                    assert(current_lines@.map_values(|l: DiffLine| l@) == seq![evi.1]);
                    let ghost g1 = group_lines(ev, i + 1);
                    assert(g1.drop_last() == g0);
                }
            },
        }
        i = i + 1;
    }
    let ghost g = group_lines(ev, n as int);
    match current {
        None => {},
        Some(ch) => {
            let ghost before = hunks@.map_values(|x: Hunk| x@);
            let id = hunks.len();
            let hk = Hunk { id, header: ch, lines: current_lines };
            hunks.push(hk);
            assert(hunks@.map_values(|x: Hunk| x@) == before.push(hk@));
            assert(number_hunks(g) == number_hunks(g.drop_last()).push(hk@));
        },
    }
    assert(hunks@.map_values(|x: Hunk| x@) == number_hunks(g));
    FileDiff { path: String::from_str(path), hunks, lines: n, untracked }
}


/// The diff of file `path` from its lines, read from `src`: the file counts
/// as untracked exactly when its lines come from a patch of its new content
/// against an empty buffer.
pub fn file_diff_from(path: &str, src: LineSource, events: Vec<(HunkHeader, DiffLine)>) -> (r: FileDiff)
    ensures
        r@ == spec_file_diff(path@, events_view(events@), src == LineSource::NewFilePatch),
{
    let untracked = match src {
        LineSource::NewFilePatch => true,
        LineSource::Diff => false,
    };
    build_file_diff(path, events, untracked)
}

// ---------------------------------------------------------------------------
// Laws

/// The character of a decimal digit is a digit and stands for that digit.
pub proof fn lemma_digit_char(d: nat)
    requires
        d < 10,
    ensures
        '0' <= digit_char(d) <= '9',
        ((digit_char(d) as u32) - ('0' as u32)) as nat == d,
{
}

/// The decimal text of a number is a non-empty string of digits whose value is
/// the number.
pub proof fn lemma_decimal_digits(n: nat)
    ensures
        decimal(n).len() > 0,
        all_digits(decimal(n)),
        digits_value(decimal(n)) == n,
    decreases n,
{
    let s = decimal(n);
    if n < 10 {
        lemma_digit_char(n);
        assert(s.drop_last() =~= Seq::<char>::empty());
        assert(s.last() == digit_char(n));
        assert(digits_value(s.drop_last()) == 0);
    } else {
        lemma_decimal_digits(n / 10);
        lemma_digit_char(n % 10);
        assert(s.drop_last() == decimal(n / 10));
        assert(s.last() == digit_char(n % 10));
        assert(digits_value(s) == digits_value(decimal(n / 10)) * 10 + n % 10);
        assert((n / 10) * 10 + n % 10 == n);
        assert forall|i: int| 0 <= i < s.len() implies '0' <= #[trigger] s[i] <= '9' by {
            if i < s.len() - 1 {
                assert(s[i] == decimal(n / 10)[i]);
            }
        }
    }
}

/// A number written in decimal reads back as that number.
pub proof fn lemma_parse_decimal(n: nat)
    requires
        n <= usize::MAX,
    ensures
        parse_usize(decimal(n)) == Some(n),
{
    lemma_decimal_digits(n);
    let s = decimal(n);
    assert('0' <= s[0] <= '9');
    assert(usize_digits(s) == s);
}

/// In `p + c + rest`, where `p` holds no `c`, the first `c` at or after `i` is
/// the one after `p`.
pub proof fn lemma_find_after_prefix(p: Seq<char>, c: char, rest: Seq<char>, i: int)
    requires
        0 <= i <= p.len(),
        !p.contains(c),
    ensures
        find_from(p + seq![c] + rest, c, i) == Some(p.len() as int),
    decreases p.len() - i,
{
    let s = p + seq![c] + rest;
    if i < p.len() {
        assert(s[i] == p[i]);
        assert(p[i] != c);
        lemma_find_after_prefix(p, c, rest, i + 1);
    } else {
        assert(s[i] == c);
    }
}

/// Law: the text "path:index" of a hunk, for a path without ':', reads back as
/// that path and index.
pub proof fn lemma_hunk_id_roundtrip(path: Seq<char>, index: nat)
    requires
        !path.contains(':'),
        index <= usize::MAX,
    ensures
        spec_parse_hunk_id(hunk_id_text(path, index)) == Some((path, index)),
{
    let s = hunk_id_text(path, index);
    lemma_find_after_prefix(path, ':', decimal(index), 0);
    assert(s.subrange(path.len() + 1int, s.len() as int) == decimal(index));
    assert(s.subrange(0, path.len() as int) == path);
    lemma_parse_decimal(index);
}

/// The hunk id pairs of a file's hunks are as many as its hunk id texts.
proof fn lemma_hunk_lists_len(files: Seq<FileView>)
    ensures
        all_hunk_ids(files).len() == all_hunk_pairs(files).len(),
    decreases files.len(),
{
    if files.len() > 0 {
        lemma_hunk_lists_len(files.drop_last());
    }
}

/// Law: every hunk id that `as_hunks` lists reads back, with `HunkId::try_from`,
/// as the (path, index) that `get_hunk_ids` lists at the same position, when no
/// path holds ':'.
pub proof fn lemma_as_hunks_parse_back(files: Seq<FileView>, k: int)
    requires
        forall|i: int| 0 <= i < files.len() ==> !(#[trigger] files[i].0).contains(':'),
        forall|i: int, j: int|
            0 <= i < files.len() && 0 <= j < files[i].1.len() ==> (#[trigger] files[i].1[j]).0
                <= usize::MAX,
        0 <= k < all_hunk_ids(files).len(),
    ensures
        all_hunk_ids(files).len() == all_hunk_pairs(files).len(),
        spec_parse_hunk_id(all_hunk_ids(files)[k]) == Some(all_hunk_pairs(files)[k]),
    decreases files.len(),
{
    lemma_hunk_lists_len(files);
    let init = files.drop_last();
    let last = files.last();
    lemma_hunk_lists_len(init);
    if k < all_hunk_ids(init).len() {
        assert forall|i: int| 0 <= i < init.len() implies !(#[trigger] init[i].0).contains(':') by {
            assert(init[i] == files[i]);
        }
        assert forall|i: int, j: int|
            0 <= i < init.len() && 0 <= j < init[i].1.len() implies (#[trigger] init[i].1[j]).0
            <= usize::MAX by {
            assert(init[i] == files[i]);
        }
        lemma_as_hunks_parse_back(init, k);
        assert(all_hunk_ids(files)[k] == all_hunk_ids(init)[k]);
        assert(all_hunk_pairs(files)[k] == all_hunk_pairs(init)[k]);
    } else {
        let j = k - all_hunk_ids(init).len();
        assert(all_hunk_ids(files)[k] == file_hunk_ids(last)[j]);
        assert(files[files.len() - 1] == last);
        assert(last.1[j].0 <= usize::MAX);
        lemma_hunk_id_roundtrip(last.0, last.1[j].0);
    }
}

/// Law: the hunks of a file that are picked by a list of ids and those that are
/// left when the same ids are removed, together, are all its hunks.
pub proof fn lemma_pick_and_remove_partition(hunks: Seq<HunkView>, ids: Seq<usize>, n: int)
    requires
        0 <= n <= hunks.len(),
    ensures
        select_hunks(hunks, ids, true, n).len() + select_hunks(hunks, ids, false, n).len() == n,
    decreases n,
{
    if n > 0 {
        lemma_pick_and_remove_partition(hunks, ids, n - 1);
    }
}

/// The lines of a grouping, one hunk after the other.
pub open spec fn grouped_lines(g: Seq<(HunkHeader, Seq<LineView>)>) -> Seq<LineView>
    decreases g.len(),
{
    if g.len() == 0 {
        Seq::empty()
    } else {
        grouped_lines(g.drop_last()) + g.last().1
    }
}

/// Law: grouping diff lines into hunks keeps every line, in order; no hunk is
/// empty; and two neighbouring hunks never have the same header.
pub proof fn lemma_group_lines_faithful(events: Seq<(HunkHeader, LineView)>, n: int)
    requires
        0 <= n <= events.len(),
    ensures
        grouped_lines(group_lines(events, n)) == events.take(n).map_values(
            |e: (HunkHeader, LineView)| e.1,
        ),
        forall|i: int|
            0 <= i < group_lines(events, n).len() ==> (#[trigger] group_lines(events, n)[i]).1.len()
                > 0,
        forall|i: int|
            0 <= i < group_lines(events, n).len() - 1 ==> (#[trigger] group_lines(events, n)[i]).0
                != group_lines(events, n)[i + 1].0,
    decreases n,
{
    if n > 0 {
        lemma_group_lines_faithful(events, n - 1);
        let g = group_lines(events, n - 1);
        let (h, l) = events[n - 1];
        let lines_n = events.take(n).map_values(|e: (HunkHeader, LineView)| e.1);
        let lines_p = events.take(n - 1).map_values(|e: (HunkHeader, LineView)| e.1);
        assert(lines_n == lines_p.push(l));
        if g.len() > 0 && g.last().0 == h {
            let g2 = group_lines(events, n);
            assert(g2.drop_last() == g.drop_last());
            assert(grouped_lines(g) == grouped_lines(g.drop_last()) + g.last().1);
            assert(grouped_lines(g2) == grouped_lines(g.drop_last()) + g.last().1.push(l));
            assert(forall|i: int| 0 <= i < g2.len() - 1 ==> g2[i] == g[i]);
        } else {
            let g2 = group_lines(events, n);
            assert(g2.drop_last() == g);
            assert(forall|i: int| 0 <= i < g.len() ==> g2[i] == g[i]);
        }
    }
}

/// Law: a file diff built from diff lines counts every line, and its hunks hold
/// exactly those lines, in order, with ids 0, 1, 2, ...
pub proof fn lemma_file_diff_counts(path: Seq<char>, events: Seq<(HunkHeader, LineView)>, untracked: bool)
    ensures
        spec_file_diff(path, events, untracked).2 == events.len(),
        grouped_lines(group_lines(events, events.len() as int)) == events.map_values(
            |e: (HunkHeader, LineView)| e.1,
        ),
        forall|i: int|
            0 <= i < spec_file_diff(path, events, untracked).1.len() ==> (#[trigger] spec_file_diff(
                path,
                events,
                untracked,
            ).1[i]).0 == i,
{
    lemma_group_lines_faithful(events, events.len() as int);
    assert(events.take(events.len() as int) == events);
}

} // verus!
