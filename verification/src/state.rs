//! Which files of the working tree changed, as a map from path to change.
use vstd::prelude::*;
use vstd::string::*;

use crate::status::StatusFlags;
use crate::text::{ends_with_any, ends_with_one_of, str_eq};

verus! {

/// How a file of the working tree changed.
#[derive(Debug)]
pub enum Status {
    /// Modified, deleted, renamed or changed in type; the text says which.
    Changed(String),
    /// Not yet known to git.
    Untracked,
}

/// The change recorded for a status entry, as values (`Some(text)` for a
/// change, `None` for an untracked file): none for an unchanged file or one
/// without a working tree change; else modified, deleted, renamed or type
/// changed, in that order of precedence, or untracked for a new file.
pub open spec fn spec_entry_status(f: StatusFlags, has_workdir_change: bool) -> Option<
    Option<Seq<char>>,
> {
    if f == (StatusFlags {
        index_new: false,
        index_modified: false,
        index_deleted: false,
        index_renamed: false,
        index_typechange: false,
        wt_new: false,
        wt_modified: false,
        wt_deleted: false,
        wt_typechange: false,
        wt_renamed: false,
        ignored: false,
        conflicted: false,
    }) || !has_workdir_change {
        None
    } else if f.wt_modified {
        Some(Some("modified"@))
    } else if f.wt_deleted {
        Some(Some("deleted"@))
    } else if f.wt_renamed {
        Some(Some("renamed"@))
    } else if f.wt_typechange {
        Some(Some("typechange"@))
    } else if f.wt_new {
        Some(None)
    } else {
        None
    }
}

/// A status as values.
pub open spec fn status_view(s: Status) -> Option<Seq<char>> {
    match s {
        Status::Changed(t) => Some(t@),
        Status::Untracked => None,
    }
}

/// The change recorded for a status entry.
pub fn entry_status(f: StatusFlags, has_workdir_change: bool) -> (r: Option<Status>)
    ensures
        match r {
            Some(s) => spec_entry_status(f, has_workdir_change) == Some(status_view(s)),
            None => spec_entry_status(f, has_workdir_change) is None,
        },
{
    let current = !f.index_new && !f.index_modified && !f.index_deleted && !f.index_renamed
        && !f.index_typechange && !f.wt_new && !f.wt_modified && !f.wt_deleted
        && !f.wt_typechange && !f.wt_renamed && !f.ignored && !f.conflicted;
    if current || !has_workdir_change {
        None
    } else if f.wt_modified {
        Some(Status::Changed(String::from_str("modified")))
    } else if f.wt_deleted {
        Some(Status::Changed(String::from_str("deleted")))
    } else if f.wt_renamed {
        Some(Status::Changed(String::from_str("renamed")))
    } else if f.wt_typechange {
        Some(Status::Changed(String::from_str("typechange")))
    } else if f.wt_new {
        Some(Status::Untracked)
    } else {
        None
    }
}

/// The changed files as values, in the order they were first recorded.
pub type FilesView = Seq<(Seq<char>, Option<Seq<char>>)>;

/// The files as values.
pub open spec fn files_view(v: Seq<(String, Status)>) -> FilesView {
    v.map_values(|e: (String, Status)| (e.0@, status_view(e.1)))
}

/// Index of the first file at `path`, at or after `i`.
pub open spec fn path_index(m: FilesView, path: Seq<char>, i: int) -> Option<int>
    decreases m.len() - i,
{
    if i < 0 || i >= m.len() {
        None
    } else if m[i].0 == path {
        Some(i)
    } else {
        path_index(m, path, i + 1)
    }
}

/// `m` with `path` set to `s`.
pub open spec fn put_file(m: FilesView, path: Seq<char>, s: Option<Seq<char>>) -> FilesView {
    match path_index(m, path, 0) {
        Some(i) => m.update(i, (path, s)),
        None => m.push((path, s)),
    }
}

/// The files after one status entry is looked at: its change is recorded
/// under its path, unless it has none or the path ends with a name to ignore.
pub open spec fn record_spec(
    m: FilesView,
    f: StatusFlags,
    has_workdir_change: bool,
    path: Seq<char>,
    to_ignore: Seq<Seq<char>>,
) -> FilesView {
    match spec_entry_status(f, has_workdir_change) {
        None => m,
        Some(s) => if ends_with_any(path, to_ignore, to_ignore.len() as int) {
            m
        } else {
            put_file(m, path, s)
        },
    }
}

/// Looks at one status entry of the repository and records its change.
pub fn record_entry(
    files: &mut Vec<(String, Status)>,
    f: StatusFlags,
    has_workdir_change: bool,
    path: &str,
    to_ignore: &Vec<String>,
)
    ensures
        files_view(final(files)@) == record_spec(
            files_view(old(files)@),
            f,
            has_workdir_change,
            path@,
            to_ignore@.map_values(|t: String| t@),
        ),
{
    let status = match entry_status(f, has_workdir_change) {
        None => return,
        Some(s) => s,
    };
    if ends_with_one_of(path, to_ignore) {
        return;
    }
    let ghost m = files_view(files@);
    let ghost sv = status_view(status);
    let mut i: usize = 0;
    while i < files.len() && !str_eq(files[i].0.as_str(), path)
        invariant
            i <= files.len(),
            m == files_view(files@),
            path_index(m, path@, 0) == path_index(m, path@, i as int),
        decreases files.len() - i,
    {
        assert(m[i as int].0 == files@[i as int].0@);
        i = i + 1;
    }
    if i < files.len() {
        assert(m[i as int].0 == files@[i as int].0@);
        assert(path_index(m, path@, i as int) == Some(i as int));
        files.set(i, (String::from_str(path), status));
        assert(files_view(files@) == m.update(i as int, (path@, sv)));
    } else {
        files.push((String::from_str(path), status));
        assert(files_view(files@) == m.push((path@, sv)));
    }
}

} // verus!
