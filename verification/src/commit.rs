//! Applying proposed commits: how their changes are staged, hunk ids grouped
//! by file, and what is left of the diffs once a file or its hunks are in.
use vstd::prelude::*;
use vstd::string::*;

use crate::diffs::{
    FileDiff, FileView, Hunk, HunkId, filter_hunks, find_file_diff, find_file_hunks,
    first_file_with_path, spec_parse_hunk_id,
};
use crate::errors::GitError;
use crate::repo::paths_view;
use crate::text::str_eq;

verus! {

/// A commit to make: the files or the hunks to stage, and its message.
#[derive(Debug)]
pub struct GitCommit {
    pub files: Vec<String>,
    pub hunk_ids: Vec<String>,
    pub message: String,
}

/// How the changes of commits are staged.
#[derive(Clone, Copy, PartialEq, Eq, Structural, Debug)]
pub enum StagingStrategy {
    /// Everything in one commit.
    AllFilesOneCommit,
    /// The files each commit names.
    AtomicCommits,
    /// One file per commit.
    OneFilePerCommit,
    /// The hunks each commit names.
    Hunks,
}

/// Hunk indices grouped by path, paths in the order they first come.
pub type Groups = Seq<(Seq<char>, Seq<usize>)>;

/// Index of the group of `path`.
pub open spec fn group_index(g: Groups, path: Seq<char>, i: int) -> Option<int>
    decreases g.len() - i,
{
    if i < 0 || i >= g.len() {
        None
    } else if g[i].0 == path {
        Some(i)
    } else {
        group_index(g, path, i + 1)
    }
}

/// The groups after the hunk `index` of `path` is added.
pub open spec fn add_to_group(g: Groups, path: Seq<char>, index: usize) -> Groups {
    match group_index(g, path, 0) {
        Some(i) => g.update(i, (path, g[i].1.push(index))),
        None => g.push((path, seq![index])),
    }
}

/// The groups of the first `n` ids, or the first id, counted from 0, that
/// does not parse.
pub open spec fn groups_of(ids: Seq<Seq<char>>, n: int) -> Result<Groups, int>
    decreases n,
{
    if n <= 0 || n > ids.len() {
        Ok(Seq::empty())
    } else {
        match groups_of(ids, n - 1) {
            Err(k) => Err(k),
            Ok(g) => match spec_parse_hunk_id(ids[n - 1]) {
                None => Err(n - 1),
                Some((path, index)) => Ok(add_to_group(g, path, index as usize)),
            },
        }
    }
}

/// The groups as values.
pub open spec fn groups_view(v: Seq<(String, Vec<usize>)>) -> Groups {
    v.map_values(|e: (String, Vec<usize>)| (e.0@, e.1@))
}

/// Groups the hunk ids of a commit ("path:index") by path, paths in the order
/// they first come; fails with `InvalidHunk`, carrying the id, on the first id
/// that does not parse.
pub fn group_hunk_ids(hunk_ids: &Vec<String>) -> (r: Result<Vec<(String, Vec<usize>)>, GitError>)
    ensures
        match groups_of(paths_view(hunk_ids@), hunk_ids@.len() as int) {
            Ok(g) => r matches Ok(v) && groups_view(v@) == g,
            Err(k) => r matches Err(e) && e matches GitError::InvalidHunk(t) && t@
                == hunk_ids@[k]@,
        },
{
    let ghost ids = paths_view(hunk_ids@);
    let mut groups: Vec<(String, Vec<usize>)> = Vec::new();
    assert(groups_view(groups@) =~= Seq::<(Seq<char>, Seq<usize>)>::empty());
    let mut k: usize = 0;
    while k < hunk_ids.len()
        invariant
            k <= hunk_ids.len(),
            ids == paths_view(hunk_ids@),
            groups_of(ids, k as int) == Ok::<Groups, int>(groups_view(groups@)),
        decreases hunk_ids.len() - k,
    {
        assert(ids[k as int] == hunk_ids@[k as int]@);
        let id = match HunkId::try_from(hunk_ids[k].as_str()) {
            Ok(id) => id,
            Err(e) => {
                assert(groups_of(ids, k + 1) == Err::<Groups, int>(k as int));
                proof {
                    lemma_groups_err_stays(ids, k + 1, hunk_ids@.len() as int);
                }
                return Err(e);
            },
        };
        let ghost g = groups_view(groups@);
        let mut i: usize = 0;
        while i < groups.len() && !str_eq(groups[i].0.as_str(), id.path.as_str())
            invariant
                i <= groups.len(),
                g == groups_view(groups@),
                group_index(g, id.path@, 0) == group_index(g, id.path@, i as int),
            decreases groups.len() - i,
        {
            assert(g[i as int].0 == groups@[i as int].0@);
            i = i + 1;
        }
        if i < groups.len() {
            assert(g[i as int].0 == groups@[i as int].0@);
            assert(group_index(g, id.path@, i as int) == Some(i as int));
            let (p, mut v) = groups.remove(i);
            v.push(id.index);
            let ghost entry = (p@, v@);
            groups.insert(i, (p, v));
            assert(groups_view(groups@) == g.update(i as int, entry));
        } else {
            let mut v: Vec<usize> = Vec::new();
            v.push(id.index);
            let ghost entry = (id.path@, v@);
            groups.push((id.path, v));
            assert(groups_view(groups@) == g.push(entry));
        }
        k = k + 1;
    }
    Ok(groups)
}

/// Once an id fails to parse, the grouping fails with it.
proof fn lemma_groups_err_stays(ids: Seq<Seq<char>>, n: int, m: int)
    requires
        0 < n <= m <= ids.len(),
        groups_of(ids, n) is Err,
    ensures
        groups_of(ids, m) == groups_of(ids, n),
    decreases m - n,
{
    if n < m {
        lemma_groups_err_stays(ids, n, m - 1);
    }
}

/// How the changes of one file of a commit are staged.
#[derive(Debug)]
pub enum FileStaging {
    /// The whole file, which is untracked.
    WholeFile,
    /// These hunks of it.
    Hunks(Vec<Hunk>),
}

/// How to stage the hunks `ids` of `file_path`: the whole file when it is
/// untracked, else the hunks of it with those ids. Fails when the file has no
/// diff, or when none of its hunks has one of those ids.
pub fn plan_file_staging(og_file_diffs: &Vec<FileDiff>, file_path: &str, ids: Vec<usize>) -> (r:
    Result<FileStaging, GitError>)
    ensures
        match first_file_with_path(og_file_diffs@.map_values(|f: FileDiff| f@), file_path@, 0) {
            None => r matches Err(e) && e matches GitError::Generic(m) && m@ == file_path@
                + " is not in the og_file_diffs"@,
            Some(i) => {
                let f = og_file_diffs@[i]@;
                if f.3 {
                    r matches Ok(FileStaging::WholeFile)
                } else if filter_hunks(f.1, ids@, true).len() == 0 {
                    r matches Err(e) && e matches GitError::Generic(m) && m@
                        == "no matching hunks found in "@ + f.0
                } else {
                    r matches Ok(FileStaging::Hunks(hs)) && hs@.map_values(|h: Hunk| h@)
                        == filter_hunks(f.1, ids@, true)
                }
            },
        },
{
    let og = match find_file_diff(og_file_diffs.as_slice(), file_path) {
        Ok(f) => f,
        Err(e) => return Err(e),
    };
    if og.untracked {
        return Ok(FileStaging::WholeFile);
    }
    match find_file_hunks(og, ids) {
        Ok(hs) => Ok(FileStaging::Hunks(hs)),
        Err(e) => Err(e),
    }
}

/// The file diffs other than those of `path`, in order.
pub open spec fn without_path(fs: Seq<FileView>, path: Seq<char>, n: int) -> Seq<FileView>
    decreases n,
{
    if n <= 0 || n > fs.len() {
        Seq::empty()
    } else if fs[n - 1].0 == path {
        without_path(fs, path, n - 1)
    } else {
        without_path(fs, path, n - 1).push(fs[n - 1])
    }
}

/// Drops the diffs of `path`, once the file is staged.
pub fn retain_other_files(og_file_diffs: &mut Vec<FileDiff>, path: &str)
    ensures
        final(og_file_diffs)@.map_values(|f: FileDiff| f@) == without_path(
            old(og_file_diffs)@.map_values(|f: FileDiff| f@),
            path@,
            old(og_file_diffs)@.len() as int,
        ),
{
    let ghost all = og_file_diffs@.map_values(|f: FileDiff| f@);
    let n = og_file_diffs.len();
    let mut rest: Vec<FileDiff> = Vec::new();
    std::mem::swap(&mut rest, og_file_diffs);
    let ghost orig = rest@;
    let mut k: usize = 0;
    while k < n
        invariant
            k <= n,
            n == orig.len(),
            all == orig.map_values(|f: FileDiff| f@),
            rest@ == orig.skip(k as int),
            og_file_diffs@.map_values(|f: FileDiff| f@) == without_path(all, path@, k as int),
        decreases n - k,
    {
        let f = rest.remove(0);
        assert(f == orig[k as int]);
        assert(rest@ == orig.skip(k + 1));
        assert(all[k as int] == f@);
        if !str_eq(f.path.as_str(), path) {
            let ghost before = og_file_diffs@.map_values(|f: FileDiff| f@);
            og_file_diffs.push(f);
            assert(og_file_diffs@.map_values(|f: FileDiff| f@) == before.push(all[k as int]));
        }
        k = k + 1;
    }
}

} // verus!
