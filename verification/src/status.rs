//! Status of the files of a repository: which changes are looked at, how a
//! change is classified, and the text a status is sent as.
use vstd::prelude::*;
use vstd::string::*;

use crate::text::{push_char, push_str};

verus! {

/// Which changes a status covers.
#[derive(Clone, Copy, PartialEq, Eq, Structural, Debug)]
pub enum StatusStrategy {
    /// only the working directory
    WorkingDir,
    /// only what is staged
    Stage,
    /// both, without telling them apart
    Both,
}

impl Default for StatusStrategy {
    fn default() -> (r: Self)
        ensures
            r == StatusStrategy::Both,
    {
        StatusStrategy::Both
    }
}

/// Status of a repository: its branch and its changed files.
#[derive(Debug)]
pub struct GitStatus {
    pub branch_name: String,
    pub statuses: Vec<FileStatus>,
}

/// A changed file and the kind of its change.
#[derive(Debug)]
pub struct FileStatus {
    pub path: String,
    pub status: StatusItemType,
}

/// Kind of change of a file.
#[derive(Clone, Copy, PartialEq, Eq, Structural, Debug, Hash)]
pub enum StatusItemType {
    New,
    Modified,
    Deleted,
    Renamed,
    Typechange,
    Conflicted,
}

/// The status flags git reports for a file.
#[derive(Clone, Copy, PartialEq, Eq, Structural, Debug)]
pub struct StatusFlags {
    pub index_new: bool,
    pub index_modified: bool,
    pub index_deleted: bool,
    pub index_renamed: bool,
    pub index_typechange: bool,
    pub wt_new: bool,
    pub wt_modified: bool,
    pub wt_deleted: bool,
    pub wt_typechange: bool,
    pub wt_renamed: bool,
    pub ignored: bool,
    pub conflicted: bool,
}

/// How a file changed between two trees.
#[derive(Clone, Copy, PartialEq, Eq, Structural, Debug)]
pub enum DeltaKind {
    Unmodified,
    Added,
    Deleted,
    Modified,
    Renamed,
    Copied,
    Ignored,
    Untracked,
    Typechange,
    Unreadable,
    Conflicted,
}

impl StatusItemType {
    /// Classification of the status flags of a file; new wins over deleted,
    /// deleted over renamed, renamed over a type change, a type change over a
    /// conflict, and anything else is a modification.
    pub open spec fn spec_from_flags(s: StatusFlags) -> StatusItemType {
        if s.index_new || s.wt_new {
            StatusItemType::New
        } else if s.index_deleted || s.wt_deleted {
            StatusItemType::Deleted
        } else if s.index_renamed || s.wt_renamed {
            StatusItemType::Renamed
        } else if s.index_typechange || s.wt_typechange {
            StatusItemType::Typechange
        } else if s.conflicted {
            StatusItemType::Conflicted
        } else {
            StatusItemType::Modified
        }
    }

    /// Classifies the status flags of a file.
    pub fn from_flags(s: StatusFlags) -> (r: StatusItemType)
        ensures
            r == Self::spec_from_flags(s),
    {
        if s.index_new || s.wt_new {
            StatusItemType::New
        } else if s.index_deleted || s.wt_deleted {
            StatusItemType::Deleted
        } else if s.index_renamed || s.wt_renamed {
            StatusItemType::Renamed
        } else if s.index_typechange || s.wt_typechange {
            StatusItemType::Typechange
        } else if s.conflicted {
            StatusItemType::Conflicted
        } else {
            StatusItemType::Modified
        }
    }

    /// Classification of how a file changed between two trees.
    pub open spec fn spec_from_delta(d: DeltaKind) -> StatusItemType {
        match d {
            DeltaKind::Added => StatusItemType::New,
            DeltaKind::Deleted => StatusItemType::Deleted,
            DeltaKind::Renamed => StatusItemType::Renamed,
            DeltaKind::Typechange => StatusItemType::Typechange,
            _ => StatusItemType::Modified,
        }
    }

    /// Classifies how a file changed between two trees.
    pub fn from_delta(d: DeltaKind) -> (r: StatusItemType)
        ensures
            r == Self::spec_from_delta(d),
    {
        match d {
            DeltaKind::Added => StatusItemType::New,
            DeltaKind::Deleted => StatusItemType::Deleted,
            DeltaKind::Renamed => StatusItemType::Renamed,
            DeltaKind::Typechange => StatusItemType::Typechange,
            _ => StatusItemType::Modified,
        }
    }

    /// The name of the kind.
    pub open spec fn spec_name(&self) -> Seq<char> {
        match self {
            StatusItemType::New => "New"@,
            StatusItemType::Modified => "Modified"@,
            StatusItemType::Deleted => "Deleted"@,
            StatusItemType::Renamed => "Renamed"@,
            StatusItemType::Typechange => "Typechange"@,
            StatusItemType::Conflicted => "Conflicted"@,
        }
    }

    /// The name of the kind.
    pub fn name(&self) -> (r: String)
        ensures
            r@ == self.spec_name(),
    {
        match self {
            StatusItemType::New => String::from_str("New"),
            StatusItemType::Modified => String::from_str("Modified"),
            StatusItemType::Deleted => String::from_str("Deleted"),
            StatusItemType::Renamed => String::from_str("Renamed"),
            StatusItemType::Typechange => String::from_str("Typechange"),
            StatusItemType::Conflicted => String::from_str("Conflicted"),
        }
    }
}

/// The lines "kind:path" of file statuses.
pub open spec fn statuses_text(ss: Seq<(StatusItemType, Seq<char>)>) -> Seq<char>
    decreases ss.len(),
{
    if ss.len() == 0 {
        Seq::empty()
    } else {
        statuses_text(ss.drop_last()) + ss.last().0.spec_name() + seq![':'] + ss.last().1
            + seq!['\n']
    }
}

impl GitStatus {
    /// The file statuses as (kind, path) values.
    pub open spec fn status_pairs(&self) -> Seq<(StatusItemType, Seq<char>)> {
        self.statuses@.map_values(|f: FileStatus| (f.status, f.path@))
    }

    /// The text of the status in a request: "Branch:name" and a line "kind:path"
    /// for each file.
    pub fn to_request_string(&self) -> (r: String)
        ensures
            r@ == "Branch:"@ + self.branch_name@ + seq!['\n'] + statuses_text(self.status_pairs()),
    {
        let mut s = String::from_str("Branch:");
        push_str(&mut s, self.branch_name.as_str());
        push_char(&mut s, '\n');
        let ghost s0 = s@;
        let ghost ps = self.status_pairs();
        let mut i: usize = 0;
        while i < self.statuses.len()
            invariant
                i <= self.statuses.len(),
                ps == self.status_pairs(),
                s@ == s0 + statuses_text(ps.take(i as int)),
            decreases self.statuses.len() - i,
        {
            let f = &self.statuses[i];
            let n = f.status.name();
            push_str(&mut s, n.as_str());
            push_char(&mut s, ':');
            push_str(&mut s, f.path.as_str());
            push_char(&mut s, '\n');
            assert(ps.take(i + 1).drop_last() == ps.take(i as int));
            assert(ps.take(i + 1).last() == (f.status, f.path@));
            i = i + 1;
        }
        assert(ps.take(self.statuses.len() as int) == ps);
        s
    }
}

} // verus!
