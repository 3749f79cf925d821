//! Errors of the git layer, with the text each one is shown as.
use vstd::prelude::*;

use vstd::string::*;

use crate::text::push_str;

verus! {

/// Errors of git operations and of the diff bookkeeping around them.
#[derive(Debug)]
pub enum GitError {
    /// An error reported by the git library, by its message.
    Git2(String),
    BareRepo,
    InvalidHunk(String),
    NoHead,
    Generic(String),
    PatchError,
    RebaseConflict,
}

impl GitError {
    /// The text of the error.
    pub open spec fn spec_message(&self) -> Seq<char> {
        match self {
            GitError::Git2(e) => e@,
            GitError::BareRepo => "This is a bare repository"@,
            GitError::InvalidHunk(h) => "Invalid Hunk:"@ + h@,
            GitError::NoHead => "No Head found"@,
            GitError::Generic(e) => e@,
            GitError::PatchError => "Patch Error"@,
            GitError::RebaseConflict => "Conflict exists, aborting"@,
        }
    }

    /// The text of the error, as it is displayed.
    pub fn message(&self) -> (r: String)
        ensures
            r@ == self.spec_message(),
    {
        match self {
            GitError::Git2(e) => e.clone(),
            GitError::BareRepo => String::from_str("This is a bare repository"),
            GitError::InvalidHunk(h) => {
                let mut s = String::from_str("Invalid Hunk:");
                push_str(&mut s, h.as_str());
                s
            },
            GitError::NoHead => String::from_str("No Head found"),
            GitError::Generic(e) => e.clone(),
            GitError::PatchError => String::from_str("Patch Error"),
            GitError::RebaseConflict => String::from_str("Conflict exists, aborting"),
        }
    }
}

} // verus!
