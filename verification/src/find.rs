//! Searching the history: the options of a search and the text each commit
//! is given to the model as.
use vstd::prelude::*;
use vstd::string::*;

use crate::diffs::diffs_text;
use crate::log::{GitLog, Logs};
use crate::repo::paths_view;
use crate::text::{decimal, join, push_str, u64_to_decimal};

verus! {

/// The options of a search.
#[derive(Debug)]
pub struct FindArgs {
    /// How many commits to consider; 0 for all.
    pub count: usize,
    /// Include the files each commit touches.
    pub files: bool,
    /// Include the diffs of each commit.
    pub diffs: bool,
    /// Walk the history from the oldest commit.
    pub reverse: bool,
    /// A range of commits, such as "HEAD~20..HEAD".
    pub range: Option<String>,
    /// Only commits after this date.
    pub since: Option<String>,
}

impl Default for FindArgs {
    fn default() -> (r: Self)
        ensures
            r.count == 0,
            !r.files,
            !r.diffs,
            !r.reverse,
            r.range is None,
            r.since is None,
    {
        FindArgs { count: 0, files: false, diffs: false, reverse: false, range: None, since: None }
    }
}

/// The strings joined by `sep`.
pub fn join_strings(v: &Vec<String>, sep: &str) -> (r: String)
    ensures
        r@ == join(paths_view(v@), sep@),
{
    let ghost all = paths_view(v@);
    let mut r = String::new();
    let mut i: usize = 0;
    while i < v.len()
        invariant
            i <= v.len(),
            all == paths_view(v@),
            r@ == join(all.take(i as int), sep@),
        decreases v.len() - i,
    {
        if i > 0 {
            push_str(&mut r, sep);
        }
        push_str(&mut r, v[i].as_str());
        assert(all.take(i + 1).drop_last() == all.take(i as int));
        assert(all.take(i + 1).last() == v@[i as int]@);
        i = i + 1;
    }
    assert(all.take(v.len() as int) == all);
    r
}

/// The text of the `idx`-th commit for the model: its index and message,
/// then its files joined by ',' and its diffs when asked for.
pub open spec fn commit_item(idx: nat, log: GitLog, files: bool, diffs: bool) -> Seq<char> {
    let head = "CommitID:["@ + decimal(idx) + "]\nCommitMessage:"@ + log.raw@;
    if files {
        let with_files = head + "\nFiles:"@ + join(paths_view(log.files@), ","@);
        if diffs {
            with_files + "\nDiffs:"@ + diffs_text(log.diffs@)
        } else {
            with_files
        }
    } else {
        head
    }
}

/// The text of each commit of the logs for the model, in order.
pub fn commit_items(logs: &Logs, files: bool, diffs: bool) -> (r: Vec<String>)
    ensures
        r@.len() == logs.git_logs@.len(),
        forall|i: int|
            0 <= i < r@.len() ==> #[trigger] r@[i]@ == commit_item(
                i as nat,
                logs.git_logs@[i],
                files,
                diffs,
            ),
{
    let mut r: Vec<String> = Vec::new();
    let mut i: usize = 0;
    while i < logs.git_logs.len()
        invariant
            i <= logs.git_logs.len(),
            r@.len() == i,
            forall|j: int|
                0 <= j < i ==> #[trigger] r@[j]@ == commit_item(
                    j as nat,
                    logs.git_logs@[j],
                    files,
                    diffs,
                ),
        decreases logs.git_logs.len() - i,
    {
        let log = &logs.git_logs[i];
        let mut item = String::from_str("CommitID:[");
        let n = u64_to_decimal(i as u64);
        push_str(&mut item, n.as_str());
        push_str(&mut item, "]\nCommitMessage:");
        push_str(&mut item, log.raw.as_str());
        if files {
            push_str(&mut item, "\nFiles:");
            let joined = join_strings(&log.files, ",");
            push_str(&mut item, joined.as_str());
            if diffs {
                push_str(&mut item, "\nDiffs:");
                let d = log.diffs.to_request_string();
                push_str(&mut item, d.as_str());
            }
        }
        r.push(item);
        i = i + 1;
    }
    r
}

} // verus!
