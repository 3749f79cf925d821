//! The tabs of the terminal interface: the list each tab shows, the content
//! shown for the selected entry, and the edits made from the diffs tab.
use vstd::prelude::*;
use vstd::string::*;

use crate::provider::Provider;
use crate::repo::{GaiFile, GaiFileView, HunkDiff, HunkView, LineDiff, files_view, paths_view};
use crate::response::{ResponseSchema, lowercase_text, commit_prefix_text};
use crate::text::{push_str, str_eq, to_chars};
use crate::tui::State;

verus! {

/// The tab on show.
#[derive(Clone, Copy, PartialEq, Eq, Structural, Debug)]
pub enum SelectedTab {
    Diffs,
    OpenAI,
    Claude,
    Gemini,
}

/// The lists a tab shows: its main list and, when there is one, a second.
#[derive(Debug)]
pub struct TabList {
    pub main: Vec<String>,
    pub secondary: Option<Vec<String>>,
    pub main_title: String,
    pub secondary_title: Option<String>,
}

/// What is shown for the selected entry.
#[derive(Debug)]
pub enum TabContent {
    Description(String),
    Diff(Vec<HunkDiff>),
}

/// The state the interface starts in.
pub fn initial_state(skip_splash: bool) -> (r: State)
    ensures
        r == if skip_splash {
            State::Running
        } else {
            State::Splash
        },
{
    if skip_splash {
        State::Running
    } else {
        State::Splash
    }
}

/// The provider a tab shows; `None` for the diffs tab.
pub open spec fn tab_provider(t: SelectedTab) -> Option<Provider> {
    match t {
        SelectedTab::Diffs => None,
        SelectedTab::OpenAI => Some(Provider::OpenAI),
        SelectedTab::Claude => Some(Provider::Claude),
        SelectedTab::Gemini => Some(Provider::Gemini),
    }
}

/// Whether `s` starts with `p` (`str::starts_with`).
pub open spec fn starts_with(s: Seq<char>, p: Seq<char>) -> bool {
    p.len() <= s.len() && s.take(p.len() as int) == p
}

/// Whether `s` starts with `p`.
pub fn starts_with_str(s: &str, p: &str) -> (r: bool)
    ensures
        r == starts_with(s@, p@),
{
    let x = to_chars(s);
    let y = to_chars(p);
    if y.len() > x.len() {
        return false;
    }
    let mut i: usize = 0;
    while i < y.len()
        invariant
            i <= y.len(),
            y.len() <= x.len(),
            x@ == s@,
            y@ == p@,
            forall|j: int| 0 <= j < i ==> x@[j] == y@[j],
        decreases y.len() - i,
    {
        if x[i] != y[i] {
            assert(s@.take(p@.len() as int)[i as int] != p@[i as int]);
            return false;
        }
        i = i + 1;
    }
    assert(s@.take(p@.len() as int) =~= p@);
    true
}

/// The paths of the first `n` files that are truncated (or not), in order.
pub open spec fn paths_where(files: Seq<GaiFileView>, truncated: bool, n: int) -> Seq<Seq<char>>
    decreases n,
{
    if n <= 0 || n > files.len() {
        Seq::empty()
    } else if files[n - 1].1 == truncated {
        paths_where(files, truncated, n - 1).push(files[n - 1].0)
    } else {
        paths_where(files, truncated, n - 1)
    }
}

/// The paths of the files that are truncated (or not), in order.
fn paths_with(files: &Vec<GaiFile>, truncated: bool) -> (r: Vec<String>)
    ensures
        paths_view(r@) == paths_where(files_view(files@), truncated, files@.len() as int),
{
    let ghost fs = files_view(files@);
    let mut r: Vec<String> = Vec::new();
    let mut i: usize = 0;
    while i < files.len()
        invariant
            i <= files.len(),
            fs == files_view(files@),
            paths_view(r@) == paths_where(fs, truncated, i as int),
        decreases files.len() - i,
    {
        assert(fs[i as int] == files@[i as int]@);
        if files[i].should_truncate == truncated {
            let ghost before = paths_view(r@);
            r.push(files[i].path.clone());
            assert(paths_view(r@) == before.push(files@[i as int].path@));
        }
        i = i + 1;
    }
    r
}

/// Index of the first response whose key starts with `label`.
pub open spec fn response_index(keys: Seq<Seq<char>>, label: Seq<char>, i: int) -> Option<int>
    decreases keys.len() - i,
{
    if i < 0 || i >= keys.len() {
        None
    } else if starts_with(keys[i], label) {
        Some(i)
    } else {
        response_index(keys, label, i + 1)
    }
}

/// The keys of the responses.
pub open spec fn response_keys(rs: Seq<(String, Result<ResponseSchema, String>)>) -> Seq<Seq<char>> {
    rs.map_values(|r: (String, Result<ResponseSchema, String>)| r.0@)
}

/// Index of the response of a provider: the first whose key starts with its
/// name.
fn find_response(responses: &Vec<(String, Result<ResponseSchema, String>)>, label: &str) -> (r:
    Option<usize>)
    ensures
        match r {
            Some(i) => response_index(response_keys(responses@), label@, 0) == Some(i as int) && i
                < responses.len(),
            None => response_index(response_keys(responses@), label@, 0) is None,
        },
{
    let ghost ks = response_keys(responses@);
    let mut i: usize = 0;
    while i < responses.len()
        invariant
            i <= responses.len(),
            ks == response_keys(responses@),
            response_index(ks, label@, 0) == response_index(ks, label@, i as int),
        decreases responses.len() - i,
    {
        assert(ks[i as int] == responses@[i as int].0@);
        if starts_with_str(responses[i].0.as_str(), label) {
            return Some(i);
        }
        i = i + 1;
    }
    None
}

/// The prefixes of the first `n` commits of an answer.
pub open spec fn prefixes_of(s: ResponseSchema, capitalize: bool, include_scope: bool, n: int) -> Seq<
    Seq<char>,
>
    decreases n,
{
    if n <= 0 || n > s.commits@.len() {
        Seq::empty()
    } else {
        let c = s.commits@[n - 1];
        prefixes_of(s, capitalize, include_scope, n - 1).push(
            commit_prefix_text(
                c.message.prefix,
                capitalize,
                c.message.breaking,
                if include_scope {
                    Some(lowercase_text(c.message.scope@))
                } else {
                    None
                },
            ),
        )
    }
}

/// The list a tab shows. The diffs tab lists the files that are sent, and the
/// truncated ones second; a provider tab lists the prefixes of the commits of
/// its answer (none when it has no answer, or an error), and the hunks or
/// files that did not go into a commit second.
pub open spec fn spec_list(
    tab: SelectedTab,
    files: Seq<GaiFileView>,
    responses: Seq<(String, Result<ResponseSchema, String>)>,
    capitalize: bool,
    include_scope: bool,
    stage_hunks: bool,
    failed_files: Seq<Seq<char>>,
    failed_hunks: Seq<Seq<char>>,
) -> (Seq<Seq<char>>, Option<Seq<Seq<char>>>, Seq<char>, Option<Seq<char>>) {
    match tab_provider(tab) {
        None => {
            let second = paths_where(files, true, files.len() as int);
            (
                paths_where(files, false, files.len() as int),
                if second.len() == 0 {
                    None
                } else {
                    Some(second)
                },
                "Files"@,
                if second.len() == 0 {
                    None
                } else {
                    Some("Truncated"@)
                },
            )
        },
        Some(p) => {
            let main = match response_index(response_keys(responses), p.spec_label(), 0) {
                Some(i) => match responses[i].1 {
                    Ok(s) => prefixes_of(s, capitalize, include_scope, s.commits@.len() as int),
                    Err(_) => Seq::empty(),
                },
                None => Seq::empty(),
            };
            let failed = if stage_hunks {
                failed_hunks
            } else {
                failed_files
            };
            (
                main,
                if failed.len() == 0 {
                    None
                } else {
                    Some(failed)
                },
                "Commits"@,
                if failed.len() == 0 {
                    None
                } else {
                    Some("Failed Hunks"@)
                },
            )
        },
    }
}

/// The list as values.
pub open spec fn list_view(l: TabList) -> (Seq<Seq<char>>, Option<Seq<Seq<char>>>, Seq<char>, Option<Seq<char>>) {
    (
        paths_view(l.main@),
        match l.secondary {
            Some(v) => Some(paths_view(v@)),
            None => None,
        },
        l.main_title@,
        match l.secondary_title {
            Some(t) => Some(t@),
            None => None,
        },
    )
}

/// A copy of a list of strings.
pub(crate) fn copy_strings(v: &Vec<String>) -> (r: Vec<String>)
    ensures
        paths_view(r@) == paths_view(v@),
{
    let mut r: Vec<String> = Vec::new();
    let mut i: usize = 0;
    while i < v.len()
        invariant
            i <= v.len(),
            paths_view(r@) == paths_view(v@).take(i as int),
        decreases v.len() - i,
    {
        r.push(v[i].clone());
        assert(paths_view(v@).take(i + 1) == paths_view(v@).take(i as int).push(v@[i as int]@));
        i = i + 1;
    }
    assert(paths_view(v@).take(v.len() as int) == paths_view(v@));
    r
}

/// The list a tab shows.
pub fn get_list(
    tab: SelectedTab,
    files: &Vec<GaiFile>,
    responses: &Vec<(String, Result<ResponseSchema, String>)>,
    capitalize_prefix: bool,
    include_scope: bool,
    stage_hunks: bool,
    failed_files: &Vec<String>,
    failed_hunks: &Vec<String>,
) -> (r: TabList)
    ensures
        list_view(r) == spec_list(
            tab,
            files_view(files@),
            responses@,
            capitalize_prefix,
            include_scope,
            stage_hunks,
            paths_view(failed_files@),
            paths_view(failed_hunks@),
        ),
{
    let provider = match tab {
        SelectedTab::Diffs => {
            let main = paths_with(files, false);
            let second = paths_with(files, true);
            if second.len() == 0 {
                return TabList {
                    main,
                    secondary: None,
                    main_title: String::from_str("Files"),
                    secondary_title: None,
                };
            } else {
                return TabList {
                    main,
                    secondary: Some(second),
                    main_title: String::from_str("Files"),
                    secondary_title: Some(String::from_str("Truncated")),
                };
            }
        },
        SelectedTab::OpenAI => Provider::OpenAI,
        SelectedTab::Claude => Provider::Claude,
        SelectedTab::Gemini => Provider::Gemini,
    };
    let label = provider.label();
    let mut main: Vec<String> = Vec::new();
    match find_response(responses, label.as_str()) {
        Some(i) => match &responses[i].1 {
            Ok(s) => {
                let mut k: usize = 0;
                while k < s.commits.len()
                    invariant
                        k <= s.commits.len(),
                        main@.len() == k,
                        paths_view(main@) == prefixes_of(*s, capitalize_prefix, include_scope, k as int),
                    decreases s.commits.len() - k,
                {
                    let ghost before = paths_view(main@);
                    main.push(s.commits[k].get_commit_prefix(capitalize_prefix, include_scope));
                    assert(paths_view(main@) == before.push(main@[k as int]@));
                    k = k + 1;
                }
            },
            Err(_) => {},
        },
        None => {},
    }
    let failed = if stage_hunks {
        failed_hunks
    } else {
        failed_files
    };
    if failed.len() == 0 {
        TabList { main, secondary: None, main_title: String::from_str("Commits"), secondary_title: None }
    } else {
        TabList {
            main,
            secondary: Some(copy_strings(failed)),
            main_title: String::from_str("Commits"),
            secondary_title: Some(String::from_str("Failed Hunks")),
        }
    }
}

/// A copy of a hunk.
fn copy_hunk(h: &HunkDiff) -> (r: HunkDiff)
    ensures
        r@ == h@,
{
    let mut lines: Vec<LineDiff> = Vec::new();
    let mut i: usize = 0;
    while i < h.line_diffs.len()
        invariant
            i <= h.line_diffs.len(),
            lines@.map_values(|l: LineDiff| l@) == h@.1.take(i as int),
        decreases h.line_diffs.len() - i,
    {
        let l = &h.line_diffs[i];
        let ghost before = lines@.map_values(|l: LineDiff| l@);
        lines.push(LineDiff { diff_type: l.diff_type, content: l.content.clone() });
        assert(lines@.map_values(|l: LineDiff| l@) == before.push(h@.1[i as int]));
        assert(h@.1.take(i + 1) == h@.1.take(i as int).push(h@.1[i as int]));
        i = i + 1;
    }
    assert(h@.1.take(h.line_diffs.len() as int) == h@.1);
    HunkDiff { header: h.header.clone(), line_diffs: lines }
}

/// Index of the first file at `path`.
pub open spec fn file_at(files: Seq<GaiFileView>, path: Seq<char>, i: int) -> Option<int>
    decreases files.len() - i,
{
    if i < 0 || i >= files.len() {
        None
    } else if files[i].0 == path {
        Some(i)
    } else {
        file_at(files, path, i + 1)
    }
}

/// Index of the first file at `path`.
fn find_file(files: &Vec<GaiFile>, path: &str) -> (r: Option<usize>)
    ensures
        match r {
            Some(i) => file_at(files_view(files@), path@, 0) == Some(i as int) && i < files.len(),
            None => file_at(files_view(files@), path@, 0) is None,
        },
{
    let ghost fs = files_view(files@);
    let mut i: usize = 0;
    while i < files.len()
        invariant
            i <= files.len(),
            fs == files_view(files@),
            file_at(fs, path@, 0) == file_at(fs, path@, i as int),
        decreases files.len() - i,
    {
        assert(fs[i as int].0 == files@[i as int].path@);
        if str_eq(files[i].path.as_str(), path) {
            return Some(i);
        }
        i = i + 1;
    }
    None
}

/// The content as values: a description, or hunks.
pub open spec fn content_view(c: TabContent) -> Result<Seq<char>, Seq<HunkView>> {
    match c {
        TabContent::Description(d) => Ok(d@),
        TabContent::Diff(hs) => Err(hs@.map_values(|h: HunkDiff| h@)),
    }
}

/// "files to stage:", a line per file, then "description:" and the header of
/// the commit.
pub open spec fn commit_details(files: Seq<Seq<char>>, header: Seq<char>, n: int) -> Seq<char>
    decreases n,
{
    if n <= 0 || n > files.len() {
        "files to stage:\n"@
    } else {
        commit_details(files, header, n - 1) + files[n - 1] + "\n"@
    }
}

/// What a tab shows for the entry at `selected`. On the diffs tab: the hunks
/// of the selected file, or "Truncated File" for a truncated one. On a
/// provider tab: whether the provider is enabled, the files and header of the
/// selected commit of its answer, its error, or whether a request is pending.
pub open spec fn spec_content(
    tab: SelectedTab,
    selected: Option<usize>,
    list: Seq<Seq<char>>,
    files: Seq<GaiFileView>,
    responses: Seq<(String, Result<ResponseSchema, String>)>,
    pending: Seq<Seq<char>>,
    enabled: bool,
) -> Result<Seq<char>, Seq<HunkView>> {
    match tab_provider(tab) {
        None => match selected {
            Some(i) => if i < list.len() {
                match file_at(files, list[i as int], 0) {
                    Some(f) => if files[f].1 {
                        Ok("Truncated File"@)
                    } else {
                        Err(files[f].2)
                    },
                    None => Ok("Select a file to view it's diffs"@),
                }
            } else {
                Ok("Select a file to view it's diffs"@)
            },
            None => Ok("Select a file to view it's diffs"@),
        },
        Some(p) => if !enabled {
            Ok(p.spec_label() + " Provider not enabled"@)
        } else {
            match response_index(response_keys(responses), p.spec_label(), 0) {
                Some(r) => match responses[r].1 {
                    Ok(s) => match selected {
                        Some(i) => if i < s.commits@.len() {
                            let c = s.commits@[i as int];
                            Ok(commit_details(paths_view(c.files@), c.message.header@, c.files@.len() as int)
                                + "description:\n"@ + c.message.header@ + "\n"@)
                        } else {
                            Ok("Select Commit to View Description/Details"@)
                        },
                        None => Ok("Select Commit to View Description/Details"@),
                    },
                    Err(e) => Ok("Error from provider:\n"@ + e@),
                },
                None => if exists|k: int| 0 <= k < pending.len() && starts_with(#[trigger] pending[k], p.spec_label()) {
                    Ok("Loading..."@)
                } else {
                    Ok("Press p to send a request"@)
                },
            }
        },
    }
}

/// Whether one of the texts starts with `p`.
fn any_starts_with(v: &Vec<String>, p: &str) -> (r: bool)
    ensures
        r == exists|k: int| 0 <= k < v@.len() && starts_with(#[trigger] paths_view(v@)[k], p@),
{
    let ghost pv = paths_view(v@);
    let mut k: usize = 0;
    while k < v.len()
        invariant
            k <= v.len(),
            pv == paths_view(v@),
            forall|j: int| 0 <= j < k ==> !starts_with(#[trigger] pv[j], p@),
        decreases v.len() - k,
    {
        assert(pv[k as int] == v@[k as int]@);
        if starts_with_str(v[k].as_str(), p) {
            return true;
        }
        k = k + 1;
    }
    false
}

/// What a tab shows for the entry at `selected` of its list `list`.
pub fn get_content(
    tab: SelectedTab,
    selected: Option<usize>,
    list: &Vec<String>,
    files: &Vec<GaiFile>,
    responses: &Vec<(String, Result<ResponseSchema, String>)>,
    pending: &Vec<String>,
    enabled: bool,
) -> (r: TabContent)
    ensures
        content_view(r) == spec_content(
            tab,
            selected,
            paths_view(list@),
            files_view(files@),
            responses@,
            paths_view(pending@),
            enabled,
        ),
{
    let ghost fs = files_view(files@);
    let provider = match tab {
        SelectedTab::Diffs => {
            let none = TabContent::Description(String::from_str("Select a file to view it's diffs"));
            match selected {
                Some(i) => {
                    if i < list.len() {
                        assert(paths_view(list@)[i as int] == list@[i as int]@);
                        match find_file(files, list[i].as_str()) {
                            Some(f) => {
                                assert(fs[f as int] == files@[f as int]@);
                                if files[f].should_truncate {
                                    return TabContent::Description(String::from_str("Truncated File"));
                                } else {
                                    let hs = &files[f].hunks;
                                    let mut out: Vec<HunkDiff> = Vec::new();
                                    let mut k: usize = 0;
                                    while k < hs.len()
                                        invariant
                                            k <= hs.len(),
                                            out@.map_values(|h: HunkDiff| h@) == hs@.map_values(
                                                |h: HunkDiff| h@,
                                            ).take(k as int),
                                        decreases hs.len() - k,
                                    {
                                        let ghost before = out@.map_values(|h: HunkDiff| h@);
                                        out.push(copy_hunk(&hs[k]));
                                        assert(out@.map_values(|h: HunkDiff| h@) == before.push(hs@[k as int]@));
                                        assert(hs@.map_values(|h: HunkDiff| h@).take(k + 1) == hs@.map_values(
                                            |h: HunkDiff| h@,
                                        ).take(k as int).push(hs@[k as int]@));
                                        k = k + 1;
                                    }
                                    assert(hs@.map_values(|h: HunkDiff| h@).take(hs.len() as int)
                                        == hs@.map_values(|h: HunkDiff| h@));
                                    return TabContent::Diff(out);
                                }
                            },
                            None => return none,
                        }
                    } else {
                        return none;
                    }
                },
                None => return none,
            }
        },
        SelectedTab::OpenAI => Provider::OpenAI,
        SelectedTab::Claude => Provider::Claude,
        SelectedTab::Gemini => Provider::Gemini,
    };
    let label = provider.label();
    if !enabled {
        let mut d = label.clone();
        push_str(&mut d, " Provider not enabled");
        return TabContent::Description(d);
    }
    match find_response(responses, label.as_str()) {
        Some(r) => match &responses[r].1 {
            Ok(s) => match selected {
                Some(i) => {
                    if i < s.commits.len() {
                        let c = &s.commits[i];
                        let ghost fv = paths_view(c.files@);
                        let mut content = String::from_str("files to stage:\n");
                        let mut k: usize = 0;
                        while k < c.files.len()
                            invariant
                                k <= c.files.len(),
                                fv == paths_view(c.files@),
                                content@ == commit_details(fv, c.message.header@, k as int),
                            decreases c.files.len() - k,
                        {
                            push_str(&mut content, c.files[k].as_str());
                            push_str(&mut content, "\n");
                            k = k + 1;
                        }
                        push_str(&mut content, "description:\n");
                        push_str(&mut content, c.message.header.as_str());
                        push_str(&mut content, "\n");
                        TabContent::Description(content)
                    } else {
                        TabContent::Description(
                            String::from_str("Select Commit to View Description/Details"),
                        )
                    }
                },
                None => TabContent::Description(
                    String::from_str("Select Commit to View Description/Details"),
                ),
            },
            Err(e) => {
                let mut d = String::from_str("Error from provider:\n");
                push_str(&mut d, e.as_str());
                TabContent::Description(d)
            },
        },
        None => {
            if any_starts_with(pending, label.as_str()) {
                return TabContent::Description(String::from_str("Loading..."));
            }
            TabContent::Description(String::from_str("Press p to send a request"))
        },
    }
}

/// The files after the selected entry of the diffs tab is taken out: the
/// first file at the path listed there. Only the diffs tab, and an index
/// within the files, take anything out.
pub open spec fn spec_remove_selected(
    tab: SelectedTab,
    selected: Option<usize>,
    list: Seq<Seq<char>>,
    files: Seq<GaiFileView>,
) -> Seq<GaiFileView> {
    match (tab, selected) {
        (SelectedTab::Diffs, Some(i)) => if i < files.len() {
            match file_at(files, list[i as int], 0) {
                Some(f) => files.remove(f),
                None => files,
            }
        } else {
            files
        },
        _ => files,
    }
}

/// Takes the selected file out of those sent, from the diffs tab; `list` is
/// the main list of the tab, which the index is looked up in.
pub fn remove_selected(
    tab: SelectedTab,
    selected: Option<usize>,
    list: &Vec<String>,
    files: &mut Vec<GaiFile>,
)
    requires
        tab == SelectedTab::Diffs ==> (selected matches Some(i) ==> (i < old(files)@.len() ==> i
            < list@.len())),
    ensures
        files_view(final(files)@) == spec_remove_selected(
            tab,
            selected,
            paths_view(list@),
            files_view(old(files)@),
        ),
{
    if tab != SelectedTab::Diffs {
        return;
    }
    let i = match selected {
        Some(i) => i,
        None => return,
    };
    if i < files.len() {
        assert(paths_view(list@)[i as int] == list@[i as int]@);
        match find_file(files, list[i].as_str()) {
            Some(f) => {
                let ghost fs = files_view(files@);
                files.remove(f);
                assert(files_view(files@) == fs.remove(f as int));
            },
            None => {},
        }
    }
}

/// The files after the truncation of the selected one is switched, from the
/// diffs tab.
pub open spec fn spec_truncate_selected(tab: SelectedTab, selected: Option<usize>, files: Seq<GaiFileView>) -> Seq<
    GaiFileView,
> {
    match (tab, selected) {
        (SelectedTab::Diffs, Some(i)) => if i < files.len() {
            files.update(i as int, (files[i as int].0, !files[i as int].1, files[i as int].2))
        } else {
            files
        },
        _ => files,
    }
}

/// Switches whether the file at the selected index is truncated, from the
/// diffs tab.
pub fn truncate_selected(tab: SelectedTab, selected: Option<usize>, files: &mut Vec<GaiFile>)
    ensures
        files_view(final(files)@) == spec_truncate_selected(tab, selected, files_view(old(files)@)),
{
    if tab != SelectedTab::Diffs {
        return;
    }
    let i = match selected {
        Some(i) => i,
        None => return,
    };
    if i < files.len() {
        let ghost fs = files_view(files@);
        let mut f = files.remove(i);
        f.should_truncate = !f.should_truncate;
        let ghost fv = f@;
        files.insert(i, f);
        assert(fv == (fs[i as int].0, !fs[i as int].1, fs[i as int].2));
        assert(files_view(files@) == fs.update(i as int, fv));
    }
}

} // verus!
