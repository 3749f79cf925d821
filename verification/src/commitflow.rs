//! The decisions of `gai commit` after the changes are read: asking the
//! model, the menu over its answer, applying, and the editor of the proposed
//! commits. The program carries out each action and hands back its outcome.
use vstd::prelude::*;
use vstd::string::*;

use crate::rebase::{opt_view, MenuChoice};
use crate::repo::paths_view;
use crate::response::{CommitMessage, PrefixType, ResponseCommit};
use crate::text::{from_chars, push_str, str_eq, to_chars, trim, trim_chars};

verus! {

/// Where the commit menu stands.
#[derive(Clone, Copy, PartialEq, Eq, Structural, Debug)]
pub enum CommitFlow {
    /// waiting for the model's answer
    Generating,
    /// waiting for the user's choice
    Menu,
    /// waiting for the edited commits
    Edit,
    /// waiting for the result of applying
    Applying,
    /// over
    Finished,
}

/// The outcome of the last action of the commit menu.
#[derive(Debug)]
pub enum CommitEvent {
    /// The model answered (`None`) or failed with a message.
    Answer { error: Option<String> },
    /// The user chose.
    Choice { choice: MenuChoice },
    /// The commits were edited; `empty` when none is left.
    Edited { empty: bool },
    /// The commits were made (`None`) or making them failed.
    Applied { error: Option<String> },
}

/// The next piece of outside work of the commit menu.
#[derive(Debug)]
pub enum CommitFlowAction {
    /// Ask the model for commits (again).
    SendRequest,
    /// Show the commits and ask what to do.
    AskMenu,
    /// Let the user edit the commits.
    EditCommits,
    /// Make the commits.
    ApplyCommits,
    /// Print what each new commit changed; over.
    ReportCommits,
    /// Over, printing `notice` when there is one.
    Done { notice: Option<String> },
}

/// Whether the flow in `f` waits for an event of the kind of `e`.
pub open spec fn commit_accepts(f: CommitFlow, e: CommitEvent) -> bool {
    match (f, e) {
        (CommitFlow::Generating, CommitEvent::Answer { .. }) => true,
        (CommitFlow::Menu, CommitEvent::Choice { .. }) => true,
        (CommitFlow::Edit, CommitEvent::Edited { .. }) => true,
        (CommitFlow::Applying, CommitEvent::Applied { .. }) => true,
        _ => false,
    }
}

/// An action of the commit menu as values: its kind and its notice.
pub open spec fn flow_action_view(a: CommitFlowAction) -> (int, Option<Seq<char>>) {
    match a {
        CommitFlowAction::SendRequest => (0, None),
        CommitFlowAction::AskMenu => (1, None),
        CommitFlowAction::EditCommits => (2, None),
        CommitFlowAction::ApplyCommits => (3, None),
        CommitFlowAction::ReportCommits => (4, None),
        CommitFlowAction::Done { notice } => (5, opt_view(notice)),
    }
}

/// The next phase and action of the commit menu.
pub open spec fn spec_commit_menu_step(f: CommitFlow, e: CommitEvent) -> (CommitFlow, (
    int,
    Option<Seq<char>>,
)) {
    match e {
        CommitEvent::Answer { error } => match error {
            Some(err) => (CommitFlow::Finished, (5, Some("error from the provider:\n"@ + err@))),
            None => (CommitFlow::Menu, (1, None)),
        },
        CommitEvent::Choice { choice } => match choice {
            MenuChoice::Apply => (CommitFlow::Applying, (3, None)),
            MenuChoice::Regenerate => (CommitFlow::Generating, (0, None)),
            MenuChoice::Edit => (CommitFlow::Edit, (2, None)),
            MenuChoice::Quit => (CommitFlow::Finished, (5, None)),
        },
        CommitEvent::Edited { empty } => if empty {
            (CommitFlow::Finished, (5, None))
        } else {
            (CommitFlow::Menu, (1, None))
        },
        CommitEvent::Applied { error } => match error {
            Some(err) => (CommitFlow::Finished, (5, Some("failed to apply commits:\n"@ + err@))),
            None => (CommitFlow::Finished, (4, None)),
        },
    }
}

/// Whether the commit menu in `flow` waits for an event of the kind of `event`.
pub fn commit_menu_accepts(flow: CommitFlow, event: &CommitEvent) -> (r: bool)
    ensures
        r == commit_accepts(flow, *event),
{
    match (flow, event) {
        (CommitFlow::Generating, CommitEvent::Answer { .. }) => true,
        (CommitFlow::Menu, CommitEvent::Choice { .. }) => true,
        (CommitFlow::Edit, CommitEvent::Edited { .. }) => true,
        (CommitFlow::Applying, CommitEvent::Applied { .. }) => true,
        _ => false,
    }
}

/// `prefix` followed by `s`.
fn prefixed(prefix: &str, s: &str) -> (r: String)
    ensures
        r@ == prefix@ + s@,
{
    let mut r = String::from_str(prefix);
    push_str(&mut r, s);
    r
}

/// One step of the commit menu: the next phase and action, given the
/// outcome of the last action.
pub fn commit_menu_step(flow: CommitFlow, event: CommitEvent) -> (r: (CommitFlow, CommitFlowAction))
    requires
        commit_accepts(flow, event),
    ensures
        (r.0, flow_action_view(r.1)) == spec_commit_menu_step(flow, event),
{
    match event {
        CommitEvent::Answer { error } => match error {
            Some(err) => (
                CommitFlow::Finished,
                CommitFlowAction::Done {
                    notice: Some(prefixed("error from the provider:\n", err.as_str())),
                },
            ),
            None => (CommitFlow::Menu, CommitFlowAction::AskMenu),
        },
        CommitEvent::Choice { choice } => match choice {
            MenuChoice::Apply => (CommitFlow::Applying, CommitFlowAction::ApplyCommits),
            MenuChoice::Regenerate => (CommitFlow::Generating, CommitFlowAction::SendRequest),
            MenuChoice::Edit => (CommitFlow::Edit, CommitFlowAction::EditCommits),
            MenuChoice::Quit => (CommitFlow::Finished, CommitFlowAction::Done { notice: None }),
        },
        CommitEvent::Edited { empty } => {
            if empty {
                (CommitFlow::Finished, CommitFlowAction::Done { notice: None })
            } else {
                (CommitFlow::Menu, CommitFlowAction::AskMenu)
            }
        },
        CommitEvent::Applied { error } => match error {
            Some(err) => (
                CommitFlow::Finished,
                CommitFlowAction::Done {
                    notice: Some(prefixed("failed to apply commits:\n", err.as_str())),
                },
            ),
            None => (CommitFlow::Finished, CommitFlowAction::ReportCommits),
        },
    }
}

/// `c` in ASCII lower case: 'A' to 'Z' become 'a' to 'z', the rest stays.
pub open spec fn ascii_lower(c: char) -> char {
    if 'A' <= c && c <= 'Z' {
        ((c as u32) + 32) as char
    } else {
        c
    }
}

/// The commit type a word names, compared without regard to ASCII case.
pub open spec fn spec_parse_prefix(t: Seq<char>) -> Option<PrefixType> {
    let l = t.map_values(|c: char| ascii_lower(c));
    if l == "feat"@ {
        Some(PrefixType::Feat)
    } else if l == "fix"@ {
        Some(PrefixType::Fix)
    } else if l == "refactor"@ {
        Some(PrefixType::Refactor)
    } else if l == "style"@ {
        Some(PrefixType::Style)
    } else if l == "test"@ {
        Some(PrefixType::Test)
    } else if l == "docs"@ {
        Some(PrefixType::Docs)
    } else if l == "build"@ {
        Some(PrefixType::Build)
    } else if l == "ci"@ {
        Some(PrefixType::CI)
    } else if l == "ops"@ {
        Some(PrefixType::Ops)
    } else if l == "chore"@ {
        Some(PrefixType::Chore)
    } else if l == "merge"@ {
        Some(PrefixType::Merge)
    } else if l == "revert"@ {
        Some(PrefixType::Revert)
    } else {
        None
    }
}

/// `c` in ASCII lower case.
fn lower_char(c: char) -> (r: char)
    ensures
        r == ascii_lower(c),
{
    if 'A' <= c && c <= 'Z' {
        let b: u8 = c as u8;
        assert(b == c as u32);
        let l: u8 = b + 32;
        l as char
    } else {
        c
    }
}

/// The commit type a word names, compared without regard to ASCII case.
pub fn parse_prefix(t: &str) -> (r: Option<PrefixType>)
    ensures
        r == spec_parse_prefix(t@),
{
    let v = to_chars(t);
    let mut low: Vec<char> = Vec::new();
    let mut i: usize = 0;
    while i < v.len()
        invariant
            i <= v.len(),
            v@ == t@,
            low@ == v@.take(i as int).map_values(|c: char| ascii_lower(c)),
        decreases v.len() - i,
    {
        low.push(lower_char(v[i]));
        assert(v@.take(i + 1) == v@.take(i as int).push(v@[i as int]));
        i = i + 1;
    }
    assert(v@.take(v.len() as int) == v@);
    let l = from_chars(&low);
    let w = l.as_str();
    if str_eq(w, "feat") {
        Some(PrefixType::Feat)
    } else if str_eq(w, "fix") {
        Some(PrefixType::Fix)
    } else if str_eq(w, "refactor") {
        Some(PrefixType::Refactor)
    } else if str_eq(w, "style") {
        Some(PrefixType::Style)
    } else if str_eq(w, "test") {
        Some(PrefixType::Test)
    } else if str_eq(w, "docs") {
        Some(PrefixType::Docs)
    } else if str_eq(w, "build") {
        Some(PrefixType::Build)
    } else if str_eq(w, "ci") {
        Some(PrefixType::CI)
    } else if str_eq(w, "ops") {
        Some(PrefixType::Ops)
    } else if str_eq(w, "chore") {
        Some(PrefixType::Chore)
    } else if str_eq(w, "merge") {
        Some(PrefixType::Merge)
    } else if str_eq(w, "revert") {
        Some(PrefixType::Revert)
    } else {
        None
    }
}

/// A proposed commit as values: files, hunk ids, type, scope, breaking mark,
/// header and body.
pub type CommitView = (Seq<Seq<char>>, Seq<Seq<char>>, PrefixType, Seq<char>, bool, Seq<char>, Seq<char>);

/// The commit as values.
pub open spec fn commit_view(c: ResponseCommit) -> CommitView {
    (
        paths_view(c.files@),
        paths_view(c.hunk_ids@),
        c.message.prefix,
        c.message.scope@,
        c.message.breaking,
        c.message.header@,
        c.message.body@,
    )
}

/// The commits as values.
pub open spec fn commits_view(v: Seq<ResponseCommit>) -> Seq<CommitView> {
    v.map_values(|c: ResponseCommit| commit_view(c))
}

/// The editor of the proposed commits: the commits and the one being edited.
#[derive(Debug)]
pub struct EditState {
    pub commits: Vec<ResponseCommit>,
    pub index: usize,
    /// The editor is closed.
    pub finished: bool,
}

/// What the user did in the editor.
#[derive(Debug)]
pub enum EditEvent {
    /// Go to the next commit; past the last one the editor closes.
    Next,
    /// Go back to the previous commit, if there is one.
    Previous,
    /// Drop this commit.
    Remove,
    /// The type typed in; empty text leaves the type as it is.
    Prefix { raw: String },
    /// The scope typed in; it is trimmed, and empty clears it.
    Scope { raw: String },
    /// The header as edited; it is trimmed.
    Header { text: String },
    /// The body as edited; it is trimmed, and empty clears it.
    Body { text: String },
    /// Close the editor, keeping the changes.
    Quit,
}

/// What the editor asks for next.
#[derive(Debug)]
pub enum EditAction {
    /// Ask what to edit in commit `index` of `total`.
    Ask { index: usize, total: usize },
    /// Ask for the type again, after printing `notice`.
    AskPrefix { notice: String },
    /// The editor is closed; the commits are the result.
    Close,
}

/// An edit action as values.
pub open spec fn edit_action_view(a: EditAction) -> (int, nat, nat, Seq<char>) {
    match a {
        EditAction::Ask { index, total } => (0, index as nat, total as nat, Seq::empty()),
        EditAction::AskPrefix { notice } => (1, 0, 0, notice@),
        EditAction::Close => (2, 0, 0, Seq::empty()),
    }
}

/// The ask for commit `i` of `cs`, or the close when there is none.
pub open spec fn ask_or_close(cs: Seq<CommitView>, i: nat) -> (bool, (int, nat, nat, Seq<char>)) {
    if i < cs.len() {
        (false, (0, i, cs.len(), Seq::empty()))
    } else {
        (true, (2, 0, 0, Seq::empty()))
    }
}

/// Commit `c` with another message part set.
pub open spec fn with_scope(c: CommitView, s: Seq<char>) -> CommitView {
    (c.0, c.1, c.2, s, c.4, c.5, c.6)
}

/// Commit `c` with another header.
pub open spec fn with_header(c: CommitView, h: Seq<char>) -> CommitView {
    (c.0, c.1, c.2, c.3, c.4, h, c.6)
}

/// Commit `c` with another body.
pub open spec fn with_body(c: CommitView, b: Seq<char>) -> CommitView {
    (c.0, c.1, c.2, c.3, c.4, c.5, b)
}

/// Commit `c` with another type.
pub open spec fn with_prefix(c: CommitView, p: PrefixType) -> CommitView {
    (c.0, c.1, p, c.3, c.4, c.5, c.6)
}

/// The commits, the index, whether the editor closed, and the action, after
/// event `e` on commit `i` of `cs`.
pub open spec fn spec_edit_step(cs: Seq<CommitView>, i: nat, e: EditEvent) -> (
    Seq<CommitView>,
    nat,
    bool,
    (int, nat, nat, Seq<char>),
) {
    let ask = (0int, i, cs.len(), Seq::<char>::empty());
    match e {
        EditEvent::Next => {
            let (closed, a) = ask_or_close(cs, i + 1);
            (cs, i + 1, closed, a)
        },
        EditEvent::Previous => {
            let j: nat = if i > 0 { (i - 1) as nat } else { 0 };
            (cs, j, false, (0, j, cs.len(), Seq::empty()))
        },
        EditEvent::Remove => {
            let rest = cs.remove(i as int);
            let (closed, a) = ask_or_close(rest, i);
            (rest, i, closed, a)
        },
        EditEvent::Prefix { raw } => if raw@.len() == 0 {
            (cs, i, false, ask)
        } else {
            match spec_parse_prefix(trim(raw@)) {
                Some(p) => (cs.update(i as int, with_prefix(cs[i as int], p)), i, false, ask),
                None => (cs, i, false, (1, 0, 0, "not a valid type, try again"@)),
            }
        },
        EditEvent::Scope { raw } => (
            cs.update(i as int, with_scope(cs[i as int], trim(raw@))),
            i,
            false,
            ask,
        ),
        EditEvent::Header { text } => (
            cs.update(i as int, with_header(cs[i as int], trim(text@))),
            i,
            false,
            ask,
        ),
        EditEvent::Body { text } => (
            cs.update(i as int, with_body(cs[i as int], trim(text@))),
            i,
            false,
            ask,
        ),
        EditEvent::Quit => (cs, i, true, (2, 0, 0, Seq::empty())),
    }
}

/// `s` without leading and trailing whitespace.
fn trimmed(s: &str) -> (r: String)
    ensures
        r@ == trim(s@),
{
    let v = to_chars(s);
    let t = trim_chars(&v);
    from_chars(&t)
}

impl EditState {
    /// Opens the editor on `commits`: it asks about the first one, or closes
    /// at once when there is none.
    pub fn open(commits: Vec<ResponseCommit>) -> (r: (EditState, EditAction))
        ensures
            commits_view(r.0.commits@) == commits_view(commits@),
            r.0.index == 0,
            (r.0.finished, edit_action_view(r.1)) == ask_or_close(commits_view(commits@), 0),
    {
        let n = commits.len();
        if n == 0 {
            (EditState { commits, index: 0, finished: true }, EditAction::Close)
        } else {
            (EditState { commits, index: 0, finished: false }, EditAction::Ask { index: 0, total: n })
        }
    }

    /// One step of the editor: applies what the user did to the commit being
    /// edited and says what to ask next.
    pub fn edit_step(&mut self, event: EditEvent) -> (r: EditAction)
        requires
            !old(self).finished,
            old(self).index < old(self).commits@.len(),
        ensures
            ({
                let (cs, i, closed, a) = spec_edit_step(
                    commits_view(old(self).commits@),
                    old(self).index as nat,
                    event,
                );
                &&& commits_view(final(self).commits@) == cs
                &&& final(self).index == i
                &&& final(self).finished == closed
                &&& edit_action_view(r) == a
            }),
    {
        let i = self.index;
        let n = self.commits.len();
        assert(i < n);
        let ghost before = commits_view(self.commits@);
        match event {
            EditEvent::Next => {
                self.index = i + 1;
                if i + 1 < self.commits.len() {
                    EditAction::Ask { index: i + 1, total: self.commits.len() }
                } else {
                    self.finished = true;
                    EditAction::Close
                }
            },
            EditEvent::Previous => {
                let j = if i > 0 { i - 1 } else { 0 };
                self.index = j;
                EditAction::Ask { index: j, total: self.commits.len() }
            },
            EditEvent::Remove => {
                let ghost old_cs = self.commits@;
                self.commits.remove(i);
                assert(commits_view(self.commits@) == before.remove(i as int));
                if i < self.commits.len() {
                    EditAction::Ask { index: i, total: self.commits.len() }
                } else {
                    self.finished = true;
                    EditAction::Close
                }
            },
            EditEvent::Prefix { raw } => {
                if raw.as_str().is_empty() {
                    return EditAction::Ask { index: i, total: self.commits.len() };
                }
                let t = trimmed(raw.as_str());
                match parse_prefix(t.as_str()) {
                    Some(p) => {
                        let mut c = self.commits.remove(i);
                        c.message.prefix = p;
                        self.commits.insert(i, c);
                        assert(commits_view(self.commits@) == before.update(
                            i as int,
                            with_prefix(before[i as int], p),
                        ));
                        EditAction::Ask { index: i, total: self.commits.len() }
                    },
                    None => EditAction::AskPrefix {
                        notice: String::from_str("not a valid type, try again"),
                    },
                }
            },
            EditEvent::Scope { raw } => {
                let t = trimmed(raw.as_str());
                let mut c = self.commits.remove(i);
                c.message.scope = t;
                self.commits.insert(i, c);
                assert(commits_view(self.commits@) == before.update(
                    i as int,
                    with_scope(before[i as int], trim(raw@)),
                ));
                EditAction::Ask { index: i, total: self.commits.len() }
            },
            EditEvent::Header { text } => {
                let t = trimmed(text.as_str());
                let mut c = self.commits.remove(i);
                c.message.header = t;
                self.commits.insert(i, c);
                assert(commits_view(self.commits@) == before.update(
                    i as int,
                    with_header(before[i as int], trim(text@)),
                ));
                EditAction::Ask { index: i, total: self.commits.len() }
            },
            EditEvent::Body { text } => {
                let t = trimmed(text.as_str());
                let mut c = self.commits.remove(i);
                c.message.body = t;
                self.commits.insert(i, c);
                assert(commits_view(self.commits@) == before.update(
                    i as int,
                    with_body(before[i as int], trim(text@)),
                ));
                EditAction::Ask { index: i, total: self.commits.len() }
            },
            EditEvent::Quit => {
                self.finished = true;
                EditAction::Close
            },
        }
    }
}

} // verus!
