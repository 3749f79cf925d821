//! The decisions of `gai rebase`: from the state of the command and the
//! outcome of the last piece of outside work (a git read, a model answer, a
//! menu choice), the next state and the next piece of work. The program runs
//! the loop: it carries out each action and hands back its outcome.
use vstd::prelude::*;
use vstd::string::*;

use crate::repo::paths_view;
use crate::tabs::copy_strings;
use crate::find::join_strings;
use crate::text::{decimal, join, push_str, u64_to_decimal};

verus! {

/// Which commits a rebase recreates.
#[derive(Debug)]
pub enum RebaseScope {
    /// Those of HEAD since it diverged from the branch `name`.
    Branch { name: String },
    /// The last `count` commits.
    Last { count: usize },
    /// The commits after `from`, up to `to` (HEAD when there is none); the
    /// commits after `to` are put back on top.
    Range { from: String, to: Option<String> },
}

/// Where a rebase stands: which outcome it waits for.
#[derive(Clone, Copy, PartialEq, Eq, Structural, Debug)]
pub enum RebasePhase {
    /// whether the working directory is clean, and HEAD
    Start,
    /// the commit the rebase starts after, or what leads to it
    Divergence,
    /// the logs and diffs of the range
    Logs,
    /// the model's answer
    Answer,
    /// the user's choice
    Menu,
    /// the edited commits
    Edit,
    /// the result of applying
    Apply,
    /// whether the new tree is that of `to`
    Trees,
    /// the result of putting the trailing commits back
    Trailing,
    /// nothing: the rebase is over
    Finished,
}

/// The choices of the menu shown after an answer.
#[derive(Clone, Copy, PartialEq, Eq, Structural, Debug)]
pub enum MenuChoice {
    Apply,
    Regenerate,
    Edit,
    Quit,
}

/// The state of a rebase.
#[derive(Debug)]
pub struct RebaseState {
    pub scope: RebaseScope,
    /// Whether the model proposes a plan of operations on the existing
    /// commits rather than new commits.
    pub plan: bool,
    /// HEAD before anything was changed, to return to on failure.
    pub original_head: String,
    /// The commit the rebase starts after.
    pub diverge_from: String,
    /// The last commit of the range, when there is one.
    pub to_oid: Option<String>,
    /// The commits after `to_oid`, oldest first, to put back on top.
    pub trailing: Option<Vec<String>>,
    pub phase: RebasePhase,
}

/// The outcome of the last action.
#[derive(Debug)]
pub enum RebaseEvent {
    /// Whether the working directory is clean, and the id of HEAD.
    Started { clean: bool, head: String },
    /// The commit the rebase starts after.
    Divergence { commit: String },
    /// The hashes of the last commits, newest first.
    LastLogs { hashes: Vec<String> },
    /// The commits after `to`, oldest first.
    Trailing { commits: Vec<String> },
    /// The logs and the diffs of the range were read.
    LogsRead,
    /// The model answered (`None`) or failed with a message.
    Answer { error: Option<String> },
    /// The user chose.
    Choice { choice: MenuChoice },
    /// The commits were edited; `empty` when none is left.
    Edited { empty: bool },
    /// The commits or the plan were applied (`None`) or failed.
    Applied { error: Option<String> },
    /// Whether the tree of HEAD is that of `to`.
    TreesEqual { equal: bool },
    /// The trailing commits were put back (`None`) or failed.
    Picked { error: Option<String> },
}

/// The next piece of outside work.
#[derive(Debug)]
pub enum RebaseAction {
    /// Stop with this error; nothing was changed.
    Fail { message: String },
    /// Reset hard to `to`, print `notice` when there is one, and stop with
    /// this error.
    ResetAndFail { to: String, notice: Option<String>, message: String },
    /// Find where HEAD diverged from the branch.
    FindDivergence { branch: String },
    /// Read the hashes of the last `count` commits (all when 0).
    ReadLastLogs { count: usize },
    /// Print `warning` when there is one, then find the parent of `commit`.
    FindParent { commit: String, warning: Option<String> },
    /// Read the commits after `to`.
    ReadTrailing { to: String },
    /// Read the logs and the diffs after `from`, up to `until` (HEAD when none).
    ReadLogs { from: String, until: Option<String> },
    /// Ask the model for a plan of operations.
    GeneratePlan,
    /// Ask the model for commits.
    SendRequest,
    /// Show the answer and ask what to do; the plan menu has no edit.
    AskMenu { plan: bool },
    /// Let the user edit the proposed commits.
    EditCommits,
    /// Reset hard to `reset_to`, carry out the plan and put `trailing` back.
    ApplyPlan { reset_to: String, trailing: Option<Vec<String>> },
    /// Reset hard to `reset_hard_to` when there is one, reset mixed to
    /// `reset_mixed_to`, and make the proposed commits.
    ApplyCommits { reset_hard_to: Option<String>, reset_mixed_to: String },
    /// Compare the tree of HEAD with that of `with`.
    CompareTrees { with: String },
    /// Cherry-pick these commits, in order.
    CherryPick { commits: Vec<String> },
    /// Print what each new commit changed; the rebase is over.
    ReportCommits,
    /// Stop without error, printing `notice` when there is one.
    Done { notice: Option<String> },
}

/// A scope as values.
pub enum ScopeView {
    Branch(Seq<char>),
    Last(usize),
    Range(Seq<char>, Option<Seq<char>>),
}

/// A state as values.
pub struct StateView {
    pub scope: ScopeView,
    pub plan: bool,
    pub original_head: Seq<char>,
    pub diverge_from: Seq<char>,
    pub to_oid: Option<Seq<char>>,
    pub trailing: Option<Seq<Seq<char>>>,
    pub phase: RebasePhase,
}

/// An event as values.
pub enum EventView {
    Started(bool, Seq<char>),
    Divergence(Seq<char>),
    LastLogs(Seq<Seq<char>>),
    Trailing(Seq<Seq<char>>),
    LogsRead,
    Answer(Option<Seq<char>>),
    Choice(MenuChoice),
    Edited(bool),
    Applied(Option<Seq<char>>),
    TreesEqual(bool),
    Picked(Option<Seq<char>>),
}

/// An action as values.
pub enum ActionView {
    Fail(Seq<char>),
    ResetAndFail(Seq<char>, Option<Seq<char>>, Seq<char>),
    FindDivergence(Seq<char>),
    ReadLastLogs(usize),
    FindParent(Seq<char>, Option<Seq<char>>),
    ReadTrailing(Seq<char>),
    ReadLogs(Seq<char>, Option<Seq<char>>),
    GeneratePlan,
    SendRequest,
    AskMenu(bool),
    EditCommits,
    ApplyPlan(Seq<char>, Option<Seq<Seq<char>>>),
    ApplyCommits(Option<Seq<char>>, Seq<char>),
    CompareTrees(Seq<char>),
    CherryPick(Seq<Seq<char>>),
    ReportCommits,
    Done(Option<Seq<char>>),
}

/// An optional string as a value.
pub open spec fn opt_view(o: Option<String>) -> Option<Seq<char>> {
    match o {
        Some(s) => Some(s@),
        None => None,
    }
}

/// An optional list of strings as values.
pub open spec fn opt_list_view(o: Option<Vec<String>>) -> Option<Seq<Seq<char>>> {
    match o {
        Some(v) => Some(paths_view(v@)),
        None => None,
    }
}

impl View for RebaseScope {
    type V = ScopeView;

    open spec fn view(&self) -> ScopeView {
        match self {
            RebaseScope::Branch { name } => ScopeView::Branch(name@),
            RebaseScope::Last { count } => ScopeView::Last(*count),
            RebaseScope::Range { from, to } => ScopeView::Range(from@, opt_view(*to)),
        }
    }
}

impl View for RebaseState {
    type V = StateView;

    open spec fn view(&self) -> StateView {
        StateView {
            scope: self.scope@,
            plan: self.plan,
            original_head: self.original_head@,
            diverge_from: self.diverge_from@,
            to_oid: opt_view(self.to_oid),
            trailing: opt_list_view(self.trailing),
            phase: self.phase,
        }
    }
}

impl View for RebaseEvent {
    type V = EventView;

    open spec fn view(&self) -> EventView {
        match self {
            RebaseEvent::Started { clean, head } => EventView::Started(*clean, head@),
            RebaseEvent::Divergence { commit } => EventView::Divergence(commit@),
            RebaseEvent::LastLogs { hashes } => EventView::LastLogs(paths_view(hashes@)),
            RebaseEvent::Trailing { commits } => EventView::Trailing(paths_view(commits@)),
            RebaseEvent::LogsRead => EventView::LogsRead,
            RebaseEvent::Answer { error } => EventView::Answer(opt_view(*error)),
            RebaseEvent::Choice { choice } => EventView::Choice(*choice),
            RebaseEvent::Edited { empty } => EventView::Edited(*empty),
            RebaseEvent::Applied { error } => EventView::Applied(opt_view(*error)),
            RebaseEvent::TreesEqual { equal } => EventView::TreesEqual(*equal),
            RebaseEvent::Picked { error } => EventView::Picked(opt_view(*error)),
        }
    }
}

impl View for RebaseAction {
    type V = ActionView;

    open spec fn view(&self) -> ActionView {
        match self {
            RebaseAction::Fail { message } => ActionView::Fail(message@),
            RebaseAction::ResetAndFail { to, notice, message } => ActionView::ResetAndFail(
                to@,
                opt_view(*notice),
                message@,
            ),
            RebaseAction::FindDivergence { branch } => ActionView::FindDivergence(branch@),
            RebaseAction::ReadLastLogs { count } => ActionView::ReadLastLogs(*count),
            RebaseAction::FindParent { commit, warning } => ActionView::FindParent(
                commit@,
                opt_view(*warning),
            ),
            RebaseAction::ReadTrailing { to } => ActionView::ReadTrailing(to@),
            RebaseAction::ReadLogs { from, until } => ActionView::ReadLogs(from@, opt_view(*until)),
            RebaseAction::GeneratePlan => ActionView::GeneratePlan,
            RebaseAction::SendRequest => ActionView::SendRequest,
            RebaseAction::AskMenu { plan } => ActionView::AskMenu(*plan),
            RebaseAction::EditCommits => ActionView::EditCommits,
            RebaseAction::ApplyPlan { reset_to, trailing } => ActionView::ApplyPlan(
                reset_to@,
                opt_list_view(*trailing),
            ),
            RebaseAction::ApplyCommits { reset_hard_to, reset_mixed_to } =>
                ActionView::ApplyCommits(opt_view(*reset_hard_to), reset_mixed_to@),
            RebaseAction::CompareTrees { with } => ActionView::CompareTrees(with@),
            RebaseAction::CherryPick { commits } => ActionView::CherryPick(paths_view(commits@)),
            RebaseAction::ReportCommits => ActionView::ReportCommits,
            RebaseAction::Done { notice } => ActionView::Done(opt_view(*notice)),
        }
    }
}

/// Whether a rebase in state `s` waits for an event of the kind of `e`; the
/// last-commit logs must name at least one commit, as the command takes the
/// oldest of them.
pub open spec fn spec_accepts(s: StateView, e: EventView) -> bool {
    match (s.phase, e) {
        (RebasePhase::Start, EventView::Started(_, _)) => true,
        (RebasePhase::Divergence, EventView::Divergence(_)) => true,
        (RebasePhase::Divergence, EventView::LastLogs(hs)) => s.scope is Last && hs.len() > 0,
        (RebasePhase::Divergence, EventView::Trailing(_)) => s.scope is Range,
        (RebasePhase::Logs, EventView::LogsRead) => true,
        (RebasePhase::Answer, EventView::Answer(_)) => true,
        (RebasePhase::Menu, EventView::Choice(_)) => true,
        (RebasePhase::Edit, EventView::Edited(_)) => true,
        (RebasePhase::Apply, EventView::Applied(_)) => true,
        (RebasePhase::Trees, EventView::TreesEqual(_)) => true,
        (RebasePhase::Trailing, EventView::Picked(_)) => true,
        _ => false,
    }
}

/// The warning printed when fewer commits exist than were asked for.
pub open spec fn short_history_warning(found: nat, asked: nat) -> Seq<char> {
    "Warning: Only "@ + decimal(found) + " commits exist in history but you requested "@
        + decimal(asked)
}

/// `s` in phase `p`.
pub open spec fn to_phase(s: StateView, p: RebasePhase) -> StateView {
    StateView { phase: p, ..s }
}

/// The request for the model's answer: a plan or commits.
pub open spec fn ask_model(plan: bool) -> ActionView {
    if plan {
        ActionView::GeneratePlan
    } else {
        ActionView::SendRequest
    }
}

/// The next state and action of a rebase in state `s` on event `e`.
pub open spec fn spec_rebase_step(s: StateView, e: EventView) -> (StateView, ActionView) {
    match e {
        EventView::Started(clean, head) => {
            if !clean {
                (
                    to_phase(s, RebasePhase::Finished),
                    ActionView::Fail("Workdir is NOT clean, please save your changes"@),
                )
            } else {
                let s1 = StateView { original_head: head, phase: RebasePhase::Divergence, ..s };
                match s.scope {
                    ScopeView::Branch(name) => (s1, ActionView::FindDivergence(name)),
                    ScopeView::Last(count) => (s1, ActionView::ReadLastLogs(count)),
                    ScopeView::Range(from, to) => match to {
                        Some(t) => (
                            StateView { to_oid: Some(t), ..s1 },
                            ActionView::ReadTrailing(t),
                        ),
                        None => (
                            StateView { to_oid: Some(head), ..s1 },
                            ActionView::FindParent(from, None),
                        ),
                    },
                }
            }
        },
        EventView::LastLogs(hs) => {
            let count = match s.scope {
                ScopeView::Last(c) => c,
                _ => 0,
            };
            let warning = if count > hs.len() {
                Some(short_history_warning(hs.len(), count as nat))
            } else {
                None
            };
            (s, ActionView::FindParent(hs.last(), warning))
        },
        EventView::Trailing(cs) => {
            let from = match s.scope {
                ScopeView::Range(f, _) => f,
                _ => Seq::empty(),
            };
            (StateView { trailing: Some(cs), ..s }, ActionView::FindParent(from, None))
        },
        EventView::Divergence(commit) => (
            StateView { diverge_from: commit, phase: RebasePhase::Logs, ..s },
            ActionView::ReadLogs(commit, s.to_oid),
        ),
        EventView::LogsRead => (to_phase(s, RebasePhase::Answer), ask_model(s.plan)),
        EventView::Answer(error) => match error {
            Some(err) => if s.plan {
                (
                    to_phase(s, RebasePhase::Finished),
                    ActionView::ResetAndFail(
                        s.original_head,
                        Some("error when gerating plan:\n"@ + err),
                        err,
                    ),
                )
            } else {
                (
                    to_phase(s, RebasePhase::Finished),
                    ActionView::Done(Some("error from the provider:\n"@ + err)),
                )
            },
            None => (to_phase(s, RebasePhase::Menu), ActionView::AskMenu(s.plan)),
        },
        EventView::Choice(choice) => match choice {
            MenuChoice::Apply => if s.plan {
                (
                    to_phase(s, RebasePhase::Apply),
                    ActionView::ApplyPlan(s.diverge_from, s.trailing),
                )
            } else {
                (
                    to_phase(s, RebasePhase::Apply),
                    ActionView::ApplyCommits(s.to_oid, s.diverge_from),
                )
            },
            MenuChoice::Regenerate => (to_phase(s, RebasePhase::Answer), ask_model(s.plan)),
            MenuChoice::Edit => if s.plan {
                (s, ActionView::AskMenu(true))
            } else {
                (to_phase(s, RebasePhase::Edit), ActionView::EditCommits)
            },
            MenuChoice::Quit => (to_phase(s, RebasePhase::Finished), ActionView::Done(None)),
        },
        EventView::Edited(empty) => if empty {
            (to_phase(s, RebasePhase::Finished), ActionView::Done(None))
        } else {
            (to_phase(s, RebasePhase::Menu), ActionView::AskMenu(false))
        },
        EventView::Applied(error) => match error {
            Some(err) => if s.plan {
                (
                    to_phase(s, RebasePhase::Finished),
                    ActionView::ResetAndFail(
                        s.original_head,
                        Some("couldnt apply plan: "@ + err + "\nresetting"@),
                        err,
                    ),
                )
            } else {
                (
                    to_phase(s, RebasePhase::Finished),
                    ActionView::ResetAndFail(
                        s.original_head,
                        None,
                        "failed to apply commits:\n"@ + err,
                    ),
                )
            },
            None => if s.plan {
                (to_phase(s, RebasePhase::Finished), ActionView::Done(None))
            } else {
                match s.to_oid {
                    Some(t) => (to_phase(s, RebasePhase::Trees), ActionView::CompareTrees(t)),
                    None => (to_phase(s, RebasePhase::Finished), ActionView::ReportCommits),
                }
            },
        },
        EventView::TreesEqual(equal) => if !equal {
            (
                to_phase(s, RebasePhase::Finished),
                ActionView::ResetAndFail(
                    s.original_head,
                    None,
                    "bad trees, failed to apply correct changes"@,
                ),
            )
        } else {
            match s.trailing {
                Some(ts) => (to_phase(s, RebasePhase::Trailing), ActionView::CherryPick(ts)),
                None => (to_phase(s, RebasePhase::Finished), ActionView::ReportCommits),
            }
        },
        EventView::Picked(error) => match error {
            Some(err) => (
                to_phase(s, RebasePhase::Finished),
                ActionView::ResetAndFail(s.original_head, None, err),
            ),
            None => (to_phase(s, RebasePhase::Finished), ActionView::ReportCommits),
        },
    }
}

/// How a commit of the range is shown to the model: its position, its raw
/// message and its files.
pub open spec fn spec_log_item(idx: nat, raw: Seq<char>, files: Seq<Seq<char>>) -> Seq<char> {
    "CommitID:["@ + decimal(idx) + "]\nCommitMessage:"@ + raw + "\nFiles:"@ + join(files, ","@)
}

/// The text of the commit at position `idx` of the range, as the model sees it.
pub fn log_item(idx: usize, raw: &str, files: &Vec<String>) -> (r: String)
    ensures
        r@ == spec_log_item(idx as nat, raw@, paths_view(files@)),
{
    let n = u64_to_decimal(idx as u64);
    let mut r = String::from_str("CommitID:[");
    push_str(&mut r, n.as_str());
    push_str(&mut r, "]\nCommitMessage:");
    push_str(&mut r, raw);
    push_str(&mut r, "\nFiles:");
    let f = join_strings(files, ",");
    push_str(&mut r, f.as_str());
    r
}

/// A copy of an optional string.
fn copy_opt(o: &Option<String>) -> (r: Option<String>)
    ensures
        opt_view(r) == opt_view(*o),
{
    match o {
        Some(s) => Some(s.clone()),
        None => None,
    }
}

/// A copy of an optional list of strings.
fn copy_opt_list(o: &Option<Vec<String>>) -> (r: Option<Vec<String>>)
    ensures
        opt_list_view(r) == opt_list_view(*o),
{
    match o {
        Some(v) => Some(copy_strings(v)),
        None => None,
    }
}

/// `prefix` followed by `s`.
fn prefixed(prefix: &str, s: &str) -> (r: String)
    ensures
        r@ == prefix@ + s@,
{
    let mut r = String::from_str(prefix);
    push_str(&mut r, s);
    r
}

/// `prefix` followed by `s`, and then `suffix`.
fn framed(prefix: &str, s: &str, suffix: &str) -> (r: String)
    ensures
        r@ == prefix@ + s@ + suffix@,
{
    let mut r = String::from_str(prefix);
    push_str(&mut r, s);
    push_str(&mut r, suffix);
    r
}

/// Whether a rebase in `state` waits for an event of the kind of `event`.
pub fn accepts(state: &RebaseState, event: &RebaseEvent) -> (r: bool)
    ensures
        r == spec_accepts(state@, event@),
{
    match (state.phase, event) {
        (RebasePhase::Start, RebaseEvent::Started { .. }) => true,
        (RebasePhase::Divergence, RebaseEvent::Divergence { .. }) => true,
        (RebasePhase::Divergence, RebaseEvent::LastLogs { hashes }) => {
            let last = match state.scope {
                RebaseScope::Last { .. } => true,
                _ => false,
            };
            last && hashes.len() > 0
        },
        (RebasePhase::Divergence, RebaseEvent::Trailing { .. }) => match state.scope {
            RebaseScope::Range { .. } => true,
            _ => false,
        },
        (RebasePhase::Logs, RebaseEvent::LogsRead) => true,
        (RebasePhase::Answer, RebaseEvent::Answer { .. }) => true,
        (RebasePhase::Menu, RebaseEvent::Choice { .. }) => true,
        (RebasePhase::Edit, RebaseEvent::Edited { .. }) => true,
        (RebasePhase::Apply, RebaseEvent::Applied { .. }) => true,
        (RebasePhase::Trees, RebaseEvent::TreesEqual { .. }) => true,
        (RebasePhase::Trailing, RebaseEvent::Picked { .. }) => true,
        _ => false,
    }
}

/// The request for the model's answer.
fn ask_model_exec(plan: bool) -> (r: RebaseAction)
    ensures
        r@ == ask_model(plan),
{
    if plan {
        RebaseAction::GeneratePlan
    } else {
        RebaseAction::SendRequest
    }
}

/// One step of a rebase: the next state and the next piece of outside work,
/// given the outcome of the last one.
pub fn rebase_step(state: RebaseState, event: RebaseEvent) -> (r: (RebaseState, RebaseAction))
    requires
        spec_accepts(state@, event@),
    ensures
        (r.0@, r.1@) == spec_rebase_step(state@, event@),
{
    let mut s = state;
    match event {
        RebaseEvent::Started { clean, head } => {
            if !clean {
                s.phase = RebasePhase::Finished;
                return (
                    s,
                    RebaseAction::Fail {
                        message: String::from_str("Workdir is NOT clean, please save your changes"),
                    },
                );
            }
            s.phase = RebasePhase::Divergence;
            let action = match &s.scope {
                RebaseScope::Branch { name } => RebaseAction::FindDivergence { branch: name.clone() },
                RebaseScope::Last { count } => RebaseAction::ReadLastLogs { count: *count },
                RebaseScope::Range { from, to } => match to {
                    Some(t) => {
                        s.to_oid = Some(t.clone());
                        RebaseAction::ReadTrailing { to: t.clone() }
                    },
                    None => {
                        s.to_oid = Some(head.clone());
                        RebaseAction::FindParent { commit: from.clone(), warning: None }
                    },
                },
            };
            s.original_head = head;
            (s, action)
        },
        RebaseEvent::LastLogs { hashes } => {
            let count = match s.scope {
                RebaseScope::Last { count } => count,
                _ => 0,
            };
            let warning = if count > hashes.len() {
                let found = u64_to_decimal(hashes.len() as u64);
                let asked = u64_to_decimal(count as u64);
                let mut w = framed(
                    "Warning: Only ",
                    found.as_str(),
                    " commits exist in history but you requested ",
                );
                push_str(&mut w, asked.as_str());
                Some(w)
            } else {
                None
            };
            let last = hashes[hashes.len() - 1].clone();
            assert(last@ == paths_view(hashes@).last());
            (s, RebaseAction::FindParent { commit: last, warning })
        },
        RebaseEvent::Trailing { commits } => {
            let from = match &s.scope {
                RebaseScope::Range { from, .. } => from.clone(),
                _ => String::new(),
            };
            s.trailing = Some(commits);
            (s, RebaseAction::FindParent { commit: from, warning: None })
        },
        RebaseEvent::Divergence { commit } => {
            let until = copy_opt(&s.to_oid);
            let from = commit.clone();
            s.diverge_from = commit;
            s.phase = RebasePhase::Logs;
            (s, RebaseAction::ReadLogs { from, until })
        },
        RebaseEvent::LogsRead => {
            s.phase = RebasePhase::Answer;
            let a = ask_model_exec(s.plan);
            (s, a)
        },
        RebaseEvent::Answer { error } => match error {
            Some(err) => {
                s.phase = RebasePhase::Finished;
                if s.plan {
                    let notice = prefixed("error when gerating plan:\n", err.as_str());
                    let to = s.original_head.clone();
                    (s, RebaseAction::ResetAndFail { to, notice: Some(notice), message: err })
                } else {
                    let notice = prefixed("error from the provider:\n", err.as_str());
                    (s, RebaseAction::Done { notice: Some(notice) })
                }
            },
            None => {
                s.phase = RebasePhase::Menu;
                let plan = s.plan;
                (s, RebaseAction::AskMenu { plan })
            },
        },
        RebaseEvent::Choice { choice } => match choice {
            MenuChoice::Apply => {
                s.phase = RebasePhase::Apply;
                if s.plan {
                    let reset_to = s.diverge_from.clone();
                    let trailing = copy_opt_list(&s.trailing);
                    (s, RebaseAction::ApplyPlan { reset_to, trailing })
                } else {
                    let reset_hard_to = copy_opt(&s.to_oid);
                    let reset_mixed_to = s.diverge_from.clone();
                    (s, RebaseAction::ApplyCommits { reset_hard_to, reset_mixed_to })
                }
            },
            MenuChoice::Regenerate => {
                s.phase = RebasePhase::Answer;
                let a = ask_model_exec(s.plan);
                (s, a)
            },
            MenuChoice::Edit => {
                if s.plan {
                    (s, RebaseAction::AskMenu { plan: true })
                } else {
                    s.phase = RebasePhase::Edit;
                    (s, RebaseAction::EditCommits)
                }
            },
            MenuChoice::Quit => {
                s.phase = RebasePhase::Finished;
                (s, RebaseAction::Done { notice: None })
            },
        },
        RebaseEvent::Edited { empty } => {
            if empty {
                s.phase = RebasePhase::Finished;
                (s, RebaseAction::Done { notice: None })
            } else {
                s.phase = RebasePhase::Menu;
                (s, RebaseAction::AskMenu { plan: false })
            }
        },
        RebaseEvent::Applied { error } => match error {
            Some(err) => {
                s.phase = RebasePhase::Finished;
                let to = s.original_head.clone();
                if s.plan {
                    let notice = framed("couldnt apply plan: ", err.as_str(), "\nresetting");
                    (s, RebaseAction::ResetAndFail { to, notice: Some(notice), message: err })
                } else {
                    let message = prefixed("failed to apply commits:\n", err.as_str());
                    (s, RebaseAction::ResetAndFail { to, notice: None, message })
                }
            },
            None => {
                if s.plan {
                    s.phase = RebasePhase::Finished;
                    (s, RebaseAction::Done { notice: None })
                } else {
                    match copy_opt(&s.to_oid) {
                        Some(t) => {
                            s.phase = RebasePhase::Trees;
                            (s, RebaseAction::CompareTrees { with: t })
                        },
                        None => {
                            s.phase = RebasePhase::Finished;
                            (s, RebaseAction::ReportCommits)
                        },
                    }
                }
            },
        },
        RebaseEvent::TreesEqual { equal } => {
            if !equal {
                s.phase = RebasePhase::Finished;
                let to = s.original_head.clone();
                (
                    s,
                    RebaseAction::ResetAndFail {
                        to,
                        notice: None,
                        message: String::from_str("bad trees, failed to apply correct changes"),
                    },
                )
            } else {
                match copy_opt_list(&s.trailing) {
                    Some(ts) => {
                        s.phase = RebasePhase::Trailing;
                        (s, RebaseAction::CherryPick { commits: ts })
                    },
                    None => {
                        s.phase = RebasePhase::Finished;
                        (s, RebaseAction::ReportCommits)
                    },
                }
            }
        },
        RebaseEvent::Picked { error } => {
            s.phase = RebasePhase::Finished;
            match error {
                Some(err) => {
                    let to = s.original_head.clone();
                    (s, RebaseAction::ResetAndFail { to, notice: None, message: err })
                },
                None => (s, RebaseAction::ReportCommits),
            }
        },
    }
}

/// Law: after the start, a step never changes the recorded HEAD, and every
/// failure that comes after the repository may have changed resets hard to
/// that HEAD.
pub proof fn lemma_failures_reset_to_original_head(s: StateView, e: EventView)
    requires
        spec_accepts(s, e),
        !(e is Started),
    ensures
        spec_rebase_step(s, e).0.original_head == s.original_head,
        spec_rebase_step(s, e).1 matches ActionView::ResetAndFail(to, _, _) ==> to
            == s.original_head,
        !(spec_rebase_step(s, e).1 is Fail),
{
}

} // verus!
