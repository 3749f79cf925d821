use gai::config::RuleConfig;
use gai::diffs::{line_source, LineSource};
use gai::errors::GitError;
use gai::rebase::{
    accepts, log_item, rebase_step, MenuChoice, RebaseAction, RebaseEvent, RebasePhase, RebaseScope,
    RebaseState,
};

fn state(scope: RebaseScope, plan: bool) -> RebaseState {
    RebaseState {
        scope,
        plan,
        original_head: String::new(),
        diverge_from: String::new(),
        to_oid: None,
        trailing: None,
        phase: RebasePhase::Start,
    }
}

fn step(s: RebaseState, e: RebaseEvent) -> (RebaseState, RebaseAction) {
    assert!(accepts(&s, &e));
    rebase_step(s, e)
}

#[test]
fn dirty_workdir_is_refused() {
    let (s, a) = step(
        state(RebaseScope::Last { count: 2 }, false),
        RebaseEvent::Started { clean: false, head: "h".to_string() },
    );
    assert_eq!(s.phase, RebasePhase::Finished);
    match a {
        RebaseAction::Fail { message } => assert_eq!(message, "Workdir is NOT clean, please save your changes"),
        other => panic!("{:?}", other),
    }
}

#[test]
fn branch_scope_finds_divergence() {
    let (s, a) = step(
        state(RebaseScope::Branch { name: "main".to_string() }, false),
        RebaseEvent::Started { clean: true, head: "h0".to_string() },
    );
    assert_eq!(s.original_head, "h0");
    assert_eq!(s.phase, RebasePhase::Divergence);
    match a {
        RebaseAction::FindDivergence { branch } => assert_eq!(branch, "main"),
        other => panic!("{:?}", other),
    }
}

#[test]
fn last_scope_warns_when_history_is_short() {
    let (s, a) = step(
        state(RebaseScope::Last { count: 5 }, false),
        RebaseEvent::Started { clean: true, head: "h0".to_string() },
    );
    assert!(matches!(a, RebaseAction::ReadLastLogs { count: 5 }));
    let (s, a) = step(s, RebaseEvent::LastLogs { hashes: vec!["c2".to_string(), "c1".to_string()] });
    match a {
        RebaseAction::FindParent { commit, warning } => {
            assert_eq!(commit, "c1");
            assert_eq!(warning.as_deref(), Some("Warning: Only 2 commits exist in history but you requested 5"));
        },
        other => panic!("{:?}", other),
    }
    let (s, a) = step(s, RebaseEvent::Divergence { commit: "p".to_string() });
    assert_eq!(s.diverge_from, "p");
    assert!(matches!(a, RebaseAction::ReadLogs { ref from, until: None } if from == "p"));
    let (s, a) = step(s, RebaseEvent::LogsRead);
    assert!(matches!(a, RebaseAction::SendRequest));
    assert_eq!(s.phase, RebasePhase::Answer);
}

#[test]
fn range_with_end_applies_then_checks_trees_and_trailing() {
    let scope = RebaseScope::Range { from: "f".to_string(), to: Some("t".to_string()) };
    let (s, a) = step(state(scope, false), RebaseEvent::Started { clean: true, head: "h0".to_string() });
    assert!(matches!(a, RebaseAction::ReadTrailing { ref to } if to == "t"));
    let (s, a) = step(s, RebaseEvent::Trailing { commits: vec!["x".to_string()] });
    assert!(matches!(a, RebaseAction::FindParent { ref commit, warning: None } if commit == "f"));
    let (s, _) = step(s, RebaseEvent::Divergence { commit: "p".to_string() });
    let (s, _) = step(s, RebaseEvent::LogsRead);
    let (s, a) = step(s, RebaseEvent::Answer { error: None });
    assert!(matches!(a, RebaseAction::AskMenu { plan: false }));
    let (s, a) = step(s, RebaseEvent::Choice { choice: MenuChoice::Apply });
    match a {
        RebaseAction::ApplyCommits { reset_hard_to, reset_mixed_to } => {
            assert_eq!(reset_hard_to.as_deref(), Some("t"));
            assert_eq!(reset_mixed_to, "p");
        },
        other => panic!("{:?}", other),
    }
    let (s, a) = step(s, RebaseEvent::Applied { error: None });
    assert!(matches!(a, RebaseAction::CompareTrees { ref with } if with == "t"));
    let (s, a) = step(s, RebaseEvent::TreesEqual { equal: true });
    assert!(matches!(a, RebaseAction::CherryPick { ref commits } if commits == &vec!["x".to_string()]));
    let (s, a) = step(s, RebaseEvent::Picked { error: None });
    assert!(matches!(a, RebaseAction::ReportCommits));
    assert_eq!(s.phase, RebasePhase::Finished);
}

#[test]
fn different_trees_reset_to_the_original_head() {
    let scope = RebaseScope::Range { from: "f".to_string(), to: None };
    let (s, a) = step(state(scope, false), RebaseEvent::Started { clean: true, head: "h0".to_string() });
    assert_eq!(s.to_oid.as_deref(), Some("h0"));
    assert!(matches!(a, RebaseAction::FindParent { .. }));
    let (s, _) = step(s, RebaseEvent::Divergence { commit: "p".to_string() });
    let (s, _) = step(s, RebaseEvent::LogsRead);
    let (s, _) = step(s, RebaseEvent::Answer { error: None });
    let (s, _) = step(s, RebaseEvent::Choice { choice: MenuChoice::Apply });
    let (s, _) = step(s, RebaseEvent::Applied { error: None });
    let (_, a) = step(s, RebaseEvent::TreesEqual { equal: false });
    match a {
        RebaseAction::ResetAndFail { to, notice, message } => {
            assert_eq!(to, "h0");
            assert_eq!(notice, None);
            assert_eq!(message, "bad trees, failed to apply correct changes");
        },
        other => panic!("{:?}", other),
    }
}

#[test]
fn plan_failures_and_choices() {
    let (s, _) = step(
        state(RebaseScope::Branch { name: "main".to_string() }, true),
        RebaseEvent::Started { clean: true, head: "h0".to_string() },
    );
    let (s, _) = step(s, RebaseEvent::Divergence { commit: "p".to_string() });
    let (s, a) = step(s, RebaseEvent::LogsRead);
    assert!(matches!(a, RebaseAction::GeneratePlan));
    let (s, a) = step(s, RebaseEvent::Answer { error: None });
    assert!(matches!(a, RebaseAction::AskMenu { plan: true }));
    let (s, a) = step(s, RebaseEvent::Choice { choice: MenuChoice::Regenerate });
    assert!(matches!(a, RebaseAction::GeneratePlan));
    let (s, _) = step(s, RebaseEvent::Answer { error: None });
    let (s, a) = step(s, RebaseEvent::Choice { choice: MenuChoice::Apply });
    assert!(matches!(a, RebaseAction::ApplyPlan { ref reset_to, trailing: None } if reset_to == "p"));
    let (_, a) = step(s, RebaseEvent::Applied { error: Some("boom".to_string()) });
    match a {
        RebaseAction::ResetAndFail { to, notice, message } => {
            assert_eq!(to, "h0");
            assert_eq!(notice.as_deref(), Some("couldnt apply plan: boom\nresetting"));
            assert_eq!(message, "boom");
        },
        other => panic!("{:?}", other),
    }
}

#[test]
fn provider_error_ends_without_failure() {
    let (s, _) = step(
        state(RebaseScope::Branch { name: "main".to_string() }, false),
        RebaseEvent::Started { clean: true, head: "h0".to_string() },
    );
    let (s, _) = step(s, RebaseEvent::Divergence { commit: "p".to_string() });
    let (s, _) = step(s, RebaseEvent::LogsRead);
    let (s, a) = step(s, RebaseEvent::Answer { error: Some("down".to_string()) });
    assert_eq!(s.phase, RebasePhase::Finished);
    match a {
        RebaseAction::Done { notice } => assert_eq!(notice.as_deref(), Some("error from the provider:\ndown")),
        other => panic!("{:?}", other),
    }
}

#[test]
fn unexpected_events_are_not_accepted() {
    let s = state(RebaseScope::Last { count: 1 }, false);
    assert!(!accepts(&s, &RebaseEvent::LogsRead));
    let mut s2 = state(RebaseScope::Last { count: 1 }, false);
    s2.phase = RebasePhase::Divergence;
    assert!(!accepts(&s2, &RebaseEvent::LastLogs { hashes: vec![] }));
}

#[test]
fn log_items_show_index_message_and_files() {
    let files = vec!["a.rs".to_string(), "b.rs".to_string()];
    assert_eq!(log_item(3, "feat: x", &files), "CommitID:[3]\nCommitMessage:feat: x\nFiles:a.rs,b.rs");
}

#[test]
fn line_source_for_lone_untracked_file() {
    assert_eq!(line_source(1, true, true, true).ok(), Some(LineSource::NewFilePatch));
    assert_eq!(line_source(1, true, true, false).ok(), Some(LineSource::Diff));
    assert_eq!(line_source(2, true, true, true).ok(), Some(LineSource::Diff));
    match line_source(1, true, false, true) {
        Err(GitError::Generic(m)) => assert_eq!(m, "new file path is unspecified."),
        other => panic!("{:?}", other),
    }
}

#[test]
fn rules_do_not_depend_on_allow_body() {
    let mut c = RuleConfig::default();
    let a = c.build_rules();
    c.allow_body = !c.allow_body;
    assert_eq!(a, c.build_rules());
}
