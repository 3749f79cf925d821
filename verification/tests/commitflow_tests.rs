use gai::commitflow::{
    commit_menu_accepts, commit_menu_step, parse_prefix, CommitEvent, CommitFlow, CommitFlowAction, EditAction,
    EditEvent, EditState,
};
use gai::rebase::MenuChoice;
use gai::response::{CommitMessage, PrefixType, ResponseCommit};

fn proposed(header: &str) -> ResponseCommit {
    ResponseCommit {
        files: vec!["a.rs".to_string()],
        hunk_ids: vec![],
        message: CommitMessage {
            prefix: PrefixType::Feat,
            scope: String::new(),
            breaking: false,
            header: header.to_string(),
            body: String::new(),
        },
    }
}

#[test]
fn commit_menu_answer_and_choices() {
    let (f, a) = commit_menu_step(CommitFlow::Generating, CommitEvent::Answer { error: None });
    assert_eq!(f, CommitFlow::Menu);
    assert!(matches!(a, CommitFlowAction::AskMenu));
    let (f, a) = commit_menu_step(f, CommitEvent::Choice { choice: MenuChoice::Regenerate });
    assert_eq!(f, CommitFlow::Generating);
    assert!(matches!(a, CommitFlowAction::SendRequest));
    let (f, a) = commit_menu_step(CommitFlow::Menu, CommitEvent::Choice { choice: MenuChoice::Edit });
    assert_eq!(f, CommitFlow::Edit);
    assert!(matches!(a, CommitFlowAction::EditCommits));
    let (f, a) = commit_menu_step(f, CommitEvent::Edited { empty: true });
    assert_eq!(f, CommitFlow::Finished);
    assert!(matches!(a, CommitFlowAction::Done { notice: None }));
}

#[test]
fn commit_menu_errors_end_with_notice() {
    let (f, a) = commit_menu_step(CommitFlow::Generating, CommitEvent::Answer { error: Some("x".to_string()) });
    assert_eq!(f, CommitFlow::Finished);
    match a {
        CommitFlowAction::Done { notice } => assert_eq!(notice.as_deref(), Some("error from the provider:\nx")),
        other => panic!("{:?}", other),
    }
    let (_, a) = commit_menu_step(CommitFlow::Applying, CommitEvent::Applied { error: Some("y".to_string()) });
    match a {
        CommitFlowAction::Done { notice } => assert_eq!(notice.as_deref(), Some("failed to apply commits:\ny")),
        other => panic!("{:?}", other),
    }
    let (_, a) = commit_menu_step(CommitFlow::Applying, CommitEvent::Applied { error: None });
    assert!(matches!(a, CommitFlowAction::ReportCommits));
    assert!(!commit_menu_accepts(CommitFlow::Menu, &CommitEvent::Edited { empty: false }));
}

#[test]
fn prefixes_parse_without_regard_to_case() {
    assert_eq!(parse_prefix("FEAT"), Some(PrefixType::Feat));
    assert_eq!(parse_prefix("Ci"), Some(PrefixType::CI));
    assert_eq!(parse_prefix("revert"), Some(PrefixType::Revert));
    assert_eq!(parse_prefix("feature"), None);
}

#[test]
fn editor_moves_edits_and_removes() {
    let (mut s, a) = EditState::open(vec![proposed("one"), proposed("two")]);
    assert!(matches!(a, EditAction::Ask { index: 0, total: 2 }));
    let a = s.edit_step(EditEvent::Header { text: "  first \n".to_string() });
    assert!(matches!(a, EditAction::Ask { index: 0, total: 2 }));
    assert_eq!(s.commits[0].message.header, "first");
    let a = s.edit_step(EditEvent::Prefix { raw: " nope ".to_string() });
    match a {
        EditAction::AskPrefix { notice } => assert_eq!(notice, "not a valid type, try again"),
        other => panic!("{:?}", other),
    }
    s.edit_step(EditEvent::Prefix { raw: " Fix ".to_string() });
    assert_eq!(s.commits[0].message.prefix, PrefixType::Fix);
    s.edit_step(EditEvent::Scope { raw: " core ".to_string() });
    assert_eq!(s.commits[0].message.scope, "core");
    let a = s.edit_step(EditEvent::Next);
    assert!(matches!(a, EditAction::Ask { index: 1, total: 2 }));
    let a = s.edit_step(EditEvent::Remove);
    assert!(matches!(a, EditAction::Close));
    assert!(s.finished);
    assert_eq!(s.commits.len(), 1);
}

#[test]
fn editor_on_nothing_closes() {
    let (s, a) = EditState::open(vec![]);
    assert!(matches!(a, EditAction::Close));
    assert!(s.finished);
}

#[test]
fn editor_previous_stays_at_first() {
    let (mut s, _) = EditState::open(vec![proposed("one")]);
    let a = s.edit_step(EditEvent::Previous);
    assert!(matches!(a, EditAction::Ask { index: 0, total: 1 }));
    let a = s.edit_step(EditEvent::Quit);
    assert!(matches!(a, EditAction::Close));
}
