use gai::actions::{edit_opts, response_opts, EditActions, ResponseActions};
use gai::args::{Args, Auth, Commands};
use gai::cli::{Cli, Commands as CliCommands};
use gai::config::Config;
use gai::diffs::Diffs;
use gai::find::{commit_items, join_strings, FindArgs};
use gai::log::{GitLog, Logs};
use gai::opts::ColorAlways;
use gai::provider::Provider;
use gai::state::{entry_status, record_entry, Status};
use gai::status::{DeltaKind, FileStatus, GitStatus, StatusFlags, StatusItemType};
use gai::tui::{get_tui_action, Action, KeyCode, TuiEvent};

#[test]
fn keys_to_actions() {
    assert_eq!(get_tui_action(TuiEvent::Key(KeyCode::Esc)), Some(Action::Quit));
    assert_eq!(get_tui_action(TuiEvent::Key(KeyCode::Char('Q'))), Some(Action::Quit));
    assert_eq!(get_tui_action(TuiEvent::Key(KeyCode::Char('j'))), Some(Action::ScrollDown));
    assert_eq!(get_tui_action(TuiEvent::Key(KeyCode::Up)), Some(Action::ScrollUp));
    assert_eq!(get_tui_action(TuiEvent::Key(KeyCode::Char('3'))), Some(Action::ClaudeTab));
    assert_eq!(get_tui_action(TuiEvent::Key(KeyCode::Char('z'))), None);
    assert_eq!(get_tui_action(TuiEvent::Key(KeyCode::Other)), None);
    assert_eq!(get_tui_action(TuiEvent::Other), None);
}

#[test]
fn color_words() {
    assert_eq!(ColorAlways::parse("auto"), Ok(ColorAlways::Auto));
    assert_eq!(ColorAlways::parse("always"), Ok(ColorAlways::Always));
    assert_eq!("never".parse::<ColorAlways>(), Ok(ColorAlways::Never));
    assert_eq!(ColorAlways::parse("Auto"), Err("expected auto|always|never"));
}

#[test]
fn menus() {
    let r = response_opts();
    assert_eq!(r.len(), 4);
    assert_eq!(r[0], (ResponseActions::Apply, 'y', "apply all commit/s"));
    let e = edit_opts();
    assert_eq!(e.len(), 8);
    assert_eq!(e[6], (EditActions::Body, 'b', "edit body in $EDITOR"));
}

fn args(provider: Option<Provider>, command: Commands) -> Args {
    Args { compact: false, interactive: false, provider, hint: Some("h".to_string()), command }
}

#[test]
fn flags_override_the_configuration() {
    let mut c = Config::default();
    let a = args(
        Some(Provider::OpenAI),
        Commands::Commit { skip_confirmation: false, staged: true, hunks: true, files: true, config: vec![] },
    );
    assert!(a.parse_flags(&mut c).is_ok());
    assert_eq!(c.ai.provider, Provider::OpenAI);
    assert_eq!(c.ai.hint.as_deref(), Some("h"));
    assert!(c.gai.only_staged);
    assert!(!c.gai.stage_hunks);
    let mut c2 = Config::default();
    let b = args(None, Commands::Commit { skip_confirmation: false, staged: false, hunks: true, files: false, config: vec![] });
    b.parse_flags(&mut c2).unwrap();
    assert_eq!(c2.ai.provider, Provider::Gemini);
    assert!(c2.gai.stage_hunks);
    b.parse_flags(&mut c2).unwrap();
    assert!(c2.gai.stage_hunks);
    let mut c3 = Config::default();
    args(None, Commands::Auth { auth: Auth::Login }).parse_flags(&mut c3).unwrap();
    assert!(!c3.gai.only_staged);
    args(None, Commands::Status { verbose: true }).parse_flags(&mut c3).unwrap();
    assert_eq!(c3.ai.hint.as_deref(), Some("h"));
}

fn cli(gemini: bool, chatgpt: bool, claude: bool) -> Cli {
    Cli {
        include_untracked: false,
        stage_hunks: false,
        api_key_file: None,
        include_file_tree: false,
        truncate_file: vec![],
        capitalize_prefix: false,
        include_scope: false,
        system_prompt: None,
        include_convention: false,
        group_related_files: false,
        no_file_splitting: false,
        separate_by_purpose: false,
        verbose_descriptions: false,
        exclude_extension_in_scope: false,
        allow_empty_scope: false,
        max_header_length: None,
        max_body_length: None,
        chatgpt,
        gemini,
        claude,
        command: CliCommands::Rebase {},
    }
}

#[test]
fn provider_flags() {
    let mut c = Config::default();
    c.ai.provider = Provider::Gai;
    cli(false, false, false).parse_args(&mut c);
    assert_eq!(c.ai.provider, Provider::Gai);
    cli(false, true, true).parse_args(&mut c);
    assert_eq!(c.ai.provider, Provider::OpenAI);
    cli(false, false, true).parse_args(&mut c);
    assert_eq!(c.ai.provider, Provider::Claude);
    cli(true, true, true).parse_args(&mut c);
    assert_eq!(c.ai.provider, Provider::Gemini);
}

fn flags() -> StatusFlags {
    StatusFlags {
        index_new: false,
        index_modified: false,
        index_deleted: false,
        index_renamed: false,
        index_typechange: false,
        wt_new: false,
        wt_modified: false,
        wt_deleted: false,
        wt_typechange: false,
        wt_renamed: false,
        ignored: false,
        conflicted: false,
    }
}

#[test]
fn status_kinds() {
    let mut f = flags();
    f.wt_new = true;
    f.wt_deleted = true;
    assert_eq!(StatusItemType::from_flags(f), StatusItemType::New);
    let mut g = flags();
    g.index_renamed = true;
    assert_eq!(StatusItemType::from_flags(g), StatusItemType::Renamed);
    assert_eq!(StatusItemType::from_flags(flags()), StatusItemType::Modified);
    assert_eq!(StatusItemType::from_delta(DeltaKind::Added), StatusItemType::New);
    assert_eq!(StatusItemType::Typechange.name(), "Typechange");
    let s = GitStatus {
        branch_name: "main".to_string(),
        statuses: vec![FileStatus { path: "a".to_string(), status: StatusItemType::Deleted }],
    };
    assert_eq!(s.to_request_string(), "Branch:main\nDeleted:a\n");
}

#[test]
fn working_tree_entries() {
    assert!(entry_status(flags(), true).is_none());
    let mut f = flags();
    f.wt_modified = true;
    f.wt_new = true;
    assert!(entry_status(f, false).is_none());
    match entry_status(f, true) {
        Some(Status::Changed(t)) => assert_eq!(t, "modified"),
        _ => panic!("expected a change"),
    }
    let mut n = flags();
    n.wt_new = true;
    assert!(matches!(entry_status(n, true), Some(Status::Untracked)));
    let mut files: Vec<(String, Status)> = Vec::new();
    let ignore = vec!["target".to_string()];
    record_entry(&mut files, f, true, "src/a.rs", &ignore);
    record_entry(&mut files, n, true, "build/target", &ignore);
    record_entry(&mut files, n, true, "src/a.rs", &ignore);
    assert_eq!(files.len(), 1);
    assert!(matches!(files[0].1, Status::Untracked));
}

#[test]
fn find_items() {
    let mut l = GitLog::parse_message("feat: x".to_string());
    l.files = vec!["a".to_string(), "b".to_string()];
    let logs = Logs { git_logs: vec![l] };
    assert_eq!(commit_items(&logs, false, false), vec!["CommitID:[0]\nCommitMessage:feat: x".to_string()]);
    assert_eq!(commit_items(&logs, true, false), vec!["CommitID:[0]\nCommitMessage:feat: x\nFiles:a,b".to_string()]);
    assert_eq!(commit_items(&logs, true, true), vec!["CommitID:[0]\nCommitMessage:feat: x\nFiles:a,b\nDiffs:".to_string()]);
    assert_eq!(join_strings(&vec![], ","), "");
    let d = FindArgs::default();
    assert_eq!(d.count, 0);
    assert!(!d.files && !d.diffs && !d.reverse);
    assert!(Diffs { files: vec![] }.as_files().is_empty());
}

#[test]
fn choosing_a_provider_twice_keeps_the_choice() {
    let mut c = Config::default();
    let flags = cli(false, true, false);
    flags.parse_args(&mut c);
    let first = c.ai.provider;
    flags.parse_args(&mut c);
    assert_eq!(c.ai.provider, first);
    assert_eq!(first, Provider::OpenAI);
}
