use gai::repo::{DiffType, GaiFile, HunkDiff, LineDiff};
use gai::response::{CommitMessage, PrefixType, ResponseCommit, ResponseSchema};
use gai::tabs::{get_content, get_list, initial_state, remove_selected, truncate_selected, SelectedTab, TabContent};
use gai::tui::State;

fn files() -> Vec<GaiFile> {
    vec![
        GaiFile {
            path: "a.rs".to_string(),
            should_truncate: false,
            hunks: vec![HunkDiff {
                header: "@@ h @@".to_string(),
                line_diffs: vec![LineDiff { diff_type: DiffType::Additions, content: "x\n".to_string() }],
            }],
        },
        GaiFile { path: "Cargo.lock".to_string(), should_truncate: true, hunks: vec![] },
        GaiFile { path: "b.rs".to_string(), should_truncate: false, hunks: vec![] },
    ]
}

fn answer() -> Vec<(String, Result<ResponseSchema, String>)> {
    vec![
        ("Gemini(m)".to_string(), Err("quota".to_string())),
        (
            "OpenAI(m)".to_string(),
            Ok(ResponseSchema {
                commits: vec![ResponseCommit {
                    files: vec!["a.rs".to_string()],
                    hunk_ids: vec![],
                    message: CommitMessage {
                        prefix: PrefixType::Feat,
                        scope: "X".to_string(),
                        breaking: false,
                        header: "add".to_string(),
                        body: String::new(),
                    },
                }],
            }),
        ),
    ]
}

#[test]
fn diffs_tab_lists() {
    let l = get_list(SelectedTab::Diffs, &files(), &vec![], false, true, false, &vec![], &vec![]);
    assert_eq!(l.main, vec!["a.rs", "b.rs"]);
    assert_eq!(l.secondary, Some(vec!["Cargo.lock".to_string()]));
    assert_eq!(l.main_title, "Files");
    assert_eq!(l.secondary_title.as_deref(), Some("Truncated"));
}

#[test]
fn provider_tab_lists() {
    let l = get_list(SelectedTab::OpenAI, &files(), &answer(), false, true, true, &vec!["f".to_string()], &vec!["h:0".to_string()]);
    assert_eq!(l.main, vec!["feat(x)"]);
    assert_eq!(l.secondary, Some(vec!["h:0".to_string()]));
    assert_eq!(l.secondary_title.as_deref(), Some("Failed Hunks"));
    let g = get_list(SelectedTab::Gemini, &files(), &answer(), false, true, false, &vec![], &vec![]);
    assert!(g.main.is_empty());
    assert!(g.secondary.is_none());
    assert_eq!(g.main_title, "Commits");
}

fn desc(c: TabContent) -> String {
    match c {
        TabContent::Description(d) => d,
        TabContent::Diff(_) => panic!("expected a description"),
    }
}

#[test]
fn contents() {
    let list = vec!["a.rs".to_string(), "b.rs".to_string()];
    match get_content(SelectedTab::Diffs, Some(0), &list, &files(), &vec![], &vec![], true) {
        TabContent::Diff(hs) => assert_eq!(hs[0].header, "@@ h @@"),
        _ => panic!("expected hunks"),
    }
    assert_eq!(desc(get_content(SelectedTab::Diffs, None, &list, &files(), &vec![], &vec![], true)), "Select a file to view it's diffs");
    assert_eq!(desc(get_content(SelectedTab::Diffs, Some(5), &list, &files(), &vec![], &vec![], true)), "Select a file to view it's diffs");
    assert_eq!(desc(get_content(SelectedTab::Diffs, Some(0), &vec!["Cargo.lock".to_string()], &files(), &vec![], &vec![], true)), "Truncated File");
    assert_eq!(
        desc(get_content(SelectedTab::OpenAI, Some(0), &list, &files(), &answer(), &vec![], true)),
        "files to stage:\na.rs\ndescription:\nadd\n"
    );
    assert_eq!(desc(get_content(SelectedTab::OpenAI, Some(3), &list, &files(), &answer(), &vec![], true)), "Select Commit to View Description/Details");
    assert_eq!(desc(get_content(SelectedTab::Gemini, None, &list, &files(), &answer(), &vec![], true)), "Error from provider:\nquota");
    assert_eq!(desc(get_content(SelectedTab::OpenAI, None, &list, &files(), &answer(), &vec![], false)), "OpenAI Provider not enabled");
    assert_eq!(desc(get_content(SelectedTab::Claude, None, &list, &files(), &answer(), &vec!["Anthropic(m)".to_string()], true)), "Loading...");
    assert_eq!(desc(get_content(SelectedTab::Claude, None, &list, &files(), &answer(), &vec![], true)), "Press p to send a request");
}

#[test]
fn edits_from_the_diffs_tab() {
    let mut fs = files();
    truncate_selected(SelectedTab::Diffs, Some(0), &mut fs);
    assert!(fs[0].should_truncate);
    truncate_selected(SelectedTab::OpenAI, Some(0), &mut fs);
    assert!(fs[0].should_truncate);
    let list = vec!["b.rs".to_string(), "a.rs".to_string()];
    remove_selected(SelectedTab::Diffs, Some(1), &list, &mut fs);
    assert_eq!(fs.len(), 2);
    assert_eq!(fs[0].path, "Cargo.lock");
    remove_selected(SelectedTab::Diffs, None, &list, &mut fs);
    assert_eq!(fs.len(), 2);
    assert_eq!(initial_state(true), State::Running);
    assert_eq!(initial_state(false), State::Splash);
}
