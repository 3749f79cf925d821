use gai::graph::{Arena, TreeColor};
use gai::print::{commits_arena, status_arena};
use gai::repo::GaiStatus;
use gai::response::{CommitMessage, PrefixType, ResponseCommit};

fn texts(segs: &[(TreeColor, String)]) -> String {
    segs.iter().map(|s| s.1.as_str()).collect::<Vec<_>>().concat()
}

#[test]
fn arena_renders_branches() {
    let mut a = Arena::new();
    let root = a.new_node("root".to_string(), TreeColor::Green);
    let c1 = a.new_node("one".to_string(), TreeColor::Blue);
    let c2 = a.new_node("two".to_string(), TreeColor::Red);
    let g = a.new_node("leaf".to_string(), TreeColor::White);
    a.set_count(root, 2);
    a.set_prefix(c2, "M".to_string());
    a.add_child(root, c1);
    a.add_child(root, c2);
    a.add_child(c2, g);
    let out = a.print_tree();
    assert_eq!(
        texts(&out),
        "└─ root [2]\n  ├── one\n  └── M two\n     └─ leaf\n"
    );
    assert_eq!(out[0], (TreeColor::DarkGrey, "└─ ".to_string()));
    assert_eq!(out[1], (TreeColor::Green, "root".to_string()));
    assert_eq!(out[3], (TreeColor::Reset, "\n".to_string()));
}

#[test]
fn several_roots() {
    let mut a = Arena::new();
    a.new_node("a".to_string(), TreeColor::Green);
    a.new_node("b".to_string(), TreeColor::Green);
    assert_eq!(texts(&a.print_tree()), "├─ a\n└─ b\n");
    assert_eq!(a.len(), 2);
}

#[test]
fn truncate_text() {
    let a = Arena::new();
    assert_eq!(a.truncate("hello world", 5), "hello...");
    assert_eq!(a.truncate("short", 5), "short");
    assert_eq!(a.truncate("héllo", 3), "hé...");
}

fn status() -> GaiStatus {
    GaiStatus {
        s_new: vec!["n.rs".to_string()],
        s_modified: vec![],
        s_deleted: vec![],
        s_renamed: vec![("old".to_string(), "new".to_string())],
        u_new: vec![],
        u_modified: vec!["m.rs".to_string()],
        u_deleted: vec![],
        u_renamed: vec![],
    }
}

#[test]
fn status_tree() {
    let a = status_arena(&status()).unwrap();
    assert_eq!(
        texts(&a.print_tree()),
        "├─ ✓ Staged [2]\n│ ├── New [1]\n│ │  └─ A n.rs\n│ └── Renamed [1]\n│    └─ R old → new\n└─ ⚠ Unstaged [1]\n  └── Modified [1]\n     └─ M m.rs\n"
    );
    let empty = GaiStatus {
        s_new: vec![],
        s_modified: vec![],
        s_deleted: vec![],
        s_renamed: vec![],
        u_new: vec![],
        u_modified: vec![],
        u_deleted: vec![],
        u_renamed: vec![],
    };
    assert!(status_arena(&empty).is_none());
}

#[test]
fn commits_tree() {
    let c = ResponseCommit {
        files: vec!["a.rs".to_string(), "b.rs".to_string()],
        hunk_ids: vec!["a.rs:0".to_string()],
        message: CommitMessage {
            prefix: PrefixType::Feat,
            scope: "Core".to_string(),
            breaking: false,
            header: "add a".to_string(),
            body: "a body that is quite a bit longer than forty five bytes in all".to_string(),
        },
    };
    let a = commits_arena(&[c], false, true, false);
    assert_eq!(
        texts(&a.print_tree()),
        "└─ Commit 1\n  ├── feat(core)\n  ├── Header: add a\n  ├── Body: a body that is quite a bit longer than forty ...\n  └── Files [2]\n     ├─ a.rs\n     └─ b.rs\n"
    );
    let c2 = ResponseCommit {
        files: vec![],
        hunk_ids: vec!["a.rs:0".to_string(), "b.rs:1".to_string()],
        message: CommitMessage {
            prefix: PrefixType::Fix,
            scope: String::new(),
            breaking: true,
            header: "h".to_string(),
            body: String::new(),
        },
    };
    let a = commits_arena(&[c2], true, false, true);
    assert_eq!(
        texts(&a.print_tree()),
        "└─ Commit 1\n  ├── Fix!\n  ├── Header: h\n  └── Hunks: [\"a.rs:0\", \"b.rs:1\"]\n"
    );
}
