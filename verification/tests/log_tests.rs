use gai::diffs::Diffs;
use gai::errors::GitError;
use gai::log::{commit_date_string, get_short_hash, range_text, walk_limit, GitLog, Logs};
use gai::text::bytes2string;

#[test]
fn conventional_message_is_read() {
    let log = GitLog::parse_message("feat(api)!: add endpoint\n\nbody line\n".to_string());
    assert_eq!(log.prefix.as_deref(), Some("feat"));
    assert_eq!(log.scope.as_deref(), Some("api"));
    assert!(log.breaking);
    assert_eq!(log.header.as_deref(), Some("add endpoint"));
    assert_eq!(log.body.as_deref(), Some("body line"));
    assert_eq!(log.title(), "feat(api)!: add endpoint");
}

#[test]
fn message_without_colon_has_no_parts() {
    let log = GitLog::parse_message("just words\nmore".to_string());
    assert!(log.prefix.is_none());
    assert!(log.header.is_none());
    assert_eq!(log.title(), "just words");
}

#[test]
fn title_reads_back_into_the_same_parts() {
    let log = GitLog::parse_message("fix(core): handle empty input".to_string());
    let again = GitLog::parse_message(log.title());
    assert_eq!(again.prefix, log.prefix);
    assert_eq!(again.scope, log.scope);
    assert_eq!(again.breaking, log.breaking);
    assert_eq!(again.header, log.header);
}

#[test]
fn invalid_utf8_message_is_replaced() {
    let log = GitLog::from_bytes(&[0xff, 0xfe]);
    assert_eq!(log.raw, "Failed to convert msg from utf8");
    let log = GitLog::from_bytes("docs: readme".as_bytes());
    assert_eq!(log.prefix.as_deref(), Some("docs"));
}

#[test]
fn commit_details_and_date() {
    let mut log = GitLog::parse_message("chore: x".to_string());
    log.set_commit_details(None, "0123456789abcdef", 0);
    assert_eq!(log.author, "unknown author");
    assert_eq!(log.date, "01/01/1970 00:00:00");
    assert_eq!(get_short_hash(&log), "0123456");
    assert_eq!(commit_date_string(86400), "01/02/1970 00:00:00");
}

#[test]
fn short_hash_of_short_text() {
    let mut log = GitLog::parse_message("x".to_string());
    log.commit_hash = "abc".to_string();
    assert_eq!(get_short_hash(&log), "abc");
}

#[test]
fn logs_request_text() {
    let mut a = GitLog::parse_message("feat: a".to_string());
    a.author = "ann".to_string();
    let logs = Logs { git_logs: vec![a] };
    assert_eq!(logs.to_request_string(), "Author: ann\nMessage: feat: a\n");
}

#[test]
fn walk_limit_and_range() {
    assert_eq!(walk_limit(0), usize::MAX);
    assert_eq!(walk_limit(5), 5);
    assert_eq!(range_text("abc", "def"), "abc..def");
}

#[test]
fn bytes_to_string() {
    assert_eq!(bytes2string("héllo".as_bytes()), Some("héllo".to_string()));
    assert_eq!(bytes2string(&[0xc3]), None);
}

#[test]
fn git_error_messages() {
    assert_eq!(GitError::BareRepo.message(), "This is a bare repository");
    assert_eq!(GitError::InvalidHunk("a".to_string()).message(), "Invalid Hunk:a");
    assert_eq!(GitError::NoHead.message(), "No Head found");
    assert_eq!(GitError::Generic("g".to_string()).message(), "g");
    assert_eq!(GitError::Git2("e".to_string()).message(), "e");
    assert_eq!(GitError::PatchError.message(), "Patch Error");
    assert_eq!(GitError::RebaseConflict.message(), "Conflict exists, aborting");
}

#[test]
fn empty_diffs_text() {
    assert_eq!(Diffs { files: vec![] }.to_request_string(), "");
}
