//! Commit logs: parsing a commit message as a conventional commit
//! ("prefix(scope)!: header" and a body), the one-line title a log is shown
//! with, short hashes and commit dates.
use vstd::prelude::*;
use vstd::string::*;
use vstd::utf8::{decode_utf8, valid_utf8};

use crate::diffs::Diffs;
use crate::text::{
    byte_prefix, byte_prefix_chars, contains_char, copy_range, cut_inside_char, find_char,
    find_char_in, from_chars, is_ws, join, join_from, lemma_contains_concat, lemma_find_after,
    lemma_lines_single, lemma_remove_char_absent, lemma_remove_char_concat, lemma_trim_clean,
    lemma_trim_space_clean, lines, push_char, push_str, remove_all, remove_char, split_lines,
    find_from, remove_char_prefix,
    to_chars, trim, trim_chars, utf8_str, lines_scan, strip_cr, trim_start_from, trim_end_to,
};

verus! {

/// The logs of a range of commits.
#[derive(Debug)]
pub struct Logs {
    pub git_logs: Vec<GitLog>,
}

/// A commit as shown in logs.
#[derive(Debug)]
pub struct GitLog {
    pub prefix: Option<String>,
    pub breaking: bool,
    pub scope: Option<String>,
    pub header: Option<String>,
    pub body: Option<String>,
    /// the raw commit message
    pub raw: String,
    pub date: String,
    pub author: String,
    pub commit_hash: String,
    /// paths of the files the commit touches
    pub files: Vec<String>,
    pub diffs: Diffs,
}

/// The parts of a commit message: prefix, scope, breaking mark, header and body.
pub type MessageParts = (Option<Seq<char>>, Option<Seq<char>>, bool, Option<Seq<char>>, Option<Seq<char>>);

/// `None` for empty text, else the text.
pub open spec fn non_empty(s: Seq<char>) -> Option<Seq<char>> {
    if s.len() == 0 {
        None
    } else {
        Some(s)
    }
}

/// The first line of a text, or nothing when it has no line.
pub open spec fn first_line(raw: Seq<char>) -> Seq<char> {
    if lines(raw).len() > 0 {
        lines(raw)[0]
    } else {
        Seq::empty()
    }
}

/// The lines after the first, joined by line breaks and trimmed.
pub open spec fn body_text(raw: Seq<char>) -> Seq<char> {
    if lines(raw).len() <= 1 {
        Seq::empty()
    } else {
        trim(join(lines(raw).skip(1), seq!['\n']))
    }
}

/// The part of the first line before its first ':', without any '!'.
pub open spec fn prefix_part(fl: Seq<char>, colon: int) -> Seq<char> {
    remove_char(fl.subrange(0, colon), '!')
}

/// Whether parsing the message would slice past a ')' that comes before the '('.
pub open spec fn parse_panics(raw: Seq<char>) -> bool {
    let fl = first_line(raw);
    match find_char(fl, ':') {
        None => false,
        Some(c) => {
            let pp = prefix_part(fl, c);
            match (find_char(pp, '('), find_char(pp, ')')) {
                (Some(a), Some(b)) => b < a,
                _ => false,
            }
        },
    }
}

/// The parts of a commit message read as "prefix(scope)!: header" on its first
/// line and a body after it. Without a ':' on the first line nothing is read.
pub open spec fn spec_parse_message(raw: Seq<char>) -> MessageParts {
    let fl = first_line(raw);
    let body = non_empty(body_text(raw));
    match find_char(fl, ':') {
        None => (None, None, false, None, None),
        Some(c) => {
            let header = non_empty(trim(fl.subrange(c + 1, fl.len() as int)));
            let breaking = fl.subrange(0, c).contains('!');
            let pp = prefix_part(fl, c);
            match (find_char(pp, '('), find_char(pp, ')')) {
                (Some(a), Some(b)) => (
                    non_empty(trim(pp.subrange(0, a))),
                    non_empty(trim(pp.subrange(a + 1, b))),
                    breaking,
                    header,
                    body,
                ),
                _ => (non_empty(trim(pp)), None, breaking, header, body),
            }
        },
    }
}

/// The text a commit message is read from: the message itself when it is UTF-8,
/// else a fixed notice.
pub open spec fn message_text(bytes: Seq<u8>) -> Seq<char> {
    if valid_utf8(bytes) {
        decode_utf8(bytes)
    } else {
        "Failed to convert msg from utf8"@
    }
}

/// The commit date text for a timestamp: chrono's `DateTime::from_timestamp(secs, 0)`
/// formatted with "%m/%d/%Y %H:%M:%S"; `None` when chrono has no date for it.
pub uninterp spec fn chrono_date_text(secs: i64) -> Option<Seq<char>>;

/// Calls chrono's `DateTime::from_timestamp(secs, 0)` and formats the date with
/// "%m/%d/%Y %H:%M:%S". The contract claims only that the result is the one
/// that `chrono_date_text` names for `secs`; nothing is said of the calendar.
#[verifier::external_body]
fn chrono_date(secs: i64) -> (r: Option<String>)
    ensures
        r is Some <==> chrono_date_text(secs) is Some,
        r matches Some(s) ==> chrono_date_text(secs) == Some(s@),
{
    chrono::DateTime::from_timestamp(secs, 0).map(|dt| dt.format("%m/%d/%Y %H:%M:%S").to_string())
}

/// The date shown for a commit made at `secs`: the formatted date, or empty text
/// when there is none.
pub fn commit_date_string(secs: i64) -> (r: String)
    ensures
        r@ == match chrono_date_text(secs) {
            Some(t) => t,
            None => Seq::empty(),
        },
{
    match chrono_date(secs) {
        Some(s) => s,
        None => String::new(),
    }
}

/// An optional text from characters: `None` when there are none.
fn opt_string(v: &Vec<char>) -> (r: Option<String>)
    ensures
        r.deep_view() == non_empty(v@),
{
    if v.len() == 0 {
        None
    } else {
        Some(from_chars(v))
    }
}

/// The one-line title of a log: the conventional parts when there are any.
pub open spec fn spec_title(
    prefix: Option<Seq<char>>,
    scope: Option<Seq<char>>,
    breaking: bool,
    header: Option<Seq<char>>,
    raw: Seq<char>,
) -> Seq<char> {
    let bang: Seq<char> = if breaking {
        seq!['!']
    } else {
        Seq::empty()
    };
    match (prefix, scope, header) {
        (Some(p), Some(s), Some(h)) => p + seq!['('] + s + seq![')'] + bang + seq![':', ' '] + h,
        (Some(p), None, Some(h)) => p + bang + seq![':', ' '] + h,
        (Some(p), Some(s), None) => p + seq!['('] + s + seq![')'] + bang,
        (Some(p), None, None) => p + bang,
        _ => if lines(raw).len() > 0 {
            lines(raw)[0]
        } else {
            raw
        },
    }
}

impl GitLog {
    /// The parts read from the message, as values.
    pub open spec fn parts(&self) -> MessageParts {
        (
            self.prefix.deep_view(),
            self.scope.deep_view(),
            self.breaking,
            self.header.deep_view(),
            self.body.deep_view(),
        )
    }

    /// Whether every field that is not read from the message is empty.
    pub open spec fn details_empty(&self) -> bool {
        &&& self.date@.len() == 0
        &&& self.author@.len() == 0
        &&& self.commit_hash@.len() == 0
        &&& self.files@.len() == 0
        &&& self.diffs.files@.len() == 0
    }

    /// Reads a commit message: the parts of "prefix(scope)!: header" on the first
    /// line and the trimmed body after it; the message is kept as `raw`.
    pub fn parse_message(raw: String) -> (r: GitLog)
        requires
            !parse_panics(raw@),
        ensures
            r.parts() == spec_parse_message(raw@),
            r.raw@ == raw@,
            r.details_empty(),
    {
        let chars = to_chars(raw.as_str());
        let ls = split_lines(&chars);
        let ghost lv = ls@.map_values(|l: Vec<char>| l@);
        assert(lv == lines(raw@));
        let fl: Vec<char> = if ls.len() > 0 {
            copy_range(&ls[0], 0, ls[0].len())
        } else {
            Vec::new()
        };
        assert(fl@ == first_line(raw@)) by {
            if ls.len() > 0 {
                assert(lv[0] == ls@[0]@);
                assert(ls@[0]@.subrange(0, ls@[0]@.len() as int) == ls@[0]@);
            }
        }
        let body_chars: Vec<char> = if ls.len() <= 1 {
            Vec::new()
        } else {
            let joined = join_from(&ls, 1, &['\n']);
            trim_chars(&joined)
        };
        assert(body_chars@ == body_text(raw@)) by {
            if ls.len() > 1 {
                let nl: &[char] = &['\n'];
                assert(nl@ == seq!['\n']);
            }
        }
        let body = opt_string(&body_chars);
        match find_char_in(&fl, ':') {
            None => GitLog {
                prefix: None,
                breaking: false,
                scope: None,
                header: None,
                body: None,
                raw,
                date: String::new(),
                author: String::new(),
                commit_hash: String::new(),
                files: Vec::new(),
                diffs: Diffs { files: Vec::new() },
            },
            Some(c) => {
                let after = copy_range(&fl, c + 1, fl.len());
                let header_chars = trim_chars(&after);
                let header = opt_string(&header_chars);
                let before = copy_range(&fl, 0, c);
                let breaking = contains_char(&before, '!');
                let pp = remove_all(&before, '!');
                match (find_char_in(&pp, '('), find_char_in(&pp, ')')) {
                    (Some(a), Some(b)) => {
                        let p0 = copy_range(&pp, 0, a);
                        let p = trim_chars(&p0);
                        let s0 = copy_range(&pp, a + 1, b);
                        let s = trim_chars(&s0);
                        GitLog {
                            prefix: opt_string(&p),
                            breaking,
                            scope: opt_string(&s),
                            header,
                            body,
                            raw,
                            date: String::new(),
                            author: String::new(),
                            commit_hash: String::new(),
                            files: Vec::new(),
                            diffs: Diffs { files: Vec::new() },
                        }
                    },
                    _ => {
                        let p = trim_chars(&pp);
                        GitLog {
                            prefix: opt_string(&p),
                            breaking,
                            scope: None,
                            header,
                            body,
                            raw,
                            date: String::new(),
                            author: String::new(),
                            commit_hash: String::new(),
                            files: Vec::new(),
                            diffs: Diffs { files: Vec::new() },
                        }
                    },
                }
            },
        }
    }

    /// Reads a commit message given as bytes: UTF-8 text is read as a
    /// conventional commit; other bytes give a fixed notice as the message.
    pub fn from_bytes(value: &[u8]) -> (r: GitLog)
        requires
            !parse_panics(message_text(value@)),
        ensures
            r.parts() == spec_parse_message(message_text(value@)),
            r.raw@ == message_text(value@),
            r.details_empty(),
    {
        let raw = match utf8_str(value) {
            Some(s) => String::from_str(s),
            None => String::from_str("Failed to convert msg from utf8"),
        };
        GitLog::parse_message(raw)
    }

    /// Fills in who made the commit (or "unknown author"), its hash and its date.
    pub fn set_commit_details(&mut self, author: Option<&str>, hash: &str, secs: i64)
        ensures
            final(self).author@ == match author {
                Some(a) => a@,
                None => "unknown author"@,
            },
            final(self).commit_hash@ == hash@,
            final(self).date@ == match chrono_date_text(secs) {
                Some(t) => t,
                None => Seq::empty(),
            },
            final(self).parts() == old(self).parts(),
            final(self).raw@ == old(self).raw@,
            final(self).files@ == old(self).files@,
            final(self).diffs@ == old(self).diffs@,
    {
        self.author = match author {
            Some(a) => String::from_str(a),
            None => String::from_str("unknown author"),
        };
        self.commit_hash = String::from_str(hash);
        self.date = commit_date_string(secs);
    }

    /// The one-line title of the log: "prefix(scope)!: header" built from the parts
    /// there are, or the first line of the raw message when there is no prefix.
    pub fn title(&self) -> (r: String)
        ensures
            r@ == spec_title(
                self.prefix.deep_view(),
                self.scope.deep_view(),
                self.breaking,
                self.header.deep_view(),
                self.raw@,
            ),
    {
        match &self.prefix {
            Some(p) => {
                let mut s = p.clone();
                match &self.scope {
                    Some(sc) => {
                        push_char(&mut s, '(');
                        push_str(&mut s, sc.as_str());
                        push_char(&mut s, ')');
                    },
                    None => {},
                }
                if self.breaking {
                    push_char(&mut s, '!');
                }
                match &self.header {
                    Some(h) => {
                        push_char(&mut s, ':');
                        push_char(&mut s, ' ');
                        push_str(&mut s, h.as_str());
                    },
                    None => {},
                }
                s
            },
            None => {
                let chars = to_chars(self.raw.as_str());
                let ls = split_lines(&chars);
                if ls.len() > 0 {
                    proof {
                        assert(ls@.map_values(|l: Vec<char>| l@)[0] == ls@[0]@);
                    }
                    from_chars(&ls[0])
                } else {
                    self.raw.clone()
                }
            },
        }
    }
}

/// The short form of a commit hash: its first seven bytes (or all of it).
pub fn get_short_hash(git_log: &GitLog) -> (r: String)
    requires
        !cut_inside_char(git_log.commit_hash@, 7),
    ensures
        r@ == byte_prefix(git_log.commit_hash@, 7),
{
    let v = to_chars(git_log.commit_hash.as_str());
    match byte_prefix_chars(&v, 7) {
        Some(p) => from_chars(&p),
        None => String::new(),
    }
}

impl Logs {
    /// The text of the logs in a request: "Author: a" and "Message: m" lines per
    /// log.
    pub fn to_request_string(&self) -> (r: String)
        ensures
            r@ == logs_text(self.git_logs@.map_values(|l: GitLog| (l.author@, l.raw@))),
    {
        let ghost ls = self.git_logs@.map_values(|l: GitLog| (l.author@, l.raw@));
        let mut s = String::new();
        let mut i: usize = 0;
        while i < self.git_logs.len()
            invariant
                i <= self.git_logs.len(),
                ls == self.git_logs@.map_values(|l: GitLog| (l.author@, l.raw@)),
                s@ == logs_text(ls.take(i as int)),
            decreases self.git_logs.len() - i,
        {
            let log = &self.git_logs[i];
            push_str(&mut s, "Author: ");
            push_str(&mut s, log.author.as_str());
            push_char(&mut s, '\n');
            push_str(&mut s, "Message: ");
            push_str(&mut s, log.raw.as_str());
            push_char(&mut s, '\n');
            assert(ls.take(i + 1).drop_last() == ls.take(i as int));
            assert(ls.take(i + 1).last() == (log.author@, log.raw@));
            i = i + 1;
        }
        assert(ls.take(self.git_logs.len() as int) == ls);
        s
    }
}

/// "Author: a\nMessage: m\n" for each (author, message).
pub open spec fn logs_text(ls: Seq<(Seq<char>, Seq<char>)>) -> Seq<char>
    decreases ls.len(),
{
    if ls.len() == 0 {
        Seq::empty()
    } else {
        logs_text(ls.drop_last()) + "Author: "@ + ls.last().0 + seq!['\n'] + "Message: "@
            + ls.last().1 + seq!['\n']
    }
}

// ---------------------------------------------------------------------------
// Laws

/// A prefix or scope that reads back unchanged: not empty, no whitespace at its
/// ends, and none of ':', '(', ')', '!' or a line break in it.
pub open spec fn clean_word(s: Seq<char>) -> bool {
    &&& s.len() > 0
    &&& !is_ws(s[0])
    &&& !is_ws(s.last())
    &&& !s.contains(':')
    &&& !s.contains('(')
    &&& !s.contains(')')
    &&& !s.contains('!')
    &&& !s.contains('\n')
}

/// A header that reads back unchanged: not empty, no whitespace at its ends, no
/// line break.
pub open spec fn clean_header(h: Seq<char>) -> bool {
    &&& h.len() > 0
    &&& !is_ws(h[0])
    &&& !is_ws(h.last())
    &&& !h.contains('\n')
}

/// Law: the title of a conventional commit with a scope, read as a commit
/// message, gives back its prefix, scope, breaking mark and header, and no body.
pub proof fn lemma_title_roundtrip_scoped(p: Seq<char>, s: Seq<char>, breaking: bool, h: Seq<char>)
    requires
        clean_word(p),
        clean_word(s),
        clean_header(h),
    ensures
        spec_parse_message(spec_title(Some(p), Some(s), breaking, Some(h), Seq::empty())) == (
            Some(p),
            Some(s),
            breaking,
            Some(h),
            None::<Seq<char>>,
        ),
        !parse_panics(spec_title(Some(p), Some(s), breaking, Some(h), Seq::empty())),
{
    let bang: Seq<char> = if breaking {
        seq!['!']
    } else {
        Seq::empty()
    };
    let q = p + seq!['('] + s + seq![')'] + bang;
    let rest = seq![' '] + h;
    let t = spec_title(Some(p), Some(s), breaking, Some(h), Seq::empty());
    assert(t =~= q + seq![':'] + rest);
    // the message is one line
    lemma_no_char_in_title(p, s, bang, h, '\n');
    lemma_lines_single(t, 0, 0);
    assert(lines(t) == seq![t.subrange(0, t.len() as int)]);
    assert(t.subrange(0, t.len() as int) == t);
    assert(first_line(t) == t);
    assert(body_text(t) == Seq::<char>::empty());
    // the first ':' ends the prefix part
    lemma_no_char_in_prefix_part(p, s, bang, ':');
    lemma_find_after(q, ':', rest, 0);
    assert(t.subrange(0, q.len() as int) == q);
    assert(t.subrange(q.len() + 1int, t.len() as int) == rest);
    lemma_trim_space_clean(h);
    // the breaking mark
    lemma_contains_concat(p + seq!['('] + s + seq![')'], bang, '!');
    lemma_no_char_in_parens(p, s, '!');
    if breaking {
        assert(bang[0] == '!');
    }
    // removing '!' leaves the prefix and the scope in parentheses
    let core = p + seq!['('] + s + seq![')'];
    lemma_remove_char_concat(core, bang, '!', bang.len() as int);
    assert(q == core + bang);
    lemma_remove_char_absent(core, '!', core.len() as int);
    assert(core.subrange(0, core.len() as int) == core);
    if breaking {
        assert(bang.subrange(0, 0) =~= Seq::<char>::empty());
        lemma_remove_lone_bang(bang);
    }
    assert(remove_char_prefix(bang, '!', bang.len() as int) =~= Seq::<char>::empty());
    assert(prefix_part(t, q.len() as int) == core);
    // the parentheses
    lemma_find_after(p, '(', s + seq![')'], 0);
    assert(core =~= p + seq!['('] + (s + seq![')']));
    lemma_contains_concat(p, seq!['('], ')');
    lemma_contains_concat(p + seq!['('], s, ')');
    assert(!seq!['('].contains(')')) by {
        assert(seq!['('][0] == '(');
    }
    lemma_find_after(p + seq!['('] + s, ')', Seq::empty(), 0);
    assert(core =~= p + seq!['('] + s + seq![')'] + Seq::<char>::empty());
    assert(core.subrange(0, p.len() as int) == p);
    assert(core.subrange(p.len() + 1int, p.len() + 1int + s.len()) == s);
    lemma_trim_clean(p);
    lemma_trim_clean(s);
}

/// Removing '!' from a lone "!" leaves nothing.
proof fn lemma_remove_lone_bang(bang: Seq<char>)
    requires
        bang == seq!['!'],
    ensures
        remove_char_prefix(bang, '!', 1) =~= Seq::<char>::empty(),
{
    assert(remove_char_prefix(bang, '!', 0) =~= Seq::<char>::empty());
}

/// Law: the title of a conventional commit without a scope, read as a commit
/// message, gives back its prefix, breaking mark and header, and no scope or body.
pub proof fn lemma_title_roundtrip_unscoped(p: Seq<char>, breaking: bool, h: Seq<char>)
    requires
        clean_word(p),
        clean_header(h),
    ensures
        spec_parse_message(spec_title(Some(p), None, breaking, Some(h), Seq::empty())) == (
            Some(p),
            None::<Seq<char>>,
            breaking,
            Some(h),
            None::<Seq<char>>,
        ),
        !parse_panics(spec_title(Some(p), None, breaking, Some(h), Seq::empty())),
{
    let bang: Seq<char> = if breaking {
        seq!['!']
    } else {
        Seq::empty()
    };
    let q = p + bang;
    let rest = seq![' '] + h;
    let t = spec_title(Some(p), None, breaking, Some(h), Seq::empty());
    assert(t =~= q + seq![':'] + rest);
    // one line
    lemma_contains_concat(p, bang, '\n');
    lemma_contains_concat(q, seq![':'], '\n');
    lemma_contains_concat(seq![' '], h, '\n');
    lemma_contains_concat(q + seq![':'], rest, '\n');
    if breaking {
        assert(!bang.contains('\n')) by {
            assert(bang[0] == '!');
        }
    }
    assert(!seq![':'].contains('\n')) by {
        assert(seq![':'][0] == ':');
    }
    assert(!seq![' '].contains('\n')) by {
        assert(seq![' '][0] == ' ');
    }
    lemma_lines_single(t, 0, 0);
    assert(t.subrange(0, t.len() as int) == t);
    assert(first_line(t) == t);
    // the first ':'
    lemma_contains_concat(p, bang, ':');
    if breaking {
        assert(!bang.contains(':')) by {
            assert(bang[0] == '!');
        }
    }
    lemma_find_after(q, ':', rest, 0);
    assert(t.subrange(0, q.len() as int) == q);
    assert(t.subrange(q.len() + 1int, t.len() as int) == rest);
    lemma_trim_space_clean(h);
    // breaking mark
    lemma_contains_concat(p, bang, '!');
    if breaking {
        assert(bang[0] == '!');
    }
    // no '!' left, no parentheses
    lemma_remove_char_concat(p, bang, '!', bang.len() as int);
    lemma_remove_char_absent(p, '!', p.len() as int);
    assert(p.subrange(0, p.len() as int) == p);
    if breaking {
        lemma_remove_lone_bang(bang);
    }
    assert(remove_char_prefix(bang, '!', bang.len() as int) =~= Seq::<char>::empty());
    assert(prefix_part(t, q.len() as int) == p);
    lemma_find_none(p, '(', 0);
    lemma_trim_clean(p);
}

/// Law: the title of a conventional commit with a scope, read from its UTF-8
/// bytes as a commit message (which does not fail) and shown as a title again,
/// is the same text.
pub proof fn lemma_log_roundtrip_scoped(
    bytes: Seq<u8>,
    p: Seq<char>,
    s: Seq<char>,
    breaking: bool,
    h: Seq<char>,
)
    requires
        clean_word(p),
        clean_word(s),
        clean_header(h),
        valid_utf8(bytes),
        decode_utf8(bytes) == spec_title(Some(p), Some(s), breaking, Some(h), Seq::empty()),
    ensures
        !parse_panics(message_text(bytes)),
        ({
            let m = message_text(bytes);
            let parts = spec_parse_message(m);
            spec_title(parts.0, parts.1, parts.2, parts.3, m) == decode_utf8(bytes)
        }),
{
    lemma_title_roundtrip_scoped(p, s, breaking, h);
}

/// Law: the title of a conventional commit without a scope, read from its
/// UTF-8 bytes as a commit message (which does not fail) and shown as a title
/// again, is the same text.
pub proof fn lemma_log_roundtrip_unscoped(bytes: Seq<u8>, p: Seq<char>, breaking: bool, h: Seq<char>)
    requires
        clean_word(p),
        clean_header(h),
        valid_utf8(bytes),
        decode_utf8(bytes) == spec_title(Some(p), None, breaking, Some(h), Seq::empty()),
    ensures
        !parse_panics(message_text(bytes)),
        ({
            let m = message_text(bytes);
            let parts = spec_parse_message(m);
            spec_title(parts.0, parts.1, parts.2, parts.3, m) == decode_utf8(bytes)
        }),
{
    lemma_title_roundtrip_unscoped(p, breaking, h);
}

/// A text without `c` has no `c` at or after `i`.
pub proof fn lemma_find_none(p: Seq<char>, c: char, i: int)
    requires
        0 <= i <= p.len(),
        !p.contains(c),
    ensures
        find_from(p, c, i) is None,
    decreases p.len() - i,
{
    if i < p.len() {
        assert(p[i] != c);
        lemma_find_none(p, c, i + 1);
    }
}

/// `c` is in none of the parts of "p(s)".
proof fn lemma_no_char_in_parens(p: Seq<char>, s: Seq<char>, c: char)
    requires
        !p.contains(c),
        !s.contains(c),
        c != '(',
        c != ')',
    ensures
        !(p + seq!['('] + s + seq![')']).contains(c),
{
    lemma_contains_concat(p, seq!['('], c);
    lemma_contains_concat(p + seq!['('], s, c);
    lemma_contains_concat(p + seq!['('] + s, seq![')'], c);
    assert(!seq!['('].contains(c)) by {
        assert(seq!['('][0] == '(');
    }
    assert(!seq![')'].contains(c)) by {
        assert(seq![')'][0] == ')');
    }
}

/// `c` is in none of the parts of "p(s)!".
proof fn lemma_no_char_in_prefix_part(p: Seq<char>, s: Seq<char>, bang: Seq<char>, c: char)
    requires
        clean_word(p),
        clean_word(s),
        bang == seq!['!'] || bang == Seq::<char>::empty(),
        c == ':' || c == '\n',
    ensures
        !(p + seq!['('] + s + seq![')'] + bang).contains(c),
{
    lemma_no_char_in_parens(p, s, c);
    lemma_contains_concat(p + seq!['('] + s + seq![')'], bang, c);
    if bang.len() > 0 {
        assert(!bang.contains(c)) by {
            assert(bang[0] == '!');
        }
    }
}

/// `c` is in none of the parts of "p(s)!: h".
proof fn lemma_no_char_in_title(p: Seq<char>, s: Seq<char>, bang: Seq<char>, h: Seq<char>, c: char)
    requires
        clean_word(p),
        clean_word(s),
        clean_header(h),
        bang == seq!['!'] || bang == Seq::<char>::empty(),
        c == '\n',
    ensures
        !(p + seq!['('] + s + seq![')'] + bang + seq![':', ' '] + h).contains(c),
{
    lemma_no_char_in_prefix_part(p, s, bang, c);
    let q = p + seq!['('] + s + seq![')'] + bang;
    lemma_contains_concat(q, seq![':', ' '], c);
    lemma_contains_concat(q + seq![':', ' '], h, c);
    assert(!seq![':', ' '].contains(c)) by {
        let w = seq![':', ' '];
        assert(w[0] == ':' && w[1] == ' ');
    }
}

/// How many commits a walk of the history takes: `count`, or all of them
/// when `count` is 0.
pub fn walk_limit(count: usize) -> (r: usize)
    ensures
        r == if count == 0 {
            usize::MAX
        } else {
            count
        },
{
    if count == 0 {
        usize::MAX
    } else {
        count
    }
}

/// The revision range from `from` to `to`, "from..to".
pub fn range_text(from: &str, to: &str) -> (r: String)
    ensures
        r@ == from@ + ".."@ + to@,
{
    let mut r = String::from_str(from);
    push_str(&mut r, "..");
    push_str(&mut r, to);
    r
}

/// The oldest author time a log walk keeps: `since` seconds before `now`, or
/// 0 (no limit) without `since`. The seconds are taken as an `i64` the way
/// `as` does.
pub fn since_cutoff(now: i64, since_secs: Option<u64>) -> (r: i64)
    requires
        since_secs matches Some(d) ==> i64::MIN <= now - (d as i64) <= i64::MAX,
    ensures
        r == match since_secs {
            Some(d) => now - (d as i64),
            None => 0,
        },
{
    match since_secs {
        Some(d) => now - (d as i64),
        None => 0,
    }
}

/// How many commits of a walk are kept: the walk stops at the first commit
/// whose author time is before `last_time`.
pub fn recent_count(times: &Vec<i64>, last_time: i64) -> (r: usize)
    ensures
        r <= times@.len(),
        forall|i: int| 0 <= i < r ==> times@[i] >= last_time,
        r < times@.len() ==> times@[r as int] < last_time,
{
    let mut i: usize = 0;
    while i < times.len()
        invariant
            i <= times@.len(),
            forall|j: int| 0 <= j < i ==> times@[j] >= last_time,
        decreases times.len() - i,
    {
        if times[i] < last_time {
            return i;
        }
        i = i + 1;
    }
    i
}

/// `t` without one line break at its end, when it ends with one.
pub open spec fn strip_final_newline(t: Seq<char>) -> Seq<char> {
    if t.len() > 0 && t.last() == '\n' {
        t.drop_last()
    } else {
        t
    }
}

/// Scanning through characters that are not line breaks up to the break at
/// `k` ends the current line there.
proof fn lemma_scan_to_break(s: Seq<char>, start: int, i: int, k: int)
    requires
        0 <= start <= i <= k < s.len(),
        s[k] == '\n',
        forall|j: int| i <= j < k ==> s[j] != '\n',
    ensures
        lines_scan(s, start, i) == seq![strip_cr(s.subrange(start, k))] + lines_scan(
            s,
            k + 1,
            k + 1,
        ),
    decreases k - i,
{
    if i < k {
        lemma_scan_to_break(s, start, i + 1, k);
    }
}

/// The lines of `p + q` found after `p` are those of `q`.
proof fn lemma_scan_shift(p: Seq<char>, q: Seq<char>, st: int, i: int)
    requires
        0 <= st <= i <= q.len(),
    ensures
        lines_scan(p + q, p.len() + st, p.len() + i) == lines_scan(q, st, i),
    decreases q.len() - i,
{
    let s = p + q;
    let pl = p.len() as int;
    if i < q.len() {
        assert(s[pl + i] == q[i]);
        if q[i] == '\n' {
            lemma_scan_shift(p, q, i + 1, i + 1);
            assert(s.subrange(pl + st, pl + i) =~= q.subrange(st, i));
        } else {
            lemma_scan_shift(p, q, st, i + 1);
        }
    } else {
        assert(s.subrange(pl + st, s.len() as int) =~= q.subrange(st, q.len() as int));
    }
}

/// Joining a line before at least one other puts a separator after it.
proof fn lemma_join_prepend(a: Seq<char>, ls: Seq<Seq<char>>, sep: Seq<char>)
    requires
        ls.len() > 0,
    ensures
        join(seq![a] + ls, sep) == a + sep + join(ls, sep),
    decreases ls.len(),
{
    let all = seq![a] + ls;
    assert(all.len() == ls.len() + 1);
    if ls.len() == 1 {
        assert(all.drop_last() =~= seq![a]);
        assert(join(seq![a], sep) == a);
        assert(all.last() == ls[0]);
        assert(join(ls, sep) == ls[0]);
        assert(join(all, sep) == join(all.drop_last(), sep) + sep + all.last());
    } else {
        assert(all.drop_last() =~= seq![a] + ls.drop_last());
        lemma_join_prepend(a, ls.drop_last(), sep);
        assert(all.last() == ls.last());
        assert(join(ls, sep) == join(ls.drop_last(), sep) + sep + ls.last());
        assert(join(all, sep) =~= a + sep + join(ls, sep));
    }
}

/// For text without carriage returns, joining its lines with line breaks
/// gives the text back, less a final line break; there are no lines exactly
/// when there is no text.
proof fn lemma_join_lines(s: Seq<char>, start: int, i: int)
    requires
        0 <= start <= i <= s.len(),
        !s.contains('\r'),
        forall|j: int| start <= j < i ==> s[j] != '\n',
    ensures
        join(lines_scan(s, start, i), seq!['\n']) == strip_final_newline(
            s.subrange(start, s.len() as int),
        ),
        (lines_scan(s, start, i).len() == 0) == (start == s.len()),
    decreases s.len() - i,
{
    let whole = s.subrange(start, s.len() as int);
    if i >= s.len() {
        if start < s.len() {
            assert(whole.last() == s[s.len() - 1]);
            assert(seq![whole].len() == 1);
        } else {
            assert(whole =~= Seq::<char>::empty());
        }
    } else if s[i] == '\n' {
        let a = s.subrange(start, i);
        if a.len() > 0 {
            assert(a.last() == s[i - 1]);
            assert(s[i - 1] != '\r') by {
                if s[i - 1] == '\r' {
                    assert(s.contains('\r'));
                }
            }
        }
        assert(strip_cr(a) == a);
        lemma_join_lines(s, i + 1, i + 1);
        let l = lines_scan(s, i + 1, i + 1);
        let rest = s.subrange(i + 1, s.len() as int);
        assert(whole =~= a + seq!['\n'] + rest);
        if i + 1 == s.len() {
            assert(rest =~= Seq::<char>::empty());
            assert(l.len() == 0);
            assert(seq![a] + l =~= seq![a]);
            assert(whole =~= a.push('\n'));
            assert(whole.drop_last() =~= a);
        } else {
            lemma_join_prepend(a, l, seq!['\n']);
            assert(whole.last() == rest.last());
            if rest.last() == '\n' {
                assert(whole.drop_last() =~= a + seq!['\n'] + rest.drop_last());
            }
        }
    } else {
        lemma_join_lines(s, start, i + 1);
    }
}

/// Where trimming starts is within the text.
proof fn lemma_trim_start_bound(s: Seq<char>, i: int)
    requires
        0 <= i <= s.len(),
    ensures
        i <= trim_start_from(s, i) <= s.len(),
    decreases s.len() - i,
{
    if i < s.len() && is_ws(s[i]) {
        lemma_trim_start_bound(s, i + 1);
    }
}

/// Where trimming ends is between its bounds.
proof fn lemma_trim_end_bound(s: Seq<char>, lo: int, j: int)
    requires
        lo <= j,
    ensures
        lo <= trim_end_to(s, lo, j) <= j,
    decreases j - lo,
{
    if lo < j && j <= s.len() && is_ws(s[j - 1]) {
        lemma_trim_end_bound(s, lo, j - 1);
    }
}

/// Trimming the start of `u` and of `u` with a line break added agree until
/// the end of `u`.
proof fn lemma_trim_start_push(u: Seq<char>, i: int)
    requires
        0 <= i <= u.len(),
    ensures
        trim_start_from(u.push('\n'), i) == (if trim_start_from(u, i) < u.len() {
            trim_start_from(u, i)
        } else {
            u.len() + 1int
        }),
    decreases u.len() - i,
{
    let t = u.push('\n');
    assert(is_ws('\n'));
    if i < u.len() {
        assert(t[i] == u[i]);
        if is_ws(u[i]) {
            lemma_trim_start_push(u, i + 1);
        }
    } else {
        assert(t[i] == '\n');
        assert(trim_start_from(t, i + 1) == i + 1);
    }
}

/// Trimming the end of `u` and of `u` with a line break added agree on
/// positions within `u`.
proof fn lemma_trim_end_push(u: Seq<char>, lo: int, j: int)
    requires
        0 <= lo <= j <= u.len(),
    ensures
        trim_end_to(u.push('\n'), lo, j) == trim_end_to(u, lo, j),
    decreases j - lo,
{
    if lo < j {
        assert(u.push('\n')[j - 1] == u[j - 1]);
        lemma_trim_end_push(u, lo, j - 1);
    }
}

/// A final line break makes no difference once the text is trimmed.
proof fn lemma_trim_final_newline(t: Seq<char>)
    ensures
        trim(strip_final_newline(t)) == trim(t),
{
    if t.len() > 0 && t.last() == '\n' {
        let u = t.drop_last();
        assert(t =~= u.push('\n'));
        assert(is_ws('\n'));
        lemma_trim_start_bound(u, 0);
        lemma_trim_start_push(u, 0);
        let a = trim_start_from(u, 0);
        if a < u.len() {
            lemma_trim_end_push(u, a, u.len() as int);
            assert(trim_end_to(t, a, t.len() as int) == trim_end_to(t, a, u.len() as int));
            lemma_trim_end_bound(u, a, u.len() as int);
            let b = trim_end_to(u, a, u.len() as int);
            assert(t.subrange(a, b) =~= u.subrange(a, b));
        } else {
            assert(trim_end_to(u, a, a) == a);
            assert(trim_end_to(t, t.len() as int, t.len() as int) == t.len());
            assert(trim(u) =~= Seq::<char>::empty());
            assert(trim(t) =~= Seq::<char>::empty());
        }
    }
}

/// Law: the lines of a message are its first line and then the lines of the
/// rest; the body is all of the rest, trimmed (every line after the first,
/// joined by line breaks), when the rest has no carriage returns.
pub proof fn lemma_body_is_rest(first: Seq<char>, rest: Seq<char>)
    requires
        !first.contains('\n'),
        !rest.contains('\r'),
    ensures
        lines(first + seq!['\n'] + rest) == seq![strip_cr(first)] + lines(rest),
        first_line(first + seq!['\n'] + rest) == strip_cr(first),
        body_text(first + seq!['\n'] + rest) == trim(rest),
        find_char(strip_cr(first), ':') is Some ==> spec_parse_message(
            first + seq!['\n'] + rest,
        ).4 == non_empty(trim(rest)),
{
    let m = first + seq!['\n'] + rest;
    let k = first.len() as int;
    assert(m[k] == '\n');
    assert forall|j: int| 0 <= j < k implies m[j] != '\n' by {
        assert(m[j] == first[j]);
        if first[j] == '\n' {
            assert(first.contains('\n'));
        }
    }
    lemma_scan_to_break(m, 0, 0, k);
    assert(m.subrange(0, k) =~= first);
    assert(m =~= (first + seq!['\n']) + rest);
    lemma_scan_shift(first + seq!['\n'], rest, 0, 0);
    assert(lines(m) =~= seq![strip_cr(first)] + lines(rest));
    lemma_join_lines(rest, 0, 0);
    assert(rest.subrange(0, rest.len() as int) =~= rest);
    lemma_trim_final_newline(rest);
    assert(lines(m).skip(1) =~= lines(rest));
    if rest.len() == 0 {
        assert(trim_end_to(rest, 0, 0) == 0);
        assert(trim(rest) =~= Seq::<char>::empty());
    }
}

} // verus!
