//! What a model answers: commits, each with the files or hunks it takes and a
//! conventional commit message.
use vstd::prelude::*;
use vstd::string::*;

use crate::provider::Provider;
use crate::text::{push_char, push_str};

verus! {

/// The answers gathered from the providers, and the errors of those that
/// failed.
#[derive(Debug)]
pub struct Response {
    pub errors: Vec<String>,
    pub response_schema: Vec<(Provider, ResponseSchema)>,
}

/// The answer of one provider.
#[derive(Debug)]
pub struct ResponseSchema {
    pub commits: Vec<ResponseCommit>,
}

/// One commit the model proposes.
#[derive(Debug)]
pub struct ResponseCommit {
    /// Paths to stage, such as "main.rs".
    pub files: Vec<String>,
    /// Hunks to stage, such as "src/main.rs:0".
    pub hunk_ids: Vec<String>,
    pub message: CommitMessage,
}

/// A conventional commit message.
#[derive(Debug)]
pub struct CommitMessage {
    pub prefix: PrefixType,
    pub scope: String,
    pub breaking: bool,
    pub header: String,
    pub body: String,
}

/// The type of a conventional commit.
#[derive(Clone, Copy, PartialEq, Eq, Structural, Debug, Hash)]
pub enum PrefixType {
    Feat,
    Fix,
    Refactor,
    Style,
    Test,
    Docs,
    Build,
    CI,
    Ops,
    Chore,
    Merge,
    Revert,
}

impl Default for Response {
    fn default() -> (r: Self)
        ensures
            r.errors@.len() == 0,
            r.response_schema@.len() == 0,
    {
        Response { errors: Vec::new(), response_schema: Vec::new() }
    }
}

impl Default for ResponseSchema {
    fn default() -> (r: Self)
        ensures
            r.commits@.len() == 0,
    {
        ResponseSchema { commits: Vec::new() }
    }
}

impl Response {
    /// The response to one request: the answer of `provider`, or the error
    /// the request ended with.
    pub fn from_outcome(provider: Provider, outcome: Result<ResponseSchema, String>) -> (r: Response)
        ensures
            match outcome {
                Ok(s) => r.errors@.len() == 0 && r.response_schema@.len() == 1
                    && r.response_schema@[0].0 == provider && r.response_schema@[0].1 == s,
                Err(e) => r.response_schema@.len() == 0 && r.errors@ == seq![e],
            },
    {
        let mut resp = Response::default();
        match outcome {
            Ok(s) => {
                resp.response_schema.push((provider, s));
            },
            Err(e) => {
                resp.errors.push(e);
            },
        }
        resp
    }
}

impl PrefixType {
    /// The name of the type as written in Rust, such as "Feat" or "CI".
    pub open spec fn spec_name(&self) -> Seq<char> {
        match self {
            PrefixType::Feat => "Feat"@,
            PrefixType::Fix => "Fix"@,
            PrefixType::Refactor => "Refactor"@,
            PrefixType::Style => "Style"@,
            PrefixType::Test => "Test"@,
            PrefixType::Docs => "Docs"@,
            PrefixType::Build => "Build"@,
            PrefixType::CI => "CI"@,
            PrefixType::Ops => "Ops"@,
            PrefixType::Chore => "Chore"@,
            PrefixType::Merge => "Merge"@,
            PrefixType::Revert => "Revert"@,
        }
    }

    /// The name in lower case, as commit messages write it, such as "feat"
    /// or "ci".
    pub open spec fn spec_lower_name(&self) -> Seq<char> {
        match self {
            PrefixType::Feat => "feat"@,
            PrefixType::Fix => "fix"@,
            PrefixType::Refactor => "refactor"@,
            PrefixType::Style => "style"@,
            PrefixType::Test => "test"@,
            PrefixType::Docs => "docs"@,
            PrefixType::Build => "build"@,
            PrefixType::CI => "ci"@,
            PrefixType::Ops => "ops"@,
            PrefixType::Chore => "chore"@,
            PrefixType::Merge => "merge"@,
            PrefixType::Revert => "revert"@,
        }
    }

    /// The name, capitalized or in lower case.
    pub fn name(&self, capitalize: bool) -> (r: String)
        ensures
            r@ == (if capitalize {
                self.spec_name()
            } else {
                self.spec_lower_name()
            }),
    {
        if capitalize {
            match self {
                PrefixType::Feat => String::from_str("Feat"),
                PrefixType::Fix => String::from_str("Fix"),
                PrefixType::Refactor => String::from_str("Refactor"),
                PrefixType::Style => String::from_str("Style"),
                PrefixType::Test => String::from_str("Test"),
                PrefixType::Docs => String::from_str("Docs"),
                PrefixType::Build => String::from_str("Build"),
                PrefixType::CI => String::from_str("CI"),
                PrefixType::Ops => String::from_str("Ops"),
                PrefixType::Chore => String::from_str("Chore"),
                PrefixType::Merge => String::from_str("Merge"),
                PrefixType::Revert => String::from_str("Revert"),
            }
        } else {
            match self {
                PrefixType::Feat => String::from_str("feat"),
                PrefixType::Fix => String::from_str("fix"),
                PrefixType::Refactor => String::from_str("refactor"),
                PrefixType::Style => String::from_str("style"),
                PrefixType::Test => String::from_str("test"),
                PrefixType::Docs => String::from_str("docs"),
                PrefixType::Build => String::from_str("build"),
                PrefixType::CI => String::from_str("ci"),
                PrefixType::Ops => String::from_str("ops"),
                PrefixType::Chore => String::from_str("chore"),
                PrefixType::Merge => String::from_str("merge"),
                PrefixType::Revert => String::from_str("revert"),
            }
        }
    }
}

/// What `str::to_lowercase` gives for a text.
pub uninterp spec fn lowercase_text(s: Seq<char>) -> Seq<char>;

/// Calls `str::to_lowercase`, which maps each character to its Unicode
/// lower case (one or more characters); its result is named, not stated.
#[verifier::external_body]
fn to_lowercase(s: &str) -> (r: String)
    ensures
        r@ == lowercase_text(s@),
{
    s.to_lowercase()
}

/// The prefix of a commit message: the type, "!" for a breaking change, and
/// the scope in parentheses when there is one.
pub open spec fn commit_prefix_text(
    prefix: PrefixType,
    capitalize: bool,
    breaking: bool,
    scope: Option<Seq<char>>,
) -> Seq<char> {
    (if capitalize {
        prefix.spec_name()
    } else {
        prefix.spec_lower_name()
    }) + (if breaking {
        "!"@
    } else {
        Seq::empty()
    }) + match scope {
        Some(s) => seq!['('] + s + seq![')'],
        None => Seq::empty(),
    }
}

/// The prefix of a commit message from its parts, the scope already in the
/// case it is written in.
pub fn compose_commit_prefix(
    prefix: PrefixType,
    capitalize: bool,
    breaking: bool,
    scope: Option<&str>,
) -> (r: String)
    ensures
        r@ == commit_prefix_text(
            prefix,
            capitalize,
            breaking,
            match scope {
                Some(s) => Some(s@),
                None => None,
            },
        ),
{
    let mut s = prefix.name(capitalize);
    if breaking {
        push_str(&mut s, "!");
    }
    match scope {
        Some(sc) => {
            push_char(&mut s, '(');
            push_str(&mut s, sc);
            push_char(&mut s, ')');
        },
        None => {},
    }
    s
}

impl ResponseCommit {
    /// The prefix shown for the commit, such as "feat!(api)": the type,
    /// capitalized or in lower case, "!" when breaking, and the scope in lower
    /// case and in parentheses when scopes are included.
    pub fn get_commit_prefix(&self, capitalize_prefix: bool, include_scope: bool) -> (r: String)
        ensures
            r@ == commit_prefix_text(
                self.message.prefix,
                capitalize_prefix,
                self.message.breaking,
                if include_scope {
                    Some(lowercase_text(self.message.scope@))
                } else {
                    None
                },
            ),
    {
        if include_scope {
            let lower = to_lowercase(self.message.scope.as_str());
            compose_commit_prefix(
                self.message.prefix,
                capitalize_prefix,
                self.message.breaking,
                Some(lower.as_str()),
            )
        } else {
            compose_commit_prefix(self.message.prefix, capitalize_prefix, self.message.breaking, None)
        }
    }
}

/// The message a commit is made with: its prefix, ": " and its header, then
/// a blank line and its body when it has one.
pub open spec fn commit_message_text(c: &ResponseCommit, capitalize: bool, include_scope: bool) -> Seq<
    char,
> {
    commit_prefix_text(
        c.message.prefix,
        capitalize,
        c.message.breaking,
        if include_scope {
            Some(lowercase_text(c.message.scope@))
        } else {
            None
        },
    ) + ": "@ + c.message.header@ + if c.message.body@.len() > 0 {
        "\n\n"@ + c.message.body@
    } else {
        Seq::empty()
    }
}

impl ResponseCommit {
    /// The message the commit is made with.
    pub fn commit_message(&self, capitalize_prefix: bool, include_scope: bool) -> (r: String)
        ensures
            r@ == commit_message_text(self, capitalize_prefix, include_scope),
    {
        let mut m = self.get_commit_prefix(capitalize_prefix, include_scope);
        push_str(&mut m, ": ");
        push_str(&mut m, self.message.header.as_str());
        if !self.message.body.as_str().is_empty() {
            push_str(&mut m, "\n\n");
            push_str(&mut m, self.message.body.as_str());
        }
        m
    }
}

} // verus!
