//! Settings of gai: what goes into a request, how commits are written and
//! which provider answers.
use vstd::prelude::*;
use vstd::string::*;

use crate::provider::{Provider, ProviderMap};
use crate::text::{copy_range, find_char, find_char_in, from_chars, push_str, to_chars};

verus! {

/// All settings.
#[derive(Debug)]
pub struct Config {
    pub ai: AiConfig,
    pub gai: GaiConfig,
    pub tui: TuiConfig,
}

/// Git specific settings.
#[derive(Debug)]
pub struct GaiConfig {
    pub only_staged: bool,
    /// Apply the changes hunk by hunk rather than file by file.
    pub stage_hunks: bool,
    pub commit_config: CommitConfig,
}

/// How a commit message is rendered.
#[derive(Clone, Copy, PartialEq, Eq, Structural, Debug)]
pub struct CommitConfig {
    /// The prefix is capitalized, `feat` becomes `Feat`.
    pub capitalize_prefix: bool,
    /// The scope given by the model is written after the prefix.
    pub include_scope: bool,
    /// Breaking changes are marked.
    pub include_breaking: bool,
    /// The mark of a breaking change, `!` when unset.
    pub breaking_symbol: Option<char>,
}

/// Settings of the terminal interface.
#[derive(Clone, Copy, PartialEq, Eq, Structural, Debug)]
pub struct TuiConfig {
    /// Send the request as soon as gai starts.
    pub auto_request: bool,
}

/// What goes into the request to the model.
#[derive(Debug)]
pub struct AiConfig {
    /// The provider in use.
    pub provider: Provider,
    /// The configuration of each provider.
    pub providers: ProviderMap,
    /// Replaces the default system prompt.
    pub system_prompt: Option<String>,
    /// Replaces the built-in commit convention.
    pub commit_convention: Option<String>,
    /// Send the commit convention.
    pub include_convention: bool,
    /// Send the file tree of the repository.
    pub include_file_tree: bool,
    /// Send the status of the repository.
    pub include_git_status: bool,
    /// Send untracked files too.
    pub include_untracked: bool,
    /// Files whose diffs are cut short.
    pub files_to_truncate: Vec<String>,
    /// Rules the model is asked to follow.
    pub rules: RuleConfig,
    /// A hint for the model.
    pub hint: Option<String>,
}

/// Rules sent to the model with the prompt.
#[derive(Clone, Copy, PartialEq, Eq, Structural, Debug)]
pub struct RuleConfig {
    /// Group related files into logical commits.
    pub group_related_files: bool,
    /// Each file goes into one commit only.
    pub no_file_splitting: bool,
    /// Changes with different purposes go into separate commits.
    pub separate_by_purpose: bool,
    /// Ask for verbose descriptions.
    pub verbose_descriptions: bool,
    /// Scopes name components without their file extension.
    pub exclude_extension_in_scope: bool,
    /// The scope may be empty.
    pub allow_empty_scope: bool,
    /// Longest commit header asked for.
    pub max_header_length: u16,
    /// Commit bodies are allowed.
    pub allow_body: bool,
    /// Width at which commit bodies are wrapped.
    pub max_body_length: u16,
}

/// The model of one provider and the token budget of a request.
#[derive(Clone, Debug)]
pub struct ProviderConfig {
    pub model: String,
    pub max_tokens: u64,
}

impl View for ProviderConfig {
    type V = (Seq<char>, u64);

    open spec fn view(&self) -> (Seq<char>, u64) {
        (self.model@, self.max_tokens)
    }
}

impl ProviderConfig {
    /// The configuration of `model_name` with a budget of 5000 tokens.
    pub fn new(model_name: &str) -> (r: ProviderConfig)
        ensures
            r@ == (model_name@, 5000u64),
    {
        ProviderConfig { model: model_name.to_owned(), max_tokens: 5000 }
    }
}

impl RuleConfig {
    /// The rules a fresh configuration holds.
    pub open spec fn spec_default() -> RuleConfig {
        RuleConfig {
            group_related_files: true,
            no_file_splitting: true,
            separate_by_purpose: true,
            verbose_descriptions: true,
            exclude_extension_in_scope: true,
            allow_empty_scope: true,
            max_header_length: 52,
            allow_body: true,
            max_body_length: 72,
        }
    }
}

impl Default for RuleConfig {
    fn default() -> (r: Self)
        ensures
            r == RuleConfig::spec_default(),
    {
        RuleConfig {
            group_related_files: true,
            no_file_splitting: true,
            separate_by_purpose: true,
            verbose_descriptions: true,
            exclude_extension_in_scope: true,
            allow_empty_scope: true,
            max_header_length: 52,
            allow_body: true,
            max_body_length: 72,
        }
    }
}

impl CommitConfig {
    /// The rendering settings a fresh configuration holds.
    pub open spec fn spec_default() -> CommitConfig {
        CommitConfig {
            capitalize_prefix: false,
            include_scope: true,
            include_breaking: true,
            breaking_symbol: None,
        }
    }
}

impl Default for CommitConfig {
    fn default() -> (r: Self)
        ensures
            r == CommitConfig::spec_default(),
    {
        CommitConfig {
            capitalize_prefix: false,
            include_scope: true,
            include_breaking: true,
            breaking_symbol: None,
        }
    }
}

impl Default for TuiConfig {
    fn default() -> (r: Self)
        ensures
            r == (TuiConfig { auto_request: false }),
    {
        TuiConfig { auto_request: false }
    }
}

impl Default for GaiConfig {
    fn default() -> (r: Self)
        ensures
            !r.only_staged,
            !r.stage_hunks,
            r.commit_config == CommitConfig::spec_default(),
    {
        GaiConfig {
            only_staged: false,
            stage_hunks: false,
            commit_config: CommitConfig::default(),
        }
    }
}

impl AiConfig {
    /// Whether `self` holds the settings of a fresh configuration.
    pub open spec fn is_default(&self) -> bool {
        &&& self.provider == Provider::Gemini
        &&& self.providers.spec_entries() == Provider::spec_defaults()
        &&& self.system_prompt is None
        &&& self.commit_convention is None
        &&& self.include_convention
        &&& self.include_file_tree
        &&& self.include_git_status
        &&& self.include_untracked
        &&& self.files_to_truncate@.len() == 0
        &&& self.rules == RuleConfig::spec_default()
        &&& self.hint is None
    }
}

impl Default for AiConfig {
    fn default() -> (r: Self)
        ensures
            r.is_default(),
    {
        AiConfig {
            provider: Provider::Gemini,
            providers: Provider::create_defaults(),
            system_prompt: None,
            commit_convention: None,
            include_convention: true,
            include_file_tree: true,
            include_git_status: true,
            include_untracked: true,
            files_to_truncate: Vec::new(),
            rules: RuleConfig::default(),
            hint: None,
        }
    }
}

impl Default for Config {
    fn default() -> (r: Self)
        ensures
            r.ai.is_default(),
            !r.gai.only_staged,
            !r.gai.stage_hunks,
            r.gai.commit_config == CommitConfig::spec_default(),
            !r.tui.auto_request,
    {
        Config { ai: AiConfig::default(), gai: GaiConfig::default(), tui: TuiConfig::default() }
    }
}

/// What an override "KEY=VALUE" splits into: the text before the first '='
/// and the text after it; `None` when it has no '='.
pub open spec fn spec_split_override(s: Seq<char>) -> Option<(Seq<char>, Seq<char>)> {
    match find_char(s, '=') {
        Some(k) => Some((s.subrange(0, k), s.subrange(k + 1, s.len() as int))),
        None => None,
    }
}

/// Splits an override "KEY=VALUE" at its first '='; fails with
/// "can't parse this: " and the text when it has none.
pub fn split_override(s: &str) -> (r: Result<(String, String), String>)
    ensures
        match spec_split_override(s@) {
            Some((k, v)) => r matches Ok(kv) && kv.0@ == k && kv.1@ == v,
            None => r matches Err(e) && e@ == "can't parse this: "@ + s@,
        },
{
    let chars = to_chars(s);
    match find_char_in(&chars, '=') {
        Some(k) => {
            let key = copy_range(&chars, 0, k);
            let value = copy_range(&chars, k + 1, chars.len());
            Ok((from_chars(&key), from_chars(&value)))
        },
        None => {
            let mut e = String::from_str("can't parse this: ");
            push_str(&mut e, s);
            Err(e)
        },
    }
}

} // verus!
