//! The command line of the terminal interface and its choice of provider.
use vstd::prelude::*;

use crate::config::{AiConfig, Config};
use crate::provider::Provider;

verus! {

/// The command line of the terminal interface.
#[derive(Debug)]
pub struct Cli {
    /// Include untracked files.
    pub include_untracked: bool,
    /// Apply the changes as hunks.
    pub stage_hunks: bool,
    /// Path of a file holding an API key.
    pub api_key_file: Option<String>,
    /// Include the file tree in the request.
    pub include_file_tree: bool,
    /// Files to truncate.
    pub truncate_file: Vec<String>,
    /// Capitalize the commit prefix.
    pub capitalize_prefix: bool,
    /// Include the scope in commits.
    pub include_scope: bool,
    /// A system prompt of one's own.
    pub system_prompt: Option<String>,
    /// Use conventional commits.
    pub include_convention: bool,
    /// Group related files.
    pub group_related_files: bool,
    /// Do not split a file across commits.
    pub no_file_splitting: bool,
    /// Separate commits by purpose.
    pub separate_by_purpose: bool,
    /// Verbose commit descriptions.
    pub verbose_descriptions: bool,
    /// Leave file extensions out of scopes.
    pub exclude_extension_in_scope: bool,
    /// Allow an empty scope.
    pub allow_empty_scope: bool,
    /// Longest commit header.
    pub max_header_length: Option<u16>,
    /// Width of commit bodies.
    pub max_body_length: Option<u16>,
    /// Use ChatGPT.
    pub chatgpt: bool,
    /// Use Gemini.
    pub gemini: bool,
    /// Use the Anthropic provider.
    pub claude: bool,
    pub command: Commands,
}

/// The commands of the terminal interface.
#[derive(Debug)]
pub enum Commands {
    /// Open the terminal interface.
    Tui {
        /// Send the request on launch.
        auto_request: bool,
        /// Skip the splash screen.
        skip_splash: bool,
    },
    /// Create commits.
    Commit {
        /// Apply the commits without asking.
        skip_confirmation: bool,
    },
    /// Rebase commits.
    Rebase {},
    /// Find a commit.
    Find {
        /// How many commits to search.
        range: Option<u32>,
        /// What to search for.
        prompt: String,
    },
    /// Bisect interactively.
    Bisect {},
}

/// The provider chosen by the flags: Gemini, then ChatGPT, then Anthropic, in
/// that order of precedence, else `current`.
pub open spec fn chosen_provider(cli: &Cli, current: Provider) -> Provider {
    if cli.gemini {
        Provider::Gemini
    } else if cli.chatgpt {
        Provider::OpenAI
    } else if cli.claude {
        Provider::Claude
    } else {
        current
    }
}

impl Cli {
    /// Sets the provider of the configuration from the flags.
    pub fn parse_args(&self, config: &mut Config)
        ensures
            *final(config) == (Config {
                ai: AiConfig { provider: chosen_provider(self, old(config).ai.provider), ..old(config).ai },
                ..*old(config)
            }),
    {
        config.ai.provider = if self.gemini {
            Provider::Gemini
        } else if self.chatgpt {
            Provider::OpenAI
        } else if self.claude {
            Provider::Claude
        } else {
            config.ai.provider
        };
    }
}

/// Choosing the provider a second time keeps the first choice.
pub proof fn lemma_choice_idempotent(cli: &Cli, current: Provider)
    ensures
        chosen_provider(cli, chosen_provider(cli, current)) == chosen_provider(cli, current),
{
}

} // verus!
