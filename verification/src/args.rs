//! The command line of gai and how its flags override the configuration.
use vstd::prelude::*;

use crate::config::{AiConfig, Config, GaiConfig};
use crate::provider::Provider;
use crate::rebase::RebaseScope;

verus! {

/// The command line.
#[derive(Debug)]
pub struct Args {
    /// Print compact output, without trees.
    pub compact: bool,
    /// Show the terminal interface.
    pub interactive: bool,
    /// Use this provider instead of the configured one.
    pub provider: Option<Provider>,
    /// A hint for the model.
    pub hint: Option<String>,
    pub command: Commands,
}

/// The commands.
#[derive(Debug)]
pub enum Commands {
    /// Sign in to or out of the gai provider.
    Auth { auth: Auth },
    /// Print the status of the repository.
    Status {
        /// Print the prompt and the diffs of the request too.
        verbose: bool,
    },
    /// Create commits from the changes in the working tree.
    Commit {
        /// Apply the commits without asking.
        skip_confirmation: bool,
        /// Use only what is staged.
        staged: bool,
        /// Stage hunk by hunk.
        hunks: bool,
        /// Stage file by file.
        files: bool,
        /// "KEY=VALUE" overrides of the configuration.
        config: Vec<String>,
    },
    /// Recreate the commits of a scope with the help of a model.
    Rebase {
        /// Which commits.
        scope: RebaseScope,
        /// Ask for a plan of operations on the existing commits instead.
        plan: bool,
    },
}

/// The sign-in commands.
#[derive(Clone, Copy, PartialEq, Eq, Structural, Debug)]
pub enum Auth {
    Login,
    Status,
    Logout,
}

/// The configuration after the flags of `args` are applied to `c`.
pub open spec fn flags_applied(args: &Args, c: Config) -> Config {
    let provider = match args.provider {
        Some(p) => p,
        None => c.ai.provider,
    };
    let (only_staged, stage_hunks) = match args.command {
        Commands::Commit { staged, hunks, files, .. } => (
            c.gai.only_staged || staged,
            if files {
                false
            } else if hunks {
                true
            } else {
                c.gai.stage_hunks
            },
        ),
        _ => (c.gai.only_staged, c.gai.stage_hunks),
    };
    Config {
        ai: AiConfig { provider, hint: args.hint, ..c.ai },
        gai: GaiConfig { only_staged, stage_hunks, ..c.gai },
        ..c
    }
}

impl Args {
    /// Applies the flags to the configuration: the provider when one is given,
    /// the hint always, and for `commit` the staging flags, `--files` winning
    /// over `--hunks`. Never fails.
    pub fn parse_flags(&self, config: &mut Config) -> (r: Result<(), String>)
        ensures
            r is Ok,
            *final(config) == flags_applied(self, *old(config)),
    {
        match self.provider {
            Some(p) => {
                config.ai.provider = p;
            },
            None => {},
        }
        config.ai.hint = match &self.hint {
            Some(h) => Some(h.clone()),
            None => None,
        };
        match &self.command {
            Commands::Commit { staged, hunks, files, .. } => {
                if *staged {
                    config.gai.only_staged = true;
                }
                if *hunks {
                    config.gai.stage_hunks = true;
                }
                if *files {
                    config.gai.stage_hunks = false;
                }
            },
            _ => {},
        }
        Ok(())
    }
}

/// Applying the flags a second time changes nothing.
pub proof fn lemma_flags_idempotent(args: &Args, c: Config)
    ensures
        flags_applied(args, flags_applied(args, c)) == flags_applied(args, c),
{
}

} // verus!
