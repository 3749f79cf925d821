//! The request sent to a model: a prompt made of the system prompt, the
//! rules, the commit convention and the state of the repository, and the
//! diffs of the files.
use vstd::prelude::*;
use vstd::string::*;

use crate::config::{Config, RuleConfig};
use crate::consts::{
    COMMIT_CONVENTION, DEFAULT_SYS_PROMPT, PROMPT_STAGE_FILES, PROMPT_STAGE_HUNKS, RULE_BODY_BASE,
    RULE_BREAKING, RULE_COMMIT_MESSAGE_HEADER, RULE_GROUP_FILES, RULE_HEADER_BASE,
    RULE_MESSAGE_CONCISE, RULE_MESSAGE_VERBOSE, RULE_NO_FILE_SPLITTING, RULE_PREFIX,
    RULE_SCOPE_ALLOW_EMPTY_NO_EXTENSION, RULE_SCOPE_ALLOW_EMPTY_WITH_EXTENSION,
    RULE_SCOPE_REQUIRED_NO_EXTENSION, RULE_SCOPE_REQUIRED_WITH_EXTENSION, RULE_SEPARATE_BY_PURPOSE,
};
use crate::text::{decimal, push_char, push_str, u64_to_decimal};

verus! {

/// A prompt and the diffs it is about.
#[derive(Debug)]
pub struct Request {
    pub prompt: String,
    pub diffs: String,
}

impl Default for Request {
    fn default() -> (r: Self)
        ensures
            r.prompt@ == Seq::<char>::empty(),
            r.diffs@ == Seq::<char>::empty(),
    {
        Request { prompt: String::new(), diffs: String::new() }
    }
}

/// `s` when `b` holds, else nothing.
pub open spec fn text_if(b: bool, s: Seq<char>) -> Seq<char> {
    if b {
        s
    } else {
        Seq::empty()
    }
}

/// The block of one file in the diffs of a request.
pub open spec fn file_block(file: Seq<char>, diff: Seq<char>) -> Seq<char> {
    "File Name:"@ + file + "\nDiff Content:"@ + diff + "\n\n"@
}

/// The blocks of the first `n` files, in order.
pub open spec fn diffs_text(files: Seq<(Seq<char>, Seq<char>)>, n: int) -> Seq<char>
    decreases n,
{
    if n <= 0 {
        Seq::empty()
    } else {
        diffs_text(files, n - 1) + file_block(files[n - 1].0, files[n - 1].1)
    }
}

/// The files and their diffs as values.
pub open spec fn files_view(files: Seq<(String, String)>) -> Seq<(Seq<char>, Seq<char>)> {
    files.map_values(|f: (String, String)| (f.0@, f.1@))
}

/// The rule on scopes chosen by whether a scope may be empty and whether it
/// names file extensions.
pub open spec fn scope_rule(allow_empty: bool, exclude_extension: bool) -> Seq<char> {
    if allow_empty {
        if exclude_extension {
            RULE_SCOPE_ALLOW_EMPTY_NO_EXTENSION@
        } else {
            RULE_SCOPE_ALLOW_EMPTY_WITH_EXTENSION@
        }
    } else if exclude_extension {
        RULE_SCOPE_REQUIRED_NO_EXTENSION@
    } else {
        RULE_SCOPE_REQUIRED_WITH_EXTENSION@
    }
}

/// The rules section of a prompt.
pub open spec fn rules_text(cfg: RuleConfig) -> Seq<char> {
    text_if(cfg.group_related_files, RULE_GROUP_FILES@)
        + text_if(cfg.no_file_splitting, RULE_NO_FILE_SPLITTING@)
        + text_if(cfg.separate_by_purpose, RULE_SEPARATE_BY_PURPOSE@)
        + RULE_COMMIT_MESSAGE_HEADER@
        + RULE_PREFIX@
        + scope_rule(cfg.allow_empty_scope, cfg.exclude_extension_in_scope)
        + RULE_BREAKING@
        + RULE_HEADER_BASE@
        + "    - CRITICAL: Maximum length is "@
        + decimal(cfg.max_header_length as nat)
        + " characters\n"@
        + RULE_BODY_BASE@
        + "    - Wrap lines at "@
        + decimal(cfg.max_body_length as nat)
        + " characters\n"@
        + (if cfg.verbose_descriptions {
        RULE_MESSAGE_VERBOSE@
    } else {
        RULE_MESSAGE_CONCISE@
    })
        + seq!['\n']
}

/// The commit convention section of a prompt.
pub open spec fn convention_part(cfg: &Config) -> Seq<char> {
    text_if(
        cfg.ai.include_convention,
        (match cfg.ai.commit_convention {
            Some(c) => c@,
            None => COMMIT_CONVENTION@,
        }) + seq!['\n'],
    )
}

/// The prompt for a configuration, a file tree and a status of the repository.
pub open spec fn prompt_text(cfg: &Config, repo_tree: Seq<char>, repo_status: Seq<char>) -> Seq<
    char,
> {
    (match cfg.ai.system_prompt {
        Some(p) => p@,
        None => DEFAULT_SYS_PROMPT@,
    })
        + seq!['\n']
        + rules_text(cfg.ai.rules)
        + seq!['\n']
        + convention_part(cfg)
        + (if cfg.gai.stage_hunks {
        PROMPT_STAGE_HUNKS@
    } else {
        PROMPT_STAGE_FILES@
    })
        + seq!['\n']
        + text_if(cfg.ai.include_file_tree, "Current File Tree: \n"@ + repo_tree + seq!['\n'])
        + text_if(cfg.ai.include_git_status, "Current Git Status: \n"@ + repo_status)
}

/// Appends `t` to `s` when `b` holds.
fn push_when(s: &mut String, b: bool, t: &str)
    ensures
        final(s)@ == old(s)@ + text_if(b, t@),
{
    if b {
        push_str(s, t);
    } else {
        assert(old(s)@ + text_if(b, t@) == old(s)@);
    }
}

/// The rules section of a prompt.
pub fn build_rules(cfg: &RuleConfig) -> (r: String)
    ensures
        r@ == rules_text(*cfg),
{
    let mut rules = String::new();
    push_when(&mut rules, cfg.group_related_files, RULE_GROUP_FILES);
    push_when(&mut rules, cfg.no_file_splitting, RULE_NO_FILE_SPLITTING);
    push_when(&mut rules, cfg.separate_by_purpose, RULE_SEPARATE_BY_PURPOSE);
    push_str(&mut rules, RULE_COMMIT_MESSAGE_HEADER);
    push_str(&mut rules, RULE_PREFIX);
    let scope = if cfg.allow_empty_scope {
        if cfg.exclude_extension_in_scope {
            RULE_SCOPE_ALLOW_EMPTY_NO_EXTENSION
        } else {
            RULE_SCOPE_ALLOW_EMPTY_WITH_EXTENSION
        }
    } else if cfg.exclude_extension_in_scope {
        RULE_SCOPE_REQUIRED_NO_EXTENSION
    } else {
        RULE_SCOPE_REQUIRED_WITH_EXTENSION
    };
    push_str(&mut rules, scope);
    push_str(&mut rules, RULE_BREAKING);
    push_str(&mut rules, RULE_HEADER_BASE);
    push_str(&mut rules, "    - CRITICAL: Maximum length is ");
    let header = u64_to_decimal(cfg.max_header_length as u64);
    push_str(&mut rules, header.as_str());
    push_str(&mut rules, " characters\n");
    push_str(&mut rules, RULE_BODY_BASE);
    push_str(&mut rules, "    - Wrap lines at ");
    let body = u64_to_decimal(cfg.max_body_length as u64);
    push_str(&mut rules, body.as_str());
    push_str(&mut rules, " characters\n");
    if cfg.verbose_descriptions {
        push_str(&mut rules, RULE_MESSAGE_VERBOSE);
    } else {
        push_str(&mut rules, RULE_MESSAGE_CONCISE);
    }
    push_char(&mut rules, '\n');
    rules
}

impl Request {
    /// Sets the diffs to the block of each file, in the order given.
    pub fn build_diffs_string(&mut self, diffs: Vec<(String, String)>)
        ensures
            final(self).prompt == old(self).prompt,
            final(self).diffs@ == diffs_text(files_view(diffs@), diffs@.len() as int),
    {
        let mut diffs_str = String::new();
        let mut i: usize = 0;
        while i < diffs.len()
            invariant
                i <= diffs.len(),
                diffs_str@ == diffs_text(files_view(diffs@), i as int),
            decreases diffs.len() - i,
        {
            let (file, diff) = &diffs[i];
            push_str(&mut diffs_str, "File Name:");
            push_str(&mut diffs_str, file.as_str());
            push_str(&mut diffs_str, "\nDiff Content:");
            push_str(&mut diffs_str, diff.as_str());
            push_str(&mut diffs_str, "\n\n");
            i = i + 1;
            assert(diffs_str@ == diffs_text(files_view(diffs@), i as int));
        }
        self.diffs = diffs_str;
    }

    /// Sets the prompt from the configuration, the file tree and the status of
    /// the repository.
    pub fn build_prompt(&mut self, cfg: &Config, repo_tree: &str, repo_status: &str)
        ensures
            final(self).diffs == old(self).diffs,
            final(self).prompt@ == prompt_text(cfg, repo_tree@, repo_status@),
    {
        let mut prompt = String::new();
        let rules = build_rules(&cfg.ai.rules);
        match &cfg.ai.system_prompt {
            Some(p) => push_str(&mut prompt, p.as_str()),
            None => push_str(&mut prompt, DEFAULT_SYS_PROMPT),
        }
        push_char(&mut prompt, '\n');
        push_str(&mut prompt, rules.as_str());
        push_char(&mut prompt, '\n');
        let ghost before_convention = prompt@;
        if cfg.ai.include_convention {
            match &cfg.ai.commit_convention {
                Some(c) => push_str(&mut prompt, c.as_str()),
                None => push_str(&mut prompt, COMMIT_CONVENTION),
            }
            push_char(&mut prompt, '\n');
        }
        let ghost after_convention = prompt@;
        if cfg.gai.stage_hunks {
            push_str(&mut prompt, PROMPT_STAGE_HUNKS);
        } else {
            push_str(&mut prompt, PROMPT_STAGE_FILES);
        }
        push_char(&mut prompt, '\n');
        let ghost before_tree = prompt@;
        if cfg.ai.include_file_tree {
            push_str(&mut prompt, "Current File Tree: \n");
            push_str(&mut prompt, repo_tree);
            push_char(&mut prompt, '\n');
        }
        let ghost after_tree = prompt@;
        if cfg.ai.include_git_status {
            push_str(&mut prompt, "Current Git Status: \n");
            push_str(&mut prompt, repo_status);
        }
        proof {
            assert(after_convention == before_convention + convention_part(cfg));
            let tree = text_if(
                cfg.ai.include_file_tree,
                "Current File Tree: \n"@ + repo_tree@ + seq!['\n'],
            );
            assert(after_tree == before_tree + tree);
            let status = text_if(cfg.ai.include_git_status, "Current Git Status: \n"@ + repo_status@);
            assert(prompt@ == after_tree + status);
        }
        self.prompt = prompt;
    }
}

} // verus!
