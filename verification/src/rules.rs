//! The short form of the rules, one clause after another on a single line.
use vstd::prelude::*;
use vstd::string::*;

use crate::config::{Config, GaiConfig, RuleConfig};
use crate::consts::{DEFAULT_SYS_PROMPT, PROMPT_STAGE_FILES, PROMPT_STAGE_HUNKS};
use crate::request::{convention_part, prompt_text, rules_text, text_if};
use crate::text::{decimal, push_char, push_str, u64_to_decimal};

verus! {

/// The clauses on grouping files.
pub open spec fn group_rules() -> Seq<char> {
    "- GROUP related files into LOGICAL commits based on the type of change"@
        + "- Examples of files that should be grouped together:"@
        + "  * Multiple files implementing the same feature"@
        + "  * Files modified for the same bug fix"@
        + "  * Related configuration and code changes"@
        + "  * Test files with the code they test"@
}

/// The clause on scopes.
pub open spec fn short_scope_rule(allow_empty: bool, exclude_extension: bool) -> Seq<char> {
    if allow_empty {
        if exclude_extension {
            "  * scope: The component name or \"\", DO NOT include the file extension"@
        } else {
            "  * scope: The component name or \"\""@
        }
    } else if exclude_extension {
        "  * scope: The component name, DO NOT include the file extension"@
    } else {
        "  * scope: The component name"@
    }
}

/// The clause on messages.
pub open spec fn message_rule(verbose: bool) -> Seq<char> {
    if verbose {
        "  * message: ONLY the description, do NOT include prefix or scope in the message text. Make sure your descriptions are ACCURATE and VERBOSE that closely align with the changes."@
    } else {
        "  * message: ONLY the description, do NOT include prefix or scope in the message text."@
    }
}

/// The short form of the rules of `cfg`.
pub open spec fn short_rules_text(cfg: RuleConfig) -> Seq<char> {
    text_if(cfg.group_related_files, group_rules())
        + text_if(cfg.no_file_splitting, "- Each file should appear in ONLY ONE commit"@)
        + text_if(
        cfg.separate_by_purpose,
        "- Create SEPARATE commits when changes serve DIFFERENT purposes"@,
    )
        + "- For CommitMessages:"@
        + "  * prefix: The appropriate type from the PrefixType enum"@
        + "  * header: Keep under "@
        + decimal(cfg.max_header_length as nat)
        + " characters total (including type and scope)"@
        + "  * body: Wrap lines at "@
        + decimal(cfg.max_body_length as nat)
        + " characters. Provide detailed context."@
        + short_scope_rule(cfg.allow_empty_scope, cfg.exclude_extension_in_scope)
        + "  * breaking: true if breaking change, false otherwise"@
        + message_rule(cfg.verbose_descriptions)
        + seq!['\n']
}

impl RuleConfig {
    /// The short form of the rules.
    pub fn build_rules(&self) -> (r: String)
        ensures
            r@ == short_rules_text(*self),
    {
        let mut rules = String::new();
        let ghost start = rules@;
        if self.group_related_files {
            push_str(&mut rules, "- GROUP related files into LOGICAL commits based on the type of change");
            push_str(&mut rules, "- Examples of files that should be grouped together:");
            push_str(&mut rules, "  * Multiple files implementing the same feature");
            push_str(&mut rules, "  * Files modified for the same bug fix");
            push_str(&mut rules, "  * Related configuration and code changes");
            push_str(&mut rules, "  * Test files with the code they test");
        }
        assert(rules@ == start + text_if(self.group_related_files, group_rules()));
        if self.no_file_splitting {
            push_str(&mut rules, "- Each file should appear in ONLY ONE commit");
        }
        if self.separate_by_purpose {
            push_str(&mut rules, "- Create SEPARATE commits when changes serve DIFFERENT purposes");
        }
        push_str(&mut rules, "- For CommitMessages:");
        push_str(&mut rules, "  * prefix: The appropriate type from the PrefixType enum");
        push_str(&mut rules, "  * header: Keep under ");
        let header = u64_to_decimal(self.max_header_length as u64);
        push_str(&mut rules, header.as_str());
        push_str(&mut rules, " characters total (including type and scope)");
        push_str(&mut rules, "  * body: Wrap lines at ");
        let body = u64_to_decimal(self.max_body_length as u64);
        push_str(&mut rules, body.as_str());
        push_str(&mut rules, " characters. Provide detailed context.");
        if self.allow_empty_scope {
            if self.exclude_extension_in_scope {
                push_str(&mut rules, "  * scope: The component name or \"\", DO NOT include the file extension");
            } else {
                push_str(&mut rules, "  * scope: The component name or \"\"");
            }
        } else if self.exclude_extension_in_scope {
            push_str(&mut rules, "  * scope: The component name, DO NOT include the file extension");
        } else {
            push_str(&mut rules, "  * scope: The component name");
        }
        push_str(&mut rules, "  * breaking: true if breaking change, false otherwise");
        if self.verbose_descriptions {
            push_str(&mut rules, "  * message: ONLY the description, do NOT include prefix or scope in the message text. Make sure your descriptions are ACCURATE and VERBOSE that closely align with the changes.");
        } else {
            push_str(&mut rules, "  * message: ONLY the description, do NOT include prefix or scope in the message text.");
        }
        push_char(&mut rules, '\n');
        rules
    }
}

/// Law: whether a body is allowed makes no difference to the short rules;
/// two configurations that differ only there give the same text.
pub proof fn lemma_rules_ignore_allow_body(c: RuleConfig, allow_body: bool)
    ensures
        short_rules_text(c) == short_rules_text(RuleConfig { allow_body, ..c }),
{
}

/// Whether `t` occurs in `s`.
pub open spec fn has_text(s: Seq<char>, t: Seq<char>) -> bool {
    exists|i: int| 0 <= i && i + t.len() <= s.len() && #[trigger] s.subrange(i, i + t.len()) == t
}

/// The rules text before the clause on scopes.
pub open spec fn rules_before_scope(cfg: RuleConfig) -> Seq<char> {
    text_if(cfg.group_related_files, group_rules())
        + text_if(cfg.no_file_splitting, "- Each file should appear in ONLY ONE commit"@)
        + text_if(
        cfg.separate_by_purpose,
        "- Create SEPARATE commits when changes serve DIFFERENT purposes"@,
    )
        + "- For CommitMessages:"@
        + "  * prefix: The appropriate type from the PrefixType enum"@
        + "  * header: Keep under "@
        + decimal(cfg.max_header_length as nat)
        + " characters total (including type and scope)"@
        + "  * body: Wrap lines at "@
        + decimal(cfg.max_body_length as nat)
        + " characters. Provide detailed context."@
}

/// `t` occurs in `a + m + b` where it occurs in `m` at `k`.
pub(crate) proof fn lemma_has_text_middle(a: Seq<char>, m: Seq<char>, b: Seq<char>, t: Seq<char>, k: int)
    requires
        0 <= k,
        k + t.len() <= m.len(),
        m.subrange(k, k + t.len()) == t,
    ensures
        has_text(a + m + b, t),
{
    let s = a + m + b;
    let i = a.len() + k;
    assert(s.subrange(i, i + t.len()) =~= m.subrange(k, k + t.len()));
}

/// Law: the short rules text asks to leave out the file extension whenever
/// `exclude_extension_in_scope` is set, and allows an empty scope whenever
/// `allow_empty_scope` is set; the text before and after the clause on scopes
/// does not depend on either flag.
pub proof fn lemma_rules_scope_phrases(c: RuleConfig)
    ensures
        short_rules_text(c) == rules_before_scope(c) + short_scope_rule(
            c.allow_empty_scope,
            c.exclude_extension_in_scope,
        ) + ("  * breaking: true if breaking change, false otherwise"@ + message_rule(
            c.verbose_descriptions,
        ) + seq!['\n']),
        c.exclude_extension_in_scope ==> has_text(
            short_rules_text(c),
            "DO NOT include the file extension"@,
        ),
        c.allow_empty_scope ==> has_text(short_rules_text(c), "The component name or \"\""@),
{
    let a = rules_before_scope(c);
    let m = short_scope_rule(c.allow_empty_scope, c.exclude_extension_in_scope);
    let b = "  * breaking: true if breaking change, false otherwise"@ + message_rule(
        c.verbose_descriptions,
    ) + seq!['\n'];
    assert(short_rules_text(c) =~= a + m + b);
    let ext = "DO NOT include the file extension"@;
    let empty = "The component name or \"\""@;
    reveal_strlit("DO NOT include the file extension");
    reveal_strlit("The component name or \"\"");
    reveal_strlit("  * scope: The component name or \"\", DO NOT include the file extension");
    reveal_strlit("  * scope: The component name, DO NOT include the file extension");
    reveal_strlit("  * scope: The component name or \"\"");
    if c.allow_empty_scope && c.exclude_extension_in_scope {
        assert(m.subrange(37, 70) =~= ext);
        lemma_has_text_middle(a, m, b, ext, 37);
        assert(m.subrange(11, 35) =~= empty);
        lemma_has_text_middle(a, m, b, empty, 11);
    } else if c.allow_empty_scope {
        assert(m.subrange(11, 35) =~= empty);
        lemma_has_text_middle(a, m, b, empty, 11);
    } else if c.exclude_extension_in_scope {
        assert(m.subrange(31, 64) =~= ext);
        lemma_has_text_middle(a, m, b, ext, 31);
    }
}

/// Law: the prompt carries the instructions of its staging mode: those for
/// hunk ids when changes are staged hunk by hunk, those for whole files
/// otherwise, after the system prompt, the rules and the convention; and the
/// two modes give different prompts for the same configuration otherwise.
pub proof fn lemma_prompt_staging_instructions(cfg: &Config, tree: Seq<char>, status: Seq<char>)
    ensures
        cfg.gai.stage_hunks ==> has_text(prompt_text(cfg, tree, status), PROMPT_STAGE_HUNKS@),
        !cfg.gai.stage_hunks ==> has_text(prompt_text(cfg, tree, status), PROMPT_STAGE_FILES@),
        ({
            let other = Config {
                gai: GaiConfig { stage_hunks: !cfg.gai.stage_hunks, ..cfg.gai },
                ..*cfg
            };
            prompt_text(cfg, tree, status) != prompt_text(&other, tree, status)
        }),
{
    let other = Config { gai: GaiConfig { stage_hunks: !cfg.gai.stage_hunks, ..cfg.gai }, ..*cfg };
    let head = (match cfg.ai.system_prompt {
        Some(p) => p@,
        None => DEFAULT_SYS_PROMPT@,
    }) + seq!['\n'] + rules_text(cfg.ai.rules) + seq!['\n'] + convention_part(cfg);
    let tail = seq!['\n'] + text_if(
        cfg.ai.include_file_tree,
        "Current File Tree: \n"@ + tree + seq!['\n'],
    ) + text_if(cfg.ai.include_git_status, "Current Git Status: \n"@ + status);
    let hunks = PROMPT_STAGE_HUNKS@;
    let files = PROMPT_STAGE_FILES@;
    assert(convention_part(&other) == convention_part(cfg));
    if cfg.gai.stage_hunks {
        assert(prompt_text(cfg, tree, status) =~= head + hunks + tail);
        assert(prompt_text(&other, tree, status) =~= head + files + tail);
        assert(hunks.subrange(0, hunks.len() as int) =~= hunks);
        lemma_has_text_middle(head, hunks, tail, hunks, 0);
    } else {
        assert(prompt_text(cfg, tree, status) =~= head + files + tail);
        assert(prompt_text(&other, tree, status) =~= head + hunks + tail);
        assert(files.subrange(0, files.len() as int) =~= files);
        lemma_has_text_middle(head, files, tail, files, 0);
    }
    reveal_strlit("Fill out files with valid paths and leave hunk_headers empty");
    assert(files.len() == 60);
    reveal_strlit(
        "Fill hunk_ids with the HUNK_ID values shown in the diffs (format: \"filepath:index\").\
    Each hunk can only appear in ONE commit.\
    Ex.: [\"src/main.rs:0\", \"src/git/repo.rs:1\"]",
    );
    assert(hunks.len() != files.len());
}


} // verus!
