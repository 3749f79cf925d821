use gai::config::{AiConfig, CommitConfig, Config, ProviderConfig, RuleConfig};
use gai::consts::{CHATGPT_DEFAULT, DEFAULT_SYS_PROMPT, GEMINI_DEFAULT, PROMPT_STAGE_FILES};
use gai::provider::{Provider, ProviderMap};
use gai::request::{build_rules, Request};
use gai::response::{compose_commit_prefix, CommitMessage, PrefixType, Response, ResponseCommit, ResponseSchema};

#[test]
fn provider_names() {
    assert_eq!(Provider::OpenAI.name("gpt-5-nano"), "OpenAI (gpt-5-nano)");
    assert_eq!(Provider::Gemini.name("m"), "Gemini (m)");
    assert_eq!(Provider::Gai.name(""), "Gai ()");
}

#[test]
fn default_providers() {
    let m = Provider::create_defaults();
    let es = m.entries();
    assert_eq!(es.len(), 4);
    assert_eq!(es[0].0, Provider::OpenAI);
    assert_eq!(es[0].1.model, CHATGPT_DEFAULT);
    assert_eq!(es[1].1.model, GEMINI_DEFAULT);
    assert_eq!(es[3].0, Provider::Gai);
    assert_eq!(es[3].1.model, GEMINI_DEFAULT);
    assert!(es.iter().all(|e| e.1.max_tokens == 5000));
}

#[test]
fn provider_map_reads_back_what_was_set() {
    let mut m = ProviderMap::new();
    m.insert(Provider::Gemini, ProviderConfig::new("a"));
    m.insert(Provider::OpenAI, ProviderConfig::new("b"));
    m.insert(Provider::Gemini, ProviderConfig::new("c"));
    assert_eq!(m.get(Provider::Gemini).unwrap().model, "c");
    assert_eq!(m.get(Provider::OpenAI).unwrap().model, "b");
    assert!(m.get(Provider::Gai).is_none());
    assert_eq!(m.entries().len(), 2);
}

#[test]
fn provider_config_new() {
    let c = ProviderConfig::new("x");
    assert_eq!(c.model, "x");
    assert_eq!(c.max_tokens, 5000);
}

#[test]
fn config_defaults() {
    let c = Config::default();
    assert_eq!(c.ai.provider, Provider::Gemini);
    assert!(c.ai.include_convention && c.ai.include_file_tree && c.ai.include_git_status);
    assert!(c.ai.system_prompt.is_none());
    assert_eq!(c.ai.rules.max_header_length, 52);
    assert_eq!(c.ai.rules.max_body_length, 72);
    assert!(!c.gai.stage_hunks);
    assert_eq!(c.gai.commit_config, CommitConfig::default());
    assert!(c.gai.commit_config.include_scope);
    assert!(!c.tui.auto_request);
}

fn minimal_rules() -> RuleConfig {
    RuleConfig {
        group_related_files: false,
        no_file_splitting: false,
        separate_by_purpose: false,
        verbose_descriptions: false,
        exclude_extension_in_scope: false,
        allow_empty_scope: false,
        max_header_length: 50,
        allow_body: true,
        max_body_length: 80,
    }
}

#[test]
fn rules_text_has_the_limits() {
    let r = build_rules(&minimal_rules());
    assert!(r.starts_with("\n## CommitMessage Field Requirements:\n"));
    assert!(r.contains("    - CRITICAL: Maximum length is 50 characters\n"));
    assert!(r.contains("    - Wrap lines at 80 characters\n"));
    assert!(r.contains("  * scope: Component name with extension (e.g., 'main.rs', 'parser')\n"));
    assert!(r.ends_with("    - Write clear, concise descriptions\n\n"));
    let d = build_rules(&RuleConfig::default());
    assert!(d.starts_with("- GROUP related files"));
    assert!(d.contains("WITHOUT extension"));
}

#[test]
fn short_rules_text() {
    let r = minimal_rules().build_rules();
    assert_eq!(
        r,
        "- For CommitMessages:  * prefix: The appropriate type from the PrefixType enum  * header: Keep under 50 characters total (including type and scope)  * body: Wrap lines at 80 characters. Provide detailed context.  * scope: The component name  * breaking: true if breaking change, false otherwise  * message: ONLY the description, do NOT include prefix or scope in the message text.\n"
    );
}

#[test]
fn diffs_of_a_request() {
    let mut req = Request::default();
    req.build_diffs_string(vec![("a.rs".to_string(), "+x\n".to_string())]);
    assert_eq!(req.diffs, "File Name:a.rs\nDiff Content:+x\n\n\n");
    assert_eq!(req.prompt, "");
}

#[test]
fn prompt_of_a_request() {
    let mut cfg = Config::default();
    cfg.ai.include_convention = false;
    cfg.ai.rules = minimal_rules();
    let mut req = Request::default();
    req.build_prompt(&cfg, "a.rs\n", "Staged:\n");
    let rules = build_rules(&minimal_rules());
    let expected = format!(
        "{}\n{}\n{}\nCurrent File Tree: \na.rs\n\nCurrent Git Status: \nStaged:\n",
        DEFAULT_SYS_PROMPT, rules, PROMPT_STAGE_FILES
    );
    assert_eq!(req.prompt, expected);
    cfg.ai.system_prompt = Some("sys".to_string());
    cfg.ai.include_file_tree = false;
    cfg.ai.include_git_status = false;
    req.build_prompt(&cfg, "t", "s");
    assert!(req.prompt.starts_with("sys\n"));
    assert!(!req.prompt.contains("Current File Tree"));
}

fn commit(prefix: PrefixType, scope: &str, breaking: bool) -> ResponseCommit {
    ResponseCommit {
        files: vec!["a.rs".to_string()],
        hunk_ids: vec![],
        message: CommitMessage {
            prefix,
            scope: scope.to_string(),
            breaking,
            header: "h".to_string(),
            body: String::new(),
        },
    }
}

#[test]
fn commit_prefixes() {
    assert_eq!(commit(PrefixType::Feat, "API", true).get_commit_prefix(false, true), "feat!(api)");
    assert_eq!(commit(PrefixType::CI, "x", false).get_commit_prefix(true, false), "CI");
    assert_eq!(commit(PrefixType::CI, "x", false).get_commit_prefix(false, false), "ci");
    assert_eq!(commit(PrefixType::Fix, "", false).get_commit_prefix(false, true), "fix()");
    assert_eq!(compose_commit_prefix(PrefixType::Revert, true, true, Some("s")), "Revert!(s)");
}

#[test]
fn response_from_outcome() {
    let r = Response::from_outcome(Provider::Gai, Err("boom".to_string()));
    assert_eq!(r.errors, vec!["boom".to_string()]);
    assert!(r.response_schema.is_empty());
    let r = Response::from_outcome(Provider::OpenAI, Ok(ResponseSchema::default()));
    assert!(r.errors.is_empty());
    assert_eq!(r.response_schema.len(), 1);
    assert_eq!(r.response_schema[0].0, Provider::OpenAI);
}

#[test]
fn ai_config_default_is_default() {
    let a = AiConfig::default();
    assert_eq!(a.providers.entries().len(), 4);
    assert!(a.hint.is_none());
}

#[test]
fn overrides_split_at_the_first_equals() {
    assert_eq!(
        gai::config::split_override("ai.hint=a=b"),
        Ok(("ai.hint".to_string(), "a=b".to_string()))
    );
    assert_eq!(gai::config::split_override("novalue"), Err("can't parse this: novalue".to_string()));
}

#[test]
fn commit_messages() {
    let mut c = commit(PrefixType::Docs, "Readme", false);
    assert_eq!(c.commit_message(false, true), "docs(readme): h");
    c.message.body = "why".to_string();
    assert_eq!(c.commit_message(true, false), "Docs: h\n\nwhy");
}

#[test]
fn cut_points() {
    assert!(gai::text::cuttable_at("héllo", 3));
    assert!(!gai::text::cuttable_at("héllo", 2));
    assert!(!gai::text::cuttable_at("hé", 2));
    assert!(gai::text::cuttable_at("hé", 3));
    assert!(gai::text::cuttable_at("ab", 5));
}
