use rara::model_context::{ContentBlock, MessageContent, ModelContextKind};
use rara::oauth::{
    api_key_from_input, detect_saved_auth_mode, has_saved_auth, load_saved_credential, saved_auth_mode,
    OAuthManager, SavedAuth, SavedCodexAuthMode,
};
use rara::runtime_client::{
    begin_goal_continuation, finish_goal_continuation, goal_budget_label, goal_continuation_prompt,
    goal_budget_limit_prompt, goal_remaining_label, memory_message_content, plan_continuation, GoalContinuation, GoalStatus, GoalStep,
    PlanContinuation, RalphGoal,
};
use rara::runtime_context::{
    append_multi_agent_prompt_instructions, append_system_prompt, configured_provider_requirement, endpoint_kind_for_provider,
    is_configured_openai_compatible_provider, ollama_base_url, required_setting, vector_db_uri_for_workspace,
    effective_multi_agent_policy, extension_mcp_server_count, hook_enters_prompt, hook_prompt_entry, prompt_skill_scope,
    BootstrapSettings, SkillScope,
    memory_handle_uri_for_workspace, ollama_thinking_enabled, provider_backend, MultiAgentPolicy,
    OpenAiEndpointKind, ProviderBackend,
};
use rara::plugin_middleware::nowledge_mem_prompt_instructions;
use rara::runtime_goal::GoalEvaluation;
use rara::runtime_session::RuntimeSessionProfile;
use rara::config::{McpRegistry, McpServerConfig, McpServerScope, McpServerSource, McpServerTransport, SourcedMcpServerConfig};

#[test]
fn memory_capture_excludes_model_only_context() {
    let content = MessageContent::Blocks(vec![
        ContentBlock::Context {
            kind: ModelContextKind::RetrievedMemory,
            text: Some("internal retrieved context".to_string()),
        },
        ContentBlock::Text { text: "human request".to_string(), json: None },
    ]);

    assert_eq!(memory_message_content(&content).as_deref(), Some("human request"));
}

#[test]
fn memory_capture_joins_text_blocks_and_keeps_plain_text() {
    let content = MessageContent::Blocks(vec![
        ContentBlock::Text { text: "one".to_string(), json: None },
        ContentBlock::Other { json: r#"{"type":"image"}"#.to_string() },
        ContentBlock::Text { text: "two".to_string(), json: None },
    ]);
    assert_eq!(memory_message_content(&content).as_deref(), Some("one\ntwo"));
    assert_eq!(memory_message_content(&MessageContent::Text("plain".to_string())).as_deref(), Some("plain"));
    assert_eq!(memory_message_content(&MessageContent::Blocks(Vec::new())), None);
}

fn goal(tokens_used: u32, budget: Option<u32>) -> RalphGoal {
    RalphGoal {
        objective: "ship it".to_string(),
        condition: None,
        status: GoalStatus::Pursuing,
        tokens_used,
        turns_completed: 0,
        token_budget: budget,
        time_used_seconds: 42,
    }
}

#[test]
fn goal_continues_until_its_budget_is_spent() {
    match begin_goal_continuation(Some(goal(10, Some(100))), 50, 20, false, false) {
        GoalStep::Evaluate { goal, prompt } => {
            assert_eq!(goal.tokens_used, 40);
            assert_eq!(goal.turns_completed, 1);
            assert_eq!(goal.status, GoalStatus::Pursuing);
            assert!(prompt.starts_with("Continue working toward the active thread goal."));
            assert!(prompt.contains("<untrusted_objective>\nship it\n</untrusted_objective>"));
            assert!(prompt.contains("- Time spent pursuing goal: 42 seconds\n- Tokens used: 40\n- Token budget: 100\n- Tokens remaining: 60"));
        }
        other => panic!("expected evaluation, got {other:?}"),
    }
    match begin_goal_continuation(Some(goal(90, Some(100))), 50, 20, false, false) {
        GoalStep::BudgetLimited { goal, prompt } => {
            assert_eq!(goal.tokens_used, 120);
            assert_eq!(goal.status, GoalStatus::BudgetLimited);
            assert!(prompt.starts_with("The active thread goal has reached its token budget."));
            assert!(prompt.contains("- Tokens remaining: 0"));
        }
        other => panic!("expected budget limit, got {other:?}"),
    }
    // a turn whose running total went down charges nothing
    match begin_goal_continuation(Some(goal(u32::MAX, None)), 5, 20, false, false) {
        GoalStep::Evaluate { goal, prompt } => {
            assert_eq!(goal.tokens_used, u32::MAX);
            assert!(prompt.contains("- Token budget: unlimited\n- Tokens remaining: unlimited"));
        }
        other => panic!("expected evaluation, got {other:?}"),
    }
    assert_eq!(begin_goal_continuation(None, 1, 0, false, false), GoalStep::NotActive);
    assert_eq!(begin_goal_continuation(Some(goal(0, None)), 1, 0, true, false), GoalStep::NotActive);
    let mut done = goal(0, None);
    done.status = GoalStatus::Complete;
    assert_eq!(begin_goal_continuation(Some(done), 1, 0, false, false), GoalStep::NotActive);
}

#[test]
fn goal_evaluation_completes_or_continues_with_reason() {
    let g = goal(1, Some(10));
    let prompt = goal_continuation_prompt(&g);
    let (c, message) = finish_goal_continuation(g.clone(), prompt.clone(), GoalEvaluation::Complete);
    let mut complete = g.clone();
    complete.status = GoalStatus::Complete;
    assert_eq!(c, GoalContinuation::Complete { goal: complete });
    assert_eq!(message, None);
    let (c, message) = finish_goal_continuation(
        g.clone(),
        prompt.clone(),
        GoalEvaluation::Continue { reason: "tests missing".to_string() },
    );
    assert_eq!(c, GoalContinuation::Continue { goal: g.clone(), prompt, reason: "no: tests missing".to_string() });
    assert_eq!(message.as_deref(), Some("no: tests missing"));
    assert_eq!(goal_budget_label(&g), "10");
    assert_eq!(goal_remaining_label(&g), "9");
}

#[test]
fn plan_continuation_waits_for_approval_in_plan_mode() {
    assert_eq!(plan_continuation(false, false, true, true, None), PlanContinuation::NoAction);
    assert_eq!(plan_continuation(true, true, true, true, None), PlanContinuation::NoAction);
    assert_eq!(
        plan_continuation(true, false, true, false, Some("tool-1".to_string())),
        PlanContinuation::AwaitApproval { tool_id: Some("tool-1".to_string()) }
    );
    assert_eq!(plan_continuation(true, false, false, false, None), PlanContinuation::AutomaticImplementation);
}

fn api_key(key: &str) -> Option<SavedAuth> {
    Some(SavedAuth { auth_mode: None, openai_api_key: Some(key.to_string()), access_token: None })
}

#[test]
fn load_saved_credential_prefers_access_token_for_chatgpt_auth() {
    let both = Some(SavedAuth {
        auth_mode: None,
        openai_api_key: Some("sk-direct".into()),
        access_token: Some("access".into()),
    });
    assert_eq!(load_saved_credential(&vec![both.clone(), None]), Ok("access".to_string()));
    assert_eq!(saved_auth_mode(&vec![both, None]), Some(SavedCodexAuthMode::Chatgpt));
    let token_only = Some(SavedAuth { auth_mode: None, openai_api_key: None, access_token: Some("access-only".into()) });
    assert_eq!(load_saved_credential(&vec![token_only, None]), Ok("access-only".to_string()));
}

#[test]
fn load_saved_credential_uses_api_key_for_api_key_auth() {
    assert_eq!(load_saved_credential(&vec![api_key("sk-direct"), None]), Ok("sk-direct".to_string()));
    assert_eq!(saved_auth_mode(&vec![api_key("sk-direct"), None]), Some(SavedCodexAuthMode::ApiKey));
}

#[test]
fn has_saved_auth_detects_api_key_and_access_token_storage() {
    assert!(!has_saved_auth(&vec![None, None]));
    assert!(has_saved_auth(&vec![api_key("sk-test-123"), None]));
    let token_only = Some(SavedAuth { auth_mode: None, openai_api_key: None, access_token: Some("access-only".into()) });
    assert!(has_saved_auth(&vec![token_only, None]));
}

#[test]
fn load_saved_credential_rejects_blank_values() {
    let blank = Some(SavedAuth { auth_mode: None, openai_api_key: Some("   ".into()), access_token: Some("   ".into()) });
    let err = load_saved_credential(&vec![blank, None]).expect_err("blank credentials should be rejected");
    assert!(err.contains("did not contain an API key or access token"));
}

#[test]
fn has_saved_auth_refreshes_after_cache_invalidation() {
    let mut manager = OAuthManager::for_homes("/home/u/.codex".to_string(), "/home/u/.rara/codex-auth".to_string());
    assert!(!manager.has_saved_auth(&vec![None, None]));
    // the store now holds a key, but the remembered answer stands
    assert!(!manager.has_saved_auth(&vec![api_key("sk-direct"), None]));
    manager.invalidate_saved_auth_cache();
    assert!(manager.has_saved_auth(&vec![api_key("sk-direct"), None]));
    assert!(manager.clears_legacy_home());
    manager.invalidate_saved_auth_cache();
    assert_eq!(manager.load_saved_credential(&vec![None, api_key("sk-legacy")]), Ok("sk-legacy".to_string()));
    assert_eq!(manager.saved_auth_cache(), Some(true));
}

#[test]
fn load_saved_credential_prefers_official_codex_home_over_legacy_fallback() {
    assert_eq!(load_saved_credential(&vec![api_key("sk-official"), api_key("sk-legacy")]), Ok("sk-official".to_string()));
}

#[test]
fn load_saved_credential_falls_back_to_legacy_codex_home() {
    assert_eq!(load_saved_credential(&vec![None, api_key("sk-legacy")]), Ok("sk-legacy".to_string()));
}

#[test]
fn declared_auth_mode_wins_over_stored_values() {
    let declared =
        SavedAuth { auth_mode: Some("ApiKey".into()), openai_api_key: Some("sk".into()), access_token: Some("t".into()) };
    assert_eq!(detect_saved_auth_mode(&declared), Some(SavedCodexAuthMode::ApiKey));
    let chatgpt = SavedAuth { auth_mode: Some("ChatgptAuthTokens".into()), openai_api_key: None, access_token: None };
    assert_eq!(detect_saved_auth_mode(&chatgpt), Some(SavedCodexAuthMode::Chatgpt));
    assert_eq!(api_key_from_input("  sk-1 \n"), Ok("sk-1".to_string()));
    assert_eq!(api_key_from_input("  \n"), Err("API key input was empty".to_string()));
}

#[test]
fn ollama_thinking_respects_reasoning_summary_none() {
    assert!(!ollama_thinking_enabled(true, Some(true)));
}

#[test]
fn ollama_thinking_defaults_on_for_auto_reasoning_summary() {
    assert!(ollama_thinking_enabled(false, None));
    assert!(!ollama_thinking_enabled(false, Some(false)));
}

#[test]
fn memory_handle_uri_is_workspace_scoped() {
    assert_eq!(memory_handle_uri_for_workspace("/tmp/work/.rara"), "/tmp/work/.rara/memory");
}

#[test]
fn proactive_multi_agent_prompt_is_read_only_and_effort_independent() {
    let instructions =
        append_multi_agent_prompt_instructions(None, MultiAgentPolicy::ProactiveReadOnly).expect("policy prompt");
    assert!(instructions.contains("proactively delegate"));
    assert!(instructions.contains("read-only roles"));
    assert!(instructions.contains("Model selection and permissions are independent"));
    assert!(!instructions.contains("reasoning_effort"));
    assert_eq!(append_multi_agent_prompt_instructions(Some("x".to_string()), MultiAgentPolicy::Disabled), Some("x".to_string()));
    assert!(append_multi_agent_prompt_instructions(Some("base".to_string()), MultiAgentPolicy::Explicit)
        .expect("explicit")
        .starts_with("base\n\n## Multi-Agent Policy\n- Delegation is explicit-only"));
}

#[test]
fn nowledge_mem_guidance_is_injected_into_the_default_prompt() {
    let guidance = nowledge_mem_prompt_instructions(true).expect("enabled builtin memory adds guidance");
    let instructions = append_system_prompt(None, guidance);
    assert!(instructions.contains("Context Bundle"));
    assert!(instructions.contains("After context compaction"));
    assert_eq!(nowledge_mem_prompt_instructions(false), None);
}

#[test]
fn providers_select_their_backends() {
    assert_eq!(provider_backend("codex", false, None), Ok(ProviderBackend::Codex));
    assert_eq!(provider_backend("deepseek", true, None), Ok(ProviderBackend::OpenAiCompatibleFamily));
    assert_eq!(provider_backend("ollama-native", false, None), Ok(ProviderBackend::Ollama));
    assert_eq!(provider_backend("qwn3", false, None), Ok(ProviderBackend::Local));
    assert_eq!(provider_backend("acme", false, Some("https://acme.test/v1")), Ok(ProviderBackend::ConfiguredOpenAiCompatible));
    assert_eq!(provider_backend("acme", false, Some("   ")), Err("Unsupported provider 'acme'".to_string()));
    assert_eq!(endpoint_kind_for_provider("kimi-coding"), OpenAiEndpointKind::KimiCoding);
    assert_eq!(endpoint_kind_for_provider("other"), OpenAiEndpointKind::Custom);
}

#[test]
fn goal_budget_prompts_show_what_is_left() {
    let g = goal(120, Some(100));
    assert_eq!(g.remaining_tokens(), Some(0));
    assert_eq!(goal(10, Some(100)).remaining_tokens(), Some(90));
    assert_eq!(goal(10, None).remaining_tokens(), None);
    assert_eq!(goal_remaining_label(&goal(10, None)), "unlimited");
    let prompt = goal_budget_limit_prompt(&g);
    assert!(prompt.starts_with("The active thread goal has reached its token budget. Do not start new substantive work."));
    assert!(prompt.contains("<untrusted_objective>\nship it\n</untrusted_objective>"));
    assert!(prompt.contains("- Time spent pursuing goal: 42 seconds\n- Tokens used: 120\n- Token budget: 100\n- Tokens remaining: 0"));
    assert!(prompt.ends_with("Do not call update_goal unless the objective is actually complete."));
}

#[test]
fn provider_settings_are_required_where_the_provider_needs_them() {
    assert!(is_configured_openai_compatible_provider(false, Some("http://llm.local/v1")));
    assert!(!is_configured_openai_compatible_provider(false, Some("  ")));
    assert!(!is_configured_openai_compatible_provider(true, Some("http://llm.local/v1")));
    assert!(!is_configured_openai_compatible_provider(false, None));
    assert_eq!(ollama_base_url(None), "http://localhost:11434");
    assert_eq!(ollama_base_url(Some("http://gpu:11434".to_string())), "http://gpu:11434");
    let message = configured_provider_requirement("base_url", "acme");
    assert_eq!(message, "base_url required for configured provider 'acme'");
    assert_eq!(required_setting(None, &message), Err(message.clone()));
    assert_eq!(required_setting(Some("k".to_string()), &message), Ok("k".to_string()));
    assert_eq!(vector_db_uri_for_workspace("/ws/.rara"), "/ws/.rara/lancedb");
}

#[test]
fn headless_sessions_leave_out_ambient_facilities() {
    let defaults = BootstrapSettings::new();
    assert!(defaults.extension_discovery && defaults.transcript_persistence && defaults.memory_facilities);
    assert_eq!(defaults.event_capacity, 256);
    assert_eq!(defaults.effective(), defaults);
    let headless = BootstrapSettings { session_profile: RuntimeSessionProfile::HeadlessCodingV1, ..defaults }.effective();
    assert!(!headless.extension_discovery && !headless.transcript_persistence && !headless.memory_facilities);
    assert_eq!(headless.session_profile, RuntimeSessionProfile::HeadlessCodingV1);
    assert_eq!(defaults.with_event_capacity(0).event_capacity, 1);
    assert_eq!(defaults.with_event_capacity(8).event_capacity, 8);
    assert_eq!(
        effective_multi_agent_policy(RuntimeSessionProfile::HeadlessCodingV1, MultiAgentPolicy::ProactiveReadOnly),
        MultiAgentPolicy::Disabled
    );
    assert_eq!(effective_multi_agent_policy(RuntimeSessionProfile::Default, MultiAgentPolicy::Explicit), MultiAgentPolicy::Explicit);
}

#[test]
fn extension_counts_and_prompt_entries() {
    assert_eq!(prompt_skill_scope(SkillScope::Home), "global");
    assert_eq!(prompt_skill_scope(SkillScope::Repo), "workspace");
    assert_eq!(prompt_skill_scope(SkillScope::Plugin), "plugin");
    assert_eq!(prompt_skill_scope(SkillScope::System), "system");
    let server = |scope: McpServerScope| SourcedMcpServerConfig {
        config: McpServerConfig {
            transport: McpServerTransport::Stdio { command: "x".to_string(), args: vec![], env: None, cwd: None },
            enabled: true,
            required: false,
            enabled_tools: None,
            disabled_tools: None,
        },
        source: McpServerSource { scope, path: "/p".to_string() },
    };
    let registry = McpRegistry {
        servers: vec![
            ("a".to_string(), server(McpServerScope::Plugin)),
            ("b".to_string(), server(McpServerScope::Project)),
            ("c".to_string(), server(McpServerScope::Builtin)),
        ],
    };
    assert_eq!(extension_mcp_server_count(&registry), 2);
    assert_eq!(hook_prompt_entry("pre-commit", "run the tests"), "## pre-commit\n\nrun the tests");
    assert!(!hook_enters_prompt(".agent/settings.json", ".agent/settings.json"));
    assert!(hook_enters_prompt(".rara/hooks/pre.md", ".agent/settings.json"));
}
