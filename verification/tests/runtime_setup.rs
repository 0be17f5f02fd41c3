use rara::oauth::{OAuthManager, SavedAuth};
use rara::runtime_context::{backend_model, project_policy_tools, MultiAgentPolicy, ProviderBackend};

#[test]
fn disabled_delegation_drops_the_agent_tools() {
    let mut tools = vec!["read_file".to_string(), "spawn_agent".to_string(), "wait_agent".to_string(), "bash".to_string()];
    project_policy_tools(MultiAgentPolicy::Disabled, &mut tools);
    assert_eq!(tools, vec!["read_file".to_string(), "bash".to_string()]);

    let mut kept = vec!["read_file".to_string(), "spawn_agent".to_string()];
    project_policy_tools(MultiAgentPolicy::Explicit, &mut kept);
    assert_eq!(kept, vec!["read_file".to_string(), "spawn_agent".to_string()]);
}

#[test]
fn backends_that_need_a_model_refuse_without_one() {
    assert_eq!(backend_model(ProviderBackend::Ollama, "ollama", None).unwrap_err(), "Model required for Ollama provider");
    assert_eq!(
        backend_model(ProviderBackend::OllamaOpenAi, "ollama-openai", None).unwrap_err(),
        "Model required for Ollama OpenAI provider"
    );
    assert_eq!(backend_model(ProviderBackend::Bedrock, "bedrock", None).unwrap_err(), "Model required for Bedrock provider");
    assert_eq!(
        backend_model(ProviderBackend::ConfiguredOpenAiCompatible, "acme", None).unwrap_err(),
        "Model required for configured provider 'acme'"
    );
    assert_eq!(backend_model(ProviderBackend::Ollama, "ollama", Some("llama3".to_string())), Ok(Some("llama3".to_string())));
    assert_eq!(backend_model(ProviderBackend::Codex, "codex", None), Ok(None));
}

#[test]
fn the_codex_home_sits_beside_the_config_directory() {
    let manager = OAuthManager::new_for_config_dir("/home/u/.rara");
    assert_eq!(manager.codex_home(), "/home/u/.codex");
    assert_eq!(manager.legacy_codex_home(), "/home/u/.rara/codex-auth");
    assert_eq!(manager.saved_auth_cache(), None);
    assert!(manager.clears_legacy_home());
}

#[test]
fn a_cached_answer_holds_until_invalidated() {
    let mut manager = OAuthManager::new_for_config_dir("/home/u/.rara");
    assert!(!manager.has_saved_auth(&vec![None, None]));
    let saved = vec![
        Some(SavedAuth { auth_mode: None, openai_api_key: Some("sk-test".to_string()), access_token: None }),
        None,
    ];
    assert!(!manager.has_saved_auth(&saved));
    manager.invalidate_saved_auth_cache();
    assert!(manager.has_saved_auth(&saved));
}
