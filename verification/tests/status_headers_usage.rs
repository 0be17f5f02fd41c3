use rara::mcp_status::{format_mcp_status, McpStatusSnapshot};
use rara::mcp_tool_cache::{resolve_http_headers, HttpHeaderSources, McpToolCache, McpToolRecord};
use rara::model_observation::{ModelCacheUsage, ModelRequestFingerprint, ModelTokenUsage, TokenUsage};

#[test]
fn formats_empty_status() {
    let rendered = format_mcp_status(&McpStatusSnapshot { servers: vec![] });

    assert_eq!(rendered, "MCP Servers\n\nNo MCP servers configured.");
}

#[test]
fn resolve_http_headers_merges_bearer_env_headers_and_static_headers() {
    let env_headers = vec![
        ("X-NMEM-API-Key".to_string(), "NMEM_API_KEY".to_string()),
        ("X-Nmem-Space-Id".to_string(), "NMEM_SPACE".to_string()),
    ];
    let static_headers = vec![("APP".to_string(), "RARA".to_string())];

    let resolved = resolve_http_headers(
        &HttpHeaderSources {
            bearer_token_env_var: Some("NMEM_API_KEY"),
            headers: Some(&static_headers),
            env_headers: Some(&env_headers),
        },
        |name: &str| if name == "NMEM_API_KEY" { Some("nmem_ck_test".to_string()) } else { None },
    );

    assert_eq!(
        resolved.headers,
        vec![
            ("APP".to_string(), "RARA".to_string()),
            ("Authorization".to_string(), "Bearer nmem_ck_test".to_string()),
            ("X-NMEM-API-Key".to_string(), "nmem_ck_test".to_string()),
        ]
    );
    assert_eq!(resolved.missing_env_vars, vec!["NMEM_SPACE".to_string()]);
}

#[test]
fn resolve_http_headers_prefers_static_headers_over_env_values() {
    let static_headers = vec![("Authorization".to_string(), "Bearer explicit".to_string())];

    let resolved = resolve_http_headers(
        &HttpHeaderSources {
            bearer_token_env_var: Some("NMEM_API_KEY"),
            headers: Some(&static_headers),
            env_headers: None,
        },
        |_: &str| Some("env-token".to_string()),
    );

    assert_eq!(
        resolved.headers,
        vec![("Authorization".to_string(), "Bearer explicit".to_string())]
    );
    assert!(resolved.missing_env_vars.is_empty());
}

#[test]
fn resolve_http_headers_reports_unset_bearer_env_var() {
    let resolved = resolve_http_headers(
        &HttpHeaderSources { bearer_token_env_var: Some("NMEM_API_KEY"), headers: None, env_headers: None },
        |_: &str| None,
    );

    assert!(resolved.headers.is_empty());
    assert_eq!(resolved.missing_env_vars, vec!["NMEM_API_KEY".to_string()]);
}

#[test]
fn cache_hit_rate_uses_basis_points() {
    assert_eq!(ModelCacheUsage { hit_tokens: 3, miss_tokens: 1 }.hit_rate_basis_points(), Some(7_500));
    assert_eq!(ModelCacheUsage::default().hit_rate_basis_points(), None);
}

#[test]
fn provider_usage_distinguishes_zero_hits_from_missing_cache_accounting() {
    let zero_hit = ModelTokenUsage::from_provider_usage(&TokenUsage {
        input_tokens: 100,
        output_tokens: 12,
        cache_hit_tokens: 0,
        cache_miss_tokens: 100,
    });
    let missing = ModelTokenUsage::from_provider_usage(&TokenUsage {
        input_tokens: 100,
        output_tokens: 12,
        cache_hit_tokens: 0,
        cache_miss_tokens: 0,
    });

    assert_eq!(zero_hit.cache, Some(ModelCacheUsage { hit_tokens: 0, miss_tokens: 100 }));
    assert_eq!(missing.cache, None);
}

fn fingerprint(messages: &[&str]) -> ModelRequestFingerprint {
    ModelRequestFingerprint {
        version: 1,
        hash_scope: "scope".to_string(),
        request_sha256: "request".to_string(),
        system_sha256: None,
        messages_sha256: "messages".to_string(),
        tools_sha256: "tools".to_string(),
        options_sha256: "options".to_string(),
        message_sha256: messages.iter().map(|value| (*value).to_string()).collect(),
        tool_sha256: Vec::new(),
        message_count: messages.len(),
        tool_count: 0,
    }
}

#[test]
fn fingerprint_compares_bounded_message_prefixes() {
    assert_eq!(
        fingerprint(&["system", "user", "assistant"])
            .shared_message_prefix_len(&fingerprint(&["system", "user", "next"])),
        2
    );
}

fn tool(name: &str, description: &str) -> McpToolRecord {
    McpToolRecord {
        server: String::new(),
        name: name.to_string(),
        display_name: String::new(),
        description: description.to_string(),
    }
}

#[test]
fn tool_cache_searches_case_insensitively_in_server_then_name_order() {
    let mut cache = McpToolCache::new();
    assert!(cache.is_empty());
    cache.insert_server_tools("zeta".to_string(), vec![tool("Search_Docs", "find pages")]);
    cache.insert_server_tools("alpha".to_string(), vec![tool("write", "Write a SEARCH index"), tool("read", "read one")]);
    assert!(!cache.is_empty());
    let hits = cache.search("search");
    let names: Vec<&str> = hits.iter().map(|t| t.display_name.as_str()).collect();
    assert_eq!(names, vec!["alpha: write", "zeta: Search_Docs"]);
    assert_eq!(hits[1].server, "zeta");
    // replacing a server's tools drops the old ones
    cache.insert_server_tools("alpha".to_string(), vec![tool("read", "read one")]);
    assert_eq!(cache.search("search").len(), 1);
    let many: Vec<McpToolRecord> = (0..15).map(|i| tool(&format!("t{i:02}"), "x")).collect();
    cache.insert_server_tools("bulk".to_string(), many);
    let hits = cache.search("T");
    assert_eq!(hits.len(), 10);
    assert_eq!(hits[0].display_name, "bulk: t00");
    cache.clear();
    assert!(cache.is_empty());
    assert!(cache.search("").is_empty());
}
