use rara::plugin_cli::{
    clone_failure_message, install_step, is_git_source, plugin_list_line, remove_step, safe_plugin_name,
    workspace_plugins_dir_for, InstallStep,
};
use rara::config::{McpServerConfig, McpServerTransport};
use rara::plugin_middleware::{
    apply_plugin_mcp_defaults, extract_plugin_command_description, extract_plugin_skill_description,
    extract_tool_response, hook_handler_matches_tool, hook_matches_agent_event, plugin_discovery_sources,
    plugin_hook_block_message, ToolResponse,
};
use rara::runtime_control::AgentEvent;

const SKILL: &str = "---\nname: inspector\ndescription: metadata\n---\n# Inspector\nInspect plugin-provided behavior.\n\n## Details\nMore.";

#[test]
fn plugin_middleware_plugin_skill_description_uses_first_markdown_body_section() {
    assert_eq!(extract_plugin_skill_description(SKILL), "Inspect plugin-provided behavior.");
}

#[test]
fn tests_plugin_skill_description_uses_first_markdown_body_section() {
    assert_eq!(extract_plugin_skill_description(SKILL), "Inspect plugin-provided behavior.");
}

fn check_discovery_with_home() {
    let rara_home = "/tmp/plugins-test/home/.rara";
    let workspace_root = "/tmp/plugins-test/workspace";
    let explicit_plugins_dir = "/tmp/plugins-test/explicit-plugins".to_string();

    let sources = plugin_discovery_sources(Some(rara_home), workspace_root, &vec![explicit_plugins_dir.clone()]);

    assert_eq!(sources.len(), 3);
    assert_eq!(sources[0].source.label(), "user");
    assert_eq!(sources[0].plugins_dir, "/tmp/plugins-test/home/.rara/plugins");
    assert_eq!(sources[1].source.label(), "project");
    assert_eq!(sources[1].plugins_dir, "/tmp/plugins-test/workspace/.rara/plugins");
    assert_eq!(sources[2].source.label(), "cli");
    assert_eq!(sources[2].plugins_dir, explicit_plugins_dir);
}

fn check_discovery_without_home() {
    let workspace_root = "/tmp/plugins-test/workspace";
    let explicit_plugins_dir = "/tmp/plugins-test/explicit-plugins".to_string();

    let sources = plugin_discovery_sources(None, workspace_root, &vec![explicit_plugins_dir.clone()]);

    assert_eq!(sources.len(), 2);
    assert_eq!(sources[0].source.label(), "project");
    assert_eq!(sources[0].plugins_dir, "/tmp/plugins-test/workspace/.rara/plugins");
    assert_eq!(sources[1].source.label(), "cli");
    assert_eq!(sources[1].plugins_dir, explicit_plugins_dir);
}

#[test]
fn plugin_middleware_plugin_discovery_sources_order_user_project_then_cli() {
    check_discovery_with_home();
}

#[test]
fn tests_plugin_discovery_sources_order_user_project_then_cli() {
    check_discovery_with_home();
}

#[test]
fn plugin_middleware_plugin_discovery_sources_keep_project_when_user_home_is_unavailable() {
    check_discovery_without_home();
}

#[test]
fn tests_plugin_discovery_sources_keep_project_when_user_home_is_unavailable() {
    check_discovery_without_home();
}

fn check_hook_matcher() {
    let bash_matcher = Some("Bash(*)");
    let edit_matcher = Some("Write|Edit");
    let bash_event = AgentEvent::ToolUse {
        call_id: "call-1".to_string(),
        name: "bash".to_string(),
        input: "{}".to_string(),
    };
    let edit_event = AgentEvent::ToolUse {
        call_id: "call-2".to_string(),
        name: "Edit".to_string(),
        input: "{}".to_string(),
    };

    assert!(hook_matches_agent_event(bash_matcher, &bash_event));
    assert!(!hook_matches_agent_event(bash_matcher, &edit_event));
    assert!(hook_matches_agent_event(edit_matcher, &edit_event));
    assert!(!hook_matches_agent_event(edit_matcher, &bash_event));
}

#[test]
fn plugin_middleware_hook_matcher_filters_tool_events_by_tool_name() {
    check_hook_matcher();
}

#[test]
fn tests_hook_matcher_filters_tool_events_by_tool_name() {
    check_hook_matcher();
}

fn check_tool_response() {
    let event = AgentEvent::ToolResult {
        call_id: "call-1".to_string(),
        name: "stub_tool".to_string(),
        content: r#"{"status":"ok"}"#.to_string(),
        is_error: false,
    };

    assert_eq!(extract_tool_response(&event), Some(ToolResponse::Json(r#"{"status":"ok"}"#.to_string())));
}

#[test]
fn plugin_middleware_extracts_tool_result_content_for_post_tool_use_hooks() {
    check_tool_response();
}

#[test]
fn tests_extracts_tool_result_content_for_post_tool_use_hooks() {
    check_tool_response();
}

#[test]
fn plugin_middleware_plugin_hook_block_message_falls_back_to_plain_stdout() {
    assert_eq!(plugin_hook_block_message("plain stdout failure", ""), "plain stdout failure");
}

#[test]
fn tests_plugin_hook_block_message_falls_back_to_plain_stdout() {
    assert_eq!(plugin_hook_block_message("plain stdout failure", ""), "plain stdout failure");
}

#[test]
fn tool_response_of_plain_text_is_text() {
    let event = AgentEvent::ToolResult {
        call_id: "call-1".to_string(),
        name: "bash".to_string(),
        content: "not json at all".to_string(),
        is_error: false,
    };
    assert_eq!(extract_tool_response(&event), Some(ToolResponse::Text("not json at all".to_string())));
    assert_eq!(extract_tool_response(&AgentEvent::AgentStart), None);
}

#[test]
fn block_message_prefers_json_stop_reason_then_stderr() {
    assert_eq!(plugin_hook_block_message(r#"{"stopReason":"  no deploys  "}"#, "err"), "no deploys");
    assert_eq!(plugin_hook_block_message(r#"{"reason":"   "}"#, " stderr text "), "stderr text");
    assert_eq!(plugin_hook_block_message("", ""), "blocked by plugin hook");
}

#[test]
fn hook_without_matcher_or_tool_always_runs() {
    assert!(hook_handler_matches_tool(None, Some("bash")));
    assert!(hook_handler_matches_tool(Some("  * "), Some("bash")));
    assert!(hook_handler_matches_tool(Some("Edit"), None));
    assert!(!hook_handler_matches_tool(Some("Edit"), Some("bash")));
}

#[test]
fn command_description_comes_from_front_matter() {
    assert_eq!(
        extract_plugin_command_description("---\ndescription: Review the current diff.\n---\n# Review\nBody text."),
        "Review the current diff."
    );
}

#[test]
fn plugin_mcp_defaults_resolve_relative_cwd_from_plugin_root() {
    let stdio = |cwd: Option<&str>| McpServerConfig {
        transport: McpServerTransport::Stdio {
            command: "docs-server".to_string(),
            args: Vec::new(),
            env: None,
            cwd: cwd.map(|c| c.to_string()),
        },
        enabled: true,
        required: false,
        enabled_tools: None,
        disabled_tools: None,
    };
    let mut servers = vec![
        ("docs".to_string(), stdio(Some("server"))),
        ("plain".to_string(), stdio(None)),
        ("abs".to_string(), stdio(Some("/opt/abs"))),
    ];
    apply_plugin_mcp_defaults(&mut servers, "/plugins/mcp-plugin");

    assert_eq!(servers[0].1, stdio(Some("/plugins/mcp-plugin/server")));
    assert_eq!(servers[1].1, stdio(Some("/plugins/mcp-plugin")));
    assert_eq!(servers[2].1, stdio(Some("/opt/abs")));
}

#[test]
fn plugin_install_requires_force_to_replace() {
    let target = "/workspace/.rara/plugins/test-plugin";
    assert_eq!(install_step("test-plugin", target, false, false, false), Ok(InstallStep::Copy));
    let err = install_step("test-plugin", target, true, false, false).unwrap_err();
    assert!(err.contains("--force"));
    assert_eq!(err, "plugin test-plugin is already installed; pass --force to replace it");
    assert_eq!(install_step("test-plugin", target, true, false, true), Ok(InstallStep::ReplaceThenCopy));
    assert_eq!(
        install_step("test-plugin", target, true, true, true),
        Err("plugin test-plugin is already installed at /workspace/.rara/plugins/test-plugin".to_string())
    );
}

#[test]
fn plugin_remove_rejects_path_like_name() {
    let err = safe_plugin_name("../plugin").unwrap_err();
    assert!(err.contains("invalid plugin name"));
    assert_eq!(err, "invalid plugin name: \"../plugin\"");
    assert_eq!(safe_plugin_name("  test-plugin "), Ok("test-plugin".to_string()));
    assert_eq!(remove_step("test-plugin", false), Err("plugin test-plugin is not installed".to_string()));
    assert_eq!(remove_step("test-plugin", true), Ok(()));
}

#[test]
fn plugin_list_lines_and_clone_failures_read_as_the_cli_prints_them() {
    assert_eq!(plugin_list_line("test-plugin", Some("1.0.0"), 1, "test plugin"), "test-plugin 1.0.0 hooks=1 - test plugin");
    assert_eq!(plugin_list_line("bare", None, 0, ""), "bare unknown hooks=0");
    assert_eq!(
        clone_failure_message("file:///nowhere", "  fatal: repository not found\n"),
        "failed to clone plugin source file:///nowhere: fatal: repository not found"
    );
    assert!(is_git_source("file:///tmp/repo"));
    assert!(is_git_source("git@github.com:a/b.git"));
    assert!(!is_git_source("/tmp/repo"));
    assert_eq!(workspace_plugins_dir_for("/ws"), "/ws/.rara/plugins");
}
