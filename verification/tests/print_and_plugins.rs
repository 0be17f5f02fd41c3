use rara::plugin_hooks::{hook_event_to_lifecycle, HookLifecycle, PluginHookEvent};
use rara::plugin_middleware::{
    extract_leading_frontmatter_field, extract_tool_input, extract_tool_name, is_command_hook, nowledge_mem_http_headers,
    strip_leading_frontmatter, tool_name_matches, trim_yaml_scalar,
};
use rara::print_consumer::{render_event, PrintOutput};
use rara::redaction::sanitize_url_for_display;
use rara::runtime_control::AgentEvent;

#[test]
fn print_mode_streams_text_and_notes_tools_on_stderr() {
    assert_eq!(render_event(&AgentEvent::AssistantDelta("Hel".to_string())), Some(PrintOutput::Stdout("Hel".to_string())));
    assert_eq!(render_event(&AgentEvent::AssistantText("lo".to_string())), Some(PrintOutput::Stdout("lo".to_string())));
    let use_event = AgentEvent::ToolUse { call_id: "c1".to_string(), name: "bash".to_string(), input: "{}".to_string() };
    assert_eq!(render_event(&use_event), Some(PrintOutput::Stderr("\n[Tool: bash]\n".to_string())));
    let failed = AgentEvent::ToolResult {
        call_id: "c1".to_string(),
        name: "bash".to_string(),
        content: "exit 1".to_string(),
        is_error: true,
    };
    assert_eq!(render_event(&failed), Some(PrintOutput::Stderr("\n[Tool error: bash]\n".to_string())));
    let ok = AgentEvent::ToolResult { call_id: "c1".to_string(), name: "bash".to_string(), content: "ok".to_string(), is_error: false };
    assert_eq!(render_event(&ok), None);
    assert_eq!(render_event(&AgentEvent::Status("compacting".to_string())), Some(PrintOutput::Stderr("\n[compacting]\n".to_string())));
    assert_eq!(render_event(&AgentEvent::AgentStart), None);
    assert_eq!(render_event(&AgentEvent::AssistantThinkingDelta("hmm".to_string())), None);
}

#[test]
fn tool_events_expose_their_name_and_input() {
    let use_event = AgentEvent::ToolUse { call_id: "c".to_string(), name: "write_file".to_string(), input: "{\"path\":\"a\"}".to_string() };
    assert_eq!(extract_tool_name(&use_event).as_deref(), Some("write_file"));
    assert_eq!(extract_tool_input(&use_event).as_deref(), Some("{\"path\":\"a\"}"));
    let result = AgentEvent::ToolResult { call_id: "c".to_string(), name: "grep".to_string(), content: String::new(), is_error: false };
    assert_eq!(extract_tool_name(&result).as_deref(), Some("grep"));
    assert_eq!(extract_tool_input(&result), None);
    assert_eq!(extract_tool_name(&AgentEvent::AgentStart), None);
}

#[test]
fn matchers_name_tools_case_insensitively() {
    assert!(tool_name_matches("Bash(*)", "bash"));
    assert!(tool_name_matches("Write|Edit", " edit "));
    assert!(tool_name_matches("read_file, grep", "grep"));
    assert!(tool_name_matches("*", "anything"));
    assert!(!tool_name_matches("Write|Edit", "bash"));
    assert!(!tool_name_matches(" | ,", "bash"));
    assert!(is_command_hook(""));
    assert!(is_command_hook("command"));
    assert!(!is_command_hook("prompt"));
    assert_eq!(hook_event_to_lifecycle(PluginHookEvent::PostToolUse), HookLifecycle::PostToolUse);
    assert_eq!(hook_event_to_lifecycle(PluginHookEvent::SessionEnd), HookLifecycle::SessionEnd);
}

#[test]
fn frontmatter_fields_are_read_until_the_block_closes() {
    let content = "---\nname: review\ndescription: \"Review a diff\"\nempty: ''\n---\n# Body\ndescription: later\n";
    assert_eq!(extract_leading_frontmatter_field(content, "description").as_deref(), Some("Review a diff"));
    assert_eq!(extract_leading_frontmatter_field(content, "empty"), None);
    assert_eq!(extract_leading_frontmatter_field(content, "missing"), None);
    assert_eq!(extract_leading_frontmatter_field("no frontmatter\nname: x", "name"), None);
    assert_eq!(strip_leading_frontmatter(content), "# Body\ndescription: later\n");
    assert_eq!(strip_leading_frontmatter("plain\n---\n"), "plain\n---\n");
    assert_eq!(strip_leading_frontmatter("---\nunclosed: yes\n"), "---\nunclosed: yes\n");
    assert_eq!(trim_yaml_scalar("  'quoted'  "), "quoted");
    assert_eq!(trim_yaml_scalar(" \"a\" "), "a");
    assert_eq!(trim_yaml_scalar("\""), "\"");
    assert_eq!(trim_yaml_scalar(" plain "), "plain");
}

#[test]
fn builtin_memory_headers_start_from_the_app_name() {
    assert_eq!(nowledge_mem_http_headers(&vec![]), vec![("APP".to_string(), "RARA".to_string())]);
    assert_eq!(
        nowledge_mem_http_headers(&vec![
            ("X-NMEM-Space".to_string(), "workspace".to_string()),
            ("APP".to_string(), "CustomRara".to_string()),
        ]),
        vec![("APP".to_string(), "CustomRara".to_string()), ("X-NMEM-Space".to_string(), "workspace".to_string())]
    );
}

#[test]
fn urls_are_shown_without_query_values() {
    assert_eq!(sanitize_url_for_display("https://example.com/mcp"), "https://example.com/mcp");
    assert_eq!(
        sanitize_url_for_display("https://example.com/mcp?key=abc&flag#frag"),
        "https://example.com/mcp?key=%3Credacted%3E&flag#frag"
    );
}
