use rara::config::{McpRegistry, McpServerConfig, McpServerScope, McpServerSource, McpServerTransport, SourcedMcpServerConfig};
use rara::mcp_connection_manager::{McpConnectionManager, McpControlRequest};
use rara::mcp_status::{
    format_mcp_status, scope_heading, server_status, status_flags, transport_display, McpConnectionState, McpStatusSnapshot,
    McpTransportKind,
};
use rara::runtime_control::McpEvent;

fn server(command: &str) -> SourcedMcpServerConfig {
    SourcedMcpServerConfig {
        config: McpServerConfig {
            transport: McpServerTransport::Stdio { command: command.to_string(), args: vec![], env: None, cwd: None },
            enabled: true,
            required: false,
            enabled_tools: None,
            disabled_tools: None,
        },
        source: McpServerSource { scope: McpServerScope::Project, path: "/ws/.mcp.json".to_string() },
    }
}

fn state_change(name: &str, state: McpConnectionState) -> McpEvent {
    McpEvent::ServerStateChanged { server_name: name.to_string(), state }
}

#[test]
fn refresh_connects_new_servers_and_disconnects_removed_ones() {
    let mut manager = McpConnectionManager::new();
    let registry = McpRegistry { servers: vec![("docs".to_string(), server("docs-server")), ("git".to_string(), server("git-mcp"))] };
    assert_eq!(
        manager.refresh(&registry),
        vec![state_change("docs", McpConnectionState::Connecting), state_change("git", McpConnectionState::Connecting)]
    );
    // nothing changed: nothing announced
    assert!(manager.refresh(&registry).is_empty());
    // one removed, one reconfigured
    let changed = McpRegistry { servers: vec![("docs".to_string(), server("docs-server-v2"))] };
    assert_eq!(
        manager.refresh(&changed),
        vec![state_change("git", McpConnectionState::Disconnected), state_change("docs", McpConnectionState::Connecting)]
    );
}

#[test]
fn reconnects_back_off_exponentially() {
    let mut manager = McpConnectionManager::new();
    let registry = McpRegistry { servers: vec![("docs".to_string(), server("docs-server"))] };
    manager.refresh(&registry);
    assert_eq!(manager.consecutive_failures("docs"), Some(0));
    assert_eq!(manager.consecutive_failures("other"), None);
    let mut backoffs = Vec::new();
    for _ in 0..8 {
        let events = manager.reconnect("docs");
        assert_eq!(events.len(), 2);
        assert_eq!(events[1], state_change("docs", McpConnectionState::Reconnecting));
        match &events[0] {
            McpEvent::ServerReconnecting { server_name, attempt, backoff_ms } => {
                assert_eq!(server_name, "docs");
                assert_eq!(*attempt, manager.consecutive_failures("docs").unwrap() + 1);
                backoffs.push(*backoff_ms);
            }
            other => panic!("unexpected {other:?}"),
        }
    }
    assert_eq!(backoffs, vec![2000, 4000, 8000, 16000, 32000, 64000, 64000, 64000]);
    assert!(manager.reconnect("unknown").is_empty());
}

#[test]
fn control_requests_report_refresh_and_reconnect() {
    let mut manager = McpConnectionManager::new();
    let registry = McpRegistry { servers: vec![("docs".to_string(), server("docs-server"))] };
    let events = manager.handle_control(&McpControlRequest::Refresh { server_name: None }, &registry);
    assert_eq!(events, vec![state_change("docs", McpConnectionState::Connecting), McpEvent::ConfigurationRefreshed]);
    let events = manager.handle_control(&McpControlRequest::QueryStatus, &registry);
    assert_eq!(events.len(), 2);
    assert!(matches!(events[0], McpEvent::StatusUpdated { .. }));
    assert_eq!(events[1], state_change("docs", McpConnectionState::Connecting));
    let events = manager.handle_control(&McpControlRequest::Refresh { server_name: Some("docs".to_string()) }, &registry);
    assert_eq!(events.len(), 3);
    assert_eq!(events[2], McpEvent::ConfigurationRefreshed);
    let events = manager.handle_control(&McpControlRequest::Reconnect { server_name: "docs".to_string() }, &registry);
    assert!(matches!(events[0], McpEvent::ServerReconnecting { attempt: 3, backoff_ms: 4000, .. }));
    let events = manager.handle_control(&McpControlRequest::Refresh { server_name: Some("gone".to_string()) }, &registry);
    assert_eq!(events, vec![McpEvent::ConfigurationRefreshed]);
}

#[test]
fn status_groups_servers_by_source_and_sorts_them_by_name() {
    let http = SourcedMcpServerConfig {
        config: McpServerConfig {
            transport: McpServerTransport::StreamableHttp {
                url: "https://mem.example.com/mcp?token=secret&space=a#top".to_string(),
                bearer_token_env_var: None,
                http_headers: None,
                env_http_headers: None,
            },
            enabled: false,
            required: true,
            enabled_tools: Some(vec!["search".to_string(), "save".to_string()]),
            disabled_tools: None,
        },
        source: McpServerSource { scope: McpServerScope::User, path: "/home/u/.rara/config.toml".to_string() },
    };
    let (kind, target) = transport_display(&http.config);
    assert_eq!(kind, McpTransportKind::StreamableHttp);
    assert_eq!(target, "https://mem.example.com/mcp?token=%3Credacted%3E&space=%3Credacted%3E#top");
    let mut mem = server_status("mem", &http);
    assert_eq!(mem.state, McpConnectionState::Disabled);
    assert_eq!(status_flags(&mem), " (required, disabled)");
    mem.last_error = Some("handshake failed".to_string());

    let mut stdio = server("zeta-server");
    if let McpServerTransport::Stdio { args, .. } = &mut stdio.config.transport {
        args.push("--stdio".to_string());
    }
    let zeta = server_status("zeta", &stdio);
    assert_eq!(zeta.display_target, "zeta-server --stdio");
    assert_eq!(status_flags(&zeta), "");
    let alpha = server_status("alpha", &server("alpha-server"));

    let rendered = format_mcp_status(&McpStatusSnapshot { servers: vec![mem, zeta, alpha] });
    assert_eq!(
        rendered,
        "MCP Servers\n\nProject (/ws/.mcp.json)\n- alpha [configured] stdio: alpha-server\n- zeta [configured] stdio: zeta-server --stdio\n\nUser (/home/u/.rara/config.toml)\n- mem [disabled] streamable-http: https://mem.example.com/mcp?token=%3Credacted%3E&space=%3Credacted%3E#top (required, disabled)\n  tools: allow 2, deny 0\n  error: handshake failed"
    );
    assert_eq!(scope_heading(McpServerScope::Plugin), "Plugin");

    let registry = McpRegistry { servers: vec![("alpha".to_string(), server("alpha-server")), ("mem".to_string(), http)] };
    let snapshot = McpStatusSnapshot::from_registry(&registry);
    assert_eq!(snapshot.servers.len(), 2);
    assert_eq!(snapshot.servers[0].name, "alpha");
    assert_eq!(snapshot.servers[1].transport, McpTransportKind::StreamableHttp);
}

#[test]
fn a_status_query_reports_the_registry_snapshot() {
    let mut manager = McpConnectionManager::new();
    let registry = McpRegistry { servers: vec![("docs".to_string(), server("docs-server")), ("git".to_string(), server("git-mcp"))] };
    let events = manager.handle_control(&McpControlRequest::QueryStatus, &registry);
    match &events[0] {
        McpEvent::StatusUpdated { snapshot } => {
            assert_eq!(*snapshot, McpStatusSnapshot::from_registry(&registry));
            assert_eq!(snapshot.servers.len(), 2);
        }
        other => panic!("unexpected {other:?}"),
    }
}
