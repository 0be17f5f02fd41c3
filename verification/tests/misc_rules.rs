use rara::lsp_manager::cache::{DiagnosticCache, DocumentVersions};
use rara::lsp_manager::sync::file_read_failure;
use rara::lsp_manager::types::{Diagnostic, DiagnosticSeverity, LspFailureKind, ServerKind};
use rara::memory::MemoryScope;
use rara::memory_lifecycle::memory_sink_headers;
use rara::model_context::{model_context_kind, ModelContextKind};
use rara::protocol_sources::memory::store_scope_from_control;
use rara::runtime_control::{MemoryScope as ControlScope, RuntimeControlEvent, RuntimeEvent, RuntimeProvenance, SessionEvent};
use rara::runtime_event_bus::{project_control_event, EventSequencer, ToolEvent, ToolIdentityTracker};
use rara::runtime_session::RuntimeTurnId;

fn control(event_id: &str, session: &str, event: RuntimeEvent) -> RuntimeControlEvent {
    RuntimeControlEvent {
        event_id: event_id.to_string(),
        provenance: RuntimeProvenance::runtime(Some(session.to_string())),
        turn_id: None,
        sequence: 1,
        event,
    }
}

#[test]
fn control_events_carry_their_tool_identity() {
    let mut tracker = ToolIdentityTracker::new();
    let mut use_event = control(
        "evt-1",
        "s",
        RuntimeEvent::Tool(ToolEvent::Use { call_id: None, name: "bash".to_string(), input: "{}".to_string() }),
    );
    let before = use_event.clone();
    project_control_event(&mut tracker, &mut use_event);
    assert_eq!(use_event.event_id, before.event_id);
    assert_eq!(use_event.sequence, before.sequence);
    let id = match &use_event.event {
        RuntimeEvent::Tool(ToolEvent::Use { call_id: Some(id), .. }) => id.clone(),
        other => panic!("unexpected {other:?}"),
    };
    assert!(id.contains("evt-1"));
    let mut result = control(
        "evt-2",
        "s",
        RuntimeEvent::Tool(ToolEvent::Result { call_id: None, name: "bash".to_string(), content: "ok".to_string(), is_error: false }),
    );
    project_control_event(&mut tracker, &mut result);
    assert!(matches!(&result.event, RuntimeEvent::Tool(ToolEvent::Result { call_id: Some(c), .. }) if *c == id));
    // other events are left as they are
    let mut other = control("evt-3", "s", RuntimeEvent::Session(SessionEvent::TurnStarted));
    let copy = other.clone();
    project_control_event(&mut tracker, &mut other);
    assert_eq!(other, copy);
}

#[test]
fn sequencer_numbers_events_in_order() {
    let mut sequencer = EventSequencer::new();
    assert_eq!(sequencer.current_sequence(), 0);
    let (n, id) = sequencer.next("evt");
    assert_eq!((n, id.as_str()), (1, "evt-0000000000000001"));
    let (n, id) = sequencer.next("ctl");
    assert_eq!((n, id.as_str()), (2, "ctl-0000000000000002"));
    assert_eq!(sequencer.current_sequence(), 2);
}

#[test]
fn model_context_blocks_are_recognized_by_type_and_kind() {
    assert_eq!(model_context_kind(Some("rara_model_context"), Some("environment")), Some(ModelContextKind::Environment));
    assert_eq!(
        model_context_kind(Some("rara_model_context"), Some("retrieved_memory")),
        Some(ModelContextKind::RetrievedMemory)
    );
    assert_eq!(model_context_kind(Some("text"), Some("environment")), None);
    assert_eq!(model_context_kind(Some("rara_model_context"), Some("weather")), None);
    assert_eq!(model_context_kind(None, Some("environment")), None);
    assert!(ModelContextKind::Environment.sort_key() < ModelContextKind::ExecutionMode.sort_key());
    assert!(ModelContextKind::ProtocolPromptSources.sort_key() < ModelContextKind::RetrievedMemory.sort_key());
    assert_eq!(ModelContextKind::ExecutionMode.as_str(), "execution_mode");
}

#[test]
fn hosted_memory_sink_headers_put_auth_first() {
    assert_eq!(
        memory_sink_headers(Some("key-1".to_string()), Some("space-9".to_string()), &vec![("APP".to_string(), "RARA".to_string())]),
        vec![
            ("Authorization".to_string(), "Bearer key-1".to_string()),
            ("X-NMEM-API-Key".to_string(), "key-1".to_string()),
            ("X-Nmem-Space-Id".to_string(), "space-9".to_string()),
            ("APP".to_string(), "RARA".to_string()),
        ]
    );
    assert!(memory_sink_headers(None, None, &vec![]).is_empty());
    assert_eq!(store_scope_from_control(ControlScope::Thread), MemoryScope::Thread);
    assert_eq!(store_scope_from_control(ControlScope::Workspace), MemoryScope::Workspace);
}

#[test]
fn documents_open_at_version_one_and_count_up() {
    let mut versions = DocumentVersions::new();
    assert_eq!(versions.next_version("/repo/src/lib.rs"), (true, 1));
    assert_eq!(versions.next_version("/repo/src/lib.rs"), (false, 2));
    assert_eq!(versions.next_version("/repo/src/main.rs"), (true, 1));
    assert_eq!(versions.next_version("/repo/src/lib.rs"), (false, 3));
    let f = file_read_failure(ServerKind::RustAnalyzer, "/repo/x.rs", "permission denied");
    assert_eq!(f.kind, LspFailureKind::FileReadFailed);
    assert!(!f.retryable);
    assert_eq!(f.message, "failed to read /repo/x.rs for LSP: permission denied");
    assert_eq!(f.server.as_deref(), Some("rust-analyzer"));
}

#[test]
fn diagnostic_counts_cover_every_cached_file() {
    let diag = |file: &str| Diagnostic {
        file: file.to_string(),
        line: 0,
        column: 0,
        severity: DiagnosticSeverity::Warning,
        message: "m".to_string(),
        code: None,
    };
    let mut cache = DiagnosticCache::new();
    assert_eq!(cache.counts(), (0, 0));
    cache.publish("/repo/a.rs".to_string(), None, vec![diag("a.rs"), diag("a.rs")]);
    cache.publish("/repo/b.rs".to_string(), None, vec![diag("b.rs")]);
    assert_eq!(cache.counts(), (2, 3));
}

#[test]
fn generated_turn_ids_are_fresh_uuids() {
    let a = RuntimeTurnId::generate();
    let b = RuntimeTurnId::generate();
    assert_ne!(a, b);
    assert_eq!(a.as_str().len(), 36);
    assert_eq!(a.as_str().as_bytes()[8], b'-');
    assert_eq!(a.as_str().as_bytes()[23], b'-');
}
