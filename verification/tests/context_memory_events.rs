use rara::lsp_manager::cache::DiagnosticCache;
use rara::lsp_manager::types::DiagnosticFreshness;
use rara::memory::{
    index_scope_key, promotion_placement, MemoryPromotionTarget, MemoryScope, MemorySourceSpan,
};
use rara::memory_lifecycle::{
    capture_signature, CaptureOutcome, MemoryLifecycleCoordinator, MemorySessionMessage, MemorySessionSnapshot,
    MemorySyncReason,
};
use rara::model_context::{
    latest_model_context_text, upsert_latest_user_model_context, ContentBlock, Message, MessageContent,
    ModelContextFragment, ModelContextKind,
};
use rara::runtime_event_bus::{EventSequencer, ToolEvent, ToolIdentityTracker};
use rara::runtime_control::ToolStream;

fn kind_at(blocks: &MessageContent, i: usize) -> Option<ModelContextKind> {
    match blocks {
        MessageContent::Blocks(bs) => match &bs[i] {
            ContentBlock::Context { kind, .. } => Some(*kind),
            _ => None,
        },
        _ => None,
    }
}

fn text_at(blocks: &MessageContent, i: usize) -> Option<String> {
    match blocks {
        MessageContent::Blocks(bs) => match &bs[i] {
            ContentBlock::Text { text, .. } => Some(text.clone()),
            _ => None,
        },
        _ => None,
    }
}

fn block_count(blocks: &MessageContent) -> usize {
    match blocks {
        MessageContent::Blocks(bs) => bs.len(),
        _ => 0,
    }
}

#[test]
fn model_context_is_upserted_before_user_text() {
    let mut messages = vec![Message {
        role: "user".to_string(),
        content: MessageContent::Blocks(vec![ContentBlock::Text {
            text: "inspect the cache".to_string(),
            json: None,
        }]),
    }];
    let fragments = vec![
        ModelContextFragment::new(ModelContextKind::Environment, "workspace A".to_string()),
        ModelContextFragment::new(ModelContextKind::ExecutionMode, "execute".to_string()),
    ];

    assert!(upsert_latest_user_model_context(&mut messages, &fragments));
    let blocks = &messages[0].content;
    assert_eq!(kind_at(blocks, 0), Some(ModelContextKind::Environment));
    assert_eq!(kind_at(blocks, 1), Some(ModelContextKind::ExecutionMode));
    assert_eq!(text_at(blocks, 2).as_deref(), Some("inspect the cache"));
    assert_eq!(
        latest_model_context_text(&messages, ModelContextKind::Environment).as_deref(),
        Some("workspace A")
    );

    assert!(!upsert_latest_user_model_context(&mut messages, &fragments));
    assert!(upsert_latest_user_model_context(
        &mut messages,
        &vec![ModelContextFragment::new(ModelContextKind::RetrievedMemory, "memory".to_string())]
    ));
    let blocks = &messages[0].content;
    assert_eq!(kind_at(blocks, 0), Some(ModelContextKind::Environment));
    assert_eq!(kind_at(blocks, 1), Some(ModelContextKind::ExecutionMode));
    assert_eq!(kind_at(blocks, 2), Some(ModelContextKind::RetrievedMemory));
    assert_eq!(text_at(blocks, 3).as_deref(), Some("inspect the cache"));
    assert_eq!(block_count(blocks), 4);
}

#[test]
fn model_context_needs_fragments_and_a_user_text_request() {
    let mut messages = vec![
        Message { role: "user".to_string(), content: MessageContent::Text("first".to_string()) },
        Message { role: "assistant".to_string(), content: MessageContent::Text("reply".to_string()) },
        Message { role: "user".to_string(), content: MessageContent::Text("   ".to_string()) },
    ];
    let before = messages.clone();
    assert!(!upsert_latest_user_model_context(&mut messages, &Vec::new()));
    assert_eq!(messages, before);

    let fragments = vec![ModelContextFragment::new(ModelContextKind::Environment, "env".to_string())];
    assert!(upsert_latest_user_model_context(&mut messages, &fragments));
    // the blank request is skipped: the first message takes the context
    assert_eq!(kind_at(&messages[0].content, 0), Some(ModelContextKind::Environment));
    assert_eq!(text_at(&messages[0].content, 1).as_deref(), Some("first"));
    assert_eq!(messages[2], before[2]);
    assert_eq!(latest_model_context_text(&messages, ModelContextKind::ExecutionMode), None);
}

fn record_key(scope: MemoryScope) -> String {
    index_scope_key(scope, &Some("session-1".to_string()), &Some("thread-1".to_string()))
}

#[test]
fn memory_record_index_scope_key_respects_memory_scope() {
    assert_eq!(record_key(MemoryScope::Workspace), "workspace");
    assert_eq!(record_key(MemoryScope::Thread), "thread-1");
    assert_eq!(record_key(MemoryScope::Session), "session-1");
    assert_eq!(record_key(MemoryScope::Project), "project");
}

#[test]
fn memory_promotion_base_enforces_scope_rules() {
    let workspace = promotion_placement(MemoryPromotionTarget::Workspace {
        session_id: Some(" session-1 ".to_string()),
        thread_id: Some(" thread-1 ".to_string()),
    })
    .expect("workspace promotion");
    assert_eq!(workspace.scope, MemoryScope::Workspace);
    assert_eq!(workspace.session_id.as_deref(), Some("session-1"));
    assert_eq!(workspace.thread_id.as_deref(), Some("thread-1"));
    assert_eq!(workspace.source_span, None);

    let thread_err = promotion_placement(MemoryPromotionTarget::Thread {
        session_id: Some("session-1".to_string()),
        thread_id: " ".to_string(),
        source_span: None,
    })
    .expect_err("thread promotion needs a thread id");
    assert!(thread_err.contains("thread_id is required"));

    let session = promotion_placement(MemoryPromotionTarget::Session {
        session_id: " session-2 ".to_string(),
        source_span: Some(MemorySourceSpan { start_turn_index: 2, end_turn_index: 4 }),
    })
    .expect("session promotion");
    assert_eq!(session.scope, MemoryScope::Session);
    assert_eq!(session.session_id.as_deref(), Some("session-2"));
    assert_eq!(session.thread_id.as_deref(), Some("session-2"));
    assert_eq!(session.source_span, Some(MemorySourceSpan { start_turn_index: 2, end_turn_index: 4 }));
}

fn snapshot(count: usize) -> MemorySessionSnapshot {
    MemorySessionSnapshot {
        session_id: "session-1".to_string(),
        workspace: "/workspace".to_string(),
        space_id: Some("space-1".to_string()),
        agent_id: Some("agent-1".to_string()),
        host_agent_id: Some("host-1".to_string()),
        messages: (0..count)
            .map(|index| MemorySessionMessage {
                role: if index % 2 == 0 { "user".to_string() } else { "assistant".to_string() },
                content: format!("message-{index}"),
                external_id: format!("rara-msg-session-1-{index}"),
            })
            .collect(),
    }
}

/// One capture as the host runs it, with a sink that accepts.
fn capture(
    c: &mut MemoryLifecycleCoordinator,
    snap: MemorySessionSnapshot,
    reason: MemorySyncReason,
    sent: &mut Vec<rara::memory_lifecycle::MemoryAppendRequest>,
) -> bool {
    match c.prepare_request(&snap, reason) {
        None => true,
        Some(request) => {
            let signature = capture_signature(&request);
            sent.push(request);
            c.complete_capture(&snap, signature, CaptureOutcome::Sent).0
        }
    }
}

#[test]
fn capture_uses_stable_thread_and_deduplicates_messages() {
    let mut c = MemoryLifecycleCoordinator::new();
    let mut requests = Vec::new();

    assert!(capture(&mut c, snapshot(2), MemorySyncReason::TurnIdle, &mut requests));
    assert!(capture(&mut c, snapshot(2), MemorySyncReason::TurnIdle, &mut requests));
    assert!(capture(&mut c, snapshot(3), MemorySyncReason::Compaction, &mut requests));

    assert_eq!(requests.len(), 2);
    assert_eq!(requests[0].thread_id, "rara-session-1");
    assert_eq!(requests[0].workspace, "/workspace");
    assert_eq!(requests[0].space_id.as_deref(), Some("space-1"));
    assert_eq!(requests[0].agent_id.as_deref(), Some("agent-1"));
    assert_eq!(requests[0].host_agent_id.as_deref(), Some("host-1"));
    assert_eq!(requests[0].reason, MemorySyncReason::TurnIdle);
    assert_eq!(requests[0].idempotency_key, "rara-session-1:turn_idle:rara-msg-session-1-1");
    assert_eq!(requests[1].messages.len(), 1);
    assert_eq!(requests[1].messages[0].external_id, "rara-msg-session-1-2");
}

#[test]
fn failed_capture_reports_warning_and_retries() {
    let mut c = MemoryLifecycleCoordinator::new();
    let snap = snapshot(1);
    let request = c.prepare_request(&snap, MemorySyncReason::TurnIdle).expect("request");
    let (ok, warning) =
        c.complete_capture(&snap, capture_signature(&request), CaptureOutcome::Failed("fake sink failure".to_string()));
    assert!(!ok);
    assert_eq!(warning.as_deref(), Some("Nowledge Mem session capture failed: fake sink failure"));
    let (ok, warning) = c.complete_capture(&snap, capture_signature(&request), CaptureOutcome::TimedOut);
    assert!(!ok);
    assert_eq!(warning.as_deref(), Some("Nowledge Mem session capture timed out"));

    let mut requests = Vec::new();
    assert!(capture(&mut c, snap, MemorySyncReason::TurnIdle, &mut requests));
    assert_eq!(requests.len(), 1);
}

#[test]
fn stale_publication_does_not_replace_current_cache() {
    let path = "/repo/src/main.rs".to_string();
    let mut cache = DiagnosticCache::new();
    cache.mark_expected_version(path.clone(), 2);

    assert!(!cache.publish(path.clone(), Some(1), Vec::new()));
    assert_eq!(cache.get(&path).freshness, DiagnosticFreshness::Pending);
    assert!(cache.publish(path.clone(), Some(2), Vec::new()));
    assert_eq!(cache.get(&path).freshness, DiagnosticFreshness::Current);

    cache.mark_expected_version(path.clone(), 3);
    assert_eq!(cache.get(&path).freshness, DiagnosticFreshness::Cached);
}

fn call_id(event: &ToolEvent) -> Option<String> {
    match event {
        ToolEvent::Use { call_id, .. } | ToolEvent::Result { call_id, .. } | ToolEvent::Progress { call_id, .. } => {
            call_id.clone()
        }
    }
}

#[test]
fn runtime_projects_one_tool_identity_across_use_progress_and_result() {
    let mut sequencer = EventSequencer::new();
    let mut tracker = ToolIdentityTracker::new();
    let session = Some("session-1".to_string());

    let mut use_event =
        ToolEvent::Use { call_id: None, name: "bash".to_string(), input: r#"{"command":"pwd"}"#.to_string() };
    let (_, id) = sequencer.next("evt");
    tracker.project(&session, &id, &mut use_event);
    let mut progress = ToolEvent::Progress {
        call_id: None,
        name: "bash".to_string(),
        stream: ToolStream::Stdout,
        chunk: "/workspace\n".to_string(),
    };
    let (_, id) = sequencer.next("evt");
    tracker.project(&session, &id, &mut progress);
    let mut result =
        ToolEvent::Result { call_id: None, name: "bash".to_string(), content: "done".to_string(), is_error: false };
    let (_, id) = sequencer.next("evt");
    tracker.project(&session, &id, &mut result);

    let use_id = call_id(&use_event).expect("identified tool use");
    assert_eq!(call_id(&progress), Some(use_id.clone()));
    assert_eq!(call_id(&result), Some(use_id));
}

#[test]
fn runtime_keeps_tool_identities_isolated_between_sessions() {
    let mut sequencer = EventSequencer::new();
    let mut tracker = ToolIdentityTracker::new();
    let mut ids = Vec::new();
    for session in ["session-a", "session-b"] {
        let mut event = ToolEvent::Use {
            call_id: None,
            name: "bash".to_string(),
            input: format!(r#"{{"command":"{session}"}}"#),
        };
        let (_, id) = sequencer.next("evt");
        tracker.project(&Some(session.to_string()), &id, &mut event);
        ids.push(call_id(&event).expect("identified tool use"));
    }
    assert_ne!(ids[0], ids[1]);

    let mut result =
        ToolEvent::Result { call_id: None, name: "bash".to_string(), content: "done".to_string(), is_error: false };
    let (_, id) = sequencer.next("evt");
    tracker.project(&Some("session-a".to_string()), &id, &mut result);
    assert_eq!(call_id(&result), Some(ids[0].clone()));
}
