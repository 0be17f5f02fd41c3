use rara::lsp_manager::cache::{
    display_path_for_diagnostic, parse_publish_diagnostics, DiagnosticCache, DocumentVersions, PublishDiagnosticsParams,
    RawDiagnostic,
};
use rara::lsp_manager::protocol::{exit_observer_closed_failure, response_error_failure};
use rara::lsp_manager::sync::{prepare_file_sync, workspace_folder, workspace_root_uri};
use rara::lsp_manager::types::{DiagnosticFreshness, DiagnosticSeverity, LspFailureKind, ServerKind};
use rara::memory::{MemoryLabel, MemoryScope, MemorySource};
use rara::memory_distiller::{
    checked_json_payload, dedupe_memory_drafts, distillation_prompt, distilled_drafts, normalize_dedupe_key, parse_json_payload,
    response_text, DistilledMemoryDraft, ExistingHit, MemoryDistiller, ParsedDistilledMemory, ResponseBlock,
};
use rara::memory_patch::{
    apply_memory_record_patch, memory_patch_from_control, normalize_memory_record_patch, patch_requires_index_refresh,
    MemoryRecord, MemoryRecordPatch,
};
use rara::plugin_hooks::{
    agent_event_to_hook_event, hook_output_worth_publishing, local_plugin_command_name, matching_hooks,
    plugin_command_summary, pre_tool_use_block, PluginHookEvent, RegisteredHook,
};
use rara::protocol_sources::memory::MemoryRecordControlPatch;
use rara::runtime_control::{AgentEvent, MemoryScope as ControlScope, RuntimeControlEvent, RuntimeEvent, RuntimeProvenance, SessionEvent};
use rara::runtime_session::error::{RuntimeReplayGap, RuntimeSessionError};
use rara::runtime_session::host::{HostRegistry, HostShutdown};
use rara::runtime_session::shutdown::ShutdownOutcome;
use rara::runtime_session::subscription::EventStreamState;
use rara::runtime_session::RuntimeSessionId;

fn parsed(value: &serde_json::Value) -> Vec<ParsedDistilledMemory> {
    value["memories"]
        .as_array()
        .expect("memories")
        .iter()
        .map(|m| ParsedDistilledMemory {
            title: m["title"].as_str().map(|s| s.to_string()),
            content: m["content"].as_str().map(|s| s.to_string()),
            labels: m["labels"]
                .as_array()
                .map(|ls| {
                    ls.iter()
                        .map(|l| match l.as_str().expect("label") {
                            "decision" => MemoryLabel::Decision,
                            "fact" => MemoryLabel::Fact,
                            "procedure" => MemoryLabel::Procedure,
                            "insight" => MemoryLabel::Insight,
                            _ => MemoryLabel::Experience,
                        })
                        .collect()
                })
                .unwrap_or_default(),
        })
        .collect()
}

#[test]
fn parses_json_distillation_response_with_label_defaults() {
    let text = r#"{
              "memories": [
                {
                  "title": "Path decision",
                  "content": "Use `/tmp/rara` for session shards.",
                  "labels": ["decision"],
                  "importance": 0.8
                },
                {
                  "title": "Review workflow",
                  "content": "Resolve review threads after applying comments.",
                  "labels": [],
                  "importance": 2.0
                }
              ]
            }"#;
    let json = parse_json_payload(text).expect("payload");
    let value: serde_json::Value = serde_json::from_str(&json).expect("json");
    let drafts = distilled_drafts(&parsed(&value)).expect("parse drafts");

    assert_eq!(drafts.len(), 2);
    assert_eq!(drafts[0].1.labels, vec![MemoryLabel::Decision]);
    assert_eq!(drafts[1].1.labels, vec![MemoryLabel::Experience]);
    assert_eq!(drafts[1].0, 1);
}

#[test]
fn distillation_payload_is_found_inside_prose() {
    assert_eq!(parse_json_payload("Here: {\"memories\": []} done").as_deref(), Ok("{\"memories\": []}"));
    assert_eq!(parse_json_payload("   "), Err("thread distillation returned empty response".to_string()));
    assert_eq!(parse_json_payload("no json"), Err("distillation response did not contain a JSON object".to_string()));
    assert_eq!(
        parse_json_payload("{ never closed"),
        Err("distillation response did not contain a complete JSON object".to_string())
    );
    assert_eq!(parse_json_payload("x { y } z"), Err("parse JSON object from distillation response".to_string()));
    assert_eq!(checked_json_payload("} {"), None);
    assert_eq!(checked_json_payload("\"}{\"").map(|r| r.ok()), Some(Some("\"}{\"".to_string())));
    let one = vec![ParsedDistilledMemory { title: Some("t".into()), content: Some("c".into()), labels: vec![] }];
    assert_eq!(distilled_drafts(&one), Err("thread distillation returned one memory; expected 2-8 or zero".to_string()));
    let blank = vec![ParsedDistilledMemory { title: Some(" ".into()), content: Some("c".into()), labels: vec![] }];
    assert_eq!(distilled_drafts(&blank), Ok(Vec::new()));
    assert!(distillation_prompt("THREAD").ends_with("Thread:\nTHREAD"));
    assert_eq!(
        response_text(&vec![
            ResponseBlock::Text { text: "a".to_string() },
            ResponseBlock::ToolUse,
            ResponseBlock::Text { text: "b".to_string() },
        ]),
        "a\nb"
    );
    assert_eq!(normalize_dedupe_key("  Use  /TMP\n now "), "use /tmp now");
}

#[test]
fn distiller_skips_blank_threads_and_reads_reply_payload() {
    let distiller = MemoryDistiller::new();
    assert_eq!(distiller.distill_request(" \n\t"), None);
    let prompt = distiller.distill_request("## thread").expect("prompt");
    assert!(prompt.starts_with("Extract durable memories from this coding-agent thread."));
    assert!(prompt.ends_with("Thread:\n## thread"));
    let reply = vec![
        ResponseBlock::Text { text: "Here you go:".to_string() },
        ResponseBlock::ProviderMetadata,
        ResponseBlock::Text { text: "{\"memories\": []}".to_string() },
    ];
    assert_eq!(distiller.reply_payload(&reply), Some(Ok("{\"memories\": []}".to_string())));
    assert_eq!(distiller.reply_payload(&vec![ResponseBlock::Text { text: "} {".to_string() }]), None);
    assert_eq!(
        distiller.reply_payload(&vec![ResponseBlock::ToolUse]),
        Some(Err("thread distillation returned empty response".to_string()))
    );
}

fn draft(title: &str, content: &str, label: MemoryLabel) -> DistilledMemoryDraft {
    DistilledMemoryDraft { title: title.to_string(), content: content.to_string(), labels: vec![label] }
}

#[test]
fn dedupes_drafts_against_existing_hits_and_same_batch() {
    let drafts = vec![
        draft("Path decision", "Use /tmp/rara for session shards.", MemoryLabel::Decision),
        draft("Path decision", "Use /tmp/rara for session shards.", MemoryLabel::Decision),
        draft("Review workflow", "Resolve review threads after applying comments.", MemoryLabel::Procedure),
    ];
    let existing_hits = vec![
        vec![ExistingHit {
            near: false,
            title: "Path decision".to_string(),
            content: "Use /tmp/rara for session shards.".to_string(),
        }],
        Vec::new(),
        Vec::new(),
    ];

    let kept = dedupe_memory_drafts(drafts, &existing_hits);

    assert_eq!(kept.len(), 1);
    assert_eq!(kept[0].title, "Review workflow");
}

fn record() -> MemoryRecord {
    MemoryRecord {
        id: "m-1".to_string(),
        title: "Title".to_string(),
        content: "Body".to_string(),
        labels: vec![MemoryLabel::Fact],
        pinned: false,
        source: MemorySource::UserCreated,
        scope: MemoryScope::Workspace,
        session_id: None,
        thread_id: None,
        source_span: None,
        created_at_unix_seconds: 1,
        updated_at_unix_seconds: 1,
    }
}

fn empty_patch() -> MemoryRecordPatch {
    MemoryRecordPatch {
        title: None,
        content: None,
        labels: None,
        pinned: None,
        scope: None,
        session_id: None,
        thread_id: None,
        source_span: None,
    }
}

#[test]
fn memory_patches_normalize_and_apply() {
    let mut patch = empty_patch();
    patch.content = Some("   ".to_string());
    assert_eq!(normalize_memory_record_patch(patch), Err("memory content must not be empty".to_string()));

    let mut patch = empty_patch();
    patch.title = Some("  New  ".to_string());
    patch.labels = Some(Vec::new());
    patch.session_id = Some(Some("  s-1 ".to_string()));
    patch.thread_id = Some(Some("   ".to_string()));
    let n = normalize_memory_record_patch(patch).expect("normalized");
    assert_eq!(n.title.as_deref(), Some("New"));
    assert_eq!(n.labels, Some(vec![MemoryLabel::Experience]));
    assert_eq!(n.session_id, Some(Some("s-1".to_string())));
    assert_eq!(n.thread_id, Some(None));
    assert!(patch_requires_index_refresh(&n));
    assert!(!patch_requires_index_refresh(&empty_patch()));

    let mut r = record();
    assert!(!apply_memory_record_patch(&mut r, empty_patch(), 99, false));
    assert_eq!(r, record());
    assert!(apply_memory_record_patch(&mut r, empty_patch(), 99, true));
    assert_eq!(r.updated_at_unix_seconds, 99);

    let mut r = record();
    let mut p = empty_patch();
    p.title = Some(String::new());
    p.pinned = Some(true);
    assert!(apply_memory_record_patch(&mut r, p, 7, false));
    assert_eq!(r.title, "Title");
    assert!(r.pinned);
    assert_eq!(r.updated_at_unix_seconds, 7);

    let control = MemoryRecordControlPatch {
        title: Some("t".to_string()),
        content: None,
        labels: Some(vec!["insight".to_string()]),
        pinned: None,
        scope: Some(ControlScope::Thread),
        session_id: None,
        thread_id: Some(None),
    };
    let p = memory_patch_from_control(&control).expect("patch");
    assert_eq!(p.labels, Some(vec![MemoryLabel::Insight]));
    assert_eq!(p.scope, Some(MemoryScope::Thread));
    assert_eq!(p.thread_id, Some(None));
    let mut bad = control.clone();
    bad.labels = Some(vec!["nope".to_string()]);
    assert!(memory_patch_from_control(&bad).is_err());
}

fn hook(event: PluginHookEvent, handler_type: &str, matcher: Option<&str>, plugin: &str) -> RegisteredHook {
    RegisteredHook {
        event,
        handler_type: handler_type.to_string(),
        matcher: matcher.map(|m| m.to_string()),
        plugin_name: plugin.to_string(),
        plugin_root: format!("/plugins/{plugin}"),
    }
}

#[test]
fn hooks_match_by_event_type_and_tool() {
    let hooks = vec![
        hook(PluginHookEvent::PreToolUse, "command", Some("Bash(*)"), "a"),
        hook(PluginHookEvent::PreToolUse, "prompt", None, "b"),
        hook(PluginHookEvent::PreToolUse, "", Some("Write|Edit"), "c"),
        hook(PluginHookEvent::SessionEnd, "command", None, "d"),
    ];
    assert_eq!(matching_hooks(&hooks, PluginHookEvent::PreToolUse, Some("bash")), vec![0]);
    assert_eq!(matching_hooks(&hooks, PluginHookEvent::PreToolUse, Some("Edit")), vec![2]);
    assert_eq!(matching_hooks(&hooks, PluginHookEvent::SessionEnd, None), vec![3]);
    assert_eq!(
        agent_event_to_hook_event(&AgentEvent::AgentStop { reason: "done".to_string() }),
        Some(PluginHookEvent::Stop)
    );
    assert_eq!(agent_event_to_hook_event(&AgentEvent::AgentStart), None);

    assert_eq!(pre_tool_use_block("a", true, "", ""), None);
    let block = pre_tool_use_block("a", false, "", " denied ").expect("blocked");
    assert_eq!(block.plugin_name, "a");
    assert_eq!(block.message, "denied");
    assert!(!hook_output_worth_publishing(" ", "", true));
    assert!(hook_output_worth_publishing("", "", false));
    assert!(hook_output_worth_publishing("out", "", true));
}

#[test]
fn plugin_commands_are_named_by_their_path() {
    assert_eq!(
        local_plugin_command_name("/p/commands", "/p/commands/git/review.md").as_deref(),
        Some("git/review")
    );
    assert_eq!(local_plugin_command_name("/p/commands", "/p/commands/explain.md").as_deref(), Some("explain"));
    assert_eq!(local_plugin_command_name("/p/commands", "/p/other/explain.md"), None);
    assert_eq!(local_plugin_command_name("/p/commands", "/p/commands/.md"), None);
    assert_eq!(local_plugin_command_name("/p/commands", "/p/commands"), None);
    let summary = plugin_command_summary(
        "commands",
        "git/review".to_string(),
        "---\ndescription: Review the current diff.\n---\n# Review\nBody text.",
        "/p/commands/git/review.md".to_string(),
    );
    assert_eq!(summary.name, "commands:git/review");
    assert_eq!(summary.title.as_deref(), Some("git/review"));
    assert_eq!(summary.description, "Review the current diff.");
}

#[test]
fn file_sync_opens_then_changes_documents() {
    let mut documents = DocumentVersions::new();
    let mut cache = DiagnosticCache::new();
    let first = prepare_file_sync(ServerKind::RustAnalyzer, "/repo/src/main.rs", &mut documents, &mut cache)
        .expect("sync");
    assert_eq!(first.uri, "file:///repo/src/main.rs");
    assert_eq!(first.method, "textDocument/didOpen");
    assert_eq!(first.version, 1);
    let second = prepare_file_sync(ServerKind::RustAnalyzer, "/repo/src/main.rs", &mut documents, &mut cache)
        .expect("sync");
    assert_eq!(second.method, "textDocument/didChange");
    assert_eq!(second.version, 2);
    assert!(!cache.publish("/repo/src/main.rs".to_string(), Some(1), Vec::new()));
    assert_eq!(cache.get("/repo/src/main.rs").freshness, DiagnosticFreshness::Pending);
    let err = prepare_file_sync(ServerKind::Gopls, "relative.go", &mut documents, &mut cache).expect_err("no uri");
    assert_eq!(err.kind, LspFailureKind::ProtocolError);
    assert_eq!(err.message, "cannot convert file path to LSP URI: relative.go");
    assert!(!err.retryable);

    assert_eq!(workspace_root_uri(ServerKind::Gopls, "/repo").ok().as_deref(), Some("file:///repo/"));
    assert_eq!(workspace_folder("/repo"), Some(("repo".to_string(), "file:///repo/".to_string())));
    assert_eq!(workspace_folder("/"), Some(("workspace".to_string(), "file:///".to_string())));
    assert_eq!(workspace_folder("repo"), None);

    let f = response_error_failure(ServerKind::Gopls, 4, -32601, "no such method");
    assert_eq!(f.message, "gopls response id 4 failed with code -32601: no such method");
    assert_eq!(exit_observer_closed_failure(ServerKind::Gopls).message, "gopls exit observer closed");
}

fn control(sequence: u64) -> RuntimeControlEvent {
    RuntimeControlEvent {
        event_id: format!("evt-{sequence}"),
        provenance: RuntimeProvenance::runtime(None),
        turn_id: None,
        sequence,
        event: RuntimeEvent::Session(SessionEvent::TurnStarted),
    }
}

#[test]
fn event_stream_delivers_each_sequence_once_in_order() {
    let mut stream = EventStreamState::new(vec![control(2), control(3), control(4)], 3);
    assert_eq!(stream.next_replayed().map(|e| e.sequence), Some(4));
    assert_eq!(stream.cursor(), 4);
    assert_eq!(stream.next_replayed(), None);
    assert_eq!(stream.accept_live(control(4)), None);
    assert_eq!(stream.accept_live(control(5)).map(|e| e.sequence), Some(5));
    assert!(stream.resync(Ok(vec![control(5), control(6)])).is_ok());
    assert_eq!(stream.next_replayed().map(|e| e.sequence), Some(6));
    assert!(matches!(
        stream.resync(Err(RuntimeReplayGap { requested: 6, oldest_available: 9, latest: 12 })),
        Err(RuntimeSessionError::ResyncRequired { requested: 6, oldest_available: 9, latest: 12 })
    ));
}

#[test]
fn host_refuses_duplicates_and_sessions_during_shutdown() {
    let mut host = HostRegistry::new();
    let a = RuntimeSessionId::new("b-session".to_string());
    let b = RuntimeSessionId::new("a-session".to_string());
    assert!(host.insert(&a).is_ok());
    assert!(host.insert(&b).is_ok());
    assert!(matches!(host.insert(&a), Err(RuntimeSessionError::AlreadyExists(id)) if id == a));
    let ids: Vec<String> = host.session_ids().iter().map(|id| id.as_str().to_string()).collect();
    assert_eq!(ids, vec!["a-session".to_string(), "b-session".to_string()]);

    assert!(host.begin_shutdown());
    assert!(!host.begin_shutdown());
    let c = RuntimeSessionId::new("c".to_string());
    assert!(matches!(host.insert(&c), Err(RuntimeSessionError::Closed)));
    host.finish_shutdown(ShutdownOutcome::Failed);
    assert!(matches!(host.insert(&c), Err(RuntimeSessionError::ShutdownFailed)));
    host.finish_shutdown(ShutdownOutcome::Complete);
    host.release(&a);
    assert!(host.insert(&c).is_ok());
    assert_eq!(host.shutdown, HostShutdown::Idle);
    assert_eq!(host.session_ids().len(), 2);
}

#[test]
fn parses_publish_diagnostics_notification() {
    let workspace = "/repo";
    let params = PublishDiagnosticsParams {
        uri: Some("file:///repo/src/main.rs".to_string()),
        version: Some(3),
        diagnostics: Some(vec![RawDiagnostic {
            start_line: Some(4),
            start_character: Some(8),
            severity: Some(1),
            message: Some("cannot find value `x` in this scope".to_string()),
            code: Some("E0425".to_string()),
        }]),
    };

    let (path, version, diagnostics) = parse_publish_diagnostics(Some(params), workspace).expect("diagnostics");

    assert_eq!(path, "/repo/src/main.rs");
    assert_eq!(version, Some(3));
    assert_eq!(diagnostics[0].severity, DiagnosticSeverity::Error);
    assert_eq!(diagnostics[0].code.as_deref(), Some("E0425"));
}

#[test]
fn published_diagnostics_drop_incomplete_entries_and_show_relative_files() {
    let raw = |line: Option<u64>, severity: Option<u64>, message: Option<&str>| RawDiagnostic {
        start_line: line,
        start_character: Some(0),
        severity,
        message: message.map(|m| m.to_string()),
        code: None,
    };
    let params = PublishDiagnosticsParams {
        uri: Some("file:///repo/src/lib.rs".to_string()),
        version: None,
        diagnostics: Some(vec![
            raw(Some(1), None, Some("a")),
            raw(None, Some(1), Some("no range")),
            raw(Some(1u64 << 40), Some(1), Some("too far")),
            raw(Some(2), Some(7), Some("b")),
            raw(Some(3), Some(2), None),
        ]),
    };
    let (_, version, diagnostics) = parse_publish_diagnostics(Some(params), "/repo").expect("diagnostics");
    assert_eq!(version, None);
    assert_eq!(diagnostics.len(), 2);
    assert_eq!(diagnostics[0].file, "src/lib.rs");
    assert_eq!(diagnostics[0].severity, DiagnosticSeverity::Hint);
    assert_eq!(diagnostics[1].severity, DiagnosticSeverity::Information);
    assert_eq!(diagnostics[1].line, 2);
    assert_eq!(display_path_for_diagnostic("/elsewhere/x.rs", "/repo"), "/elsewhere/x.rs");
    let not_file = PublishDiagnosticsParams { uri: Some("https://x/y".to_string()), version: None, diagnostics: Some(vec![]) };
    assert_eq!(parse_publish_diagnostics(Some(not_file), "/repo"), None);
    let no_list = PublishDiagnosticsParams { uri: Some("file:///repo/a.rs".to_string()), version: None, diagnostics: None };
    assert_eq!(parse_publish_diagnostics(Some(no_list), "/repo"), None);
    assert_eq!(parse_publish_diagnostics(None, "/repo"), None);
}

const DEFAULT_IMPORTANCE: f32 = 0.5;
const HIGH_IMPORTANCE_RETENTION_THRESHOLD: f32 = 0.8;

fn retention_record(id: &str, content: &str) -> MemoryRecord {
    MemoryRecord {
        id: id.to_string(),
        title: content.to_string(),
        content: content.to_string(),
        labels: vec![MemoryLabel::Fact],
        pinned: false,
        source: MemorySource::UserCreated,
        scope: MemoryScope::Project,
        session_id: None,
        thread_id: None,
        source_span: None,
        created_at_unix_seconds: 1,
        updated_at_unix_seconds: 1,
    }
}

#[test]
fn memory_record_retention_protects_pinned_user_created_and_high_importance_records() {
    let mut record = retention_record("memory-retention-1", "Durable user note.");
    let mut importance = DEFAULT_IMPORTANCE;
    let high = |importance: f32| importance >= HIGH_IMPORTANCE_RETENTION_THRESHOLD;
    assert!(record.is_protected_from_automatic_cleanup(high(importance)));

    record.source = MemorySource::AgentTurn;
    assert!(!record.is_protected_from_automatic_cleanup(high(importance)));

    importance = HIGH_IMPORTANCE_RETENTION_THRESHOLD;
    assert!(record.is_protected_from_automatic_cleanup(high(importance)));

    importance = DEFAULT_IMPORTANCE;
    record.pinned = true;
    assert!(record.is_protected_from_automatic_cleanup(high(importance)));
}
