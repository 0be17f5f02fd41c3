use rara::lsp_manager::manager::{
    cancelled_startup_failure, detect_server, disabled_failure, lsp_enabled_from_setting, process_exit_failure,
    resolve_file_path, spawn_failure, ServerSlot, ServerState, SpawnOutcome, StartLimits, StartPlan,
};
use rara::lsp_manager::types::{LspFailureKind, LspServerPhase, ServerKind};

const LIMITS: StartLimits = StartLimits { max_start_attempts: 2, retry_backoff_ms: 1000 };

#[test]
fn a_slot_starts_once_and_then_uses_the_running_server() {
    let mut slot = ServerSlot::new(ServerKind::RustAnalyzer, true);
    assert_eq!(slot.status(false).phase, LspServerPhase::NotStarted);
    let generation = match slot.begin_start(LIMITS, false, 0) {
        StartPlan::Spawn { generation, cancelled } => {
            assert!(cancelled.is_none());
            generation
        }
        other => panic!("expected a spawn, got {other:?}"),
    };
    assert_eq!(generation, 1);
    assert_eq!(slot.attempts, 1);
    assert_eq!(slot.status(false).phase, LspServerPhase::Starting);
    assert!(slot.finish_start(generation, SpawnOutcome::Started { running: true, exit: None }).is_ok());
    assert!(matches!(slot.state, ServerState::Ready { generation: 1 }));
    assert!(matches!(slot.begin_start(LIMITS, true, 0), StartPlan::UseRunning));
    let status = slot.status(true);
    assert_eq!(status.phase, LspServerPhase::Ready);
    assert!(status.running && status.available && status.checked);
    assert_eq!(status.name, "rust-analyzer");
}

#[test]
fn a_failed_slot_waits_for_its_backoff_and_its_attempts() {
    let mut slot = ServerSlot::new(ServerKind::Gopls, true);
    let StartPlan::Spawn { generation, .. } = slot.begin_start(LIMITS, false, 0) else { panic!("spawn") };
    let exit = process_exit_failure(ServerKind::Gopls, Some(2), None, "boom\n".to_string());
    assert_eq!(exit.message, "gopls exited with code 2");
    assert_eq!(exit.stderr_tail.as_deref(), Some("boom\n"));
    let err = slot.finish_start(generation, SpawnOutcome::Started { running: false, exit: Some(exit.clone()) });
    assert_eq!(err, Err(exit.clone()));
    assert_eq!(slot.status(false).phase, LspServerPhase::Failed);

    // the backoff has not passed yet
    match slot.begin_start(LIMITS, false, 10) {
        StartPlan::Refuse { failure } => assert_eq!(failure, exit),
        other => panic!("expected a refusal, got {other:?}"),
    }
    // after the backoff a second attempt starts
    let StartPlan::Spawn { generation, .. } = slot.begin_start(LIMITS, false, 5000) else { panic!("spawn") };
    assert_eq!(generation, 2);
    let err = slot.finish_start(generation, SpawnOutcome::Started { running: false, exit: None }).unwrap_err();
    assert_eq!(err.kind, LspFailureKind::ServerExited);
    assert_eq!(err.message, "gopls exited during startup");
    // attempts are used up
    assert!(matches!(slot.begin_start(LIMITS, false, 5000), StartPlan::Refuse { .. }));
}

#[test]
fn an_interrupted_startup_is_reported_then_retried() {
    let mut slot = ServerSlot::new(ServerKind::TypeScript, true);
    let StartPlan::Spawn { generation: first, .. } = slot.begin_start(LIMITS, false, 0) else { panic!("spawn") };
    match slot.begin_start(LIMITS, false, 0) {
        StartPlan::Spawn { generation, cancelled } => {
            assert_eq!(generation, first + 1);
            let cancelled = cancelled.expect("the first attempt is reported");
            assert_eq!(
                cancelled.message,
                "typescript-language-server startup generation 1 was cancelled before completion"
            );
        }
        other => panic!("expected a spawn, got {other:?}"),
    }
    // an attempt that is no longer current is not abandoned
    assert!(slot.abandon_start(first).is_none());
    let abandoned = slot.abandon_start(first + 1).expect("current attempt");
    assert_eq!(abandoned, cancelled_startup_failure(ServerKind::TypeScript));
    assert_eq!(abandoned.message, "typescript-language-server startup was cancelled before completion");
}

#[test]
fn only_the_ready_generation_fails_when_its_process_exits() {
    let mut slot = ServerSlot::new(ServerKind::RustAnalyzer, true);
    let StartPlan::Spawn { generation, .. } = slot.begin_start(LIMITS, false, 0) else { panic!("spawn") };
    slot.finish_start(generation, SpawnOutcome::Started { running: true, exit: None }).expect("ready");
    let exit = process_exit_failure(ServerKind::RustAnalyzer, None, Some(9), "   ".to_string());
    assert_eq!(exit.message, "rust-analyzer exited by signal 9");
    assert_eq!(exit.stderr_tail, None);
    assert!(slot.server_exited(generation + 1, exit.clone()).is_none());
    assert_eq!(slot.server_exited(generation, exit.clone()), Some(exit));
    assert_eq!(slot.status(false).phase, LspServerPhase::Failed);
}

#[test]
fn files_find_their_detected_server() {
    assert_eq!(detect_server("src/main.rs", [true, true, true]), Ok(ServerKind::RustAnalyzer));
    assert_eq!(detect_server("web/app.tsx", [true, false, true]), Ok(ServerKind::TypeScript));
    let err = detect_server("main.go", [true, false, true]).unwrap_err();
    assert_eq!(err.kind, LspFailureKind::UnsupportedFile);
    assert_eq!(err.message, "no detected LSP server for main.go");
    assert_eq!(resolve_file_path("/repo", "src/lib.rs"), "/repo/src/lib.rs");
    assert_eq!(resolve_file_path("/repo", "/abs/x.rs"), "/abs/x.rs");
}

#[test]
fn lsp_setting_turns_the_integration_off() {
    assert!(lsp_enabled_from_setting(None));
    assert!(lsp_enabled_from_setting(Some("1")));
    assert!(!lsp_enabled_from_setting(Some(" OFF ")));
    assert!(!lsp_enabled_from_setting(Some("false")));
    assert!(!lsp_enabled_from_setting(Some("0")));
    let f = disabled_failure();
    assert_eq!(f.kind, LspFailureKind::Disabled);
    assert_eq!(f.message, "LSP is disabled by RARA_LSP");
    assert!(!f.retryable);
    assert_eq!(process_exit_failure(ServerKind::Gopls, None, None, String::new()).message, "gopls exited with unknown status");
}

#[test]
fn status_snapshot_is_pure_and_does_not_start_servers() {
    let slot = ServerSlot::new(ServerKind::RustAnalyzer, true);

    let first = slot.status(false);
    let second = slot.status(false);

    assert_eq!(first, second);
    assert_eq!(slot.attempts, 0);
    assert_eq!(first.phase, LspServerPhase::NotStarted);
}

#[test]
fn a_not_found_spawn_error_makes_the_server_unavailable_without_new_probes() {

    let missing = spawn_failure(ServerKind::RustAnalyzer, "missing-rust-analyzer", true, "No such file or directory");
    assert_eq!(missing.kind, LspFailureKind::BinaryMissing);
    assert!(!missing.retryable);
    assert_eq!(
        missing.message,
        "failed to spawn rust-analyzer (\"missing-rust-analyzer\"): No such file or directory"
    );

    let mut slot = ServerSlot::new(ServerKind::RustAnalyzer, true);
    let generation = match slot.begin_start(LIMITS, false, 0) {
        StartPlan::Spawn { generation, .. } => generation,
        other => panic!("expected a spawn, got {other:?}"),
    };
    assert!(slot.finish_start(generation, SpawnOutcome::Failed { failure: missing.clone() }).is_err());
    for _ in 0..3 {
        match slot.begin_start(LIMITS, false, u64::MAX) {
            StartPlan::Refuse { failure } => assert_eq!(failure, missing),
            other => panic!("expected a refusal, got {other:?}"),
        }
    }
    assert_eq!(slot.attempts, 1);
    assert_eq!(slot.status(false).phase, LspServerPhase::Unavailable);
}

#[test]
fn other_spawn_errors_stay_retryable() {

    let failed = spawn_failure(ServerKind::Gopls, "gopls", false, "permission denied");
    assert_eq!(failed.kind, LspFailureKind::SpawnFailed);
    assert!(failed.retryable);
    assert_eq!(failed.message, "failed to spawn gopls (\"gopls\"): permission denied");
}
