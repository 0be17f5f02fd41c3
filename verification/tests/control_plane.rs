use rara::protocol_sources::memory::{
    label_summaries, labels_from_names, metadata_string, scaffold_memory_event, MemoryControlRequest,
    MemoryRecordControlPatch,
};
use rara::memory::{MemoryLabel, MemoryLabelCount};
use rara::runtime_control::{
    agent_event_to_runtime_event, wrap_agent_event, AgentEvent, AssistantEvent, MemoryEvent, MemoryScope,
    PlanEvent, PlanStep, PlanStepEvent, PlanStepStatus, PlanStepStatusEvent, RuntimeControlEvent, RuntimeControllerKind,
    RuntimeEvent, RuntimeProvenance, SessionEvent,
};
use rara::runtime_event_bus::{delivery, ControlNumbering, ToolEvent};

#[test]
fn control_subscriber_receives_wrapped_runtime_events() {
    let mut numbering = ControlNumbering::new();
    let event = numbering.number_agent_event(
        AgentEvent::Status("ready".to_string()),
        RuntimeProvenance::runtime(Some("session-1".to_string())),
    );
    assert_eq!(event.event_id, "evt-0000000000000001");
    assert_eq!(event.sequence, 1);
    assert_eq!(event.provenance.session_id.as_deref(), Some("session-1"));
    assert_eq!(event.event, RuntimeEvent::Session(SessionEvent::Status { message: "ready".to_string() }));
}

#[test]
fn raw_and_control_subscribers_share_sequence_source() {
    let route = delivery(1, 1);
    assert!(route.raw && route.control);
    let mut numbering = ControlNumbering::new();
    let event = numbering
        .number_agent_event(AgentEvent::AssistantDelta("hello".to_string()), RuntimeProvenance::runtime(None));
    assert_eq!(event.sequence, 1);
    assert_eq!(event.provenance.controller, RuntimeControllerKind::Runtime);
    assert_eq!(event.event, RuntimeEvent::Assistant(AssistantEvent::TextDelta("hello".to_string())));
}

#[test]
fn unsubscribed_events_do_not_advance_control_sequence() {
    let mut numbering = ControlNumbering::new();
    // nobody listens: the event reaches no channel and spends no number
    let route = delivery(0, 0);
    assert!(!route.raw && !route.control);
    // raw subscribers only: still no control number
    let route = delivery(1, 0);
    assert!(route.raw && !route.control);
    let route = delivery(0, 1);
    assert!(route.control);
    let event = numbering
        .number_agent_event(AgentEvent::Status("first control".to_string()), RuntimeProvenance::runtime(None));
    assert_eq!(event.sequence, 1);
    assert_eq!(event.event_id, "evt-0000000000000001");
}

#[test]
fn in_process_events_are_resequenced_across_dispatch_requests() {
    let mut numbering = ControlNumbering::new();
    let provenance = RuntimeProvenance::runtime(Some("session-1".to_string()));
    let mut out = Vec::new();
    for event in [
        RuntimeEvent::Session(SessionEvent::TurnStarted),
        RuntimeEvent::Session(SessionEvent::TurnFinished { reason: Some("turn complete".into()) }),
    ] {
        let local_event = RuntimeControlEvent {
            event_id: "evt-dispatch-1".into(),
            provenance: provenance.clone(),
            turn_id: None,
            sequence: 1,
            event,
        };
        out.push(numbering.resequence(local_event));
    }
    assert_eq!((out[0].sequence, out[1].sequence), (1, 2));
    assert_eq!(out[0].event_id, "ctl-0000000000000001");
    assert_eq!(out[1].event_id, "ctl-0000000000000002");
    assert_eq!(out[0].provenance, provenance);
    assert_eq!(out[1].provenance, provenance);
}

#[test]
fn runtime_native_events_come_from_the_runtime() {
    let mut numbering = ControlNumbering::new();
    let first = numbering.number_agent_event(AgentEvent::AgentStart, RuntimeProvenance::runtime(None));
    let second = numbering.number_runtime_event(RuntimeEvent::Memory(MemoryEvent::SelectionUpdated));
    assert_eq!(first.sequence, 1);
    assert_eq!(second.sequence, 2);
    assert_eq!(second.event_id, "ctl-0000000000000002");
    assert_eq!(second.provenance, RuntimeProvenance::runtime(None));
}

#[test]
fn agent_events_map_to_runtime_events() {
    let plan = agent_event_to_runtime_event(AgentEvent::PlanUpdated {
        steps: vec![
            PlanStep { step: "read".to_string(), status: PlanStepStatus::Completed },
            PlanStep { step: "write".to_string(), status: PlanStepStatus::InProgress },
        ],
        explanation: Some("why".to_string()),
    });
    assert_eq!(
        plan,
        RuntimeEvent::Plan(PlanEvent::Updated {
            steps: vec![
                PlanStepEvent { step: "read".to_string(), status: PlanStepStatusEvent::Completed },
                PlanStepEvent { step: "write".to_string(), status: PlanStepStatusEvent::InProgress },
            ],
            explanation: Some("why".to_string()),
        })
    );
    assert_eq!(
        agent_event_to_runtime_event(AgentEvent::AgentStop { reason: "done".to_string() }),
        RuntimeEvent::Session(SessionEvent::TurnFinished { reason: Some("done".to_string()) })
    );
    assert_eq!(
        agent_event_to_runtime_event(AgentEvent::ToolUse {
            call_id: "c1".to_string(),
            name: "bash".to_string(),
            input: "{}".to_string(),
        }),
        RuntimeEvent::Tool(ToolEvent::Use {
            call_id: Some("c1".to_string()),
            name: "bash".to_string(),
            input: "{}".to_string()
        })
    );
    let wrapped = wrap_agent_event(
        "evt-1".to_string(),
        7,
        RuntimeProvenance::runtime(None),
        AgentEvent::MemoryAction { message: "saved".to_string() },
    );
    assert_eq!(wrapped.sequence, 7);
    assert_eq!(wrapped.turn_id, None);
    assert_eq!(wrapped.event, RuntimeEvent::Memory(MemoryEvent::ActionObserved { message: "saved".to_string() }));
}

#[test]
fn memory_requests_without_a_store_publish_scaffold_events() {
    assert_eq!(
        scaffold_memory_event(&MemoryControlRequest::AddRecord {
            memory_id: "m-1".to_string(),
            scope: MemoryScope::Thread,
            content: "c".to_string(),
            metadata: "{}".to_string(),
        }),
        MemoryEvent::RecordAdded { memory_id: "m-1".to_string() }
    );
    assert_eq!(
        scaffold_memory_event(&MemoryControlRequest::ListLabels { scope: Some(MemoryScope::Workspace) }),
        MemoryEvent::LabelsListed { scope: Some(MemoryScope::Workspace), labels: Vec::new() }
    );
    assert_eq!(
        scaffold_memory_event(&MemoryControlRequest::QueryMetadata),
        MemoryEvent::MetadataQueried { record_count: 0, labels: Vec::new() }
    );
    assert_eq!(
        scaffold_memory_event(&MemoryControlRequest::UpdateRecord {
            memory_id: "m-2".to_string(),
            patch: MemoryRecordControlPatch {
                title: None,
                content: None,
                labels: None,
                pinned: None,
                scope: None,
                session_id: None,
                thread_id: None,
            },
        }),
        MemoryEvent::RecordUpdated { memory_id: "m-2".to_string() }
    );
}

#[test]
fn memory_labels_and_metadata_convert() {
    let summaries = label_summaries(vec![
        MemoryLabelCount { label: MemoryLabel::Decision, count: 3 },
        MemoryLabelCount { label: MemoryLabel::Fact, count: 1 },
    ]);
    assert_eq!(summaries[0].label, "decision");
    assert_eq!(summaries[0].count, 3);
    assert_eq!(summaries[1].label, "fact");

    assert_eq!(metadata_string(r#"{"title":"  Title  ","blank":"  "}"#, "title").as_deref(), Some("Title"));
    assert_eq!(metadata_string(r#"{"title":"  Title  ","blank":"  "}"#, "blank"), None);
    assert_eq!(metadata_string("not json", "title"), None);

    assert_eq!(
        labels_from_names(&vec![" Decision ".to_string(), "fact".to_string()]),
        Ok(vec![MemoryLabel::Decision, MemoryLabel::Fact])
    );
    assert_eq!(
        labels_from_names(&vec!["fact".to_string(), "Bogus".to_string()]),
        Err("unknown memory label \"bogus\"".to_string())
    );
}
