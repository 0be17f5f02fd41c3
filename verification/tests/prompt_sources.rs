use rara::protocol_sources::prompt::{
    valid_identity, PromptSourceError, PromptSourcePublication, PromptSourceRegistry, MAX_PROMPT_CONTENT_BYTES,
    MAX_PROMPT_SOURCES, MAX_PROMPT_SOURCE_BYTES,
};
use rara::protocol_sources::skill::{
    ProtocolSkillError, SkillCatalogueCall, SkillSourceError, SkillSourceRegistry,
};
use rara::runtime_control::{
    PromptSourceControlRequest, PromptSourceEvent, PromptSourceLifetime, PromptSourceRegistration, RuntimeControllerKind,
    RuntimeProvenance, SkillEvent, SkillSourceControlRequest, SourceLayer, SourceScope,
};

fn registration(id: &str, content: String) -> PromptSourceRegistration {
    PromptSourceRegistration {
        source_id: id.into(),
        scope: SourceScope::Protocol,
        layer: SourceLayer::User,
        budget_hint_tokens: None,
        lifetime: PromptSourceLifetime::Session,
        content,
    }
}

fn register(
    registry: &mut PromptSourceRegistry,
    registration: PromptSourceRegistration,
) -> Result<Vec<PromptSourcePublication>, PromptSourceError> {
    registry.handle_control_with_provenance(
        &PromptSourceControlRequest::Register(registration),
        RuntimeProvenance::runtime(Some("session-1".into())),
    )
}

#[test]
fn invalid_or_unsupported_registration_has_no_effect() {
    let mut registry = PromptSourceRegistry::new();
    let valid = registration("source-1", "context".into());
    let mut cases = Vec::new();
    let mut empty_turns = valid.clone();
    empty_turns.lifetime = PromptSourceLifetime::Turns(0);
    cases.push((empty_turns, PromptSourceError::Invalid));
    let mut persistent = valid.clone();
    persistent.lifetime = PromptSourceLifetime::Persistent;
    cases.push((persistent, PromptSourceError::Unsupported));
    let mut system = valid.clone();
    system.layer = SourceLayer::System;
    cases.push((system, PromptSourceError::Unsupported));
    let mut global = valid.clone();
    global.scope = SourceScope::Home;
    cases.push((global, PromptSourceError::Unsupported));
    let mut invalid_id = valid.clone();
    invalid_id.source_id = "injected\nlabel".into();
    cases.push((invalid_id, PromptSourceError::Invalid));
    let mut oversized = valid.clone();
    oversized.content = "x".repeat(MAX_PROMPT_SOURCE_BYTES + 1);
    cases.push((oversized, PromptSourceError::Capacity));
    for (registration, expected) in cases {
        assert_eq!(register(&mut registry, registration), Err(expected));
    }
    assert_eq!(
        registry.handle_control_with_provenance(
            &PromptSourceControlRequest::Register(valid),
            RuntimeProvenance::protocol(RuntimeControllerKind::AppServer, "invalid\nadapter", Some("session-1".into()), None),
        ),
        Err(PromptSourceError::Invalid)
    );
    let (sources, publications) = registry.list_prompt_sources_for_query();
    assert!(sources.is_empty());
    assert!(publications.is_empty());
    assert_eq!(PromptSourceError::Capacity.message(), "prompt source capacity exceeded");
}

#[test]
fn registration_count_allows_replacement_without_forgetting_other_sources() {
    let mut registry = PromptSourceRegistry::new();
    for index in 0..MAX_PROMPT_SOURCES {
        register(&mut registry, registration(&format!("source-{index}"), "context".into())).expect("source");
    }
    register(&mut registry, registration("source-0", "replacement".into())).expect("replacement at capacity");
    assert_eq!(register(&mut registry, registration("overflow", "context".into())), Err(PromptSourceError::Capacity));
    let (sources, _) = registry.list_prompt_sources_for_query();
    assert_eq!(sources.len(), MAX_PROMPT_SOURCES);
    assert_eq!(
        sources.iter().find(|source| source.label.ends_with("source-0")).expect("replaced source").content,
        "replacement"
    );
}

#[test]
fn aggregate_budget_rejects_growth_atomically_and_reclaims_replaced_bytes() {
    let mut registry = PromptSourceRegistry::new();
    for index in 0..3 {
        register(&mut registry, registration(&format!("large-{index}"), "x".repeat(MAX_PROMPT_SOURCE_BYTES)))
            .expect("large source");
    }
    register(&mut registry, registration("tail", "x".repeat(MAX_PROMPT_SOURCE_BYTES - 1))).expect("tail");
    register(&mut registry, registration("tiny", "x".into())).expect("exact aggregate limit");
    assert_eq!(register(&mut registry, registration("tiny", "xx".into())), Err(PromptSourceError::Capacity));
    let (sources, _) = registry.list_prompt_sources_for_query();
    assert_eq!(sources.iter().map(|source| source.content.len()).sum::<usize>(), MAX_PROMPT_CONTENT_BYTES);
    assert_eq!(sources.iter().find(|source| source.label.ends_with("tiny")).expect("unchanged source").content, "x");
    register(&mut registry, registration("large-0", "small".into())).expect("shrink source");
    register(&mut registry, registration("tiny", "xx".into())).expect("freed capacity");
}

#[test]
fn lifecycle_events_preserve_source_provenance_through_query_and_expiry() {
    let mut registry = PromptSourceRegistry::new();
    let provenance = RuntimeProvenance::protocol(
        RuntimeControllerKind::AppServer,
        "stdio-jsonl",
        Some("session-1".into()),
        Some("source-1".into()),
    );
    let mut source = registration("source-1", "context".into());
    source.lifetime = PromptSourceLifetime::Turns(1);
    let mut observed = Vec::new();
    observed.extend(
        registry
            .handle_control_with_provenance(&PromptSourceControlRequest::Register(source), provenance.clone())
            .expect("register"),
    );
    observed.extend(
        registry
            .handle_control_with_provenance(&PromptSourceControlRequest::QuerySources, RuntimeProvenance::runtime(None))
            .expect("query"),
    );
    let (first, published) = registry.list_prompt_sources_for_query();
    assert_eq!(first.len(), 1);
    assert_eq!(first[0].label, "Protocol Prompt Source source-1");
    assert_eq!(first[0].display_path, "protocol:appserver:stdio-jsonl:source-1");
    observed.extend(published);
    let (second, published) = registry.list_prompt_sources_for_query();
    assert!(second.is_empty());
    observed.extend(published);
    for publication in &observed {
        assert_eq!(publication.provenance, provenance);
    }
    assert_eq!(
        observed.into_iter().map(|p| p.event).collect::<Vec<_>>(),
        vec![
            PromptSourceEvent::Registered { source_id: "source-1".into() },
            PromptSourceEvent::Registered { source_id: "source-1".into() },
            PromptSourceEvent::Injected { source_id: "source-1".into() },
            PromptSourceEvent::Dropped { source_id: "source-1".into(), reason: "turn limit expired".into() },
        ]
    );
}

#[test]
fn unregistration_is_announced_only_for_known_sources() {
    let mut registry = PromptSourceRegistry::new();
    register(&mut registry, registration("a", "alpha".into())).expect("register");
    let removed = registry
        .handle_control_with_provenance(
            &PromptSourceControlRequest::Unregister { source_id: "a".into() },
            RuntimeProvenance::runtime(None),
        )
        .expect("unregister");
    assert_eq!(removed.len(), 1);
    assert_eq!(removed[0].event, PromptSourceEvent::Unregistered { source_id: "a".into() });
    // the event carries the provenance the source was registered with
    assert_eq!(removed[0].provenance, RuntimeProvenance::runtime(Some("session-1".into())));
    let again = registry
        .handle_control_with_provenance(
            &PromptSourceControlRequest::Unregister { source_id: "a".into() },
            RuntimeProvenance::runtime(None),
        )
        .expect("unregister");
    assert!(again.is_empty());
    assert_eq!(
        registry.handle_control_with_provenance(
            &PromptSourceControlRequest::Unregister { source_id: "bad id".into() },
            RuntimeProvenance::runtime(None),
        ),
        Err(PromptSourceError::Invalid)
    );
    assert!(valid_identity("source-1:a/b.c_d"));
    assert!(!valid_identity(""));
    assert!(!valid_identity(&"x".repeat(129)));
    assert!(!valid_identity("sp ace"));
}

fn skill_origin() -> RuntimeProvenance {
    RuntimeProvenance::protocol(RuntimeControllerKind::AppServer, "stdio-jsonl", Some("session-1".into()), None)
}

#[test]
fn protocol_skills_are_attributed_to_their_registering_source() {
    let mut registry = SkillSourceRegistry::with_manager();
    assert!(registry.is_available());
    let register = SkillSourceControlRequest::RegisterSkill {
        source_id: "team-skill".into(),
        name: "protocol-review".into(),
        content: "---\ndescription: Review\n---\nbody".into(),
        precedence_hint: Some(7),
    };
    let call = registry.catalogue_call_for(&register, &skill_origin()).expect("call");
    assert_eq!(
        call,
        SkillCatalogueCall::Register {
            source_id: "team-skill".into(),
            name: "protocol-review".into(),
            content: "---\ndescription: Review\n---\nbody".into(),
            precedence_hint: Some(7),
        }
    );
    let events = registry.complete_control(&register, &skill_origin(), Ok(())).expect("registered");
    assert_eq!(events.len(), 1);
    assert_eq!(
        events[0].event,
        SkillEvent::Registered { source_id: "team-skill".into(), name: "protocol-review".into() }
    );
    assert_eq!(events[0].provenance.source_id.as_deref(), Some("team-skill"));
    assert_eq!(events[0].provenance.adapter.as_deref(), Some("stdio-jsonl"));

    let injected = registry
        .record_invocation(&"team-skill".to_string(), &"protocol-review".to_string(), Some("turn-1".into()))
        .expect("known origin");
    assert_eq!(injected.event, SkillEvent::Injected { source_id: "team-skill".into(), name: "protocol-review".into() });
    assert_eq!(injected.provenance, events[0].provenance);
    assert_eq!(injected.turn_id.as_deref(), Some("turn-1"));
    assert_eq!(
        registry.record_invocation(&"other".to_string(), &"protocol-review".to_string(), None),
        Err(SkillSourceError::Unavailable)
    );

    let disable = SkillSourceControlRequest::DisableSkill { name: "protocol-review".into(), source_id: None };
    let events = registry.complete_control(&disable, &RuntimeProvenance::runtime(None), Ok(())).expect("disabled");
    assert_eq!(events.len(), 1);
    assert_eq!(events[0].event, SkillEvent::Disabled { source_id: "team-skill".into(), name: "protocol-review".into() });
    assert_eq!(events[0].provenance.source_id.as_deref(), Some("team-skill"));
}

#[test]
fn skill_requests_are_refused_in_order() {
    let registry = SkillSourceRegistry::unavailable();
    assert!(!registry.is_available());
    let query = SkillSourceControlRequest::QuerySkills;
    assert_eq!(registry.catalogue_call_for(&query, &RuntimeProvenance::runtime(None)), Err(SkillSourceError::Unsupported));
    let bad = RuntimeProvenance::protocol(RuntimeControllerKind::Acp, "bad adapter", None, None);
    assert_eq!(registry.catalogue_call_for(&query, &bad), Err(SkillSourceError::Invalid));
    let mut registry = SkillSourceRegistry::with_manager();
    let root = SkillSourceControlRequest::RegisterRoot { source_id: "root".into(), root: "/skills".into(), precedence_hint: None };
    assert_eq!(registry.catalogue_call_for(&root, &RuntimeProvenance::runtime(None)), Err(SkillSourceError::Unsupported));
    assert_eq!(registry.catalogue_call_for(&query, &RuntimeProvenance::runtime(None)), Ok(SkillCatalogueCall::Query));
    let register = SkillSourceControlRequest::RegisterSkill {
        source_id: "s".into(),
        name: "n".into(),
        content: "c".into(),
        precedence_hint: None,
    };
    assert_eq!(
        registry.complete_control(&register, &RuntimeProvenance::runtime(None), Err(ProtocolSkillError::Capacity)),
        Err(SkillSourceError::Capacity)
    );
    assert_eq!(registry.record_invocation(&"s".to_string(), &"n".to_string(), None), Err(SkillSourceError::Unavailable));
    assert_eq!(SkillSourceError::from_catalogue(ProtocolSkillError::NotFound), SkillSourceError::Invalid);
    assert_eq!(SkillSourceError::Unavailable.message(), "skill source registry is unavailable");
}

#[test]
fn base_prompt_registry_counts_turn_limited_sources_down() {
    let mut registry = rara::protocol_sources::PromptSourceRegistry::new();
    let mut once = registration("once", "a".into());
    once.lifetime = PromptSourceLifetime::Turns(1);
    let session = registration("session", "b".into());
    assert_eq!(
        registry.handle_control(&PromptSourceControlRequest::Register(once)),
        vec![PromptSourceEvent::Registered { source_id: "once".into() }]
    );
    registry.handle_control(&PromptSourceControlRequest::Register(session));
    assert_eq!(
        registry.handle_control(&PromptSourceControlRequest::QuerySources),
        vec![
            PromptSourceEvent::Registered { source_id: "once".into() },
            PromptSourceEvent::Registered { source_id: "session".into() },
        ]
    );
    // first turn: the count goes from 1 to 0; second turn: dropped
    assert!(registry.advance_turn().is_empty());
    assert_eq!(
        registry.advance_turn(),
        vec![PromptSourceEvent::Dropped { source_id: "once".into(), reason: "turn limit expired".into() }]
    );
    let left = registry.list_sources();
    assert_eq!(left.len(), 1);
    assert_eq!(left[0].source_id, "session");
    assert_eq!(
        registry.handle_control(&PromptSourceControlRequest::Unregister { source_id: "session".into() }),
        vec![PromptSourceEvent::Unregistered { source_id: "session".into() }]
    );
    assert!(registry.handle_control(&PromptSourceControlRequest::Unregister { source_id: "session".into() }).is_empty());
}

#[test]
fn base_skill_registry_lists_roots_then_skills() {
    let mut registry = rara::protocol_sources::SkillSourceRegistry::new();
    let root = SkillSourceControlRequest::RegisterRoot { source_id: "r2".into(), root: "/skills".into(), precedence_hint: None };
    assert!(registry.handle_control(&root).is_empty());
    let skill = SkillSourceControlRequest::RegisterSkill {
        source_id: "s".into(),
        name: "review".into(),
        content: "c".into(),
        precedence_hint: Some(1),
    };
    assert!(registry.handle_control(&skill).is_empty());
    let root1 = SkillSourceControlRequest::RegisterRoot { source_id: "r1".into(), root: "/other".into(), precedence_hint: None };
    registry.handle_control(&root1);
    assert!(registry.handle_control(&SkillSourceControlRequest::DisableSkill { name: "review".into(), source_id: None }).is_empty());
    assert_eq!(
        registry.handle_control(&SkillSourceControlRequest::QuerySkills),
        vec![
            PromptSourceEvent::Registered { source_id: "r1".into() },
            PromptSourceEvent::Registered { source_id: "r2".into() },
            PromptSourceEvent::Registered { source_id: "review".into() },
        ]
    );
}
