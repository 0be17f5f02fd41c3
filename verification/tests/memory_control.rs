use rara::memory::{MemoryLabel, MemoryScope, MemorySource};
use rara::memory_patch::MemoryRecord;
use rara::protocol_sources::memory::{memory_record_summary, plan_add_record, select_queried_records};
use rara::runtime_control::MemoryScope as ControlMemoryScope;

fn record(id: &str, scope: MemoryScope) -> MemoryRecord {
    MemoryRecord {
        id: id.to_string(),
        title: format!("title {id}"),
        content: format!("content {id}"),
        labels: vec![MemoryLabel::Fact, MemoryLabel::Insight],
        pinned: false,
        source: MemorySource::UserCreated,
        scope,
        session_id: None,
        thread_id: None,
        source_span: None,
        created_at_unix_seconds: 1,
        updated_at_unix_seconds: 2,
    }
}

#[test]
fn adding_an_existing_record_is_refused() {
    let r = plan_add_record("m1", true, ControlMemoryScope::Workspace, "body", "{}");
    assert_eq!(r.unwrap_err(), "memory record \"m1\" already exists");
}

#[test]
fn thread_records_need_a_thread_id() {
    let r = plan_add_record("m1", false, ControlMemoryScope::Thread, "body", "{\"thread_id\":\"  \"}");
    assert_eq!(r.unwrap_err(), "thread_id is required for thread memory scope");
}

#[test]
fn metadata_labels_must_be_known_strings_in_an_array() {
    let not_array = plan_add_record("m1", false, ControlMemoryScope::Workspace, "body", "{\"labels\":\"fact\"}");
    assert_eq!(not_array.unwrap_err(), "memory metadata labels must be an array");
    let not_strings = plan_add_record("m1", false, ControlMemoryScope::Workspace, "body", "{\"labels\":[1]}");
    assert_eq!(not_strings.unwrap_err(), "memory metadata labels must be strings");
    let unknown = plan_add_record("m1", false, ControlMemoryScope::Workspace, "body", "{\"labels\":[\"fact\",\" Nope \"]}");
    assert_eq!(unknown.unwrap_err(), "unknown memory label \"nope\"");
}

#[test]
fn an_added_record_takes_its_target_and_fields_from_the_metadata() {
    let metadata = "{\"thread_id\":\" t1 \",\"session_id\":\"s1\",\"title\":\"Title\",\"labels\":[\"Fact\",\"decision\"],\"pinned\":true}";
    let n = plan_add_record("m1", false, ControlMemoryScope::Thread, "body", metadata).unwrap();
    assert_eq!(n.scope, MemoryScope::Thread);
    assert_eq!(n.thread_id.as_deref(), Some("t1"));
    assert_eq!(n.session_id.as_deref(), Some("s1"));
    assert_eq!(n.title.as_deref(), Some("Title"));
    assert_eq!(n.content, "body");
    assert_eq!(n.labels, vec![MemoryLabel::Fact, MemoryLabel::Decision]);
    assert!(n.pinned);
    assert_eq!(n.source, MemorySource::ProtocolWrite);
    assert!(n.source_span.is_none());
}

#[test]
fn a_workspace_record_without_metadata_is_plain() {
    let n = plan_add_record("m2", false, ControlMemoryScope::Workspace, "note", "{\"pinned\":\"yes\"}").unwrap();
    assert_eq!(n.scope, MemoryScope::Workspace);
    assert!(n.thread_id.is_none() && n.session_id.is_none() && n.title.is_none());
    assert!(n.labels.is_empty());
    assert!(!n.pinned);
}

#[test]
fn queried_records_are_filtered_by_scope_in_order_and_limited() {
    let records = vec![
        record("a", MemoryScope::Workspace),
        record("b", MemoryScope::Thread),
        record("c", MemoryScope::Workspace),
        record("d", MemoryScope::Workspace),
    ];
    let ids = |rs: Vec<MemoryRecord>| rs.into_iter().map(|r| r.id).collect::<Vec<_>>();
    assert_eq!(ids(select_queried_records(records.clone(), Some(MemoryScope::Workspace), 2)), vec!["a", "c"]);
    assert_eq!(ids(select_queried_records(records.clone(), Some(MemoryScope::Thread), 10)), vec!["b"]);
    assert_eq!(ids(select_queried_records(records.clone(), None, 3)), vec!["a", "b", "c"]);
    assert!(select_queried_records(records, None, 0).is_empty());
}

#[test]
fn a_record_summary_names_its_labels_and_scope() {
    let summary = memory_record_summary(record("a", MemoryScope::Workspace), 9_200);
    assert_eq!(summary.id, "a");
    assert_eq!(summary.title, "title a");
    assert_eq!(summary.labels, vec!["fact".to_string(), "insight".to_string()]);
    assert_eq!(summary.scope, "workspace");
    assert_eq!(summary.importance_basis_points, 9_200);
    assert!(!summary.pinned);
}
