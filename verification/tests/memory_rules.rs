use rara::memory::{
    apply_patch_to_content, count_label, index_scope_key, legacy_record_id, list_label_counts, memory_label_from_str,
    memory_label_name, memory_notice, memory_scope_from_key, memory_scope_key, normalize_labels, normalized_labels,
    normalized_optional_id, required_memory_id, title_from_content, truncate_chars, MemoryLabel, MemoryLabelCount,
    MemoryPromotionTarget, MemoryScope, MemorySource, MemorySourceSpan,
};
use rara::memory_patch::{build_memory_record, memory_record_id, NewMemoryRecord};

#[test]
fn labels_and_scopes_have_stable_names() {
    assert_eq!(memory_label_name(MemoryLabel::Procedure), "procedure");
    assert_eq!(memory_scope_key(MemoryScope::Workspace), "workspace");
    assert_eq!(memory_scope_from_key("session"), MemoryScope::Session);
    assert_eq!(memory_scope_from_key("somewhere"), MemoryScope::Project);
    assert_eq!(memory_label_from_str(" Decision "), Ok(MemoryLabel::Decision));
    assert_eq!(memory_label_from_str("Mood"), Err("unknown memory label \"mood\"".to_string()));
}

#[test]
fn labels_default_to_experience_and_lose_repeats() {
    assert_eq!(normalized_labels(vec![]), vec![MemoryLabel::Experience]);
    assert_eq!(normalized_labels(vec![MemoryLabel::Fact, MemoryLabel::Fact]), vec![MemoryLabel::Fact, MemoryLabel::Fact]);
    assert_eq!(normalize_labels(vec![]), vec![MemoryLabel::Experience]);
    assert_eq!(
        normalize_labels(vec![MemoryLabel::Fact, MemoryLabel::Insight, MemoryLabel::Fact]),
        vec![MemoryLabel::Fact, MemoryLabel::Insight]
    );
}

#[test]
fn ids_are_trimmed_and_required_where_the_scope_needs_them() {
    assert_eq!(normalized_optional_id(Some("  s-1 ".to_string())), Some("s-1".to_string()));
    assert_eq!(normalized_optional_id(Some("   ".to_string())), None);
    assert_eq!(normalized_optional_id(None), None);
    assert_eq!(required_memory_id(" t ".to_string(), "thread_id"), Ok("t".to_string()));
    assert_eq!(
        required_memory_id(" ".to_string(), "thread_id"),
        Err("thread_id is required for scoped memory promotion".to_string())
    );
    assert_eq!(index_scope_key(MemoryScope::Thread, &None, &None), "thread");
    assert_eq!(index_scope_key(MemoryScope::Session, &None, &Some("t-1".to_string())), "t-1");
    assert_eq!(legacy_record_id("session-9", 12), "legacy-session-9-12");
}

#[test]
fn titles_come_from_the_first_sentence_of_the_first_line() {
    assert_eq!(title_from_content("\n\n  Use the cache. Then more.\nsecond"), "Use the cache");
    assert_eq!(title_from_content("   \n "), "Memory");
    assert_eq!(title_from_content("Why? Because."), "Why");
    let long = "x".repeat(100);
    assert_eq!(title_from_content(&long), format!("{}...", "x".repeat(80)));
    assert_eq!(truncate_chars("héllo", 3), "hél...");
    assert_eq!(truncate_chars("abc", 3), "abc");
}

#[test]
fn notices_and_counts_read_naturally() {
    assert_eq!(memory_notice("saved"), "Memory \u{b7} saved");
    assert_eq!(count_label("memory", 1), "memory");
    assert_eq!(count_label("record", 2), "records");
    assert_eq!(count_label("record", 0), "records");
}

#[test]
fn patches_replace_or_head_the_content() {
    assert_eq!(apply_patch_to_content("old", Some("new"), Some("T")), "new");
    assert_eq!(apply_patch_to_content("old", Some("  "), None), "old");
    assert_eq!(apply_patch_to_content("old", None, Some("Title")), "Title\n\nold");
    assert_eq!(apply_patch_to_content("old", None, None), "old");
}

#[test]
fn label_counts_are_sorted_by_count_then_name() {
    let records = vec![
        (vec![MemoryLabel::Fact, MemoryLabel::Decision], MemoryScope::Project),
        (vec![MemoryLabel::Fact], MemoryScope::Project),
        (vec![MemoryLabel::Insight, MemoryLabel::Insight, MemoryLabel::Insight], MemoryScope::User),
    ];
    assert_eq!(
        list_label_counts(&records, None),
        vec![
            MemoryLabelCount { label: MemoryLabel::Insight, count: 3 },
            MemoryLabelCount { label: MemoryLabel::Fact, count: 2 },
            MemoryLabelCount { label: MemoryLabel::Decision, count: 1 },
        ]
    );
    assert_eq!(
        list_label_counts(&records, Some(MemoryScope::Project)),
        vec![
            MemoryLabelCount { label: MemoryLabel::Fact, count: 2 },
            MemoryLabelCount { label: MemoryLabel::Decision, count: 1 },
        ]
    );
    assert!(list_label_counts(&vec![], None).is_empty());
}

#[test]
fn new_records_are_trimmed_titled_and_stamped() {
    let input = NewMemoryRecord {
        title: None,
        content: "  Prefer rg over grep. It is faster.  ".to_string(),
        labels: vec![],
        pinned: true,
        source: MemorySource::UserCreated,
        scope: MemoryScope::Thread,
        session_id: Some(" s ".to_string()),
        thread_id: Some("  ".to_string()),
        source_span: Some(MemorySourceSpan { start_turn_index: 1, end_turn_index: 2 }),
    };
    let record = build_memory_record("memory-1".to_string(), input, 77).expect("record");
    assert_eq!(record.id, "memory-1");
    assert_eq!(record.content, "Prefer rg over grep. It is faster.");
    assert_eq!(record.title, "Prefer rg over grep");
    assert_eq!(record.labels, vec![MemoryLabel::Experience]);
    assert_eq!(record.session_id.as_deref(), Some("s"));
    assert_eq!(record.thread_id, None);
    assert_eq!((record.created_at_unix_seconds, record.updated_at_unix_seconds), (77, 77));
    assert!(record.pinned);

    let blank = NewMemoryRecord::experience("   ".to_string());
    assert_eq!(build_memory_record("x".to_string(), blank, 1), Err("memory content must not be empty".to_string()));

    let titled = NewMemoryRecord { title: Some("Given".to_string()), ..NewMemoryRecord::experience("body".to_string()) };
    assert_eq!(build_memory_record("y".to_string(), titled, 1).expect("record").title, "Given");
}

#[test]
fn promoted_records_are_placed_by_their_target() {
    let base = NewMemoryRecord::promotion_base(
        MemorySource::SessionDistill,
        MemoryPromotionTarget::Session { session_id: " s-2 ".to_string(), source_span: None },
    )
    .expect("session promotion");
    assert_eq!(base.scope, MemoryScope::Session);
    assert_eq!(base.session_id.as_deref(), Some("s-2"));
    assert_eq!(base.thread_id.as_deref(), Some("s-2"));
    assert_eq!(base.source, MemorySource::SessionDistill);
    assert_eq!(base.labels, vec![MemoryLabel::Experience]);
    let err = NewMemoryRecord::promotion_base(
        MemorySource::ThreadDistill,
        MemoryPromotionTarget::Thread { session_id: None, thread_id: " ".to_string(), source_span: None },
    );
    assert_eq!(err.err(), Some("thread_id is required for scoped memory promotion".to_string()));
}

#[test]
fn record_ids_are_kept_or_freshly_generated() {
    assert_eq!(memory_record_id(Some(" memory-7 ".to_string())), "memory-7");
    let a = memory_record_id(None);
    let b = memory_record_id(Some("  ".to_string()));
    assert!(a.starts_with("memory-"));
    assert_eq!(a.len(), 7 + 36);
    assert_eq!(a.as_bytes()[7 + 8], b'-');
    assert_ne!(a, b);
}
