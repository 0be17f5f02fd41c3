//! Memory control requests from protocol adapters: the events a request
//! publishes when no memory store is attached, and the conversions between
//! the control plane's memory vocabulary and the store's.
use vstd::prelude::*;

use crate::memory::{label_from_name, label_name, memory_label_from_str, memory_label_name, MemoryLabel, MemoryLabelCount};
use crate::plugin_middleware::{json_str_field, json_string_field};
use crate::memory::{memory_scope_name, scope_name, MemoryScope, MemorySource};
use crate::memory_patch::{opt_view, MemoryRecord, NewMemoryRecord};
use crate::plugin_cli::{debug_quoted, debug_str};
use crate::runtime_control::{MemoryEvent, MemoryLabelSummary, MemoryRecordSummary, MemoryScope as ControlMemoryScope};
use crate::text::{is_blank, trim, trim_str};

verus! {

/// A change to a memory record requested over the control plane. The
/// record's importance travels beside it: it is a floating-point value.
#[derive(Clone, Debug, PartialEq, Eq)]
pub struct MemoryRecordControlPatch {
    pub title: Option<String>,
    pub content: Option<String>,
    pub labels: Option<Vec<String>>,
    pub pinned: Option<bool>,
    pub scope: Option<ControlMemoryScope>,
    pub session_id: Option<Option<String>>,
    pub thread_id: Option<Option<String>>,
}

/// A memory control request; `metadata` is the request's JSON metadata
/// object as text.
#[derive(Clone, Debug, PartialEq, Eq)]
pub enum MemoryControlRequest {
    AddRecord { memory_id: String, scope: ControlMemoryScope, content: String, metadata: String },
    UpdateRecord { memory_id: String, patch: MemoryRecordControlPatch },
    DeleteRecord { memory_id: String },
    ListLabels { scope: Option<ControlMemoryScope> },
    QueryRecords { query: String, scope: Option<ControlMemoryScope>, limit: usize },
    QueryMetadata,
    SelectionSnapshot,
}

/// The event a request publishes when no store is attached: it names what
/// the request addressed and carries no records, labels or counts.
pub open spec fn scaffold_event_for(request: MemoryControlRequest, e: MemoryEvent) -> bool {
    match request {
        MemoryControlRequest::AddRecord { memory_id, .. } => e == MemoryEvent::RecordAdded { memory_id },
        MemoryControlRequest::UpdateRecord { memory_id, .. } => e == MemoryEvent::RecordUpdated {
            memory_id,
        },
        MemoryControlRequest::DeleteRecord { memory_id } => e == MemoryEvent::RecordDeleted { memory_id },
        MemoryControlRequest::ListLabels { scope } => e matches MemoryEvent::LabelsListed { scope: s, labels }
            && s == scope && labels@.len() == 0,
        MemoryControlRequest::QueryRecords { query, .. } => e matches MemoryEvent::RecordsQueried {
            query: q,
            records,
        } && q == query && records@.len() == 0,
        MemoryControlRequest::QueryMetadata => e matches MemoryEvent::MetadataQueried {
            record_count,
            labels,
        } && record_count == 0 && labels@.len() == 0,
        MemoryControlRequest::SelectionSnapshot => e == MemoryEvent::SelectionUpdated,
    }
}

/// The event published for `request` when no memory store is attached.
pub fn scaffold_memory_event(request: &MemoryControlRequest) -> (e: MemoryEvent)
    ensures
        scaffold_event_for(*request, e),
{
    match request {
        MemoryControlRequest::AddRecord { memory_id, .. } => MemoryEvent::RecordAdded {
            memory_id: memory_id.clone(),
        },
        MemoryControlRequest::UpdateRecord { memory_id, .. } => MemoryEvent::RecordUpdated {
            memory_id: memory_id.clone(),
        },
        MemoryControlRequest::DeleteRecord { memory_id } => MemoryEvent::RecordDeleted {
            memory_id: memory_id.clone(),
        },
        MemoryControlRequest::ListLabels { scope } => MemoryEvent::LabelsListed {
            scope: *scope,
            labels: Vec::new(),
        },
        MemoryControlRequest::QueryRecords { query, .. } => MemoryEvent::RecordsQueried {
            query: query.clone(),
            records: Vec::new(),
        },
        MemoryControlRequest::QueryMetadata => MemoryEvent::MetadataQueried {
            record_count: 0,
            labels: Vec::new(),
        },
        MemoryControlRequest::SelectionSnapshot => MemoryEvent::SelectionUpdated,
    }
}

pub open spec fn store_scope(scope: ControlMemoryScope) -> crate::memory::MemoryScope {
    match scope {
        ControlMemoryScope::Thread => crate::memory::MemoryScope::Thread,
        ControlMemoryScope::Workspace => crate::memory::MemoryScope::Workspace,
    }
}

/// The store scope a control scope addresses.
pub fn store_scope_from_control(scope: ControlMemoryScope) -> (r: crate::memory::MemoryScope)
    ensures
        r == store_scope(scope),
{
    match scope {
        ControlMemoryScope::Thread => crate::memory::MemoryScope::Thread,
        ControlMemoryScope::Workspace => crate::memory::MemoryScope::Workspace,
    }
}

/// Label counts as the protocol reports them: each label by name, in the
/// same order, with its count.
pub fn label_summaries(labels: Vec<MemoryLabelCount>) -> (r: Vec<MemoryLabelSummary>)
    ensures
        r@.len() == labels@.len(),
        forall|i: int|
            0 <= i < labels@.len() ==> (#[trigger] r@[i]).label@ == label_name(labels@[i].label) && r@[i].count
                == labels@[i].count,
{
    let mut r: Vec<MemoryLabelSummary> = Vec::new();
    let mut i: usize = 0;
    while i < labels.len()
        invariant
            i <= labels.len(),
            r@.len() == i,
            forall|k: int|
                0 <= k < i ==> (#[trigger] r@[k]).label@ == label_name(labels@[k].label) && r@[k].count
                    == labels@[k].count,
        decreases labels.len() - i,
    {
        let name = memory_label_name(labels[i].label);
        r.push(MemoryLabelSummary { label: name.to_owned(), count: labels[i].count });
        i += 1;
    }
    r
}

/// The trimmed string that the metadata holds under `key`, when it holds a
/// non-blank string there.
pub open spec fn metadata_field(metadata: Seq<char>, key: Seq<char>) -> Option<Seq<char>> {
    match json_str_field(metadata, key) {
        Some(v) => if is_blank(v) {
            None
        } else {
            Some(trim(v))
        },
        None => None,
    }
}

/// The trimmed, non-blank string of the metadata's `key`.
pub fn metadata_string(metadata: &str, key: &str) -> (r: Option<String>)
    ensures
        match metadata_field(metadata@, key@) {
            Some(v) => r matches Some(s) && s@ == v,
            None => r is None,
        },
{
    match json_string_field(metadata, key) {
        Some(v) => {
            let t = trim_str(v.as_str());
            if crate::text::is_blank_str(v.as_str()) {
                None
            } else {
                Some(t)
            }
        },
        None => None,
    }
}

/// The labels that protocol names denote, in order; the first unknown name
/// makes the error.
pub fn labels_from_names(names: &Vec<String>) -> (r: Result<Vec<MemoryLabel>, String>)
    ensures
        match r {
            Ok(v) => v@.len() == names@.len() && forall|i: int|
                0 <= i < names@.len() ==> label_from_name((#[trigger] names@[i])@) == Some(v@[i]),
            Err(m) => exists|i: int|
                0 <= i < names@.len() && label_from_name((#[trigger] names@[i])@) is None && m@
                    == "unknown memory label "@ + crate::plugin_cli::debug_quoted(
                    crate::text::ascii_lower(trim(names@[i]@)),
                ) && forall|k: int| 0 <= k < i ==> label_from_name((#[trigger] names@[k])@) is Some,
        },
{
    let mut out: Vec<MemoryLabel> = Vec::new();
    let mut i: usize = 0;
    while i < names.len()
        invariant
            i <= names.len(),
            out@.len() == i,
            forall|k: int| 0 <= k < i ==> label_from_name((#[trigger] names@[k])@) == Some(out@[k]),
        decreases names.len() - i,
    {
        match memory_label_from_str(names[i].as_str()) {
            Ok(l) => out.push(l),
            Err(e) => {
                assert(label_from_name(names@[i as int]@) is None);
                assert forall|k: int| 0 <= k < i implies label_from_name((#[trigger] names@[k])@) is Some by {
                    assert(label_from_name(names@[k]@) == Some(out@[k]));
                }
                return Err(e);
            },
        }
        i += 1;
    }
    Ok(out)
}

// ---------------------------------------------------------------------------
// Requests against an attached store
// ---------------------------------------------------------------------------

/// What the JSON object `text` holds under `key` as a list of strings: none
/// when the key is absent (or `text` is no JSON object); `Err(false)` when
/// the value is not an array; `Err(true)` when it is an array holding a
/// value that is not a string; else the strings in order.
pub uninterp spec fn json_string_list(text: Seq<char>, key: Seq<char>) -> Option<Result<Seq<Seq<char>>, bool>>;

/// `serde_json::from_str::<Value>` of `text`, then `get(key)`, the value
/// told apart as an array or not and each item taken by `as_str`. Its result
/// is named `json_string_list` of the two arguments.
#[verifier::external_body]
fn json_string_list_field(text: &str, key: &str) -> (r: Option<Result<Vec<String>, bool>>)
    ensures
        match json_string_list(text@, key@) {
            None => r is None,
            Some(Err(b)) => r == Some(Err::<Vec<String>, bool>(b)),
            Some(Ok(items)) => r matches Some(Ok(v)) && v@.len() == items.len() && forall|i: int|
                0 <= i < items.len() ==> (#[trigger] v@[i])@ == items[i],
        },
{
    let value = serde_json::from_str::<serde_json::Value>(text).ok()?;
    match value.get(key)? {
        serde_json::Value::Array(items) => Some(
            items.iter().map(|item| item.as_str().map(str::to_owned)).collect::<Option<Vec<String>>>().ok_or(true),
        ),
        _ => Some(Err(false)),
    }
}

/// The boolean of `key` in the JSON object `text`, if it holds one there.
pub uninterp spec fn json_bool(text: Seq<char>, key: Seq<char>) -> Option<bool>;

/// `serde_json::from_str::<Value>` of `text`, then `get(key)` and
/// `as_bool`. Its result is named `json_bool` of the two arguments.
#[verifier::external_body]
fn json_bool_field(text: &str, key: &str) -> (r: Option<bool>)
    ensures
        r == json_bool(text@, key@),
{
    serde_json::from_str::<serde_json::Value>(text).ok().and_then(|v| v.get(key).and_then(|b| b.as_bool()))
}

/// The labels a record's metadata asks for: none when it names none; the
/// refusal of a value that is not an array of strings; the refusal of the
/// first unknown label name.
pub open spec fn metadata_labels_ok(metadata: Seq<char>, labels: Seq<MemoryLabel>) -> bool {
    match json_string_list(metadata, "labels"@) {
        None => labels.len() == 0,
        Some(Ok(names)) => labels.len() == names.len() && forall|i: int|
            0 <= i < names.len() ==> label_from_name(#[trigger] names[i]) == Some(labels[i]),
        Some(Err(_)) => false,
    }
}

pub open spec fn metadata_labels_err(metadata: Seq<char>, m: Seq<char>) -> bool {
    match json_string_list(metadata, "labels"@) {
        None => false,
        Some(Err(false)) => m == "memory metadata labels must be an array"@,
        Some(Err(true)) => m == "memory metadata labels must be strings"@,
        Some(Ok(names)) => exists|i: int|
            0 <= i < names.len() && label_from_name(#[trigger] names[i]) is None && m
                == "unknown memory label "@ + debug_quoted(crate::text::ascii_lower(trim(names[i])))
                && forall|k: int| 0 <= k < i ==> label_from_name(#[trigger] names[k]) is Some,
    }
}

/// Whether every name in the metadata's label list is known.
pub open spec fn metadata_labels_known(metadata: Seq<char>) -> bool {
    match json_string_list(metadata, "labels"@) {
        None => true,
        Some(Ok(names)) => forall|i: int| 0 <= i < names.len() ==> label_from_name(#[trigger] names[i]) is Some,
        Some(Err(_)) => false,
    }
}

fn metadata_labels(metadata: &str) -> (r: Result<Vec<MemoryLabel>, String>)
    ensures
        metadata_labels_known(metadata@) ==> (r matches Ok(v) && metadata_labels_ok(metadata@, v@)),
        !metadata_labels_known(metadata@) ==> (r matches Err(m) && metadata_labels_err(metadata@, m@)),
{
    proof {
        reveal_strlit("labels");
    }
    match json_string_list_field(metadata, "labels") {
        None => Ok(Vec::new()),
        Some(Err(false)) => Err("memory metadata labels must be an array".to_owned()),
        Some(Err(true)) => Err("memory metadata labels must be strings".to_owned()),
        Some(Ok(names)) => {
            let r = labels_from_names(&names);
            proof {
                let items = json_string_list(metadata@, "labels"@)->Some_0->Ok_0;
                assert forall|i: int| 0 <= i < names@.len() implies (#[trigger] names@[i])@ == items[i] by {}
                if r is Ok {
                    let v = r->Ok_0;
                    {
                        assert forall|i: int| 0 <= i < items.len() implies label_from_name(#[trigger] items[i]) == Some(v@[i]) by {
                            assert(names@[i]@ == items[i]);
                        }
                    }
                } else {
                    let m = r->Err_0;
                    {
                        let i = choose|i: int|
                            0 <= i < names@.len() && label_from_name((#[trigger] names@[i])@) is None && m@
                                == "unknown memory label "@ + debug_quoted(crate::text::ascii_lower(trim(names@[i]@)))
                                && forall|k: int| 0 <= k < i ==> label_from_name((#[trigger] names@[k])@) is Some;
                        assert(names@[i]@ == items[i]);
                        assert forall|k: int| 0 <= k < i implies label_from_name(#[trigger] items[k]) is Some by {
                            assert(names@[k]@ == items[k]);
                        }
                        assert(label_from_name(items[i]) is None);
                    }
                }
            }
            r
        },
    }
}

/// The record an add request asks for, when the store does not hold one
/// of that id yet: placed in the workspace (with the metadata's session and
/// thread, where given) or in a thread (which the metadata must name), with
/// the metadata's title, labels and pin and the request's content, written
/// by the protocol. The record's importance is set by the host.
pub fn plan_add_record(memory_id: &str, already_exists: bool, scope: ControlMemoryScope, content: &str, metadata: &str) -> (r:
    Result<NewMemoryRecord, String>)
    ensures
        already_exists ==> (r matches Err(m) && m@ == "memory record "@ + debug_quoted(memory_id@) + " already exists"@),
        !already_exists && scope == ControlMemoryScope::Thread && metadata_field(metadata@, "thread_id"@) is None ==> (
        r matches Err(m) && m@ == "thread_id is required for thread memory scope"@),
        !already_exists && !(scope == ControlMemoryScope::Thread && metadata_field(metadata@, "thread_id"@) is None)
            && !metadata_labels_known(metadata@) ==> (r matches Err(m) && metadata_labels_err(metadata@, m@)),
        !already_exists && !(scope == ControlMemoryScope::Thread && metadata_field(metadata@, "thread_id"@) is None)
            && metadata_labels_known(metadata@) ==> (r matches Ok(n) && {
            &&& n.scope == store_scope(scope)
            &&& opt_view(n.session_id) == metadata_field(metadata@, "session_id"@)
            &&& opt_view(n.thread_id) == metadata_field(metadata@, "thread_id"@)
            &&& n.source_span is None
            &&& n.source == MemorySource::ProtocolWrite
            &&& opt_view(n.title) == metadata_field(metadata@, "title"@)
            &&& n.content@ == content@
            &&& metadata_labels_ok(metadata@, n.labels@)
            &&& n.pinned == (json_bool(metadata@, "pinned"@) == Some(true))
        }),
{
    proof {
        reveal_strlit("thread_id");
        reveal_strlit("session_id");
        reveal_strlit("title");
        reveal_strlit("pinned");
    }
    if already_exists {
        let mut out: Vec<char> = Vec::new();
        crate::text::push_str(&mut out, "memory record ");
        let q = debug_str(memory_id);
        crate::text::push_str(&mut out, q.as_str());
        crate::text::push_str(&mut out, " already exists");
        return Err(crate::text::string_from_chars(&out));
    }
    let session_id = metadata_string(metadata, "session_id");
    let thread_id = metadata_string(metadata, "thread_id");
    if scope == ControlMemoryScope::Thread && thread_id.is_none() {
        return Err("thread_id is required for thread memory scope".to_owned());
    }
    let title = metadata_string(metadata, "title");
    let labels = match metadata_labels(metadata) {
        Ok(l) => l,
        Err(e) => return Err(e),
    };
    let pinned = match json_bool_field(metadata, "pinned") {
        Some(b) => b,
        None => false,
    };
    Ok(
        NewMemoryRecord {
            title,
            content: content.to_owned(),
            labels,
            pinned,
            source: MemorySource::ProtocolWrite,
            scope: store_scope_from_control(scope),
            session_id,
            thread_id,
            source_span: None,
        },
    )
}

/// Whether a record is in `scope` (any scope when none is given).
pub open spec fn in_scope(r: MemoryRecord, scope: Option<MemoryScope>) -> bool {
    match scope {
        Some(s) => r.scope == s,
        None => true,
    }
}

/// The records a query reports: the hits in the queried scope, in order,
/// at most `limit` of them.
pub fn select_queried_records(records: Vec<MemoryRecord>, scope: Option<MemoryScope>, limit: usize) -> (r: Vec<
    MemoryRecord,
>)
    ensures
        ({
            let f = records@.filter(|x: MemoryRecord| in_scope(x, scope));
            r@ == f.take(if f.len() < limit { f.len() as int } else { limit as int })
        }),
{
    let ghost original = records@;
    let ghost pred = |x: MemoryRecord| in_scope(x, scope);
    let mut kept: Vec<MemoryRecord> = Vec::new();
    let mut rest = records;
    let ghost mut i: int = 0;
    while rest.len() > 0 && kept.len() < limit
        invariant
            0 <= i <= original.len(),
            pred == (|x: MemoryRecord| in_scope(x, scope)),
            rest@ == original.skip(i),
            kept@ == original.take(i).filter(pred),
            kept@.len() <= limit,
        decreases rest.len(),
    {
        let ghost before = rest@;
        let x = rest.remove(0);
        proof {
            assert(before[0] == original[i]);
            assert(x == original[i]);
            assert(original.take(i + 1) =~= original.take(i).push(original[i]));
            original.take(i).lemma_filter_push(original[i], pred);
            assert(rest@ =~= original.skip(i + 1));
        }
        let keep = match scope {
            Some(s) => x.scope == s,
            None => true,
        };
        assert(keep == in_scope(x, scope));
        assert(pred(original[i]) == in_scope(original[i], scope));
        if keep {
            kept.push(x);
        }
        proof {
            i = i + 1;
        }
    }
    proof {
        let f = original.filter(pred);
        lemma_filter_prefix(original, pred, i, original.len() as int);
        assert(original.take(original.len() as int) =~= original);
        if rest@.len() == 0 {
            assert(i == original.len());
        }
    }
    kept
}

/// Filtering a prefix gives a prefix of filtering a longer prefix.
proof fn lemma_filter_prefix(s: Seq<MemoryRecord>, p: spec_fn(MemoryRecord) -> bool, i: int, j: int)
    requires
        0 <= i <= j <= s.len(),
    ensures
        s.take(i).filter(p).len() <= s.take(j).filter(p).len(),
        s.take(j).filter(p).take(s.take(i).filter(p).len() as int) =~= s.take(i).filter(p),
    decreases j - i,
{
    if j > i {
        lemma_filter_prefix(s, p, i, j - 1);
        assert(s.take(j) =~= s.take(j - 1).push(s[j - 1]));
        s.take(j - 1).lemma_filter_push(s[j - 1], p);
    }
}

/// A record as a query reports it; its importance, in basis points, is
/// given by the host.
pub fn memory_record_summary(record: MemoryRecord, importance_basis_points: u32) -> (r: MemoryRecordSummary)
    ensures
        r.id == record.id,
        r.title == record.title,
        r.content == record.content,
        r.labels@.len() == record.labels@.len(),
        forall|i: int| 0 <= i < r.labels@.len() ==> (#[trigger] r.labels@[i])@ == crate::memory::label_name(record.labels@[i]),
        r.importance_basis_points == importance_basis_points,
        r.pinned == record.pinned,
        r.scope@ == scope_name(record.scope),
        r.session_id == record.session_id,
        r.thread_id == record.thread_id,
{
    let mut labels: Vec<String> = Vec::new();
    let mut i: usize = 0;
    while i < record.labels.len()
        invariant
            i <= record.labels.len(),
            labels@.len() == i,
            forall|k: int| 0 <= k < i ==> (#[trigger] labels@[k])@ == crate::memory::label_name(record.labels@[k]),
        decreases record.labels.len() - i,
    {
        labels.push(memory_label_name(record.labels[i]).to_owned());
        i += 1;
    }
    MemoryRecordSummary {
        id: record.id,
        title: record.title,
        content: record.content,
        labels,
        importance_basis_points,
        pinned: record.pinned,
        scope: memory_scope_name(record.scope).to_owned(),
        session_id: record.session_id,
        thread_id: record.thread_id,
    }
}

} // verus!
