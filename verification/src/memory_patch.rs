//! Memory records and the patches that change them: normalizing a patch,
//! applying it, and telling whether the search index needs refreshing.
//!
//! A record's importance is a floating-point value; the host keeps and
//! clamps it beside the record and says whether a patch changed it.
use vstd::prelude::*;

use crate::memory::{
    label_from_name, normalized_id, opt_seq, promotion_placement, title_of, title_from_content, MemoryPromotionTarget, normalized_labels, normalized_optional_id, MemoryLabel, MemoryScope, MemorySource, MemorySourceSpan,
};
use crate::protocol_sources::memory::{labels_from_names, store_scope, store_scope_from_control, MemoryRecordControlPatch};
use crate::text::{chars_of, trim, trim_str};

verus! {

/// A stored memory, but for its importance.
#[derive(Clone, Debug, PartialEq, Eq)]
pub struct MemoryRecord {
    pub id: String,
    pub title: String,
    pub content: String,
    pub labels: Vec<MemoryLabel>,
    pub pinned: bool,
    pub source: MemorySource,
    pub scope: MemoryScope,
    pub session_id: Option<String>,
    pub thread_id: Option<String>,
    pub source_span: Option<MemorySourceSpan>,
    pub created_at_unix_seconds: u64,
    pub updated_at_unix_seconds: u64,
}

/// A change to a record, but for its importance: each field that is set
/// replaces the record's.
#[derive(Clone, Debug, PartialEq, Eq)]
pub struct MemoryRecordPatch {
    pub title: Option<String>,
    pub content: Option<String>,
    pub labels: Option<Vec<MemoryLabel>>,
    pub pinned: Option<bool>,
    pub scope: Option<MemoryScope>,
    pub session_id: Option<Option<String>>,
    pub thread_id: Option<Option<String>>,
    pub source_span: Option<Option<MemorySourceSpan>>,
}

pub open spec fn opt_view(o: Option<String>) -> Option<Seq<char>> {
    match o {
        Some(s) => Some(s@),
        None => None,
    }
}

/// A record by what it says (its strings by their characters).
pub open spec fn record_view(r: MemoryRecord) -> (
    Seq<char>,
    Seq<char>,
    Seq<char>,
    Seq<MemoryLabel>,
    bool,
    MemorySource,
    MemoryScope,
    Option<Seq<char>>,
    Option<Seq<char>>,
    Option<MemorySourceSpan>,
    u64,
    u64,
) {
    (
        r.id@,
        r.title@,
        r.content@,
        r.labels@,
        r.pinned,
        r.source,
        r.scope,
        opt_view(r.session_id),
        opt_view(r.thread_id),
        r.source_span,
        r.created_at_unix_seconds,
        r.updated_at_unix_seconds,
    )
}

pub open spec fn opt_opt_view(o: Option<Option<String>>) -> Option<Option<Seq<char>>> {
    match o {
        Some(i) => Some(opt_view(i)),
        None => None,
    }
}

/// The normalized form of an id patch: a new id is trimmed, blank meaning none.
pub open spec fn normalized_id_patch(o: Option<Option<String>>) -> Option<Option<Seq<char>>> {
    match o {
        Some(i) => Some(normalized_id(i)),
        None => None,
    }
}

/// Whether `n` is the normalized form of patch `p`: title and content
/// trimmed, labels defaulted, ids normalized, the rest kept.
pub open spec fn normalized_patch(p: MemoryRecordPatch, n: MemoryRecordPatch) -> bool {
    &&& opt_view(n.title) == match p.title {
        Some(t) => Some(trim(t@)),
        None => None,
    }
    &&& opt_view(n.content) == match p.content {
        Some(c) => Some(trim(c@)),
        None => None,
    }
    &&& match p.labels {
        Some(ls) => n.labels matches Some(nl) && nl@ == (if ls@.len() == 0 {
            seq![MemoryLabel::Experience]
        } else {
            ls@
        }),
        None => n.labels is None,
    }
    &&& n.pinned == p.pinned
    &&& n.scope == p.scope
    &&& opt_opt_view(n.session_id) == normalized_id_patch(p.session_id)
    &&& opt_opt_view(n.thread_id) == normalized_id_patch(p.thread_id)
    &&& n.source_span == p.source_span
}

fn normalize_id_patch(o: Option<Option<String>>) -> (r: Option<Option<String>>)
    ensures
        opt_opt_view(r) == normalized_id_patch(o),
{
    match o {
        Some(i) => {
            let n = normalized_optional_id(i);
            Some(n)
        },
        None => None,
    }
}

/// The patch as it is applied: a content that trims to nothing is refused.
pub fn normalize_memory_record_patch(patch: MemoryRecordPatch) -> (r: Result<MemoryRecordPatch, String>)
    ensures
        (patch.content matches Some(c) && trim(c@).len() == 0) ==> (r matches Err(m) && m@
            == "memory content must not be empty"@),
        !(patch.content matches Some(c) && trim(c@).len() == 0) ==> (r matches Ok(n) && normalized_patch(patch, n)),
{
    let title = match &patch.title {
        Some(t) => Some(trim_str(t.as_str())),
        None => None,
    };
    let content = match &patch.content {
        Some(c) => {
            let t = trim_str(c.as_str());
            if chars_of(t.as_str()).len() == 0 {
                return Err("memory content must not be empty".to_owned());
            }
            Some(t)
        },
        None => None,
    };
    let MemoryRecordPatch { labels, pinned, scope, session_id, thread_id, source_span, .. } = patch;
    let labels = match labels {
        Some(ls) => Some(normalized_labels(ls)),
        None => None,
    };
    Ok(
        MemoryRecordPatch {
            title,
            content,
            labels,
            pinned,
            scope,
            session_id: normalize_id_patch(session_id),
            thread_id: normalize_id_patch(thread_id),
            source_span,
        },
    )
}

/// Whether a patch changes what the search index holds of a record: its
/// content, scope or ids.
pub fn patch_requires_index_refresh(patch: &MemoryRecordPatch) -> (b: bool)
    ensures
        b == (patch.content is Some || patch.scope is Some || patch.session_id is Some || patch.thread_id is Some),
{
    patch.content.is_some() || patch.scope.is_some() || patch.session_id.is_some() || patch.thread_id.is_some()
}

/// The record with the patch applied (a title only when non-empty); the
/// timestamps are the record's.
pub open spec fn patched(r: MemoryRecord, p: MemoryRecordPatch) -> MemoryRecord {
    MemoryRecord {
        title: match p.title {
            Some(t) => if t@.len() > 0 { t } else { r.title },
            None => r.title,
        },
        content: match p.content {
            Some(c) => c,
            None => r.content,
        },
        labels: match p.labels {
            Some(l) => l,
            None => r.labels,
        },
        pinned: match p.pinned {
            Some(b) => b,
            None => r.pinned,
        },
        scope: match p.scope {
            Some(s) => s,
            None => r.scope,
        },
        session_id: match p.session_id {
            Some(s) => s,
            None => r.session_id,
        },
        thread_id: match p.thread_id {
            Some(t) => t,
            None => r.thread_id,
        },
        source_span: match p.source_span {
            Some(s) => s,
            None => r.source_span,
        },
        ..r
    }
}

fn same_opt_string(a: &Option<String>, b: &Option<String>) -> (r: bool)
    ensures
        r == (opt_view(*a) == opt_view(*b)),
{
    match (a, b) {
        (Some(x), Some(y)) => *x == *y,
        (None, None) => true,
        _ => false,
    }
}

fn same_labels(a: &Vec<MemoryLabel>, b: &Vec<MemoryLabel>) -> (r: bool)
    ensures
        r == (a@ == b@),
{
    if a.len() != b.len() {
        return false;
    }
    let mut i: usize = 0;
    while i < a.len()
        invariant
            i <= a.len(),
            a.len() == b.len(),
            forall|k: int| 0 <= k < i ==> a@[k] == b@[k],
        decreases a.len() - i,
    {
        if a[i] != b[i] {
            return false;
        }
        i += 1;
    }
    assert(a@ =~= b@);
    true
}

fn same_record(a: &MemoryRecord, b: &MemoryRecord) -> (r: bool)
    ensures
        r == (record_view(*a) == record_view(*b)),
{
    a.id == b.id && a.title == b.title && a.content == b.content && same_labels(&a.labels, &b.labels)
        && a.pinned == b.pinned && a.source == b.source && a.scope == b.scope && same_opt_string(
        &a.session_id,
        &b.session_id,
    ) && same_opt_string(&a.thread_id, &b.thread_id) && a.source_span == b.source_span
        && a.created_at_unix_seconds == b.created_at_unix_seconds && a.updated_at_unix_seconds
        == b.updated_at_unix_seconds
}

fn copy_record(r: &MemoryRecord) -> (c: MemoryRecord)
    ensures
        record_view(c) == record_view(*r),
{
    let mut labels: Vec<MemoryLabel> = Vec::new();
    let mut i: usize = 0;
    while i < r.labels.len()
        invariant
            i <= r.labels.len(),
            labels@ == r.labels@.take(i as int),
        decreases r.labels.len() - i,
    {
        labels.push(r.labels[i]);
        assert(labels@ =~= r.labels@.take(i + 1));
        i += 1;
    }
    assert(r.labels@.take(r.labels.len() as int) =~= r.labels@);
    MemoryRecord {
        id: r.id.clone(),
        title: r.title.clone(),
        content: r.content.clone(),
        labels,
        pinned: r.pinned,
        source: r.source,
        scope: r.scope,
        session_id: crate::text::copy_opt_string(&r.session_id),
        thread_id: crate::text::copy_opt_string(&r.thread_id),
        source_span: r.source_span,
        created_at_unix_seconds: r.created_at_unix_seconds,
        updated_at_unix_seconds: r.updated_at_unix_seconds,
    }
}

/// What applying a patch does, stated field by field: every field the
/// patch sets takes the patch's value (a title only when non-empty), every
/// other field keeps its value, and the identity, source and creation time
/// never change. A set field whose new value differs from the old one
/// makes the call report a change and stamp the update time with `now`;
/// when nothing differs and the importance did not change, the call
/// reports no change and the update time stays.
pub proof fn law_patch_sets_the_fields_it_names(
    before: MemoryRecord,
    after: MemoryRecord,
    patch: MemoryRecordPatch,
    now: u64,
    importance_changed: bool,
    changed: bool,
)
    requires
        ({
            let p = patched(before, patch);
            &&& changed == (importance_changed || record_view(p) != record_view(before))
            &&& changed ==> after == MemoryRecord { updated_at_unix_seconds: now, ..p }
            &&& !changed ==> after == p
        }),
    ensures
        patch.content matches Some(c) ==> after.content == c,
        patch.content is None ==> after.content == before.content,
        patch.title matches Some(t) ==> (t@.len() > 0 ==> after.title == t),
        !(patch.title matches Some(t) && t@.len() > 0) ==> after.title == before.title,
        patch.labels matches Some(l) ==> after.labels == l,
        patch.labels is None ==> after.labels == before.labels,
        patch.pinned matches Some(b) ==> after.pinned == b,
        patch.pinned is None ==> after.pinned == before.pinned,
        patch.scope matches Some(sc) ==> after.scope == sc,
        patch.scope is None ==> after.scope == before.scope,
        patch.session_id matches Some(x) ==> after.session_id == x,
        patch.session_id is None ==> after.session_id == before.session_id,
        patch.thread_id matches Some(x) ==> after.thread_id == x,
        patch.thread_id is None ==> after.thread_id == before.thread_id,
        patch.source_span matches Some(x) ==> after.source_span == x,
        patch.source_span is None ==> after.source_span == before.source_span,
        after.id == before.id && after.source == before.source,
        after.created_at_unix_seconds == before.created_at_unix_seconds,
        (patch.content matches Some(c) && c@ != before.content@) ==> changed,
        (patch.labels matches Some(l) && l@ != before.labels@) ==> changed,
        (patch.pinned matches Some(b) && b != before.pinned) ==> changed,
        (patch.scope matches Some(sc) && sc != before.scope) ==> changed,
        importance_changed ==> changed,
        changed ==> after.updated_at_unix_seconds == now,
        !changed ==> after.updated_at_unix_seconds == before.updated_at_unix_seconds,
        (!importance_changed && record_view(after) == record_view(before)) ==> !changed,
{
    let p = patched(before, patch);
    if patch.content matches Some(c) && c@ != before.content@ {
        assert(record_view(p).2 != record_view(before).2);
    }
    if patch.labels matches Some(l) && l@ != before.labels@ {
        assert(record_view(p).3 != record_view(before).3);
    }
    if changed && !importance_changed {
        assert(record_view(p) != record_view(before));
        if record_view(after) == record_view(before) {
            assert(record_view(after).11 == now);
            assert(record_view(p).11 == before.updated_at_unix_seconds);
            assert(record_view(after).0 == record_view(p).0);
            assert(record_view(p) =~= record_view(before));
        }
    }
}

/// Applies a patch at time `now`. The record changed when any field of it
/// changed or when `importance_changed` says its importance did; then its
/// update time becomes `now`. Returns whether it changed.
pub fn apply_memory_record_patch(record: &mut MemoryRecord, patch: MemoryRecordPatch, now: u64, importance_changed: bool) -> (changed: bool)
    ensures
        ({
            let p = patched(*old(record), patch);
            &&& changed == (importance_changed || record_view(p) != record_view(*old(record)))
            &&& changed ==> *final(record) == MemoryRecord { updated_at_unix_seconds: now, ..p }
            &&& !changed ==> *final(record) == p
        }),
{
    let before = copy_record(record);
    let MemoryRecordPatch { title, content, labels, pinned, scope, session_id, thread_id, source_span } = patch;
    if let Some(t) = title {
        if chars_of(t.as_str()).len() > 0 {
            record.title = t;
        }
    }
    if let Some(c) = content {
        record.content = c;
    }
    if let Some(l) = labels {
        record.labels = l;
    }
    if let Some(p) = pinned {
        record.pinned = p;
    }
    if let Some(s) = scope {
        record.scope = s;
    }
    if let Some(s) = session_id {
        record.session_id = s;
    }
    if let Some(t) = thread_id {
        record.thread_id = t;
    }
    if let Some(s) = source_span {
        record.source_span = s;
    }
    let changed = importance_changed || !same_record(record, &before);
    if changed {
        record.updated_at_unix_seconds = now;
    }
    changed
}

/// Whether some label name is unknown.
pub open spec fn names_unknown(labels: Option<Vec<String>>) -> bool {
    labels matches Some(names) && exists|i: int|
        0 <= i < names@.len() && label_from_name((#[trigger] names@[i])@) is None
}

/// The store patch a control-plane patch asks for: label names become
/// labels (an unknown name is an error), the scope becomes the store's.
pub fn memory_patch_from_control(patch: &MemoryRecordControlPatch) -> (r: Result<MemoryRecordPatch, String>)
    ensures
        names_unknown(patch.labels) ==> r is Err,
        !names_unknown(patch.labels) ==> (r matches Ok(p) && {
            &&& p.title == patch.title
            &&& p.content == patch.content
            &&& p.pinned == patch.pinned
            &&& p.scope == match patch.scope {
                Some(s) => Some(store_scope(s)),
                None => None,
            }
            &&& p.session_id == patch.session_id
            &&& p.thread_id == patch.thread_id
            &&& p.source_span is None
            &&& match patch.labels {
                Some(names) => p.labels matches Some(ls) && ls@.len() == names@.len() && forall|i: int|
                    0 <= i < names@.len() ==> label_from_name((#[trigger] names@[i])@) == Some(ls@[i]),
                None => p.labels is None,
            }
        }),
{
    let labels = match &patch.labels {
        Some(names) => match labels_from_names(names) {
            Ok(ls) => Some(ls),
            Err(e) => return Err(e),
        },
        None => None,
    };
    Ok(
        MemoryRecordPatch {
            title: crate::text::copy_opt_string(&patch.title),
            content: crate::text::copy_opt_string(&patch.content),
            labels,
            pinned: patch.pinned,
            scope: match patch.scope {
                Some(s) => Some(store_scope_from_control(s)),
                None => None,
            },
            session_id: copy_opt_opt(&patch.session_id),
            thread_id: copy_opt_opt(&patch.thread_id),
            source_span: None,
        },
    )
}

fn copy_opt_opt(o: &Option<Option<String>>) -> (r: Option<Option<String>>)
    ensures
        r == *o,
{
    match o {
        Some(i) => Some(crate::text::copy_opt_string(i)),
        None => None,
    }
}

/// A memory to store, but for its importance.
#[derive(Clone, Debug, PartialEq, Eq)]
pub struct NewMemoryRecord {
    pub title: Option<String>,
    pub content: String,
    pub labels: Vec<MemoryLabel>,
    pub pinned: bool,
    pub source: MemorySource,
    pub scope: MemoryScope,
    pub session_id: Option<String>,
    pub thread_id: Option<String>,
    pub source_span: Option<MemorySourceSpan>,
}

impl NewMemoryRecord {
    /// An experience the agent noted during a turn, in project scope.
    pub fn experience(content: String) -> (r: Self)
        ensures
            r.title is None,
            r.content == content,
            r.labels@ == seq![MemoryLabel::Experience],
            !r.pinned,
            r.source == MemorySource::AgentTurn,
            r.scope == MemoryScope::Project,
            r.session_id is None,
            r.thread_id is None,
            r.source_span is None,
    {
        NewMemoryRecord {
            title: None,
            content,
            labels: vec![MemoryLabel::Experience],
            pinned: false,
            source: MemorySource::AgentTurn,
            scope: MemoryScope::Project,
            session_id: None,
            thread_id: None,
            source_span: None,
        }
    }

    /// The base of a promoted memory: placed as the target says (see
    /// `promotion_placement`), an untitled, empty, unpinned experience.
    pub fn promotion_base(source: MemorySource, target: MemoryPromotionTarget) -> (r: Result<Self, String>)
        ensures
            match promotion_placement_spec_result(target) {
                Ok(pl) => r matches Ok(n) && n.title is None && n.content@.len() == 0 && n.labels@ == seq![
                    MemoryLabel::Experience,
                ] && !n.pinned && n.source == source && n.scope == pl.0 && opt_seq(n.session_id) == pl.1
                    && opt_seq(n.thread_id) == pl.2 && n.source_span == pl.3,
                Err(m) => r matches Err(e) && e@ == m,
            },
    {
        match promotion_placement(target) {
            Ok(p) => Ok(
                NewMemoryRecord {
                    title: None,
                    content: String::new(),
                    labels: vec![MemoryLabel::Experience],
                    pinned: false,
                    source,
                    scope: p.scope,
                    session_id: p.session_id,
                    thread_id: p.thread_id,
                    source_span: p.source_span,
                },
            ),
            Err(e) => Err(e),
        }
    }
}

/// Where a promoted memory is placed (scope, session, thread and source
/// span, as `promotion_placement` places it), or the error when it cannot
/// be placed.
pub open spec fn promotion_placement_spec_result(target: MemoryPromotionTarget) -> Result<
    (MemoryScope, Option<Seq<char>>, Option<Seq<char>>, Option<MemorySourceSpan>),
    Seq<char>,
> {
    match target {
        MemoryPromotionTarget::Workspace { session_id, thread_id } => Ok(
            (MemoryScope::Workspace, normalized_id(session_id), normalized_id(thread_id), None),
        ),
        MemoryPromotionTarget::Thread { session_id, thread_id, source_span } => if trim(thread_id@).len() == 0 {
            Err("thread_id is required for scoped memory promotion"@)
        } else {
            Ok((MemoryScope::Thread, normalized_id(session_id), Some(trim(thread_id@)), source_span))
        },
        MemoryPromotionTarget::Session { session_id, source_span } => if trim(session_id@).len() == 0 {
            Err("session_id is required for scoped memory promotion"@)
        } else {
            Ok((MemoryScope::Session, Some(trim(session_id@)), Some(trim(session_id@)), source_span))
        },
    }
}

/// The id of a record to insert: the requested one, trimmed, when it is
/// not blank; else `memory-` and a fresh random UUID.
pub fn memory_record_id(id: Option<String>) -> (r: String)
    ensures
        match normalized_id(id) {
            Some(v) => r@ == v,
            None => r@.len() == 7 + 36 && r@.subrange(0, 7) == "memory-"@
                && crate::runtime_session::ids::hyphenated_uuid_shape(r@.skip(7)),
        },
{
    match normalized_optional_id(id) {
        Some(v) => v,
        None => {
            let u = crate::runtime_session::ids::new_v4_string();
            let mut out: Vec<char> = Vec::new();
            crate::text::push_str(&mut out, "memory-");
            crate::text::push_str(&mut out, u.as_str());
            proof {
                reveal_strlit("memory-");
                assert(out@.subrange(0, 7) =~= "memory-"@);
                assert(out@.skip(7) =~= u@);
            }
            crate::text::string_from_chars(&out)
        }
    }
}

/// The record stored for `input` under `id` at time `now`: content
/// trimmed (blank content is refused), the title given unless blank, else
/// one taken from the content; labels defaulted, ids normalized.
pub fn build_memory_record(id: String, input: NewMemoryRecord, now: u64) -> (r: Result<MemoryRecord, String>)
    ensures
        trim(input.content@).len() == 0 ==> (r matches Err(m) && m@ == "memory content must not be empty"@),
        trim(input.content@).len() > 0 ==> (r matches Ok(rec) && {
            &&& rec.id == id
            &&& rec.content@ == trim(input.content@)
            &&& rec.title@ == match input.title {
                Some(t) => if !crate::text::is_blank(t@) {
                    t@
                } else {
                    title_of(trim(input.content@))
                },
                None => title_of(trim(input.content@)),
            }
            &&& rec.labels@ == (if input.labels@.len() == 0 {
                seq![MemoryLabel::Experience]
            } else {
                input.labels@
            })
            &&& rec.pinned == input.pinned
            &&& rec.source == input.source
            &&& rec.scope == input.scope
            &&& opt_view(rec.session_id) == normalized_id(input.session_id)
            &&& opt_view(rec.thread_id) == normalized_id(input.thread_id)
            &&& rec.source_span == input.source_span
            &&& rec.created_at_unix_seconds == now
            &&& rec.updated_at_unix_seconds == now
        }),
{
    let content = trim_str(input.content.as_str());
    if chars_of(content.as_str()).len() == 0 {
        return Err("memory content must not be empty".to_owned());
    }
    let NewMemoryRecord { title, labels, pinned, source, scope, session_id, thread_id, source_span, .. } = input;
    let title = match title {
        Some(t) => {
            if crate::text::is_blank_str(t.as_str()) {
                title_from_content(content.as_str())
            } else {
                t
            }
        },
        None => title_from_content(content.as_str()),
    };
    let session_id = normalized_optional_id(session_id);
    let thread_id = normalized_optional_id(thread_id);
    Ok(
        MemoryRecord {
            id,
            title,
            content,
            labels: normalized_labels(labels),
            pinned,
            source,
            scope,
            session_id,
            thread_id,
            source_span,
            created_at_unix_seconds: now,
            updated_at_unix_seconds: now,
        },
    )
}

impl MemoryRecord {
    /// Whether automatic cleanup must keep the record: pinned, created by
    /// the user, or (as the host judges its importance) highly important.
    pub fn is_protected_from_automatic_cleanup(&self, high_importance: bool) -> (b: bool)
        ensures
            b == (self.pinned || self.source == MemorySource::UserCreated || high_importance),
    {
        self.pinned || self.source == MemorySource::UserCreated || high_importance
    }
}

} // verus!
