//! Memory records: labels, scopes and sources, the normalization of what
//! is stored, titles, label counts, and the prompts and texts of memory
//! distillation.
use vstd::prelude::*;

use crate::text::{
    chars_of, decimal, eq_str, is_blank, is_blank_str, join, join_exec, lines, lines_exec, lowercase,
    push_decimal, push_str, string_from_chars, to_lowercase, trim, trim_chars, trim_str,
    truncate_with_ellipsis, truncate_with_ellipsis_exec, views, words, words_exec,
};

verus! {

#[derive(Clone, Copy, Debug, PartialEq, Eq, Hash, Structural)]
pub enum MemoryLabel {
    Insight,
    Decision,
    Fact,
    Procedure,
    Experience,
}

#[derive(Clone, Copy, Debug, PartialEq, Eq, Hash, Structural)]
pub enum MemorySource {
    AgentTurn,
    UserCreated,
    ThreadDistill,
    SessionDistill,
    FileImport,
    ProtocolWrite,
    AutoMemory,
}

#[derive(Clone, Copy, Debug, PartialEq, Eq, Hash, Structural)]
pub enum MemoryScope {
    User,
    Workspace,
    Project,
    Thread,
    Session,
}

#[derive(Clone, Copy, Debug, PartialEq, Eq, Structural)]
pub struct MemorySourceSpan {
    pub start_turn_index: u32,
    pub end_turn_index: u32,
}

/// Where a promoted memory goes.
#[derive(Clone, Debug, PartialEq, Eq)]
pub enum MemoryPromotionTarget {
    Workspace { session_id: Option<String>, thread_id: Option<String> },
    Thread { session_id: Option<String>, thread_id: String, source_span: Option<MemorySourceSpan> },
    Session { session_id: String, source_span: Option<MemorySourceSpan> },
}

#[derive(Clone, Copy, Debug, PartialEq, Eq, Structural)]
pub struct MemoryLabelCount {
    pub label: MemoryLabel,
    pub count: usize,
}

// ---------------------------------------------------------------------------
// Names and keys
// ---------------------------------------------------------------------------

pub open spec fn label_name(l: MemoryLabel) -> Seq<char> {
    match l {
        MemoryLabel::Insight => "insight"@,
        MemoryLabel::Decision => "decision"@,
        MemoryLabel::Fact => "fact"@,
        MemoryLabel::Procedure => "procedure"@,
        MemoryLabel::Experience => "experience"@,
    }
}

pub open spec fn scope_name(s: MemoryScope) -> Seq<char> {
    match s {
        MemoryScope::User => "user"@,
        MemoryScope::Workspace => "workspace"@,
        MemoryScope::Project => "project"@,
        MemoryScope::Thread => "thread"@,
        MemoryScope::Session => "session"@,
    }
}

/// The key by which labels are ordered and named.
pub fn memory_label_sort_key(label: MemoryLabel) -> (r: &'static str)
    ensures
        r@ == label_name(label),
{
    match label {
        MemoryLabel::Insight => "insight",
        MemoryLabel::Decision => "decision",
        MemoryLabel::Fact => "fact",
        MemoryLabel::Procedure => "procedure",
        MemoryLabel::Experience => "experience",
    }
}

/// The name a label has on the protocol.
pub fn memory_label_name(label: MemoryLabel) -> (r: &'static str)
    ensures
        r@ == label_name(label),
{
    memory_label_sort_key(label)
}

/// The key of a scope, as stored.
pub fn memory_scope_key(scope: MemoryScope) -> (r: &'static str)
    ensures
        r@ == scope_name(scope),
{
    match scope {
        MemoryScope::User => "user",
        MemoryScope::Workspace => "workspace",
        MemoryScope::Project => "project",
        MemoryScope::Thread => "thread",
        MemoryScope::Session => "session",
    }
}

/// The name a scope has on the protocol.
pub fn memory_scope_name(scope: MemoryScope) -> (r: &'static str)
    ensures
        r@ == scope_name(scope),
{
    memory_scope_key(scope)
}

/// The scope a stored key names; anything unknown is the project scope.
pub open spec fn scope_from_key(v: Seq<char>) -> MemoryScope {
    if v == "user"@ {
        MemoryScope::User
    } else if v == "workspace"@ {
        MemoryScope::Workspace
    } else if v == "thread"@ {
        MemoryScope::Thread
    } else if v == "session"@ {
        MemoryScope::Session
    } else {
        MemoryScope::Project
    }
}

pub fn memory_scope_from_key(value: &str) -> (r: MemoryScope)
    ensures
        r == scope_from_key(value@),
{
    let v = chars_of(value);
    if eq_str(&v, "user") {
        MemoryScope::User
    } else if eq_str(&v, "workspace") {
        MemoryScope::Workspace
    } else if eq_str(&v, "thread") {
        MemoryScope::Thread
    } else if eq_str(&v, "session") {
        MemoryScope::Session
    } else {
        MemoryScope::Project
    }
}

/// A protocol label name, trimmed and compared case-insensitively (ASCII).
pub open spec fn label_from_name(name: Seq<char>) -> Option<MemoryLabel> {
    let v = crate::text::ascii_lower(trim(name));
    if v == "insight"@ {
        Some(MemoryLabel::Insight)
    } else if v == "decision"@ {
        Some(MemoryLabel::Decision)
    } else if v == "fact"@ {
        Some(MemoryLabel::Fact)
    } else if v == "procedure"@ {
        Some(MemoryLabel::Procedure)
    } else if v == "experience"@ {
        Some(MemoryLabel::Experience)
    } else {
        None
    }
}

/// The label a protocol name names, or the error naming what it was.
pub fn memory_label_from_str(label: &str) -> (r: Result<MemoryLabel, String>)
    ensures
        match label_from_name(label@) {
            Some(l) => r == Ok::<MemoryLabel, String>(l),
            None => r matches Err(m) && m@ == "unknown memory label "@ + crate::plugin_cli::debug_quoted(
                crate::text::ascii_lower(trim(label@)),
            ),
        },
{
    let v = crate::text::ascii_lower_exec(&trim_chars(&chars_of(label)));
    if eq_str(&v, "insight") {
        Ok(MemoryLabel::Insight)
    } else if eq_str(&v, "decision") {
        Ok(MemoryLabel::Decision)
    } else if eq_str(&v, "fact") {
        Ok(MemoryLabel::Fact)
    } else if eq_str(&v, "procedure") {
        Ok(MemoryLabel::Procedure)
    } else if eq_str(&v, "experience") {
        Ok(MemoryLabel::Experience)
    } else {
        let mut out: Vec<char> = Vec::new();
        push_str(&mut out, "unknown memory label ");
        let q = crate::plugin_cli::debug_str(string_from_chars(&v).as_str());
        push_str(&mut out, q.as_str());
        Err(string_from_chars(&out))
    }
}

// ---------------------------------------------------------------------------
// Normalization
// ---------------------------------------------------------------------------

/// A record's labels: the experience label when none is given.
pub fn normalized_labels(labels: Vec<MemoryLabel>) -> (r: Vec<MemoryLabel>)
    ensures
        labels@.len() == 0 ==> r@ == seq![MemoryLabel::Experience],
        labels@.len() > 0 ==> r@ == labels@,
{
    if labels.len() == 0 {
        let mut v: Vec<MemoryLabel> = Vec::new();
        v.push(MemoryLabel::Experience);
        return v;
    }
    labels
}

/// The labels without repeats, in first-seen order; the experience label
/// when none is given.
pub open spec fn dedup_labels(s: Seq<MemoryLabel>) -> Seq<MemoryLabel>
    decreases s.len(),
{
    if s.len() == 0 {
        Seq::empty()
    } else if dedup_labels(s.drop_last()).contains(s.last()) {
        dedup_labels(s.drop_last())
    } else {
        dedup_labels(s.drop_last()).push(s.last())
    }
}

pub fn normalize_labels(labels: Vec<MemoryLabel>) -> (r: Vec<MemoryLabel>)
    ensures
        labels@.len() == 0 ==> r@ == seq![MemoryLabel::Experience],
        labels@.len() > 0 ==> r@ == dedup_labels(labels@),
{
    let mut out: Vec<MemoryLabel> = Vec::new();
    let mut i: usize = 0;
    while i < labels.len()
        invariant
            i <= labels.len(),
            out@ == dedup_labels(labels@.take(i as int)),
        decreases labels.len() - i,
    {
        let l = labels[i];
        let ghost t = labels@.take(i + 1);
        assert(t.drop_last() =~= labels@.take(i as int));
        let mut seen = false;
        let mut k: usize = 0;
        while k < out.len()
            invariant
                k <= out.len(),
                seen <==> exists|q: int| 0 <= q < k && out@[q] == l,
            decreases out.len() - k,
        {
            if out[k] == l {
                seen = true;
            }
            k += 1;
        }
        proof {
            if seen {
                let q = choose|q: int| 0 <= q < out@.len() && out@[q] == l;
                assert(out@.contains(l));
            } else {
                assert(!out@.contains(l)) by {
                    if out@.contains(l) {
                        let q = choose|q: int| 0 <= q < out@.len() && out@[q] == l;
                        assert(out@[q] == l);
                    }
                }
            }
        }
        if !seen {
            out.push(l);
        }
        i += 1;
    }
    assert(labels@.take(labels.len() as int) =~= labels@);
    if out.len() == 0 {
        out.push(MemoryLabel::Experience);
        proof {
            if labels@.len() > 0 {
                lemma_dedup_nonempty(labels@);
            }
        }
    }
    out
}

proof fn lemma_dedup_nonempty(s: Seq<MemoryLabel>)
    requires
        s.len() > 0,
    ensures
        dedup_labels(s).len() > 0,
    decreases s.len(),
{
    if s.len() > 1 {
        lemma_dedup_nonempty(s.drop_last());
    }
}

/// An optional identifier, trimmed; none when blank.
pub open spec fn normalized_id(v: Option<String>) -> Option<Seq<char>> {
    match v {
        Some(s) => if trim(s@).len() == 0 {
            None
        } else {
            Some(trim(s@))
        },
        None => None,
    }
}

pub fn normalized_optional_id(value: Option<String>) -> (r: Option<String>)
    ensures
        match normalized_id(value) {
            Some(v) => r matches Some(s) && s@ == v,
            None => r is None,
        },
{
    match value {
        Some(v) => {
            let t = trim_str(v.as_str());
            if chars_of(t.as_str()).len() == 0 {
                None
            } else {
                Some(t)
            }
        },
        None => None,
    }
}

/// A required identifier, trimmed; the error naming the field when blank.
pub fn required_memory_id(value: String, field: &str) -> (r: Result<String, String>)
    ensures
        trim(value@).len() > 0 ==> (r matches Ok(v) && v@ == trim(value@)),
        trim(value@).len() == 0 ==> (r matches Err(m) && m@ == field@
            + " is required for scoped memory promotion"@),
{
    let t = trim_str(value.as_str());
    if chars_of(t.as_str()).len() == 0 {
        let mut out: Vec<char> = Vec::new();
        push_str(&mut out, field);
        push_str(&mut out, " is required for scoped memory promotion");
        return Err(string_from_chars(&out));
    }
    Ok(t)
}

/// Where a promoted memory is stored: its scope, session, thread and span.
#[derive(Clone, Debug, PartialEq, Eq)]
pub struct PromotionPlacement {
    pub scope: MemoryScope,
    pub session_id: Option<String>,
    pub thread_id: Option<String>,
    pub source_span: Option<MemorySourceSpan>,
}

pub open spec fn opt_seq(o: Option<String>) -> Option<Seq<char>> {
    match o {
        Some(s) => Some(s@),
        None => None,
    }
}

/// The placement of a promoted memory: a workspace memory keeps its
/// (normalized) session and thread; a thread memory needs a thread; a
/// session memory needs a session, which is also its thread.
pub fn promotion_placement(target: MemoryPromotionTarget) -> (r: Result<PromotionPlacement, String>)
    ensures
        match target {
            MemoryPromotionTarget::Workspace { session_id, thread_id } => r matches Ok(p) && p.scope
                == MemoryScope::Workspace && opt_seq(p.session_id) == normalized_id(session_id)
                && opt_seq(p.thread_id) == normalized_id(thread_id) && p.source_span is None,
            MemoryPromotionTarget::Thread { session_id, thread_id, source_span } => if trim(
                thread_id@,
            ).len() == 0 {
                r matches Err(m) && m@ == "thread_id is required for scoped memory promotion"@
            } else {
                r matches Ok(p) && p.scope == MemoryScope::Thread && opt_seq(p.session_id)
                    == normalized_id(session_id) && opt_seq(p.thread_id) == Some(trim(thread_id@))
                    && p.source_span == source_span
            },
            MemoryPromotionTarget::Session { session_id, source_span } => if trim(session_id@).len()
                == 0 {
                r matches Err(m) && m@ == "session_id is required for scoped memory promotion"@
            } else {
                r matches Ok(p) && p.scope == MemoryScope::Session && opt_seq(p.session_id) == Some(
                    trim(session_id@),
                ) && opt_seq(p.thread_id) == Some(trim(session_id@)) && p.source_span == source_span
            },
        },
{
    match target {
        MemoryPromotionTarget::Workspace { session_id, thread_id } => Ok(
            PromotionPlacement {
                scope: MemoryScope::Workspace,
                session_id: normalized_optional_id(session_id),
                thread_id: normalized_optional_id(thread_id),
                source_span: None,
            },
        ),
        MemoryPromotionTarget::Thread { session_id, thread_id, source_span } => {
            let t = match required_memory_id(thread_id, "thread_id") {
                Ok(t) => t,
                Err(e) => {
                    proof {
                        reveal_strlit("thread_id");
                        reveal_strlit(" is required for scoped memory promotion");
                        reveal_strlit("thread_id is required for scoped memory promotion");
                        assert(e@ =~= "thread_id is required for scoped memory promotion"@);
                    }
                    return Err(e);
                },
            };
            Ok(
                PromotionPlacement {
                    scope: MemoryScope::Thread,
                    session_id: normalized_optional_id(session_id),
                    thread_id: Some(t),
                    source_span,
                },
            )
        },
        MemoryPromotionTarget::Session { session_id, source_span } => {
            let s = match required_memory_id(session_id, "session_id") {
                Ok(s) => s,
                Err(e) => {
                    proof {
                        reveal_strlit("session_id");
                        reveal_strlit(" is required for scoped memory promotion");
                        reveal_strlit("session_id is required for scoped memory promotion");
                        assert(e@ =~= "session_id is required for scoped memory promotion"@);
                    }
                    return Err(e);
                },
            };
            Ok(
                PromotionPlacement {
                    scope: MemoryScope::Session,
                    session_id: Some(s.clone()),
                    thread_id: Some(s),
                    source_span,
                },
            )
        },
    }
}

/// The key a record is indexed under: a thread memory by its thread (else
/// session), a session memory by its session (else thread), others by their
/// scope's key.
pub fn index_scope_key(scope: MemoryScope, session_id: &Option<String>, thread_id: &Option<String>) -> (r:
    String)
    ensures
        r@ == match scope {
            MemoryScope::Thread => match (thread_id, session_id) {
                (Some(t), _) => t@,
                (None, Some(s)) => s@,
                (None, None) => scope_name(scope),
            },
            MemoryScope::Session => match (session_id, thread_id) {
                (Some(s), _) => s@,
                (None, Some(t)) => t@,
                (None, None) => scope_name(scope),
            },
            _ => scope_name(scope),
        },
{
    match scope {
        MemoryScope::Thread => match (thread_id, session_id) {
            (Some(t), _) => t.clone(),
            (None, Some(s)) => s.clone(),
            (None, None) => memory_scope_key(scope).to_owned(),
        },
        MemoryScope::Session => match (session_id, thread_id) {
            (Some(s), _) => s.clone(),
            (None, Some(t)) => t.clone(),
            (None, None) => memory_scope_key(scope).to_owned(),
        },
        _ => memory_scope_key(scope).to_owned(),
    }
}

/// The id of a record migrated from a legacy vector-store entry.
pub fn legacy_record_id(session_id: &str, turn_index: u32) -> (r: String)
    ensures
        r@ == "legacy-"@ + session_id@ + "-"@ + decimal(turn_index as nat),
{
    let mut out: Vec<char> = Vec::new();
    push_str(&mut out, "legacy-");
    push_str(&mut out, session_id);
    push_str(&mut out, "-");
    push_decimal(&mut out, turn_index as u64);
    string_from_chars(&out)
}

// ---------------------------------------------------------------------------
// Titles and texts
// ---------------------------------------------------------------------------

/// The first `max` characters, with "..." when more remain.
pub fn truncate_chars(value: &str, max_chars: usize) -> (r: String)
    ensures
        r@ == truncate_with_ellipsis(value@, max_chars as nat),
{
    string_from_chars(&truncate_with_ellipsis_exec(&chars_of(value), max_chars))
}

pub open spec fn is_sentence_end(c: char) -> bool {
    c == '.' || c == '!' || c == '?'
}

/// Index of the first sentence end in `s` at or after `i` (or its length).
pub open spec fn sentence_end(s: Seq<char>, i: int) -> int
    decreases s.len() - i,
{
    if i < 0 || i >= s.len() {
        s.len() as int
    } else if is_sentence_end(s[i]) {
        i
    } else {
        sentence_end(s, i + 1)
    }
}

/// The first line of `ls` from `i` that is not blank.
pub open spec fn first_nonblank(ls: Seq<Seq<char>>, i: int) -> Option<Seq<char>>
    decreases ls.len() - i,
{
    if i < 0 || i >= ls.len() {
        None
    } else if !is_blank(ls[i]) {
        Some(ls[i])
    } else {
        first_nonblank(ls, i + 1)
    }
}

/// A title for content without one: its first non-blank line (or
/// "Memory"), up to the first sentence end, trimmed, at most 80
/// characters.
pub open spec fn title_of(content: Seq<char>) -> Seq<char> {
    let line = match first_nonblank(lines(content), 0) {
        Some(l) => l,
        None => "Memory"@,
    };
    truncate_with_ellipsis(trim(line.take(sentence_end(line, 0))), 80)
}

proof fn lemma_sentence_end_bounds(s: Seq<char>, i: int)
    requires
        0 <= i <= s.len(),
    ensures
        i <= sentence_end(s, i) <= s.len(),
    decreases s.len() - i,
{
    if i < s.len() && !is_sentence_end(s[i]) {
        lemma_sentence_end_bounds(s, i + 1);
    }
}

pub fn title_from_content(content: &str) -> (r: String)
    ensures
        r@ == title_of(content@),
{
    let ls = lines_exec(&chars_of(content));
    let mut line: Vec<char> = chars_of("Memory");
    let mut i: usize = 0;
    let mut found = false;
    while i < ls.len()
        invariant
            i <= ls.len(),
            views(ls@) == lines(content@),
            !found ==> first_nonblank(views(ls@), 0) == first_nonblank(views(ls@), i as int),
            !found ==> line@ == "Memory"@,
            found ==> first_nonblank(views(ls@), 0) == Some(line@),
        decreases ls.len() - i,
    {
        if !found {
            assert(views(ls@)[i as int] == ls@[i as int]@);
            if !crate::text::is_blank_chars(&ls[i]) {
                line = crate::text::slice_chars(&ls[i], 0, ls[i].len());
                assert(line@ =~= ls@[i as int]@);
                found = true;
            }
        }
        i += 1;
    }
    let mut end: usize = 0;
    while end < line.len() && !(line[end] == '.' || line[end] == '!' || line[end] == '?')
        invariant
            end <= line.len(),
            sentence_end(line@, 0) == sentence_end(line@, end as int),
        decreases line.len() - end,
    {
        end += 1;
    }
    let head = crate::text::slice_chars(&line, 0, end);
    assert(head@ =~= line@.take(end as int));
    let t = trim_chars(&head);
    string_from_chars(&truncate_with_ellipsis_exec(&t, 80))
}

/// The text of a memory notice.
pub fn memory_notice(action: &str) -> (r: String)
    ensures
        r@ == "Memory \u{b7} "@ + action@,
{
    let mut out: Vec<char> = Vec::new();
    push_str(&mut out, "Memory \u{b7} ");
    push_str(&mut out, action);
    string_from_chars(&out)
}

/// A label in the singular for one item, else with an `s`.
pub fn count_label(label: &str, count: usize) -> (r: String)
    ensures
        count == 1 ==> r@ == label@,
        count != 1 ==> r@ == label@ + "s"@,
{
    if count == 1 {
        label.to_owned()
    } else {
        let mut out: Vec<char> = Vec::new();
        push_str(&mut out, label);
        out.push('s');
        proof {
            reveal_strlit("s");
        }
        assert(out@ =~= label@ + "s"@);
        string_from_chars(&out)
    }
}

/// The content a patch leaves: new non-blank content replaces it; blank
/// new content keeps it; with no new content, a new title is put on top.
pub fn apply_patch_to_content(content: &str, patch_content: Option<&str>, patch_title: Option<&str>) -> (r:
    String)
    ensures
        match patch_content {
            Some(c) => if is_blank(c@) {
                r@ == content@
            } else {
                r@ == c@
            },
            None => match patch_title {
                Some(t) => r@ == t@ + "\n\n"@ + content@,
                None => r@ == content@,
            },
        },
{
    match patch_content {
        Some(c) => {
            if is_blank_str(c) {
                content.to_owned()
            } else {
                c.to_owned()
            }
        },
        None => match patch_title {
            Some(t) => {
                let mut out: Vec<char> = Vec::new();
                push_str(&mut out, t);
                push_str(&mut out, "\n\n");
                push_str(&mut out, content);
                string_from_chars(&out)
            },
            None => content.to_owned(),
        },
    }
}

// ---------------------------------------------------------------------------
// Label counts
// ---------------------------------------------------------------------------

/// How many times `label` occurs in `labels`.
pub open spec fn occurrences(labels: Seq<MemoryLabel>, label: MemoryLabel) -> nat
    decreases labels.len(),
{
    if labels.len() == 0 {
        0
    } else {
        occurrences(labels.drop_last(), label) + if labels.last() == label {
            1nat
        } else {
            0nat
        }
    }
}

/// How many times `label` occurs among the records in `scope` (all
/// records when no scope is given).
pub open spec fn label_count(records: Seq<(Vec<MemoryLabel>, MemoryScope)>, scope: Option<MemoryScope>, label: MemoryLabel) -> nat
    decreases records.len(),
{
    if records.len() == 0 {
        0
    } else {
        label_count(records.drop_last(), scope, label) + if scope matches Some(s) && records.last().1
            != s {
            0
        } else {
            occurrences(records.last().0@, label)
        }
    }
}

pub open spec fn label_rank(l: MemoryLabel) -> int {
    match l {
        MemoryLabel::Decision => 0,
        MemoryLabel::Experience => 1,
        MemoryLabel::Fact => 2,
        MemoryLabel::Insight => 3,
        MemoryLabel::Procedure => 4,
    }
}

/// Counts come first by count, most first, then by label name.
pub open spec fn count_before(a: MemoryLabelCount, b: MemoryLabelCount) -> bool {
    a.count > b.count || (a.count == b.count && label_rank(a.label) < label_rank(b.label))
}

pub open spec fn all_labels() -> Seq<MemoryLabel> {
    seq![
        MemoryLabel::Insight,
        MemoryLabel::Decision,
        MemoryLabel::Fact,
        MemoryLabel::Procedure,
        MemoryLabel::Experience,
    ]
}

/// Whether `l` is among the first `i` labels.
pub open spec fn seen_before(l: MemoryLabel, i: int) -> bool {
    exists|q: int| 0 <= q < i && #[trigger] all_labels()[q] == l
}

pub open spec fn counts_sorted(r: Seq<MemoryLabelCount>) -> bool {
    forall|i: int, j: int| 0 <= i < j < r.len() ==> count_before(r[i], r[j])
}

fn count_in_labels(labels: &Vec<MemoryLabel>, label: MemoryLabel) -> (n: usize)
    requires
        occurrences(labels@, label) <= usize::MAX,
    ensures
        n == occurrences(labels@, label),
{
    let mut n: usize = 0;
    let mut k: usize = 0;
    while k < labels.len()
        invariant
            k <= labels.len(),
            n == occurrences(labels@.take(k as int), label),
            occurrences(labels@, label) <= usize::MAX,
        decreases labels.len() - k,
    {
        proof {
            assert(labels@.take(k + 1).drop_last() =~= labels@.take(k as int));
            lemma_occurrences_prefix(labels@, label, k + 1);
        }
        if labels[k] == label {
            n = n + 1;
        }
        k += 1;
    }
    assert(labels@.take(labels.len() as int) =~= labels@);
    n
}

fn count_of(records: &Vec<(Vec<MemoryLabel>, MemoryScope)>, scope: Option<MemoryScope>, label: MemoryLabel) -> (n: usize)
    requires
        label_count(records@, scope, label) <= usize::MAX,
    ensures
        n == label_count(records@, scope, label),
{
    let mut n: usize = 0;
    let mut i: usize = 0;
    while i < records.len()
        invariant
            i <= records.len(),
            label_count(records@, scope, label) <= usize::MAX,
            n == label_count(records@.take(i as int), scope, label),
        decreases records.len() - i,
    {
        proof {
            let t = records@.take(i + 1);
            assert(t.drop_last() =~= records@.take(i as int));
            assert(t.last() == records@[i as int]);
            lemma_label_count_prefix(records@, scope, label, i + 1);
            assert(label_count(t, scope, label) == label_count(records@.take(i as int), scope, label) + if scope matches Some(s) && records@[i as int].1 != s {
                0
            } else {
                occurrences(records@[i as int].0@, label)
            });
        }
        let counts = match scope {
            Some(s) => records[i].1 == s,
            None => true,
        };
        if counts {
            let c = count_in_labels(&records[i].0, label);
            n = n + c;
        }
        i += 1;
    }
    assert(records@.take(records.len() as int) =~= records@);
    n
}

proof fn lemma_occurrences_prefix(s: Seq<MemoryLabel>, label: MemoryLabel, k: int)
    requires
        0 <= k <= s.len(),
    ensures
        occurrences(s.take(k), label) <= occurrences(s, label),
    decreases s.len() - k,
{
    if k < s.len() {
        lemma_occurrences_prefix(s, label, k + 1);
        assert(s.take(k + 1).drop_last() =~= s.take(k));
    } else {
        assert(s.take(k) =~= s);
    }
}

proof fn lemma_label_count_prefix(records: Seq<(Vec<MemoryLabel>, MemoryScope)>, scope: Option<MemoryScope>, label: MemoryLabel, i: int)
    requires
        0 <= i <= records.len(),
    ensures
        label_count(records.take(i), scope, label) <= label_count(records, scope, label),
    decreases records.len() - i,
{
    if i < records.len() {
        lemma_label_count_prefix(records, scope, label, i + 1);
        assert(records.take(i + 1).drop_last() =~= records.take(i));
    } else {
        assert(records.take(i) =~= records);
    }
}

fn label_rank_exec(l: MemoryLabel) -> (r: u8)
    ensures
        r as int == label_rank(l),
{
    match l {
        MemoryLabel::Decision => 0,
        MemoryLabel::Experience => 1,
        MemoryLabel::Fact => 2,
        MemoryLabel::Insight => 3,
        MemoryLabel::Procedure => 4,
    }
}

/// How often each label occurs among the records in `scope` (each record
/// given by its labels and scope; all records without a scope): every
/// label that occurs, with its count, most frequent first, ties by label
/// name.
pub fn list_label_counts(records: &Vec<(Vec<MemoryLabel>, MemoryScope)>, scope: Option<MemoryScope>) -> (r:
    Vec<MemoryLabelCount>)
    requires
        forall|l: MemoryLabel| #[trigger] label_count(records@, scope, l) <= usize::MAX,
    ensures
        counts_sorted(r@),
        forall|i: int| 0 <= i < r@.len() ==> (#[trigger] r@[i]).count == label_count(records@, scope, r@[i].label)
            && r@[i].count > 0,
        forall|l: MemoryLabel| label_count(records@, scope, l) > 0 ==> exists|i: int| 0 <= i < r@.len() && (#[trigger] r@[i]).label == l,
{
    let labels = [
        MemoryLabel::Insight,
        MemoryLabel::Decision,
        MemoryLabel::Fact,
        MemoryLabel::Procedure,
        MemoryLabel::Experience,
    ];
    let mut out: Vec<MemoryLabelCount> = Vec::new();
    let mut i: usize = 0;
    while i < 5
        invariant
            i <= 5,
            labels@ == all_labels(),
            forall|l: MemoryLabel| #[trigger] label_count(records@, scope, l) <= usize::MAX,
            counts_sorted(out@),
            forall|k: int| 0 <= k < out@.len() ==> (#[trigger] out@[k]).count == label_count(records@, scope, out@[k].label)
                && out@[k].count > 0,
            forall|k: int| 0 <= k < out@.len() ==> seen_before((#[trigger] out@[k]).label, i as int),
            forall|q: int| 0 <= q < i && label_count(records@, scope, all_labels()[q]) > 0 ==> exists|k: int|
                0 <= k < out@.len() && (#[trigger] out@[k]).label == all_labels()[q],
        decreases 5 - i,
    {
        let l = labels[i];
        let n = count_of(records, scope, l);
        if n > 0 {
            let item = MemoryLabelCount { label: l, count: n };
            let mut p: usize = 0;
            while p < out.len() && !(n > out[p].count || (n == out[p].count && label_rank_exec(l) < label_rank_exec(out[p].label)))
                invariant
                    p <= out.len(),
                    item.label == l,
                    item.count == n,
                    forall|k: int| 0 <= k < p ==> !count_before(item, #[trigger] out@[k]),
                decreases out.len() - p,
            {
                p += 1;
            }
            let ghost before = out@;
            proof {
                // the new label is not yet in the list: each listed label is an earlier one
                assert forall|k: int| 0 <= k < before.len() implies (#[trigger] before[k]).label != l by {
                    assert(seen_before(before[k].label, i as int));
                    let q = choose|q: int| 0 <= q < i && #[trigger] all_labels()[q] == before[k].label;
                    assert(all_labels()[i as int] == l);
                }
            }
            out.insert(p, item);
            proof {
                assert forall|a: int, b: int| 0 <= a < b < out@.len() implies count_before(out@[a], out@[b]) by {
                    if b < p {
                        assert(out@[a] == before[a] && out@[b] == before[b]);
                    } else if a < p && b == p {
                        assert(out@[a] == before[a]);
                        assert(!count_before(item, before[a]));
                        assert(before[a].label != l);
                    } else if a < p {
                        assert(out@[a] == before[a] && out@[b] == before[b - 1]);
                        assert(!count_before(item, before[a]));
                        assert(before[a].label != l);
                    } else if a == p {
                        assert(out@[b] == before[b - 1]);
                        if p < before.len() {
                            assert(count_before(item, before[p as int]));
                            if b - 1 > p {
                                assert(count_before(before[p as int], before[b - 1]));
                            }
                        }
                    } else {
                        assert(out@[a] == before[a - 1] && out@[b] == before[b - 1]);
                    }
                }
                assert forall|k: int| 0 <= k < out@.len() implies seen_before((#[trigger] out@[k]).label, i + 1) by {
                    if k == p {
                        assert(all_labels()[i as int] == l);
                    } else {
                        let kb = if k < p { k } else { k - 1 };
                        assert(out@[k] == before[kb]);
                        assert(seen_before(before[kb].label, i as int));
                        let q = choose|q: int| 0 <= q < i && #[trigger] all_labels()[q] == before[kb].label;
                        assert(all_labels()[q] == out@[k].label);
                    }
                }
                assert forall|q: int| 0 <= q < i + 1 && label_count(records@, scope, all_labels()[q]) > 0 implies exists|k: int|
                    0 <= k < out@.len() && (#[trigger] out@[k]).label == all_labels()[q] by {
                    if q == i {
                        assert(out@[p as int].label == l);
                    } else {
                        let k = choose|k: int| 0 <= k < before.len() && (#[trigger] before[k]).label == all_labels()[q];
                        let kk = if k < p { k } else { k + 1 };
                        assert(out@[kk] == before[k]);
                    }
                }
            }
        } else {
            proof {
                assert forall|k: int| 0 <= k < out@.len() implies seen_before((#[trigger] out@[k]).label, i + 1) by {
                    assert(seen_before(out@[k].label, i as int));
                    let q = choose|q: int| 0 <= q < i && #[trigger] all_labels()[q] == out@[k].label;
                    assert(all_labels()[q] == out@[k].label);
                }
            }
        }
        i += 1;
    }
    proof {
        assert forall|l: MemoryLabel| label_count(records@, scope, l) > 0 implies exists|k: int| 0 <= k < out@.len() && (#[trigger] out@[k]).label == l by {
            let q: int = match l {
                MemoryLabel::Insight => 0,
                MemoryLabel::Decision => 1,
                MemoryLabel::Fact => 2,
                MemoryLabel::Procedure => 3,
                MemoryLabel::Experience => 4,
            };
            assert(all_labels()[q] == l);
        }
    }
    out
}

} // verus!
