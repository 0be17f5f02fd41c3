//! Registry of prompt sources registered through the control plane.
//!
//! The registry is bounded: at most [`MAX_PROMPT_SOURCES`] sources, each at
//! most [`MAX_PROMPT_SOURCE_BYTES`] bytes, together at most
//! [`MAX_PROMPT_CONTENT_BYTES`] bytes. Sources are kept in `source_id` order.
//! Every operation returns the events to publish, each with the provenance
//! of the source it concerns.
use vstd::prelude::*;

use crate::prompt::{PromptSource, PromptSourceKind};
use crate::runtime_control::{
    PromptSourceControlRequest, PromptSourceEvent, PromptSourceLifetime,
    PromptSourceRegistration, RuntimeControllerKind, RuntimeProvenance, SourceLayer, SourceScope,
};
use crate::text::{
    byte_len, chars_of, is_blank, is_blank_str, lemma_lex_lt_trans, lemma_lex_order_props,
    lex_lt, lex_order, lex_order_str, push_str, string_from_chars, utf8_len,
};

verus! {

pub const MAX_PROMPT_SOURCES: usize = 32;

pub const MAX_PROMPT_SOURCE_BYTES: usize = 65536;

pub const MAX_PROMPT_CONTENT_BYTES: usize = 262144;

/// Why a prompt-source request was refused.
#[derive(Debug, Clone, Copy, PartialEq, Eq, Structural)]
pub enum PromptSourceError {
    Invalid,
    Unsupported,
    Capacity,
}

impl PromptSourceError {
    /// The human-readable description of the error.
    pub fn message(&self) -> (r: &'static str)
        ensures
            r@ == match *self {
                PromptSourceError::Invalid => "prompt source registration is invalid"@,
                PromptSourceError::Unsupported =>
                    "prompt source scope, layer, or lifetime is unsupported"@,
                PromptSourceError::Capacity => "prompt source capacity exceeded"@,
            },
    {
        match self {
            PromptSourceError::Invalid => "prompt source registration is invalid",
            PromptSourceError::Unsupported =>
                "prompt source scope, layer, or lifetime is unsupported",
            PromptSourceError::Capacity => "prompt source capacity exceeded",
        }
    }
}

// ---------------------------------------------------------------------------
// Identity labels
// ---------------------------------------------------------------------------

/// ASCII alphanumerics and `._:/-`.
pub open spec fn identity_byte(b: u8) -> bool {
    (48 <= b && b <= 57) || (65 <= b && b <= 90) || (97 <= b && b <= 122) || b == 46 || b == 95
        || b == 58 || b == 47 || b == 45
}

/// A non-empty label of at most 128 bytes, each an identity byte.
pub open spec fn valid_identity_bytes(bytes: Seq<u8>) -> bool {
    0 < bytes.len() <= 128 && forall|i: int| 0 <= i < bytes.len() ==> identity_byte(#[trigger] bytes[i])
}

pub open spec fn valid_identity_spec(s: Seq<char>) -> bool {
    valid_identity_bytes(vstd::utf8::encode_utf8(s))
}

/// Whether a label may name a source, session or adapter.
pub fn valid_identity(value: &str) -> (b: bool)
    ensures
        b == valid_identity_spec(value@),
{
    let bytes = value.as_bytes();
    if bytes.len() == 0 || bytes.len() > 128 {
        return false;
    }
    let mut i: usize = 0;
    while i < bytes.len()
        invariant
            i <= bytes.len(),
            bytes@ == vstd::utf8::encode_utf8(value@),
            forall|k: int| 0 <= k < i ==> identity_byte(#[trigger] bytes@[k]),
        decreases bytes.len() - i,
    {
        let b = bytes[i];
        if !((48 <= b && b <= 57) || (65 <= b && b <= 90) || (97 <= b && b <= 122) || b == 46
            || b == 95 || b == 58 || b == 47 || b == 45) {
            return false;
        }
        i += 1;
    }
    true
}

pub open spec fn opt_label_valid(o: Option<String>) -> bool {
    match o {
        Some(s) => valid_identity_spec(s@),
        None => true,
    }
}

/// The adapter, session and source labels of a provenance are valid.
pub open spec fn provenance_valid(p: RuntimeProvenance) -> bool {
    opt_label_valid(p.adapter) && opt_label_valid(p.session_id) && opt_label_valid(p.source_id)
}

fn opt_label_valid_exec(o: &Option<String>) -> (b: bool)
    ensures
        b == opt_label_valid(*o),
{
    match o {
        Some(s) => valid_identity(s.as_str()),
        None => true,
    }
}

pub fn provenance_valid_exec(p: &RuntimeProvenance) -> (b: bool)
    ensures
        b == provenance_valid(*p),
{
    opt_label_valid_exec(&p.adapter) && opt_label_valid_exec(&p.session_id)
        && opt_label_valid_exec(&p.source_id)
}

// ---------------------------------------------------------------------------
// Entries and snapshots
// ---------------------------------------------------------------------------

/// A registered source with its provenance and remaining query count.
#[derive(Clone, Debug, PartialEq, Eq)]
pub struct PromptSourceEntry {
    pub registration: PromptSourceRegistration,
    pub provenance: RuntimeProvenance,
    /// Remaining queries for `Turns` lifetimes.
    pub remaining_turns: Option<u32>,
}

/// Stable snapshot of a registered prompt source.
#[derive(Clone, Debug, PartialEq, Eq)]
pub struct ProtocolPromptSourceSnapshot {
    pub registration: PromptSourceRegistration,
    pub provenance: RuntimeProvenance,
    pub remaining_turns: Option<u32>,
}

pub open spec fn controller_name(c: RuntimeControllerKind) -> Seq<char> {
    match c {
        RuntimeControllerKind::Runtime => "runtime"@,
        RuntimeControllerKind::AppServer => "appserver"@,
        RuntimeControllerKind::Acp => "acp"@,
    }
}

fn controller_name_exec(c: RuntimeControllerKind) -> (r: &'static str)
    ensures
        r@ == controller_name(c),
{
    match c {
        RuntimeControllerKind::Runtime => "runtime",
        RuntimeControllerKind::AppServer => "appserver",
        RuntimeControllerKind::Acp => "acp",
    }
}

/// `protocol:<controller>[:<adapter>]:<source_id>`; a blank adapter is left out.
pub open spec fn display_path_spec(
    registration: PromptSourceRegistration,
    provenance: RuntimeProvenance,
) -> Seq<char> {
    let c = controller_name(provenance.controller);
    match provenance.adapter {
        Some(a) => if !is_blank(a@) {
            "protocol:"@ + c + ":"@ + a@ + ":"@ + registration.source_id@
        } else {
            "protocol:"@ + c + ":"@ + registration.source_id@
        },
        None => "protocol:"@ + c + ":"@ + registration.source_id@,
    }
}

/// Whether `p` is the prompt source built from a registration and provenance.
pub open spec fn is_prompt_source_of(
    p: PromptSource,
    registration: PromptSourceRegistration,
    provenance: RuntimeProvenance,
) -> bool {
    &&& p.kind == PromptSourceKind::ProtocolPromptSource
    &&& p.label@ == "Protocol Prompt Source "@ + registration.source_id@
    &&& p.display_path@ == display_path_spec(registration, provenance)
    &&& p.content == registration.content
}

impl ProtocolPromptSourceSnapshot {
    /// Snapshot of a registry entry.
    pub fn from_entry(entry: &PromptSourceEntry) -> (r: Self)
        ensures
            r.registration == entry.registration,
            r.provenance == entry.provenance,
            r.remaining_turns == entry.remaining_turns,
    {
        ProtocolPromptSourceSnapshot {
            registration: entry.registration.duplicate(),
            provenance: entry.provenance.duplicate(),
            remaining_turns: entry.remaining_turns,
        }
    }

    /// The prompt source this snapshot contributes.
    pub fn to_prompt_source(&self) -> (r: PromptSource)
        ensures
            is_prompt_source_of(r, self.registration, self.provenance),
    {
        let mut label: Vec<char> = Vec::new();
        push_str(&mut label, "Protocol Prompt Source ");
        push_str(&mut label, self.registration.source_id.as_str());
        PromptSource {
            kind: PromptSourceKind::ProtocolPromptSource,
            label: string_from_chars(&label),
            display_path: self.display_path(),
            content: self.registration.content.clone(),
        }
    }

    pub fn display_path(&self) -> (r: String)
        ensures
            r@ == display_path_spec(self.registration, self.provenance),
    {
        let mut out: Vec<char> = Vec::new();
        push_str(&mut out, "protocol:");
        push_str(&mut out, controller_name_exec(self.provenance.controller));
        push_str(&mut out, ":");
        match &self.provenance.adapter {
            Some(a) => {
                if !is_blank_str(a.as_str()) {
                    push_str(&mut out, a.as_str());
                    push_str(&mut out, ":");
                }
            },
            None => {},
        }
        push_str(&mut out, self.registration.source_id.as_str());
        string_from_chars(&out)
    }
}

/// An event to publish together with the provenance it carries.
#[derive(Clone, Debug, PartialEq, Eq)]
pub struct PromptSourcePublication {
    pub event: PromptSourceEvent,
    pub provenance: RuntimeProvenance,
}

// ---------------------------------------------------------------------------
// Registry model
// ---------------------------------------------------------------------------

pub open spec fn entry_key(e: PromptSourceEntry) -> Seq<char> {
    e.registration.source_id@
}

pub open spec fn entry_bytes(e: PromptSourceEntry) -> nat {
    utf8_len(e.registration.content@)
}

pub open spec fn sum_bytes(s: Seq<PromptSourceEntry>) -> nat
    decreases s.len(),
{
    if s.len() == 0 {
        0
    } else {
        sum_bytes(s.drop_last()) + entry_bytes(s.last())
    }
}

/// Strictly increasing by `source_id`.
pub open spec fn sorted_entries(s: Seq<PromptSourceEntry>) -> bool {
    forall|i: int, j: int| 0 <= i < j < s.len() ==> lex_lt(entry_key(s[i]), entry_key(s[j]))
}

/// The registry's invariant: ordered, within every bound, and no source with
/// a spent query count.
pub open spec fn registry_wf(s: Seq<PromptSourceEntry>) -> bool {
    &&& sorted_entries(s)
    &&& s.len() <= MAX_PROMPT_SOURCES
    &&& sum_bytes(s) <= MAX_PROMPT_CONTENT_BYTES
    &&& forall|i: int|
        0 <= i < s.len() ==> (#[trigger] s[i].remaining_turns matches Some(n) ==> n >= 1)
    &&& forall|i: int|
        0 <= i < s.len() ==> utf8_len((#[trigger] s[i]).registration.content@) <= MAX_PROMPT_SOURCE_BYTES
}

/// Index of the entry named `id`, scanning from `i`; -1 when absent.
pub open spec fn index_of_from(s: Seq<PromptSourceEntry>, id: Seq<char>, i: int) -> int
    decreases s.len() - i,
{
    if i < 0 || i >= s.len() {
        -1
    } else if entry_key(s[i]) == id {
        i
    } else {
        index_of_from(s, id, i + 1)
    }
}

pub open spec fn index_of(s: Seq<PromptSourceEntry>, id: Seq<char>) -> int {
    index_of_from(s, id, 0)
}

/// First index, from `i`, whose key orders after `id`; `s.len()` when none.
pub open spec fn insert_pos_from(s: Seq<PromptSourceEntry>, id: Seq<char>, i: int) -> int
    decreases s.len() - i,
{
    if i < 0 || i >= s.len() {
        s.len() as int
    } else if lex_lt(id, entry_key(s[i])) {
        i
    } else {
        insert_pos_from(s, id, i + 1)
    }
}

/// Bytes of every source except the one named `id`.
pub open spec fn retained_bytes(s: Seq<PromptSourceEntry>, id: Seq<char>) -> int {
    let k = index_of(s, id);
    if k >= 0 {
        sum_bytes(s) - entry_bytes(s[k])
    } else {
        sum_bytes(s) as int
    }
}

/// The error, if any, with which a registration is refused, checked in order:
/// malformed request, unsupported scope/layer/lifetime, per-source size,
/// then source count and aggregate size.
pub open spec fn registration_error(
    r: PromptSourceRegistration,
    s: Seq<PromptSourceEntry>,
) -> Option<PromptSourceError> {
    if !valid_identity_spec(r.source_id@) || is_blank(r.content@) || r.lifetime
        == PromptSourceLifetime::Turns(0) {
        Some(PromptSourceError::Invalid)
    } else if !(r.scope == SourceScope::Session || r.scope == SourceScope::Protocol) || r.layer
        != SourceLayer::User || r.lifetime == PromptSourceLifetime::Persistent {
        Some(PromptSourceError::Unsupported)
    } else if utf8_len(r.content@) > MAX_PROMPT_SOURCE_BYTES {
        Some(PromptSourceError::Capacity)
    } else if (index_of(s, r.source_id@) < 0 && s.len() >= MAX_PROMPT_SOURCES) || retained_bytes(
        s,
        r.source_id@,
    ) + utf8_len(r.content@) > MAX_PROMPT_CONTENT_BYTES {
        Some(PromptSourceError::Capacity)
    } else {
        None
    }
}

pub open spec fn remaining_for(l: PromptSourceLifetime) -> Option<u32> {
    match l {
        PromptSourceLifetime::Turns(n) => Some(n),
        _ => None,
    }
}

/// `s` with `e` replacing the entry of the same name, or inserted in order.
pub open spec fn upsert(s: Seq<PromptSourceEntry>, e: PromptSourceEntry) -> Seq<PromptSourceEntry> {
    let k = index_of(s, entry_key(e));
    if k >= 0 {
        s.update(k, e)
    } else {
        s.insert(insert_pos_from(s, entry_key(e), 0), e)
    }
}

pub open spec fn publication(event: PromptSourceEvent, provenance: RuntimeProvenance) -> PromptSourcePublication {
    PromptSourcePublication { event, provenance }
}

/// One `Registered` event per source, in order, with the source's provenance.
pub open spec fn registered_publications(s: Seq<PromptSourceEntry>) -> Seq<PromptSourcePublication> {
    s.map_values(
        |e: PromptSourceEntry|
            publication(
                PromptSourceEvent::Registered { source_id: e.registration.source_id },
                e.provenance,
            ),
    )
}

/// The outcome of a control request: the registry after it and the events to
/// publish, or the error with which it is refused (the registry unchanged).
pub open spec fn control_outcome(
    request: PromptSourceControlRequest,
    provenance: RuntimeProvenance,
    s: Seq<PromptSourceEntry>,
) -> Result<(Seq<PromptSourceEntry>, Seq<PromptSourcePublication>), PromptSourceError> {
    if !provenance_valid(provenance) {
        Err(PromptSourceError::Invalid)
    } else {
        match request {
            PromptSourceControlRequest::Register(r) => match registration_error(r, s) {
                Some(err) => Err(err),
                None => Ok(
                    (
                        upsert(
                            s,
                            PromptSourceEntry {
                                registration: r,
                                provenance,
                                remaining_turns: remaining_for(r.lifetime),
                            },
                        ),
                        seq![
                            publication(
                                PromptSourceEvent::Registered { source_id: r.source_id },
                                provenance,
                            ),
                        ],
                    ),
                ),
            },
            PromptSourceControlRequest::Unregister { source_id } => if !valid_identity_spec(
                source_id@,
            ) {
                Err(PromptSourceError::Invalid)
            } else {
                let k = index_of(s, source_id@);
                if k >= 0 {
                    Ok(
                        (
                            s.remove(k),
                            seq![
                                publication(
                                    PromptSourceEvent::Unregistered { source_id },
                                    s[k].provenance,
                                ),
                            ],
                        ),
                    )
                } else {
                    Ok((s, Seq::empty()))
                }
            },
            PromptSourceControlRequest::QuerySources => Ok((s, registered_publications(s))),
        }
    }
}

/// A source whose query budget runs out with this query.
pub open spec fn expires(e: PromptSourceEntry) -> bool {
    e.remaining_turns matches Some(n) && n <= 1
}

pub open spec fn decremented(e: PromptSourceEntry) -> PromptSourceEntry {
    PromptSourceEntry {
        remaining_turns: match e.remaining_turns {
            Some(n) => Some((n - 1) as u32),
            None => None,
        },
        ..e
    }
}

/// The registry after a query: spent sources removed, the others' budgets
/// counted down.
pub open spec fn advance(s: Seq<PromptSourceEntry>) -> Seq<PromptSourceEntry>
    decreases s.len(),
{
    if s.len() == 0 {
        Seq::empty()
    } else {
        advance(s.drop_last()) + if expires(s.last()) {
            Seq::<PromptSourceEntry>::empty()
        } else {
            seq![decremented(s.last())]
        }
    }
}

/// The sources that a query removes, in order.
pub open spec fn expiring(s: Seq<PromptSourceEntry>) -> Seq<PromptSourceEntry>
    decreases s.len(),
{
    if s.len() == 0 {
        Seq::empty()
    } else {
        expiring(s.drop_last()) + if expires(s.last()) {
            seq![s.last()]
        } else {
            Seq::<PromptSourceEntry>::empty()
        }
    }
}

pub open spec fn is_injected_publication(p: PromptSourcePublication, e: PromptSourceEntry) -> bool {
    p == publication(
        PromptSourceEvent::Injected { source_id: e.registration.source_id },
        e.provenance,
    )
}

pub open spec fn is_dropped_publication(p: PromptSourcePublication, e: PromptSourceEntry) -> bool {
    &&& p.event matches PromptSourceEvent::Dropped { source_id, reason }
    &&& source_id == e.registration.source_id
    &&& reason@ == "turn limit expired"@
    &&& p.provenance == e.provenance
}

// ---------------------------------------------------------------------------
// Lemmas
// ---------------------------------------------------------------------------

proof fn lemma_sum_insert(s: Seq<PromptSourceEntry>, p: int, e: PromptSourceEntry)
    requires
        0 <= p <= s.len(),
    ensures
        sum_bytes(s.insert(p, e)) == sum_bytes(s) + entry_bytes(e),
    decreases s.len(),
{
    if p == s.len() {
        assert(s.insert(p, e).drop_last() =~= s);
    } else {
        lemma_sum_insert(s.drop_last(), p, e);
        assert(s.insert(p, e).drop_last() =~= s.drop_last().insert(p, e));
    }
}

proof fn lemma_sum_update(s: Seq<PromptSourceEntry>, k: int, e: PromptSourceEntry)
    requires
        0 <= k < s.len(),
    ensures
        sum_bytes(s.update(k, e)) == sum_bytes(s) - entry_bytes(s[k]) + entry_bytes(e),
    decreases s.len(),
{
    if k == s.len() - 1 {
        assert(s.update(k, e).drop_last() =~= s.drop_last());
    } else {
        lemma_sum_update(s.drop_last(), k, e);
        assert(s.update(k, e).drop_last() =~= s.drop_last().update(k, e));
    }
}

proof fn lemma_sum_remove(s: Seq<PromptSourceEntry>, k: int)
    requires
        0 <= k < s.len(),
    ensures
        sum_bytes(s.remove(k)) == sum_bytes(s) - entry_bytes(s[k]),
    decreases s.len(),
{
    if k == s.len() - 1 {
        assert(s.remove(k) =~= s.drop_last());
    } else {
        lemma_sum_remove(s.drop_last(), k);
        assert(s.remove(k).drop_last() =~= s.drop_last().remove(k));
    }
}

proof fn lemma_prefix_sum_le(s: Seq<PromptSourceEntry>, i: int)
    requires
        0 <= i <= s.len(),
    ensures
        sum_bytes(s.take(i)) <= sum_bytes(s),
    decreases s.len() - i,
{
    if i < s.len() {
        lemma_prefix_sum_le(s, i + 1);
        assert(s.take(i + 1).drop_last() =~= s.take(i));
    } else {
        assert(s.take(i) =~= s);
    }
}

proof fn lemma_entry_le_sum(s: Seq<PromptSourceEntry>, k: int)
    requires
        0 <= k < s.len(),
    ensures
        entry_bytes(s[k]) <= sum_bytes(s),
{
    lemma_prefix_sum_le(s, k + 1);
    assert(s.take(k + 1).drop_last() =~= s.take(k));
}

proof fn lemma_index_of_props(s: Seq<PromptSourceEntry>, id: Seq<char>, i: int)
    requires
        0 <= i <= s.len(),
    ensures
        -1 <= index_of_from(s, id, i) < s.len(),
        index_of_from(s, id, i) >= 0 ==> i <= index_of_from(s, id, i) && entry_key(
            s[index_of_from(s, id, i)],
        ) == id,
        index_of_from(s, id, i) < 0 ==> forall|j: int|
            i <= j < s.len() ==> entry_key(#[trigger] s[j]) != id,
    decreases s.len() - i,
{
    if i < s.len() && entry_key(s[i]) != id {
        lemma_index_of_props(s, id, i + 1);
    }
}

proof fn lemma_insert_pos_props(s: Seq<PromptSourceEntry>, id: Seq<char>, i: int)
    requires
        0 <= i <= s.len(),
    ensures
        i <= insert_pos_from(s, id, i) <= s.len(),
        insert_pos_from(s, id, i) < s.len() ==> lex_lt(id, entry_key(s[insert_pos_from(s, id, i)])),
        forall|j: int| i <= j < insert_pos_from(s, id, i) ==> !lex_lt(id, entry_key(#[trigger] s[j])),
    decreases s.len() - i,
{
    if i < s.len() && !lex_lt(id, entry_key(s[i])) {
        lemma_insert_pos_props(s, id, i + 1);
    }
}

/// Upserting keeps the entries ordered.
proof fn lemma_upsert_sorted(s: Seq<PromptSourceEntry>, e: PromptSourceEntry)
    requires
        sorted_entries(s),
    ensures
        sorted_entries(upsert(s, e)),
{
    let id = entry_key(e);
    lemma_index_of_props(s, id, 0);
    let k = index_of(s, id);
    if k >= 0 {
        let t = s.update(k, e);
        assert forall|i: int, j: int| 0 <= i < j < t.len() implies lex_lt(
            entry_key(t[i]),
            entry_key(t[j]),
        ) by {
            assert(entry_key(t[i]) == entry_key(s[i]));
            assert(entry_key(t[j]) == entry_key(s[j]));
        }
    } else {
        lemma_insert_pos_props(s, id, 0);
        let p = insert_pos_from(s, id, 0);
        let t = s.insert(p, e);
        assert forall|j: int| 0 <= j < p implies lex_lt(entry_key(s[j]), id) by {
            lemma_lex_order_props(id, entry_key(s[j]));
        }
        assert forall|j: int| p <= j < s.len() implies lex_lt(id, entry_key(s[j])) by {
            if j > p {
                lemma_lex_lt_trans(id, entry_key(s[p]), entry_key(s[j]));
            }
        }
        assert forall|i: int, j: int| 0 <= i < j < t.len() implies lex_lt(
            entry_key(t[i]),
            entry_key(t[j]),
        ) by {
            if i < p && j < p {
                assert(t[i] == s[i] && t[j] == s[j]);
            } else if i < p && j == p {
                assert(t[i] == s[i]);
            } else if i < p {
                assert(t[i] == s[i] && t[j] == s[j - 1]);
                lemma_lex_lt_trans(entry_key(s[i]), id, entry_key(s[j - 1]));
            } else if i == p {
                assert(t[j] == s[j - 1]);
            } else {
                assert(t[i] == s[i - 1] && t[j] == s[j - 1]);
            }
        }
    }
}

proof fn lemma_remove_sorted(s: Seq<PromptSourceEntry>, k: int)
    requires
        sorted_entries(s),
        0 <= k < s.len(),
    ensures
        sorted_entries(s.remove(k)),
{
    let t = s.remove(k);
    assert forall|i: int, j: int| 0 <= i < j < t.len() implies lex_lt(
        entry_key(t[i]),
        entry_key(t[j]),
    ) by {
        let si = if i < k { i } else { i + 1 };
        let sj = if j < k { j } else { j + 1 };
        assert(t[i] == s[si] && t[j] == s[sj]);
    }
}

proof fn lemma_advance_props(s: Seq<PromptSourceEntry>)
    ensures
        advance(s).len() + expiring(s).len() == s.len(),
        sum_bytes(advance(s)) <= sum_bytes(s),
        forall|i: int|
            0 <= i < advance(s).len() ==> (#[trigger] advance(s)[i].remaining_turns matches Some(
                n,
            ) ==> n >= 1),
        (forall|k: int| 0 <= k < s.len() ==> utf8_len((#[trigger] s[k]).registration.content@) <= MAX_PROMPT_SOURCE_BYTES)
            ==> forall|i: int|
            0 <= i < advance(s).len() ==> utf8_len((#[trigger] advance(s)[i]).registration.content@)
                <= MAX_PROMPT_SOURCE_BYTES,
    decreases s.len(),
{
    if s.len() > 0 {
        lemma_advance_props(s.drop_last());
        let a = advance(s.drop_last());
        if forall|k: int| 0 <= k < s.len() ==> utf8_len((#[trigger] s[k]).registration.content@) <= MAX_PROMPT_SOURCE_BYTES {
            assert forall|k: int| 0 <= k < s.drop_last().len() implies utf8_len((#[trigger] s.drop_last()[k]).registration.content@) <= MAX_PROMPT_SOURCE_BYTES by {
                assert(s.drop_last()[k] == s[k]);
            }
            assert(utf8_len(s[s.len() - 1].registration.content@) <= MAX_PROMPT_SOURCE_BYTES);
        }
        if !expires(s.last()) {
            assert(advance(s).drop_last() =~= a);
        } else {
            assert(advance(s) =~= a);
        }
    }
}

// ---------------------------------------------------------------------------
// Laws
// ---------------------------------------------------------------------------

/// Whether some entry of `s` is named `id`.
pub open spec fn has_source(s: Seq<PromptSourceEntry>, id: Seq<char>) -> bool {
    exists|i: int| 0 <= i < s.len() && entry_key(#[trigger] s[i]) == id
}

proof fn lemma_has_source_index(s: Seq<PromptSourceEntry>, id: Seq<char>)
    ensures
        has_source(s, id) <==> index_of(s, id) >= 0,
{
    lemma_index_of_props(s, id, 0);
    if index_of(s, id) >= 0 {
        assert(entry_key(s[index_of(s, id)]) == id);
    }
}

/// An accepted registration is stored under its name with the registration
/// and provenance it came with; every other source stays registered, and no
/// source appears that was not there before.
pub proof fn law_registration_is_stored(
    s: Seq<PromptSourceEntry>,
    r: PromptSourceRegistration,
    provenance: RuntimeProvenance,
    other: Seq<char>,
)
    requires
        registry_wf(s),
        control_outcome(PromptSourceControlRequest::Register(r), provenance, s) is Ok,
    ensures
        ({
            let t = control_outcome(PromptSourceControlRequest::Register(r), provenance, s)->Ok_0.0;
            let k = index_of(t, r.source_id@);
            &&& 0 <= k < t.len()
            &&& t[k].registration == r
            &&& t[k].provenance == provenance
            &&& t[k].remaining_turns == remaining_for(r.lifetime)
            &&& (other != r.source_id@ ==> (has_source(t, other) <==> has_source(s, other)))
            &&& (has_source(s, r.source_id@) ==> t.len() == s.len())
        }),
{
    let e = PromptSourceEntry {
        registration: r,
        provenance,
        remaining_turns: remaining_for(r.lifetime),
    };
    let t = upsert(s, e);
    lemma_upsert_sorted(s, e);
    lemma_index_of_props(s, r.source_id@, 0);
    lemma_has_source_index(s, r.source_id@);
    let k0 = index_of(s, r.source_id@);
    let p = insert_pos_from(s, r.source_id@, 0);
    if k0 < 0 {
        lemma_insert_pos_props(s, r.source_id@, 0);
    }
    let pos = if k0 >= 0 { k0 } else { p };
    assert(t[pos] == e);
    lemma_index_of_props(t, r.source_id@, 0);
    let k = index_of(t, r.source_id@);
    // keys are unique in an ordered sequence
    if k != pos {
        if k < pos {
            assert(lex_lt(entry_key(t[k]), entry_key(t[pos])));
        } else {
            assert(lex_lt(entry_key(t[pos]), entry_key(t[k])));
        }
        lemma_lex_order_props(r.source_id@, r.source_id@);
    }
    if other != r.source_id@ {
        if has_source(s, other) {
            let i = choose|i: int| 0 <= i < s.len() && entry_key(#[trigger] s[i]) == other;
            let j = if k0 >= 0 || i < p { i } else { i + 1 };
            assert(entry_key(t[j]) == other);
        }
        if has_source(t, other) {
            let j = choose|j: int| 0 <= j < t.len() && entry_key(#[trigger] t[j]) == other;
            let i = if k0 >= 0 || j < p { j } else { j - 1 };
            assert(entry_key(s[i]) == other);
        }
    }
}

proof fn lemma_advance_keeps(s: Seq<PromptSourceEntry>, i: int) -> (j: int)
    requires
        0 <= i < s.len(),
        !expires(s[i]),
    ensures
        0 <= j < advance(s).len(),
        advance(s)[j] == decremented(s[i]),
    decreases s.len(),
{
    let s0 = s.drop_last();
    if i < s.len() - 1 {
        assert(s[i] == s0[i]);
        lemma_advance_keeps(s0, i)
    } else {
        advance(s0).len() as int
    }
}

proof fn lemma_advance_origin(s: Seq<PromptSourceEntry>, j: int) -> (i: int)
    requires
        0 <= j < advance(s).len(),
    ensures
        0 <= i < s.len(),
        !expires(s[i]),
        advance(s)[j] == decremented(s[i]),
    decreases s.len(),
{
    let s0 = s.drop_last();
    if j < advance(s0).len() {
        let i = lemma_advance_origin(s0, j);
        assert(s[i] == s0[i]);
        i
    } else {
        s.len() - 1
    }
}

/// A query removes exactly the sources whose query budget it spends and
/// counts the others down by one; sources without a budget stay as they are.
pub proof fn law_query_counts_down(s: Seq<PromptSourceEntry>, i: int)
    requires
        registry_wf(s),
        0 <= i < s.len(),
    ensures
        expires(s[i]) ==> !has_source(advance(s), entry_key(s[i])),
        !expires(s[i]) ==> exists|j: int|
            0 <= j < advance(s).len() && #[trigger] advance(s)[j] == decremented(s[i]),
        s[i].remaining_turns is None ==> decremented(s[i]) == s[i],
{
    if expires(s[i]) && has_source(advance(s), entry_key(s[i])) {
        let a = advance(s);
        let j = choose|j: int| 0 <= j < a.len() && entry_key(#[trigger] a[j]) == entry_key(s[i]);
        let i2 = lemma_advance_origin(s, j);
        assert(entry_key(s[i2]) == entry_key(s[i]));
        if i2 < i {
            assert(lex_lt(entry_key(s[i2]), entry_key(s[i])));
        } else if i < i2 {
            assert(lex_lt(entry_key(s[i]), entry_key(s[i2])));
        }
        lemma_lex_order_props(entry_key(s[i]), entry_key(s[i]));
    }
    if !expires(s[i]) {
        let j = lemma_advance_keeps(s, i);
        assert(advance(s)[j] == decremented(s[i]));
    }
}

proof fn lemma_expiring_has(s: Seq<PromptSourceEntry>, i: int)
    requires
        0 <= i < s.len(),
        expires(s[i]),
    ensures
        exists|j: int| 0 <= j < expiring(s).len() && #[trigger] expiring(s)[j] == s[i],
    decreases s.len(),
{
    let s0 = s.drop_last();
    if i == s.len() - 1 {
        assert(expiring(s)[expiring(s0).len() as int] == s[i]);
    } else {
        lemma_expiring_has(s0, i);
        let j = choose|j: int| 0 <= j < expiring(s0).len() && #[trigger] expiring(s0)[j] == s0[i];
        assert(expiring(s)[j] == s[i]);
    }
}

/// A source registered for one turn is listed by the next query, which
/// drops it (the dropped events of a query are those of `expiring`), and no
/// later query lists it.
pub proof fn law_one_turn_source_serves_one_query(s: Seq<PromptSourceEntry>, i: int)
    requires
        registry_wf(s),
        0 <= i < s.len(),
        s[i].remaining_turns == Some(1u32),
    ensures
        exists|j: int| 0 <= j < expiring(s).len() && #[trigger] expiring(s)[j] == s[i],
        !has_source(advance(s), entry_key(s[i])),
{
    lemma_expiring_has(s, i);
    law_query_counts_down(s, i);
}

/// Unregistering a source removes it and only it.
pub proof fn law_unregister_removes(
    s: Seq<PromptSourceEntry>,
    source_id: String,
    provenance: RuntimeProvenance,
    other: Seq<char>,
)
    requires
        registry_wf(s),
        control_outcome(PromptSourceControlRequest::Unregister { source_id }, provenance, s) is Ok,
    ensures
        ({
            let t = control_outcome(
                PromptSourceControlRequest::Unregister { source_id },
                provenance,
                s,
            )->Ok_0.0;
            &&& !has_source(t, source_id@)
            &&& (other != source_id@ ==> (has_source(t, other) <==> has_source(s, other)))
        }),
{
    lemma_index_of_props(s, source_id@, 0);
    lemma_has_source_index(s, source_id@);
    let k = index_of(s, source_id@);
    if k >= 0 {
        let t = s.remove(k);
        if has_source(t, source_id@) {
            let j = choose|j: int| 0 <= j < t.len() && entry_key(#[trigger] t[j]) == source_id@;
            let i = if j < k { j } else { j + 1 };
            assert(t[j] == s[i]);
            if i < k {
                assert(lex_lt(entry_key(s[i]), entry_key(s[k])));
            } else {
                assert(lex_lt(entry_key(s[k]), entry_key(s[i])));
            }
            lemma_lex_order_props(source_id@, source_id@);
        }
        if other != source_id@ {
            if has_source(s, other) {
                let i = choose|i: int| 0 <= i < s.len() && entry_key(#[trigger] s[i]) == other;
                let j = if i < k { i } else { i - 1 };
                assert(entry_key(t[j]) == other);
            }
            if has_source(t, other) {
                let j = choose|j: int| 0 <= j < t.len() && entry_key(#[trigger] t[j]) == other;
                let i = if j < k { j } else { j + 1 };
                assert(entry_key(s[i]) == other);
            }
        }
    }
}

// ---------------------------------------------------------------------------
// Registry
// ---------------------------------------------------------------------------

/// Registry of protocol-registered prompt sources.
pub struct PromptSourceRegistry {
    entries: Vec<PromptSourceEntry>,
}

impl PromptSourceRegistry {
    /// The registered sources, in `source_id` order.
    pub closed spec fn entries(&self) -> Seq<PromptSourceEntry> {
        self.entries@
    }

    pub open spec fn wf(&self) -> bool {
        registry_wf(self.entries())
    }

    /// An empty registry.
    pub fn new() -> (r: Self)
        ensures
            r.wf(),
            r.entries().len() == 0,
    {
        PromptSourceRegistry { entries: Vec::new() }
    }

    /// Index of the source named `id`, or `None`.
    fn find(&self, id: &String) -> (r: Option<usize>)
        ensures
            match r {
                Some(k) => k as int == index_of(self.entries(), id@),
                None => index_of(self.entries(), id@) == -1,
            },
    {
        let mut i: usize = 0;
        while i < self.entries.len()
            invariant
                i <= self.entries.len(),
                index_of(self.entries@, id@) == index_of_from(self.entries@, id@, i as int),
            decreases self.entries.len() - i,
        {
            if lex_order_str(self.entries[i].registration.source_id.as_str(), id.as_str()) == 0 {
                proof {
                    lemma_lex_order_props(self.entries@[i as int].registration.source_id@, id@);
                }
                return Some(i);
            }
            proof {
                lemma_lex_order_props(self.entries@[i as int].registration.source_id@, id@);
            }
            i += 1;
        }
        None
    }

    /// Position at which a source named `id` would be inserted.
    fn insert_position(&self, id: &String) -> (r: usize)
        ensures
            r as int == insert_pos_from(self.entries(), id@, 0),
    {
        let mut i: usize = 0;
        while i < self.entries.len()
            invariant
                i <= self.entries.len(),
                insert_pos_from(self.entries@, id@, 0) == insert_pos_from(
                    self.entries@,
                    id@,
                    i as int,
                ),
            decreases self.entries.len() - i,
        {
            if lex_order_str(id.as_str(), self.entries[i].registration.source_id.as_str()) < 0 {
                return i;
            }
            i += 1;
        }
        i
    }

    /// Total content bytes of all sources.
    fn total_bytes(&self) -> (r: usize)
        requires
            self.wf(),
        ensures
            r == sum_bytes(self.entries()),
    {
        let mut acc: usize = 0;
        let mut i: usize = 0;
        while i < self.entries.len()
            invariant
                i <= self.entries.len(),
                registry_wf(self.entries@),
                acc == sum_bytes(self.entries@.take(i as int)),
            decreases self.entries.len() - i,
        {
            proof {
                lemma_prefix_sum_le(self.entries@, i + 1);
                assert(self.entries@.take(i + 1).drop_last() =~= self.entries@.take(i as int));
            }
            acc = acc + byte_len(&self.entries[i].registration.content);
            i += 1;
        }
        assert(self.entries@.take(self.entries.len() as int) =~= self.entries@);
        acc
    }

    /// Applies a control request with the provenance of its origin. A refused
    /// request leaves the registry unchanged and publishes nothing.
    pub fn handle_control_with_provenance(
        &mut self,
        request: &PromptSourceControlRequest,
        provenance: RuntimeProvenance,
    ) -> (r: Result<Vec<PromptSourcePublication>, PromptSourceError>)
        requires
            old(self).wf(),
        ensures
            final(self).wf(),
            match control_outcome(*request, provenance, old(self).entries()) {
                Ok((entries, events)) => r matches Ok(v) && v@ == events && final(self).entries()
                    == entries,
                Err(e) => r == Err::<Vec<PromptSourcePublication>, PromptSourceError>(e)
                    && final(self).entries() == old(self).entries(),
            },
    {
        if !provenance_valid_exec(&provenance) {
            return Err(PromptSourceError::Invalid);
        }
        match request {
            PromptSourceControlRequest::Register(registration) => {
                if !valid_identity(registration.source_id.as_str()) || is_blank_str(
                    registration.content.as_str(),
                ) || registration.lifetime == PromptSourceLifetime::Turns(0) {
                    return Err(PromptSourceError::Invalid);
                }
                if !(registration.scope == SourceScope::Session || registration.scope
                    == SourceScope::Protocol) || registration.layer != SourceLayer::User
                    || registration.lifetime == PromptSourceLifetime::Persistent {
                    return Err(PromptSourceError::Unsupported);
                }
                let len = byte_len(&registration.content);
                if len > MAX_PROMPT_SOURCE_BYTES {
                    return Err(PromptSourceError::Capacity);
                }
                let existing = self.find(&registration.source_id);
                let total = self.total_bytes();
                let ghost s = self.entries@;
                proof {
                    lemma_index_of_props(s, registration.source_id@, 0);
                }
                let retained = match existing {
                    Some(k) => {
                        proof {
                            lemma_entry_le_sum(s, k as int);
                        }
                        total - byte_len(&self.entries[k].registration.content)
                    },
                    None => total,
                };
                if (existing.is_none() && self.entries.len() >= MAX_PROMPT_SOURCES) || len
                    > MAX_PROMPT_CONTENT_BYTES - retained {
                    return Err(PromptSourceError::Capacity);
                }
                let remaining_turns = match registration.lifetime {
                    PromptSourceLifetime::Turns(turns) => Some(turns),
                    _ => None,
                };
                let entry = PromptSourceEntry {
                    registration: registration.duplicate(),
                    provenance: provenance.duplicate(),
                    remaining_turns,
                };
                let ghost e = entry;
                match existing {
                    Some(k) => {
                        self.entries.set(k, entry);
                        proof {
                            lemma_sum_update(s, k as int, e);
                        }
                    },
                    None => {
                        let p = self.insert_position(&registration.source_id);
                        proof {
                            lemma_insert_pos_props(s, registration.source_id@, 0);
                        }
                        self.entries.insert(p, entry);
                        proof {
                            lemma_sum_insert(s, p as int, e);
                        }
                    },
                }
                proof {
                    lemma_upsert_sorted(s, e);
                    assert(self.entries@ =~= upsert(s, e));
                }
                let mut events: Vec<PromptSourcePublication> = Vec::new();
                events.push(
                    PromptSourcePublication {
                        event: PromptSourceEvent::Registered {
                            source_id: registration.source_id.clone(),
                        },
                        provenance,
                    },
                );
                Ok(events)
            },
            PromptSourceControlRequest::Unregister { source_id } => {
                if !valid_identity(source_id.as_str()) {
                    return Err(PromptSourceError::Invalid);
                }
                let ghost s = self.entries@;
                proof {
                    lemma_index_of_props(s, source_id@, 0);
                }
                let mut events: Vec<PromptSourcePublication> = Vec::new();
                match self.find(source_id) {
                    Some(k) => {
                        let entry = self.entries.remove(k);
                        proof {
                            lemma_sum_remove(s, k as int);
                            lemma_remove_sorted(s, k as int);
                        }
                        events.push(
                            PromptSourcePublication {
                                event: PromptSourceEvent::Unregistered {
                                    source_id: source_id.clone(),
                                },
                                provenance: entry.provenance,
                            },
                        );
                    },
                    None => {},
                }
                Ok(events)
            },
            PromptSourceControlRequest::QuerySources => {
                let mut events: Vec<PromptSourcePublication> = Vec::new();
                let mut i: usize = 0;
                while i < self.entries.len()
                    invariant
                        i <= self.entries.len(),
                        events@ == registered_publications(self.entries@).take(i as int),
                    decreases self.entries.len() - i,
                {
                    events.push(
                        PromptSourcePublication {
                            event: PromptSourceEvent::Registered {
                                source_id: self.entries[i].registration.source_id.clone(),
                            },
                            provenance: self.entries[i].provenance.duplicate(),
                        },
                    );
                    assert(events@ =~= registered_publications(self.entries@).take(i + 1));
                    i += 1;
                }
                assert(registered_publications(self.entries@).take(self.entries.len() as int)
                    =~= registered_publications(self.entries@));
                Ok(events)
            },
        }
    }

    /// Lists the active sources for one query, in `source_id` order, and
    /// counts their query budgets down: a source whose budget is spent is
    /// removed. Events: one `Injected` per source listed, then one `Dropped`
    /// per source removed.
    pub fn list_prompt_sources_for_query(&mut self) -> (r: (
        Vec<PromptSource>,
        Vec<PromptSourcePublication>,
    ))
        requires
            old(self).wf(),
        ensures
            final(self).wf(),
            final(self).entries() == advance(old(self).entries()),
            r.0@.len() == old(self).entries().len(),
            forall|i: int|
                0 <= i < r.0@.len() ==> is_prompt_source_of(
                    #[trigger] r.0@[i],
                    old(self).entries()[i].registration,
                    old(self).entries()[i].provenance,
                ),
            r.1@.len() == old(self).entries().len() + expiring(old(self).entries()).len(),
            forall|i: int|
                0 <= i < old(self).entries().len() ==> is_injected_publication(
                    #[trigger] r.1@[i],
                    old(self).entries()[i],
                ),
            forall|j: int|
                0 <= j < expiring(old(self).entries()).len() ==> is_dropped_publication(
                    #[trigger] r.1@[old(self).entries().len() + j],
                    expiring(old(self).entries())[j],
                ),
    {
        let ghost s = self.entries@;
        let mut sources: Vec<PromptSource> = Vec::new();
        let mut injected: Vec<PromptSourcePublication> = Vec::new();
        let mut dropped: Vec<PromptSourcePublication> = Vec::new();
        let mut kept: Vec<PromptSourceEntry> = Vec::new();
        let mut i: usize = 0;
        proof {
            lemma_advance_props(s);
        }
        while i < self.entries.len()
            invariant
                self.entries@ == s,
                registry_wf(s),
                i <= s.len(),
                sources@.len() == i,
                forall|j: int|
                    0 <= j < i ==> is_prompt_source_of(
                        #[trigger] sources@[j],
                        s[j].registration,
                        s[j].provenance,
                    ),
                injected@.len() == i,
                forall|j: int| 0 <= j < i ==> is_injected_publication(#[trigger] injected@[j], s[j]),
                kept@ == advance(s.take(i as int)),
                dropped@.len() == expiring(s.take(i as int)).len(),
                forall|j: int|
                    0 <= j < dropped@.len() ==> is_dropped_publication(
                        #[trigger] dropped@[j],
                        expiring(s.take(i as int))[j],
                    ),
                sorted_entries(kept@),
                i < s.len() ==> forall|j: int|
                    0 <= j < kept@.len() ==> lex_lt(entry_key(#[trigger] kept@[j]), entry_key(s[i as int])),
            decreases s.len() - i,
        {
            let e = &self.entries[i];
            let snapshot = ProtocolPromptSourceSnapshot::from_entry(e);
            sources.push(snapshot.to_prompt_source());
            injected.push(
                PromptSourcePublication {
                    event: PromptSourceEvent::Injected {
                        source_id: e.registration.source_id.clone(),
                    },
                    provenance: e.provenance.duplicate(),
                },
            );
            let ghost take_next = s.take(i + 1);
            assert(take_next.drop_last() =~= s.take(i as int));
            assert(take_next.last() == s[i as int]);
            let expires_now = match e.remaining_turns {
                Some(n) => n <= 1,
                None => false,
            };
            if expires_now {
                dropped.push(
                    PromptSourcePublication {
                        event: PromptSourceEvent::Dropped {
                            source_id: e.registration.source_id.clone(),
                            reason: "turn limit expired".to_owned(),
                        },
                        provenance: e.provenance.duplicate(),
                    },
                );
                assert(expiring(take_next) =~= expiring(s.take(i as int)) + seq![s[i as int]]);
                assert(advance(take_next) =~= advance(s.take(i as int)));
            } else {
                let remaining_turns = match e.remaining_turns {
                    Some(n) => Some(n - 1),
                    None => None,
                };
                let next = PromptSourceEntry {
                    registration: e.registration.duplicate(),
                    provenance: e.provenance.duplicate(),
                    remaining_turns,
                };
                kept.push(next);
                assert(expiring(take_next) =~= expiring(s.take(i as int)));
                assert(advance(take_next) =~= advance(s.take(i as int)) + seq![decremented(s[i as int])]);
            }
            proof {
                if i + 1 < s.len() {
                    assert forall|j: int| 0 <= j < kept@.len() implies lex_lt(
                        entry_key(#[trigger] kept@[j]),
                        entry_key(s[i + 1]),
                    ) by {
                        assert(lex_lt(entry_key(s[i as int]), entry_key(s[i + 1])));
                        if j < kept@.len() - 1 || expires_now {
                            lemma_lex_lt_trans(entry_key(kept@[j]), entry_key(s[i as int]), entry_key(s[i + 1]));
                        }
                    }
                }
            }
            i += 1;
        }
        assert(s.take(s.len() as int) =~= s);
        proof {
            lemma_advance_props(s);
        }
        let mut events = injected;
        let mut j: usize = 0;
        let ghost base = events@;
        while j < dropped.len()
            invariant
                j <= dropped.len(),
                events@ == base + dropped@.take(j as int),
            decreases dropped.len() - j,
        {
            events.push(dropped[j].clone_publication());
            assert(events@ =~= base + dropped@.take(j + 1));
            j += 1;
        }
        assert(dropped@.take(dropped.len() as int) =~= dropped@);
        self.entries = kept;
        (sources, events)
    }
}

impl PromptSourcePublication {
    /// A field-for-field copy.
    pub fn clone_publication(&self) -> (r: Self)
        ensures
            r == *self,
    {
        PromptSourcePublication {
            event: match &self.event {
                PromptSourceEvent::Registered { source_id } => PromptSourceEvent::Registered {
                    source_id: source_id.clone(),
                },
                PromptSourceEvent::Injected { source_id } => PromptSourceEvent::Injected {
                    source_id: source_id.clone(),
                },
                PromptSourceEvent::Unregistered { source_id } => PromptSourceEvent::Unregistered {
                    source_id: source_id.clone(),
                },
                PromptSourceEvent::Dropped { source_id, reason } => PromptSourceEvent::Dropped {
                    source_id: source_id.clone(),
                    reason: reason.clone(),
                },
            },
            provenance: self.provenance.duplicate(),
        }
    }
}

} // verus!
