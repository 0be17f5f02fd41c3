//! The ordering domain of the runtime event bus and the projection of tool
//! call identities.
//!
//! The broadcast channels themselves are the host's. This module assigns the
//! bus-owned sequence numbers and event ids, decides which channels an agent
//! event goes to, and gives tool events without a call id the identity of the
//! tool use they belong to.
use vstd::prelude::*;

use crate::runtime_control::{
    reports_agent_event, wrap_agent_event, AgentEvent, RuntimeControlEvent, RuntimeControllerKind, RuntimeEvent,
    RuntimeProvenance, ToolStream,
};
use crate::text::copy_opt_string;
use crate::text::{lemma_lex_order_props, lex_order_str, push_str, string_from_chars};

verus! {

// ---------------------------------------------------------------------------
// Event ids
// ---------------------------------------------------------------------------

pub open spec fn hex_char(d: nat) -> char {
    if d < 10 {
        ((d + 48) as u32) as char
    } else {
        ((d + 87) as u32) as char
    }
}

/// The last `width` lower-case hexadecimal digits of `n`, most significant
/// first (`format!("{:0width$x}", n)` when `n < 16^width`).
pub open spec fn hex_digits(n: nat, width: nat) -> Seq<char>
    decreases width,
{
    if width == 0 {
        Seq::empty()
    } else {
        hex_digits(n / 16, (width - 1) as nat).push(hex_char(n % 16))
    }
}

fn hex_digit(d: u64) -> (c: char)
    requires
        d < 16,
    ensures
        c == hex_char(d as nat),
{
    if d == 0 { '0' } else if d == 1 { '1' } else if d == 2 { '2' } else if d == 3 { '3' }
    else if d == 4 { '4' } else if d == 5 { '5' } else if d == 6 { '6' } else if d == 7 { '7' }
    else if d == 8 { '8' } else if d == 9 { '9' } else if d == 10 { 'a' } else if d == 11 { 'b' }
    else if d == 12 { 'c' } else if d == 13 { 'd' } else if d == 14 { 'e' } else { 'f' }
}

fn hex_exec(n: u64, width: u64) -> (r: Vec<char>)
    ensures
        r@ == hex_digits(n as nat, width as nat),
    decreases width,
{
    if width == 0 {
        Vec::new()
    } else {
        let mut v = hex_exec(n / 16, width - 1);
        v.push(hex_digit(n % 16));
        v
    }
}

/// The id of the control event with sequence number `sequence`: the prefix,
/// a hyphen and 16 lower-case hex digits (`"evt-000000000000002a"`).
pub fn event_id(prefix: &str, sequence: u64) -> (r: String)
    ensures
        r@ == prefix@ + seq!['-'] + hex_digits(sequence as nat, 16),
{
    let mut out: Vec<char> = Vec::new();
    push_str(&mut out, prefix);
    out.push('-');
    let digits = hex_exec(sequence, 16);
    let ghost before = out@;
    let mut i: usize = 0;
    while i < digits.len()
        invariant
            i <= digits.len(),
            out@ == before + digits@.take(i as int),
        decreases digits.len() - i,
    {
        out.push(digits[i]);
        assert(out@ =~= before + digits@.take(i + 1));
        i += 1;
    }
    assert(digits@.take(digits.len() as int) =~= digits@);
    string_from_chars(&out)
}

// ---------------------------------------------------------------------------
// Sequencing and routing
// ---------------------------------------------------------------------------

/// Where an agent event goes, given who is listening.
#[derive(Clone, Copy, Debug, PartialEq, Eq, Structural)]
pub struct Delivery {
    /// Publish to raw agent-event subscribers.
    pub raw: bool,
    /// Wrap, sequence and publish to structured control subscribers.
    pub control: bool,
}

/// An agent event reaches only the channels that have subscribers; a
/// sequence number is spent only when it is published on the control
/// channel.
pub fn delivery(raw_receivers: usize, control_receivers: usize) -> (d: Delivery)
    ensures
        d.raw == (raw_receivers > 0),
        d.control == (control_receivers > 0),
{
    Delivery { raw: raw_receivers > 0, control: control_receivers > 0 }
}

/// The bus-owned ordering domain: one increasing sequence across all
/// control events the bus numbers.
pub struct EventSequencer {
    last: u64,
}

impl EventSequencer {
    /// The last sequence number handed out; 0 before the first.
    pub closed spec fn current(&self) -> u64 {
        self.last
    }

    pub fn new() -> (r: Self)
        ensures
            r.current() == 0,
    {
        EventSequencer { last: 0 }
    }

    /// The last sequence number handed out.
    pub fn current_sequence(&self) -> (r: u64)
        ensures
            r == self.current(),
    {
        self.last
    }

    /// The next sequence number and its event id under `prefix`.
    pub fn next(&mut self, prefix: &str) -> (r: (u64, String))
        requires
            old(self).current() < u64::MAX,
        ensures
            final(self).current() == old(self).current() + 1,
            r.0 == final(self).current(),
            r.1@ == prefix@ + seq!['-'] + hex_digits(r.0 as nat, 16),
    {
        self.last = self.last + 1;
        (self.last, event_id(prefix, self.last))
    }
}

// ---------------------------------------------------------------------------
// Tool identities
// ---------------------------------------------------------------------------

/// A tool event on the control stream. `input` is the tool input as JSON
/// text.
#[derive(Clone, Debug, PartialEq, Eq)]
pub enum ToolEvent {
    Use { call_id: Option<String>, name: String, input: String },
    Result { call_id: Option<String>, name: String, content: String, is_error: bool },
    Progress { call_id: Option<String>, name: String, stream: ToolStream, chunk: String },
}

/// The identities of tool uses not yet answered, for one session and tool.
#[derive(Clone, Debug)]
pub struct PendingTools {
    pub session_id: Option<String>,
    pub name: String,
    pub ids: Vec<String>,
}

pub type ToolKey = (Option<Seq<char>>, Seq<char>);

pub open spec fn opt_view(o: Option<String>) -> Option<Seq<char>> {
    match o {
        Some(s) => Some(s@),
        None => None,
    }
}

pub open spec fn pending_key(p: PendingTools) -> ToolKey {
    (opt_view(p.session_id), p.name@)
}

pub open spec fn ids_view(ids: Seq<String>) -> Seq<Seq<char>> {
    ids.map_values(|s: String| s@)
}

/// The pending identities for `key`, oldest first.
pub open spec fn queue_of(s: Seq<PendingTools>, key: ToolKey) -> Seq<Seq<char>>
    decreases s.len(),
{
    if s.len() == 0 {
        Seq::empty()
    } else if pending_key(s.last()) == key {
        ids_view(s.last().ids@)
    } else {
        queue_of(s.drop_last(), key)
    }
}

/// No key occurs twice and no queue is empty.
pub open spec fn tracker_wf(s: Seq<PendingTools>) -> bool {
    &&& forall|i: int, j: int| 0 <= i < j < s.len() ==> pending_key(s[i]) != pending_key(s[j])
    &&& forall|i: int| 0 <= i < s.len() ==> (#[trigger] s[i]).ids@.len() > 0
}

/// The identity given to a tool use without one.
pub open spec fn use_identity(event_id: Seq<char>) -> Seq<char> {
    "tool-"@ + event_id
}

/// The call id a tool event ends up with, and the queues after it, given the
/// queue of its key.
pub open spec fn projected(queue: Seq<Seq<char>>, call_id: Option<Seq<char>>, kind: int, event_id: Seq<char>) -> (
    Option<Seq<char>>,
    Seq<Seq<char>>,
) {
    if call_id is Some {
        (call_id, queue)
    } else if kind == 0 {
        (Some(use_identity(event_id)), queue.push(use_identity(event_id)))
    } else if queue.len() == 0 {
        (None, queue)
    } else if kind == 1 {
        (Some(queue[0]), queue.drop_first())
    } else {
        (Some(queue[0]), queue)
    }
}

/// 0 for a use, 1 for a result, 2 for progress.
pub open spec fn tool_event_kind(e: ToolEvent) -> int {
    match e {
        ToolEvent::Use { .. } => 0,
        ToolEvent::Result { .. } => 1,
        ToolEvent::Progress { .. } => 2,
    }
}

pub open spec fn tool_event_call_id(e: ToolEvent) -> Option<String> {
    match e {
        ToolEvent::Use { call_id, .. } => call_id,
        ToolEvent::Result { call_id, .. } => call_id,
        ToolEvent::Progress { call_id, .. } => call_id,
    }
}

pub open spec fn tool_event_name(e: ToolEvent) -> String {
    match e {
        ToolEvent::Use { name, .. } => name,
        ToolEvent::Result { name, .. } => name,
        ToolEvent::Progress { name, .. } => name,
    }
}

/// `a` and `b` differ at most in their call id.
pub open spec fn same_but_call_id(a: ToolEvent, b: ToolEvent) -> bool {
    match (a, b) {
        (ToolEvent::Use { name: n1, input: i1, .. }, ToolEvent::Use { name: n2, input: i2, .. }) =>
            n1 == n2 && i1 == i2,
        (
            ToolEvent::Result { name: n1, content: c1, is_error: e1, .. },
            ToolEvent::Result { name: n2, content: c2, is_error: e2, .. },
        ) => n1 == n2 && c1 == c2 && e1 == e2,
        (
            ToolEvent::Progress { name: n1, stream: s1, chunk: c1, .. },
            ToolEvent::Progress { name: n2, stream: s2, chunk: c2, .. },
        ) => n1 == n2 && s1 == s2 && c1 == c2,
        _ => false,
    }
}

proof fn lemma_queue_of_index(s: Seq<PendingTools>, key: ToolKey, k: int)
    requires
        tracker_wf(s),
        0 <= k < s.len(),
        pending_key(s[k]) == key,
    ensures
        queue_of(s, key) == ids_view(s[k].ids@),
    decreases s.len(),
{
    if k < s.len() - 1 {
        let t = s.drop_last();
        assert(pending_key(s.last()) != key) by {
            assert(pending_key(s[k]) != pending_key(s[s.len() - 1]));
        }
        assert(t[k] == s[k]);
        lemma_queue_of_index(t, key, k);
    }
}

proof fn lemma_queue_of_absent(s: Seq<PendingTools>, key: ToolKey)
    requires
        forall|i: int| 0 <= i < s.len() ==> pending_key(#[trigger] s[i]) != key,
    ensures
        queue_of(s, key) == Seq::<Seq<char>>::empty(),
    decreases s.len(),
{
    if s.len() > 0 {
        let t = s.drop_last();
        assert(pending_key(s[s.len() - 1]) != key);
        assert forall|i: int| 0 <= i < t.len() implies pending_key(#[trigger] t[i]) != key by {
            assert(t[i] == s[i]);
        }
        lemma_queue_of_absent(t, key);
    }
}

/// Replacing the entry of `key` changes only the queue of `key`.
proof fn lemma_queue_of_update(s: Seq<PendingTools>, k: int, e: PendingTools, other: ToolKey)
    requires
        tracker_wf(s),
        0 <= k < s.len(),
        pending_key(e) == pending_key(s[k]),
    ensures
        other != pending_key(s[k]) ==> queue_of(s.update(k, e), other) == queue_of(s, other),
        queue_of(s.update(k, e), pending_key(s[k])) == ids_view(e.ids@),
    decreases s.len(),
{
    let t = s.update(k, e);
    if k == s.len() - 1 {
        assert(t.drop_last() =~= s.drop_last());
    } else {
        assert(t.drop_last() =~= s.drop_last().update(k, e));
        assert(t.last() == s.last());
        assert(pending_key(s.last()) != pending_key(s[k])) by {
            assert(pending_key(s[k]) != pending_key(s[s.len() - 1]));
        }
        let s0 = s.drop_last();
        assert(s0[k] == s[k]);
        assert(tracker_wf(s0)) by {
            assert forall|i: int, j: int| 0 <= i < j < s0.len() implies pending_key(s0[i])
                != pending_key(s0[j]) by {
                assert(s0[i] == s[i] && s0[j] == s[j]);
            }
            assert forall|i: int| 0 <= i < s0.len() implies (#[trigger] s0[i]).ids@.len() > 0 by {
                assert(s0[i] == s[i]);
            }
        }
        lemma_queue_of_update(s0, k, e, other);
    }
}

/// Removing the entry of `key` empties its queue and keeps the others.
proof fn lemma_queue_of_remove(s: Seq<PendingTools>, k: int, other: ToolKey)
    requires
        tracker_wf(s),
        0 <= k < s.len(),
    ensures
        other != pending_key(s[k]) ==> queue_of(s.remove(k), other) == queue_of(s, other),
        queue_of(s.remove(k), pending_key(s[k])) == Seq::<Seq<char>>::empty(),
    decreases s.len(),
{
    let t = s.remove(k);
    if k == s.len() - 1 {
        assert(t =~= s.drop_last());
        assert forall|i: int| 0 <= i < t.len() implies pending_key(#[trigger] t[i]) != pending_key(
            s[k],
        ) by {
            assert(t[i] == s[i]);
        }
        lemma_queue_of_absent(t, pending_key(s[k]));
    } else {
        let s0 = s.drop_last();
        assert(t.drop_last() =~= s0.remove(k));
        assert(t.last() == s.last());
        assert(pending_key(s.last()) != pending_key(s[k])) by {
            assert(pending_key(s[k]) != pending_key(s[s.len() - 1]));
        }
        assert(s0[k] == s[k]);
        assert(tracker_wf(s0)) by {
            assert forall|i: int, j: int| 0 <= i < j < s0.len() implies pending_key(s0[i])
                != pending_key(s0[j]) by {
                assert(s0[i] == s[i] && s0[j] == s[j]);
            }
            assert forall|i: int| 0 <= i < s0.len() implies (#[trigger] s0[i]).ids@.len() > 0 by {
                assert(s0[i] == s[i]);
            }
        }
        lemma_queue_of_remove(s0, k, other);
    }
}

/// Tracks, per session and tool name, the identities of tool uses that have
/// not been answered yet, so progress and results without a call id are
/// attributed to the oldest open use of the same tool in the same session.
pub struct ToolIdentityTracker {
    pending: Vec<PendingTools>,
}

impl ToolIdentityTracker {
    pub closed spec fn entries(&self) -> Seq<PendingTools> {
        self.pending@
    }

    /// The open identities for `key`, oldest first.
    pub open spec fn queue(&self, key: ToolKey) -> Seq<Seq<char>> {
        queue_of(self.entries(), key)
    }

    pub open spec fn wf(&self) -> bool {
        tracker_wf(self.entries())
    }

    pub fn new() -> (r: Self)
        ensures
            r.wf(),
            forall|k: ToolKey| #[trigger] r.queue(k) == Seq::<Seq<char>>::empty(),
    {
        ToolIdentityTracker { pending: Vec::new() }
    }

    fn find(&self, session_id: &Option<String>, name: &String) -> (r: Option<usize>)
        requires
            self.wf(),
        ensures
            match r {
                Some(k) => k < self.entries().len() && pending_key(self.entries()[k as int]) == (
                    opt_view(*session_id),
                    name@,
                ),
                None => forall|i: int|
                    0 <= i < self.entries().len() ==> pending_key(#[trigger] self.entries()[i]) != (
                        opt_view(*session_id),
                        name@,
                    ),
            },
    {
        let mut i: usize = 0;
        while i < self.pending.len()
            invariant
                i <= self.pending.len(),
                forall|j: int|
                    0 <= j < i ==> pending_key(#[trigger] self.pending@[j]) != (
                        opt_view(*session_id),
                        name@,
                    ),
            decreases self.pending.len() - i,
        {
            let p = &self.pending[i];
            let name_eq = lex_order_str(p.name.as_str(), name.as_str()) == 0;
            proof {
                lemma_lex_order_props(p.name@, name@);
            }
            let session_eq = match (&p.session_id, session_id) {
                (None, None) => true,
                (Some(a), Some(b)) => {
                    let c = lex_order_str(a.as_str(), b.as_str());
                    proof {
                        lemma_lex_order_props(a@, b@);
                    }
                    c == 0
                },
                _ => false,
            };
            if name_eq && session_eq {
                return Some(i);
            }
            i += 1;
        }
        None
    }

    /// Gives `event`, observed in `session_id` as control event `event_id`,
    /// the call identity of the tool use it belongs to. A use without an id
    /// gets `tool-<event_id>` and opens it; a result without an id takes the
    /// oldest open identity of its session and tool and closes it; progress
    /// without an id takes the oldest open identity and leaves it open.
    /// Events that carry an id, and results or progress with nothing open,
    /// keep the id they have. Only the queue of the event's own session and
    /// tool changes.
    pub fn project(&mut self, session_id: &Option<String>, event_id: &str, event: &mut ToolEvent)
        requires
            old(self).wf(),
        ensures
            final(self).wf(),
            same_but_call_id(*old(event), *final(event)),
            ({
                let key = (opt_view(*session_id), tool_event_name(*old(event))@);
                let p = projected(
                    old(self).queue(key),
                    opt_view(tool_event_call_id(*old(event))),
                    tool_event_kind(*old(event)),
                    event_id@,
                );
                &&& opt_view(tool_event_call_id(*final(event))) == p.0
                &&& final(self).queue(key) == p.1
                &&& forall|other: ToolKey|
                    other != key ==> #[trigger] final(self).queue(other) == old(self).queue(other)
            }),
    {
        let ghost key = (opt_view(*session_id), tool_event_name(*event)@);
        proof {
            reveal_strlit("tool-");
        }
        match event {
            ToolEvent::Use { call_id, name, .. } => {
                if call_id.is_none() {
                    let mut idc: Vec<char> = Vec::new();
                    push_str(&mut idc, "tool-");
                    push_str(&mut idc, event_id);
                    let id = string_from_chars(&idc);
                    *call_id = Some(id.clone());
                    match self.find(session_id, name) {
                        Some(k) => {
                            let mut entry = self.pending[k].clone_entry();
                            let ghost old_ids = entry.ids@;
                            entry.ids.push(id);
                            assert(ids_view(entry.ids@) =~= ids_view(old_ids).push(id@));
                            proof {
                                lemma_queue_of_index(self.pending@, key, k as int);
                                assert forall|other: ToolKey| other != key implies queue_of(
                                    self.pending@.update(k as int, entry),
                                    other,
                                ) == queue_of(self.pending@, other) by {
                                    lemma_queue_of_update(self.pending@, k as int, entry, other);
                                }
                                lemma_queue_of_update(self.pending@, k as int, entry, key);
                            }
                            self.pending.set(k, entry);
                        },
                        None => {
                            let mut ids: Vec<String> = Vec::new();
                            ids.push(id);
                            let entry = PendingTools {
                                session_id: match session_id {
                                    Some(s) => Some(s.clone()),
                                    None => None,
                                },
                                name: name.clone(),
                                ids,
                            };
                            proof {
                                lemma_queue_of_absent(self.pending@, key);
                                assert(ids_view(entry.ids@) =~= Seq::<Seq<char>>::empty().push(id@));
                            }
                            self.pending.push(entry);
                            proof {
                                let s = self.pending@;
                                assert(s.drop_last() =~= old(self).pending@);
                                assert forall|i: int, j: int| 0 <= i < j < s.len() implies pending_key(
                                    s[i],
                                ) != pending_key(s[j]) by {
                                    if j == s.len() - 1 {
                                        assert(s[i] == old(self).pending@[i]);
                                    } else {
                                        assert(s[i] == old(self).pending@[i]);
                                        assert(s[j] == old(self).pending@[j]);
                                    }
                                }
                                assert forall|i: int| 0 <= i < s.len() implies (
                                #[trigger] s[i]).ids@.len() > 0 by {
                                    if i < s.len() - 1 {
                                        assert(s[i] == old(self).pending@[i]);
                                    }
                                }
                            }
                        },
                    }
                }
            },
            ToolEvent::Result { call_id, name, .. } => {
                if call_id.is_none() {
                    if let Some(k) = self.find(session_id, name) {
                        proof {
                            lemma_queue_of_index(self.pending@, key, k as int);
                        }
                        let mut entry = self.pending[k].clone_entry();
                        let ghost old_ids = entry.ids@;
                        let first = entry.ids.remove(0);
                        assert(ids_view(old_ids)[0] == first@);
                        assert(ids_view(entry.ids@) =~= ids_view(old_ids).drop_first());
                        *call_id = Some(first);
                        if entry.ids.len() == 0 {
                            proof {
                                assert forall|other: ToolKey| other != key implies queue_of(
                                    self.pending@.remove(k as int),
                                    other,
                                ) == queue_of(self.pending@, other) by {
                                    lemma_queue_of_remove(self.pending@, k as int, other);
                                }
                                lemma_queue_of_remove(self.pending@, k as int, key);
                            }
                            self.pending.remove(k);
                            proof {
                                let s = self.pending@;
                                let o = old(self).pending@;
                                assert forall|i: int, j: int| 0 <= i < j < s.len() implies pending_key(
                                    s[i],
                                ) != pending_key(s[j]) by {
                                    let oi = if i < k { i } else { i + 1 };
                                    let oj = if j < k { j } else { j + 1 };
                                    assert(s[i] == o[oi] && s[j] == o[oj]);
                                }
                                assert forall|i: int| 0 <= i < s.len() implies (
                                #[trigger] s[i]).ids@.len() > 0 by {
                                    let oi = if i < k { i } else { i + 1 };
                                    assert(s[i] == o[oi]);
                                }
                            }
                        } else {
                            proof {
                                assert forall|other: ToolKey| other != key implies queue_of(
                                    self.pending@.update(k as int, entry),
                                    other,
                                ) == queue_of(self.pending@, other) by {
                                    lemma_queue_of_update(self.pending@, k as int, entry, other);
                                }
                                lemma_queue_of_update(self.pending@, k as int, entry, key);
                            }
                            self.pending.set(k, entry);
                        }
                    } else {
                        proof {
                            lemma_queue_of_absent(self.pending@, key);
                        }
                    }
                }
            },
            ToolEvent::Progress { call_id, name, .. } => {
                if call_id.is_none() {
                    if let Some(k) = self.find(session_id, name) {
                        proof {
                            lemma_queue_of_index(self.pending@, key, k as int);
                        }
                        *call_id = Some(self.pending[k].ids[0].clone());
                    } else {
                        proof {
                            lemma_queue_of_absent(self.pending@, key);
                        }
                    }
                }
            },
        }
    }
}

impl PendingTools {
    fn clone_entry(&self) -> (r: Self)
        ensures
            pending_key(r) == pending_key(*self),
            r.ids@ == self.ids@,
    {
        let mut ids: Vec<String> = Vec::new();
        let mut i: usize = 0;
        while i < self.ids.len()
            invariant
                i <= self.ids.len(),
                ids@ == self.ids@.take(i as int),
            decreases self.ids.len() - i,
        {
            ids.push(self.ids[i].clone());
            assert(ids@ =~= self.ids@.take(i + 1));
            i += 1;
        }
        assert(self.ids@.take(self.ids.len() as int) =~= self.ids@);
        PendingTools {
            session_id: match &self.session_id {
                Some(s) => Some(s.clone()),
                None => None,
            },
            name: self.name.clone(),
            ids,
        }
    }
}

/// A tool use and the progress and result that follow it in the same
/// session, none carrying a call id, all share one identity: the one the
/// use was given.
pub proof fn law_tool_events_share_the_use_identity(
    queue: Seq<Seq<char>>,
    use_event_id: Seq<char>,
    progress_event_id: Seq<char>,
    result_event_id: Seq<char>,
)
    requires
        queue.len() == 0,
    ensures
        ({
            let after_use = projected(queue, None, 0, use_event_id);
            let after_progress = projected(after_use.1, None, 2, progress_event_id);
            let after_result = projected(after_progress.1, None, 1, result_event_id);
            &&& after_use.0 == Some(use_identity(use_event_id))
            &&& after_progress.0 == after_use.0
            &&& after_result.0 == after_use.0
            &&& after_result.1.len() == 0
        }),
{
    let q1 = queue.push(use_identity(use_event_id));
    assert(q1[0] == use_identity(use_event_id));
    assert(q1.drop_first().len() == 0);
}

/// Open identities are answered in the order their uses arrived.
pub proof fn law_results_answer_oldest_use_first(queue: Seq<Seq<char>>, event_id: Seq<char>)
    requires
        queue.len() > 0,
    ensures
        projected(queue, None, 1, event_id).0 == Some(queue[0]),
        projected(queue, None, 1, event_id).1 == queue.drop_first(),
        projected(queue, None, 0, event_id).1 == queue.push(use_identity(event_id)),
{
}

// ---------------------------------------------------------------------------
// Numbering control events
// ---------------------------------------------------------------------------

/// Whether `after` is the event `before` with its tool call identity
/// projected by a tracker that went from `before_t` to `after_t`, for an
/// event of `session` numbered `event_id`. Events other than tool events
/// pass unchanged and leave the tracker as it was.
pub open spec fn stamped(
    before_t: ToolIdentityTracker,
    after_t: ToolIdentityTracker,
    session: Option<String>,
    event_id: Seq<char>,
    before: RuntimeEvent,
    after: RuntimeEvent,
) -> bool {
    match before {
        RuntimeEvent::Tool(t0) => after matches RuntimeEvent::Tool(t1) && {
            let key = (opt_view(session), tool_event_name(t0)@);
            let p = projected(before_t.queue(key), opt_view(tool_event_call_id(t0)), tool_event_kind(t0), event_id);
            &&& same_but_call_id(t0, t1)
            &&& opt_view(tool_event_call_id(t1)) == p.0
            &&& after_t.queue(key) == p.1
            &&& forall|o: ToolKey| o != key ==> #[trigger] after_t.queue(o) == before_t.queue(o)
        },
        _ => after == before && forall|o: ToolKey| #[trigger] after_t.queue(o) == before_t.queue(o),
    }
}

/// Whether `e` is a tool event of `kind` (see `tool_event_kind`) for the
/// tool `name` that carries no call id.
pub open spec fn bare_tool_event(e: RuntimeEvent, kind: int, name: Seq<char>) -> bool {
    e matches RuntimeEvent::Tool(t) && tool_event_kind(t) == kind && tool_event_call_id(t) is None
        && tool_event_name(t)@ == name
}

/// The call id a control event's tool event carries, if any.
pub open spec fn stamped_call_id(e: RuntimeEvent) -> Option<Seq<char>> {
    match e {
        RuntimeEvent::Tool(t) => opt_view(tool_event_call_id(t)),
        _ => None,
    }
}

/// The queue key of a control event: its session and, for a tool event, the
/// tool's name.
pub open spec fn stamped_key(session: Option<String>, e: RuntimeEvent) -> Option<ToolKey> {
    match e {
        RuntimeEvent::Tool(t) => Some((opt_view(session), tool_event_name(t)@)),
        _ => None,
    }
}

/// An event of another session or another tool, or no tool event at all,
/// leaves the open identities of a session's tool as they were.
pub proof fn law_other_events_leave_the_queue(
    before_t: ToolIdentityTracker,
    after_t: ToolIdentityTracker,
    session: Option<String>,
    event_id: Seq<char>,
    before: RuntimeEvent,
    after: RuntimeEvent,
    key: ToolKey,
)
    requires
        stamped(before_t, after_t, session, event_id, before, after),
        stamped_key(session, before) != Some(key),
    ensures
        after_t.queue(key) == before_t.queue(key),
{
}

/// In one session, a tool use, then progress, then a result of the same tool,
/// none carrying a call id, all carry the identity the use was given
/// (`tool-` and the use's event id), and the result closes it. Events of
/// other sessions or tools may come in between (`law_other_events_leave_the_queue`
/// says they leave this queue alone).
pub proof fn law_use_progress_result_share_one_identity(
    t0: ToolIdentityTracker,
    t1: ToolIdentityTracker,
    t2: ToolIdentityTracker,
    t3: ToolIdentityTracker,
    t4: ToolIdentityTracker,
    t5: ToolIdentityTracker,
    session: Option<String>,
    name: Seq<char>,
    use_id: Seq<char>,
    progress_id: Seq<char>,
    result_id: Seq<char>,
    use_before: RuntimeEvent,
    use_after: RuntimeEvent,
    progress_before: RuntimeEvent,
    progress_after: RuntimeEvent,
    result_before: RuntimeEvent,
    result_after: RuntimeEvent,
)
    requires
        t0.queue((opt_view(session), name)).len() == 0,
        bare_tool_event(use_before, 0, name),
        bare_tool_event(progress_before, 2, name),
        bare_tool_event(result_before, 1, name),
        stamped(t0, t1, session, use_id, use_before, use_after),
        t2.queue((opt_view(session), name)) == t1.queue((opt_view(session), name)),
        stamped(t2, t3, session, progress_id, progress_before, progress_after),
        t4.queue((opt_view(session), name)) == t3.queue((opt_view(session), name)),
        stamped(t4, t5, session, result_id, result_before, result_after),
    ensures
        stamped_call_id(use_after) == Some(use_identity(use_id)),
        stamped_call_id(progress_after) == Some(use_identity(use_id)),
        stamped_call_id(result_after) == Some(use_identity(use_id)),
        t5.queue((opt_view(session), name)).len() == 0,
{
    let key = (opt_view(session), name);
    let q1 = t0.queue(key).push(use_identity(use_id));
    assert(t1.queue(key) == q1);
    assert(q1[0] == use_identity(use_id));
    assert(t3.queue(key) == q1);
    assert(q1.drop_first().len() == 0);
}

/// Gives the tool event inside a control event its call identity.
pub fn project_control_event(tracker: &mut ToolIdentityTracker, event: &mut RuntimeControlEvent)
    requires
        old(tracker).wf(),
    ensures
        final(tracker).wf(),
        *final(event) == (RuntimeControlEvent { event: final(event).event, ..*old(event) }),
        stamped(
            *old(tracker),
            *final(tracker),
            old(event).provenance.session_id,
            old(event).event_id@,
            old(event).event,
            final(event).event,
        ),
{
    let session = copy_opt_string(&event.provenance.session_id);
    let id = event.event_id.clone();
    match &mut event.event {
        RuntimeEvent::Tool(t) => {
            tracker.project(&session, id.as_str(), t);
        },
        _ => {},
    }
}

/// The bus-owned ordering domain: one sequence across every control event
/// the bus numbers, and the tool identities those events carry.
pub struct ControlNumbering {
    pub sequencer: EventSequencer,
    pub tools: ToolIdentityTracker,
}

/// The id of a bus-numbered event: the prefix, a hyphen and the sequence
/// number as 16 lower-case hex digits.
pub open spec fn numbered_id(prefix: Seq<char>, sequence: u64) -> Seq<char> {
    prefix + seq!['-'] + hex_digits(sequence as nat, 16)
}

impl ControlNumbering {
    pub open spec fn wf(&self) -> bool {
        self.tools.wf()
    }

    /// Nothing numbered yet.
    pub fn new() -> (r: Self)
        ensures
            r.wf(),
            r.sequencer.current() == 0,
            forall|k: ToolKey| #[trigger] r.tools.queue(k) == Seq::<Seq<char>>::empty(),
    {
        ControlNumbering { sequencer: EventSequencer::new(), tools: ToolIdentityTracker::new() }
    }

    /// An agent event as the next control event (`evt-` ids), outside any
    /// turn, with its tool identity projected.
    pub fn number_agent_event(&mut self, event: AgentEvent, provenance: RuntimeProvenance) -> (r: RuntimeControlEvent)
        requires
            old(self).wf(),
            old(self).sequencer.current() < u64::MAX,
        ensures
            final(self).wf(),
            final(self).sequencer.current() == old(self).sequencer.current() + 1,
            r.sequence == final(self).sequencer.current(),
            r.event_id@ == numbered_id("evt"@, r.sequence),
            r.provenance == provenance,
            r.turn_id is None,
            exists|e: RuntimeEvent|
                reports_agent_event(event, e) && #[trigger] stamped(
                    old(self).tools,
                    final(self).tools,
                    provenance.session_id,
                    r.event_id@,
                    e,
                    r.event,
                ),
    {
        proof {
            reveal_strlit("evt");
        }
        let ghost t0 = self.tools;
        let ghost session = provenance.session_id;
        let (sequence, id) = self.sequencer.next("evt");
        let mut wrapped = wrap_agent_event(id, sequence, provenance, event);
        let ghost before = wrapped;
        project_control_event(&mut self.tools, &mut wrapped);
        proof {
            assert(reports_agent_event(event, before.event));
            assert(stamped(t0, self.tools, session, wrapped.event_id@, before.event, wrapped.event));
        }
        wrapped
    }

    /// A runtime-native event as the next control event (`ctl-` ids), from
    /// the runtime itself, outside any turn; tool identities are untouched.
    pub fn number_runtime_event(&mut self, event: RuntimeEvent) -> (r: RuntimeControlEvent)
        requires
            old(self).sequencer.current() < u64::MAX,
        ensures
            final(self).sequencer.current() == old(self).sequencer.current() + 1,
            final(self).tools == old(self).tools,
            r.sequence == final(self).sequencer.current(),
            r.event_id@ == numbered_id("ctl"@, r.sequence),
            r.provenance.controller == RuntimeControllerKind::Runtime,
            r.provenance.adapter is None,
            r.provenance.session_id is None,
            r.provenance.source_id is None,
            r.turn_id is None,
            r.event == event,
    {
        proof {
            reveal_strlit("ctl");
        }
        let (sequence, id) = self.sequencer.next("ctl");
        RuntimeControlEvent {
            event_id: id,
            provenance: RuntimeProvenance::runtime(None),
            turn_id: None,
            sequence,
            event,
        }
    }

    /// An in-process control event renumbered in the bus's domain (`ctl-`
    /// ids), keeping its provenance, turn and event but for the tool
    /// identity, which is projected.
    pub fn resequence(&mut self, event: RuntimeControlEvent) -> (r: RuntimeControlEvent)
        requires
            old(self).wf(),
            old(self).sequencer.current() < u64::MAX,
        ensures
            final(self).wf(),
            final(self).sequencer.current() == old(self).sequencer.current() + 1,
            r.sequence == final(self).sequencer.current(),
            r.event_id@ == numbered_id("ctl"@, r.sequence),
            r.provenance == event.provenance,
            r.turn_id == event.turn_id,
            stamped(old(self).tools, final(self).tools, event.provenance.session_id, r.event_id@, event.event, r.event),
    {
        proof {
            reveal_strlit("ctl");
        }
        let (sequence, id) = self.sequencer.next("ctl");
        let mut renumbered = event;
        renumbered.event_id = id;
        renumbered.sequence = sequence;
        project_control_event(&mut self.tools, &mut renumbered);
        renumbered
    }
}

} // verus!
