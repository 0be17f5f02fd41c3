//! Runtime-owned session capture for Nowledge Mem: which messages of a
//! session snapshot still have to be sent, the request that carries them,
//! and what a finished capture leaves behind. Sending the request is the
//! host's work; the host reports back how the send ended.
use vstd::prelude::*;

use crate::text::{copy_opt_string, decimal, push_decimal, push_str, string_from_chars};

verus! {

/// One message of a session, with the identity that deduplicates it.
#[derive(Clone, Debug, PartialEq, Eq)]
pub struct MemorySessionMessage {
    pub role: String,
    pub content: String,
    pub external_id: String,
}

/// The part of a session that is captured.
#[derive(Clone, Debug, PartialEq, Eq)]
pub struct MemorySessionSnapshot {
    pub session_id: String,
    pub workspace: String,
    pub space_id: Option<String>,
    pub agent_id: Option<String>,
    pub host_agent_id: Option<String>,
    pub messages: Vec<MemorySessionMessage>,
}

/// Why a capture runs.
#[derive(Clone, Copy, Debug, PartialEq, Eq, Structural)]
pub enum MemorySyncReason {
    TurnIdle,
    Compaction,
    Shutdown,
}

pub open spec fn sync_reason_label(r: MemorySyncReason) -> Seq<char> {
    match r {
        MemorySyncReason::TurnIdle => "turn_idle"@,
        MemorySyncReason::Compaction => "compaction"@,
        MemorySyncReason::Shutdown => "shutdown"@,
    }
}

impl MemorySyncReason {
    /// The reason's wire label.
    pub fn label(self) -> (r: &'static str)
        ensures
            r@ == sync_reason_label(self),
    {
        match self {
            MemorySyncReason::TurnIdle => {
                proof {
                    reveal_strlit("turn_idle");
                }
                "turn_idle"
            },
            MemorySyncReason::Compaction => {
                proof {
                    reveal_strlit("compaction");
                }
                "compaction"
            },
            MemorySyncReason::Shutdown => {
                proof {
                    reveal_strlit("shutdown");
                }
                "shutdown"
            },
        }
    }
}

/// The request that appends a session's new messages to its memory thread.
#[derive(Clone, Debug, PartialEq, Eq)]
pub struct MemoryAppendRequest {
    pub thread_id: String,
    pub messages: Vec<MemorySessionMessage>,
    pub idempotency_key: String,
    pub workspace: String,
    pub space_id: Option<String>,
    pub agent_id: Option<String>,
    pub host_agent_id: Option<String>,
    pub reason: MemorySyncReason,
}

/// How the host's send of a capture request ended.
#[derive(Clone, Debug, PartialEq, Eq)]
pub enum CaptureOutcome {
    Sent,
    /// The sink refused; the text describes the error.
    Failed(String),
    TimedOut,
}

/// Whether a message with identity `id` was already sent.
pub open spec fn was_sent(sent: Seq<String>, id: Seq<char>) -> bool {
    exists|i: int| 0 <= i < sent.len() && (#[trigger] sent[i])@ == id
}

/// The messages of `msgs`, in order, that were not sent yet.
pub open spec fn unsent(msgs: Seq<MemorySessionMessage>, sent: Seq<String>) -> Seq<MemorySessionMessage>
    decreases msgs.len(),
{
    if msgs.len() == 0 {
        Seq::empty()
    } else {
        let rest = unsent(msgs.drop_last(), sent);
        if was_sent(sent, msgs.last().external_id@) {
            rest
        } else {
            rest.push(msgs.last())
        }
    }
}

/// The identity of the last message of `msgs`, empty when there is none.
pub open spec fn last_id(msgs: Seq<MemorySessionMessage>) -> Seq<char> {
    if msgs.len() == 0 {
        Seq::empty()
    } else {
        msgs.last().external_id@
    }
}

/// The signature of a batch of messages: its size and last identity.
pub open spec fn batch_signature(msgs: Seq<MemorySessionMessage>) -> Seq<char> {
    decimal(msgs.len()) + ":"@ + last_id(msgs)
}

/// The memory thread of a session.
pub open spec fn session_thread_id(session_id: Seq<char>) -> Seq<char> {
    "rara-"@ + session_id
}

/// What the coordinator remembers between captures.
#[derive(Debug)]
pub struct MemoryLifecycleCoordinator {
    pub sent_external_ids: Vec<String>,
    pub last_signature: Option<String>,
}

/// Whether a capture of `snapshot` has nothing to send: no session, no
/// messages, nothing new, or the same batch as the last one.
pub open spec fn nothing_to_capture(c: MemoryLifecycleCoordinator, snapshot: MemorySessionSnapshot) -> bool {
    let u = unsent(snapshot.messages@, c.sent_external_ids@);
    ||| snapshot.session_id@.len() == 0
    ||| snapshot.messages@.len() == 0
    ||| u.len() == 0
    ||| (c.last_signature matches Some(s) && s@ == batch_signature(u))
}

fn copy_message(m: &MemorySessionMessage) -> (r: MemorySessionMessage)
    ensures
        r == *m,
{
    MemorySessionMessage {
        role: m.role.clone(),
        content: m.content.clone(),
        external_id: m.external_id.clone(),
    }
}

fn contains_id(sent: &Vec<String>, id: &String) -> (b: bool)
    ensures
        b == was_sent(sent@, id@),
{
    let mut i: usize = 0;
    while i < sent.len()
        invariant
            i <= sent.len(),
            forall|k: int| 0 <= k < i ==> (#[trigger] sent@[k])@ != id@,
        decreases sent.len() - i,
    {
        if sent[i] == *id {
            return true;
        }
        i += 1;
    }
    false
}

proof fn lemma_unsent_prefix(msgs: Seq<MemorySessionMessage>, sent: Seq<String>, i: int)
    requires
        0 <= i < msgs.len(),
    ensures
        unsent(msgs.take(i + 1), sent) == if was_sent(sent, msgs[i].external_id@) {
            unsent(msgs.take(i), sent)
        } else {
            unsent(msgs.take(i), sent).push(msgs[i])
        },
{
    assert(msgs.take(i + 1).drop_last() =~= msgs.take(i));
}

proof fn lemma_unsent_empty(msgs: Seq<MemorySessionMessage>, sent: Seq<String>)
    requires
        forall|k: int| 0 <= k < msgs.len() ==> was_sent(sent, (#[trigger] msgs[k]).external_id@),
    ensures
        unsent(msgs, sent).len() == 0,
    decreases msgs.len(),
{
    if msgs.len() > 0 {
        assert forall|k: int| 0 <= k < msgs.drop_last().len() implies was_sent(
            sent,
            (#[trigger] msgs.drop_last()[k]).external_id@,
        ) by {
            assert(msgs.drop_last()[k] == msgs[k]);
        }
        lemma_unsent_empty(msgs.drop_last(), sent);
        assert(was_sent(sent, msgs[msgs.len() - 1].external_id@));
    }
}

/// Once every message of a snapshot was sent, capturing the snapshot
/// again sends nothing.
pub proof fn law_sent_messages_are_not_sent_again(c: MemoryLifecycleCoordinator, snapshot: MemorySessionSnapshot)
    requires
        forall|k: int|
            0 <= k < snapshot.messages@.len() ==> was_sent(
                c.sent_external_ids@,
                (#[trigger] snapshot.messages@[k]).external_id@,
            ),
    ensures
        nothing_to_capture(c, snapshot),
{
    lemma_unsent_empty(snapshot.messages@, c.sent_external_ids@);
}

impl MemoryLifecycleCoordinator {
    /// A coordinator that has sent nothing.
    pub fn new() -> (r: Self)
        ensures
            r.sent_external_ids@.len() == 0,
            r.last_signature is None,
    {
        MemoryLifecycleCoordinator { sent_external_ids: Vec::new(), last_signature: None }
    }

    /// The request capturing `snapshot`: the messages not sent yet, to the
    /// session's thread, keyed by thread, reason and last message so that
    /// a repeated send is recognised. None when there is nothing to send.
    pub fn prepare_request(&self, snapshot: &MemorySessionSnapshot, reason: MemorySyncReason) -> (r: Option<
        MemoryAppendRequest,
    >)
        ensures
            r is None <==> nothing_to_capture(*self, *snapshot),
            r matches Some(q) ==> {
                &&& q.messages@ == unsent(snapshot.messages@, self.sent_external_ids@)
                &&& q.thread_id@ == session_thread_id(snapshot.session_id@)
                &&& q.idempotency_key@ == session_thread_id(snapshot.session_id@) + ":"@
                    + sync_reason_label(reason) + ":"@ + last_id(q.messages@)
                &&& q.workspace == snapshot.workspace
                &&& q.space_id == snapshot.space_id
                &&& q.agent_id == snapshot.agent_id
                &&& q.host_agent_id == snapshot.host_agent_id
                &&& q.reason == reason
            },
    {
        if crate::text::chars_of(snapshot.session_id.as_str()).len() == 0 || snapshot.messages.len() == 0 {
            return None;
        }
        let mut messages: Vec<MemorySessionMessage> = Vec::new();
        let mut i: usize = 0;
        while i < snapshot.messages.len()
            invariant
                i <= snapshot.messages.len(),
                messages@ == unsent(snapshot.messages@.take(i as int), self.sent_external_ids@),
            decreases snapshot.messages.len() - i,
        {
            proof {
                lemma_unsent_prefix(snapshot.messages@, self.sent_external_ids@, i as int);
            }
            if !contains_id(&self.sent_external_ids, &snapshot.messages[i].external_id) {
                messages.push(copy_message(&snapshot.messages[i]));
            }
            i += 1;
        }
        assert(snapshot.messages@.take(snapshot.messages.len() as int) =~= snapshot.messages@);
        if messages.len() == 0 {
            return None;
        }
        let last = messages[messages.len() - 1].external_id.clone();
        let mut sig: Vec<char> = Vec::new();
        push_decimal(&mut sig, messages.len() as u64);
        push_str(&mut sig, ":");
        push_str(&mut sig, last.as_str());
        proof {
            reveal_strlit(":");
        }
        assert(sig@ == batch_signature(messages@));
        match &self.last_signature {
            Some(s) => {
                if crate::text::eq_str(&sig, s.as_str()) {
                    return None;
                }
            },
            None => {},
        }
        let mut thread: Vec<char> = Vec::new();
        push_str(&mut thread, "rara-");
        push_str(&mut thread, snapshot.session_id.as_str());
        let mut key: Vec<char> = thread.clone();
        push_str(&mut key, ":");
        push_str(&mut key, reason.label());
        push_str(&mut key, ":");
        push_str(&mut key, last.as_str());
        proof {
            reveal_strlit("rara-");
            assert(thread@ =~= session_thread_id(snapshot.session_id@));
        }
        Some(
            MemoryAppendRequest {
                thread_id: string_from_chars(&thread),
                messages,
                idempotency_key: string_from_chars(&key),
                workspace: snapshot.workspace.clone(),
                space_id: copy_opt_string(&snapshot.space_id),
                agent_id: copy_opt_string(&snapshot.agent_id),
                host_agent_id: copy_opt_string(&snapshot.host_agent_id),
                reason,
            },
        )
    }

    /// Ends a capture of `snapshot` whose request carried `signature`. A
    /// sent capture remembers every message of the snapshot as sent and
    /// the signature as the last one; a failed or timed-out one changes
    /// nothing and is reported by a warning. Returns whether the capture
    /// succeeded, and the warning.
    pub fn complete_capture(&mut self, snapshot: &MemorySessionSnapshot, signature: String, outcome: CaptureOutcome) -> (r: (
        bool,
        Option<String>,
    ))
        ensures
            match outcome {
                CaptureOutcome::Sent => {
                    &&& r.0
                    &&& r.1 is None
                    &&& final(self).last_signature == Some(signature)
                    &&& nothing_to_capture(*final(self), *snapshot)
                    &&& forall|id: Seq<char>| #[trigger]
                        was_sent(final(self).sent_external_ids@, id) <==> (was_sent(
                            old(self).sent_external_ids@,
                            id,
                        ) || exists|k: int|
                            0 <= k < snapshot.messages@.len() && (#[trigger] snapshot.messages@[k]).external_id@
                                == id)
                },
                CaptureOutcome::Failed(e) => {
                    &&& !r.0
                    &&& r.1 matches Some(w) && w@ == "Nowledge Mem session capture failed: "@ + e@
                    &&& *final(self) == *old(self)
                },
                CaptureOutcome::TimedOut => {
                    &&& !r.0
                    &&& r.1 matches Some(w) && w@ == "Nowledge Mem session capture timed out"@
                    &&& *final(self) == *old(self)
                },
            },
    {
        match outcome {
            CaptureOutcome::Sent => {
                let mut i: usize = 0;
                let ghost before = self.sent_external_ids@;
                while i < snapshot.messages.len()
                    invariant
                        i <= snapshot.messages.len(),
                        forall|id: Seq<char>| #[trigger]
                            was_sent(self.sent_external_ids@, id) <==> (was_sent(before, id) || exists|k: int|
                                0 <= k < i && (#[trigger] snapshot.messages@[k]).external_id@ == id),
                    decreases snapshot.messages.len() - i,
                {
                    let id = snapshot.messages[i].external_id.clone();
                    let ghost old_ids = self.sent_external_ids@;
                    if !contains_id(&self.sent_external_ids, &id) {
                        self.sent_external_ids.push(id);
                        proof {
                            assert forall|x: Seq<char>| #[trigger]
                                was_sent(self.sent_external_ids@, x) <==> (was_sent(old_ids, x) || x
                                    == snapshot.messages@[i as int].external_id@) by {
                                if was_sent(old_ids, x) {
                                    let j = choose|j: int| 0 <= j < old_ids.len() && (#[trigger] old_ids[j])@ == x;
                                    assert(self.sent_external_ids@[j] == old_ids[j]);
                                }
                                if was_sent(self.sent_external_ids@, x) {
                                    let j = choose|j: int|
                                        0 <= j < self.sent_external_ids@.len() && (#[trigger] self.sent_external_ids@[j])@ == x;
                                    if j < old_ids.len() {
                                        assert(old_ids[j] == self.sent_external_ids@[j]);
                                    }
                                }
                                if x == snapshot.messages@[i as int].external_id@ {
                                    assert(self.sent_external_ids@[old_ids.len() as int]@ == x);
                                }
                            }
                        }
                    }
                    proof {
                        assert forall|x: Seq<char>| #[trigger]
                            was_sent(self.sent_external_ids@, x) <==> (was_sent(before, x) || exists|k: int|
                                0 <= k < i + 1 && (#[trigger] snapshot.messages@[k]).external_id@ == x) by {
                            if exists|k: int| 0 <= k < i + 1 && (#[trigger] snapshot.messages@[k]).external_id@ == x {
                                let k = choose|k: int| 0 <= k < i + 1 && (#[trigger] snapshot.messages@[k]).external_id@ == x;
                                if k < i {
                                    assert(exists|k2: int| 0 <= k2 < i && (#[trigger] snapshot.messages@[k2]).external_id@ == x);
                                }
                            }
                            if exists|k: int| 0 <= k < i && (#[trigger] snapshot.messages@[k]).external_id@ == x {
                                let k = choose|k: int| 0 <= k < i && (#[trigger] snapshot.messages@[k]).external_id@ == x;
                                assert(0 <= k < i + 1);
                            }
                        }
                    }
                    i += 1;
                }
                self.last_signature = Some(signature);
                proof {
                    assert forall|k: int| 0 <= k < snapshot.messages@.len() implies was_sent(
                        self.sent_external_ids@,
                        (#[trigger] snapshot.messages@[k]).external_id@,
                    ) by {
                        let id = snapshot.messages@[k].external_id@;
                        assert(exists|q: int|
                            0 <= q < snapshot.messages@.len() && (#[trigger] snapshot.messages@[q]).external_id@
                                == id);
                        assert(was_sent(self.sent_external_ids@, id));
                    }
                    law_sent_messages_are_not_sent_again(*self, *snapshot);
                }
                (true, None)
            },
            CaptureOutcome::Failed(e) => {
                let mut w: Vec<char> = Vec::new();
                push_str(&mut w, "Nowledge Mem session capture failed: ");
                push_str(&mut w, e.as_str());
                (false, Some(string_from_chars(&w)))
            },
            CaptureOutcome::TimedOut => {
                (false, Some("Nowledge Mem session capture timed out".to_owned()))
            },
        }
    }
}

/// The signature remembered for a sent request: its last message's
/// identity, empty when it has none.
pub fn capture_signature(request: &MemoryAppendRequest) -> (r: String)
    ensures
        r@ == last_id(request.messages@),
{
    if request.messages.len() == 0 {
        String::new()
    } else {
        request.messages[request.messages.len() - 1].external_id.clone()
    }
}

/// The headers of the hosted sink: with an API key, a bearer
/// authorization and the key itself; with a space, its id; then the
/// configured headers.
pub fn memory_sink_headers(api_key: Option<String>, space_id: Option<String>, configured: &Vec<(String, String)>) -> (r: Vec<
    (String, String),
>)
    ensures
        r@.map_values(|h: (String, String)| (h.0@, h.1@)) == (match api_key {
            Some(k) => seq![("Authorization"@, "Bearer "@ + k@), ("X-NMEM-API-Key"@, k@)],
            None => Seq::empty(),
        }) + (match space_id {
            Some(s) => seq![("X-Nmem-Space-Id"@, s@)],
            None => Seq::empty(),
        }) + configured@.map_values(|h: (String, String)| (h.0@, h.1@)),
{
    let mut out: Vec<(String, String)> = Vec::new();
    match api_key {
        Some(k) => {
            let mut b: Vec<char> = Vec::new();
            push_str(&mut b, "Bearer ");
            push_str(&mut b, k.as_str());
            out.push(("Authorization".to_owned(), string_from_chars(&b)));
            out.push(("X-NMEM-API-Key".to_owned(), k));
        },
        None => {},
    }
    match space_id {
        Some(s) => {
            out.push(("X-Nmem-Space-Id".to_owned(), s));
        },
        None => {},
    }
    let ghost head = out@;
    let mut i: usize = 0;
    while i < configured.len()
        invariant
            i <= configured.len(),
            out@ == head + configured@.take(i as int),
        decreases configured.len() - i,
    {
        let (n, v) = (configured[i].0.clone(), configured[i].1.clone());
        out.push((n, v));
        assert(out@ =~= head + configured@.take(i + 1));
        i += 1;
    }
    assert(configured@.take(configured.len() as int) =~= configured@);
    assert(out@.map_values(|h: (String, String)| (h.0@, h.1@)) =~= head.map_values(
        |h: (String, String)| (h.0@, h.1@),
    ) + configured@.map_values(|h: (String, String)| (h.0@, h.1@)));
    out
}

} // verus!
