//! The registry of a host that runs several sessions: which identities are
//! registered, and whether a host-wide shutdown is under way or ended. The
//! session handles themselves, and the work of shutting them down, are the
//! host's; this registry decides admissions and keeps identities in order.
use vstd::prelude::*;

use crate::keyed::{has_key, keys_sorted, store, unstore, StringMap};
use crate::runtime_session::error::RuntimeSessionError;
use crate::runtime_session::ids::RuntimeSessionId;
use crate::runtime_session::shutdown::ShutdownOutcome;
use crate::text::lex_lt;

verus! {

/// Where the host's shutdown stands.
#[derive(Clone, Copy, Debug, PartialEq, Eq, Structural)]
pub enum HostShutdown {
    /// No shutdown since the last admission.
    Idle,
    /// Sessions are being drained.
    Draining,
    /// The last drain ended with this outcome.
    Ended(ShutdownOutcome),
}

/// The identities a host has registered, kept in order.
pub struct HostRegistry {
    pub sessions: StringMap<()>,
    pub shutdown: HostShutdown,
}

impl HostRegistry {
    pub closed spec fn entries(&self) -> Seq<(String, ())> {
        self.sessions.entries()
    }

    pub open spec fn wf(&self) -> bool {
        keys_sorted(self.entries())
    }

    /// Whether `id` is registered.
    pub open spec fn holds(&self, id: Seq<char>) -> bool {
        has_key(self.entries(), id)
    }

    /// An empty host.
    pub fn new() -> (r: Self)
        ensures
            r.wf(),
            r.shutdown == HostShutdown::Idle,
            forall|id: Seq<char>| !#[trigger] r.holds(id),
    {
        HostRegistry { sessions: StringMap::new(), shutdown: HostShutdown::Idle }
    }

    /// Registers a session. Refused while a shutdown drains (`Closed`) or
    /// after one that failed (`ShutdownFailed`), and for an identity already
    /// registered (`AlreadyExists`). An admission after a completed shutdown
    /// starts afresh.
    pub fn insert(&mut self, id: &RuntimeSessionId) -> (r: Result<(), RuntimeSessionError>)
        requires
            old(self).wf(),
        ensures
            final(self).wf(),
            old(self).shutdown == HostShutdown::Draining ==> r == Err::<(), RuntimeSessionError>(
                RuntimeSessionError::Closed,
            ) && final(self).entries() == old(self).entries() && final(self).shutdown == old(self).shutdown,
            old(self).shutdown == HostShutdown::Ended(ShutdownOutcome::Failed) ==> r == Err::<
                (),
                RuntimeSessionError,
            >(RuntimeSessionError::ShutdownFailed) && final(self).entries() == old(self).entries()
                && final(self).shutdown == old(self).shutdown,
            (old(self).shutdown == HostShutdown::Idle || old(self).shutdown == HostShutdown::Ended(
                ShutdownOutcome::Complete,
            )) && old(self).holds(id@) ==> (r matches Err(RuntimeSessionError::AlreadyExists(d)) && d@ == id@)
                && final(self).entries() == old(self).entries() && final(self).shutdown == old(self).shutdown,
            (old(self).shutdown == HostShutdown::Idle || old(self).shutdown == HostShutdown::Ended(
                ShutdownOutcome::Complete,
            )) && !old(self).holds(id@) ==> r is Ok && final(self).shutdown == HostShutdown::Idle && exists|
                k: String,
            | k@ == id@ && final(self).entries() == store(old(self).entries(), k, ()),
    {
        match self.shutdown {
            HostShutdown::Draining => return Err(RuntimeSessionError::Closed),
            HostShutdown::Ended(ShutdownOutcome::Failed) => return Err(RuntimeSessionError::ShutdownFailed),
            _ => {},
        }
        proof {
            crate::keyed::lemma_has_key_index(self.entries(), id@);
        }
        if self.sessions.find(id.as_str()).is_some() {
            return Err(RuntimeSessionError::AlreadyExists(id.duplicate()));
        }
        let key = crate::text::string_from_chars(&crate::text::chars_of(id.as_str()));
        self.shutdown = HostShutdown::Idle;
        self.sessions.insert(key, ());
        Ok(())
    }

    /// Releases an identity after its session shut down.
    pub fn release(&mut self, id: &RuntimeSessionId)
        requires
            old(self).wf(),
        ensures
            final(self).wf(),
            final(self).entries() == unstore(old(self).entries(), id@),
            final(self).shutdown == old(self).shutdown,
    {
        let _ = self.sessions.remove(id.as_str());
    }

    /// The registered identities, in order.
    pub fn session_ids(&self) -> (r: Vec<RuntimeSessionId>)
        ensures
            r@.len() == self.entries().len(),
            forall|i: int| 0 <= i < r@.len() ==> (#[trigger] r@[i])@ == self.entries()[i].0@,
    {
        let keys = self.sessions.keys();
        let mut out: Vec<RuntimeSessionId> = Vec::new();
        let mut i: usize = 0;
        while i < keys.len()
            invariant
                i <= keys.len(),
                keys@.len() == self.entries().len(),
                forall|j: int| 0 <= j < keys@.len() ==> #[trigger] keys@[j] == self.entries()[j].0,
                out@.len() == i,
                forall|j: int| 0 <= j < i ==> (#[trigger] out@[j])@ == self.entries()[j].0@,
            decreases keys.len() - i,
        {
            out.push(RuntimeSessionId::new(keys[i].clone()));
            i += 1;
        }
        out
    }

    /// Starts a shutdown: true when this call starts draining (the caller
    /// drains every registered session), false when one is already under
    /// way or ended (the caller waits for, or reports, its outcome).
    pub fn begin_shutdown(&mut self) -> (started: bool)
        ensures
            started == (old(self).shutdown == HostShutdown::Idle),
            started ==> final(self).shutdown == HostShutdown::Draining,
            !started ==> final(self).shutdown == old(self).shutdown,
            final(self).entries() == old(self).entries(),
    {
        match self.shutdown {
            HostShutdown::Idle => {
                self.shutdown = HostShutdown::Draining;
                true
            },
            _ => false,
        }
    }

    /// Ends a drain with its outcome.
    pub fn finish_shutdown(&mut self, outcome: ShutdownOutcome)
        ensures
            final(self).shutdown == HostShutdown::Ended(outcome),
            final(self).entries() == old(self).entries(),
    {
        self.shutdown = HostShutdown::Ended(outcome);
    }
}

/// The identities a host lists are in order, each once.
pub proof fn law_session_ids_ordered(h: HostRegistry)
    requires
        h.wf(),
    ensures
        forall|i: int, j: int| 0 <= i < j < h.entries().len() ==> lex_lt(h.entries()[i].0@, h.entries()[j].0@),
{
}

} // verus!
