//! MCP connection management: the per-server state machine.
//!
//! - Per server: `Configured → Connecting → Connected → Disconnected`.
//! - Refresh: compares the registry against the tracked servers; added and
//!   changed configurations start connecting, removed ones are disconnected.
//! - Reconnect: exponential backoff (1 s, 2 s, 4 s, … capped at 64 s).
//!
//! Each operation returns the events to publish, in order.
use vstd::prelude::*;

use crate::config::{config_eq, lemma_config_eq_equivalence, McpRegistry, SourcedMcpServerConfig};
use crate::mcp_status::{is_server_status, McpConnectionState, McpStatusSnapshot};
use crate::runtime_control::McpEvent;
use crate::text::{lemma_lex_order_props, lex_order_str};

verus! {

/// MCP control requests.
#[derive(Clone, Debug, PartialEq, Eq)]
pub enum McpControlRequest {
    QueryStatus,
    Refresh { server_name: Option<String> },
    Reconnect { server_name: String },
}

/// Per-server tracking.
#[derive(Clone, Debug)]
pub struct McpServerEntry {
    pub config: SourcedMcpServerConfig,
    pub state: McpConnectionState,
    /// Consecutive connection failures, for the backoff.
    pub consecutive_failures: u32,
}

/// The reconnect backoff after `failures` consecutive failures, in
/// seconds: doubling from 1, capped at 64.
pub open spec fn backoff_secs(failures: u32) -> u64 {
    if failures == 0 {
        1
    } else if failures == 1 {
        2
    } else if failures == 2 {
        4
    } else if failures == 3 {
        8
    } else if failures == 4 {
        16
    } else if failures == 5 {
        32
    } else {
        64
    }
}

impl McpServerEntry {
    /// The backoff before the next attempt, in seconds.
    pub fn backoff_duration(&self) -> (secs: u64)
        ensures
            secs == backoff_secs(self.consecutive_failures),
    {
        let n: u32 = if self.consecutive_failures < 6 {
            self.consecutive_failures
        } else {
            6
        };
        let mut secs: u64 = 1;
        let mut k: u32 = 0;
        while k < n
            invariant
                n <= 6,
                k <= n,
                secs == backoff_secs(k),
                n == (if self.consecutive_failures < 6 { self.consecutive_failures } else { 6 }),
            decreases n - k,
        {
            secs = secs * 2;
            k += 1;
        }
        secs
    }

    /// The longest backoff, in seconds.
    pub fn max_backoff() -> (secs: u64)
        ensures
            secs == 64,
    {
        64
    }
}

// ---------------------------------------------------------------------------
// Model
// ---------------------------------------------------------------------------

/// Whether the registry configures a server named `name`.
pub open spec fn in_registry(reg: Seq<(String, SourcedMcpServerConfig)>, name: Seq<char>) -> bool {
    exists|i: int| 0 <= i < reg.len() && (#[trigger] reg[i]).0@ == name
}

/// Index of the first entry named `name`; -1 when none is.
pub open spec fn first_named(es: Seq<(String, McpServerEntry)>, name: Seq<char>, i: int) -> int
    decreases es.len() - i,
{
    if i < 0 || i >= es.len() {
        -1
    } else if es[i].0@ == name {
        i
    } else {
        first_named(es, name, i + 1)
    }
}

/// Two entry lists agree: same names, states and failure counts, the same
/// configurations field by field, from the same files.
pub open spec fn entries_agree(a: Seq<(String, McpServerEntry)>, b: Seq<(String, McpServerEntry)>) -> bool {
    &&& a.len() == b.len()
    &&& forall|i: int|
        0 <= i < a.len() ==> {
            &&& (#[trigger] a[i]).0@ == b[i].0@
            &&& a[i].1.state == b[i].1.state
            &&& a[i].1.consecutive_failures == b[i].1.consecutive_failures
            &&& config_eq(a[i].1.config.config, b[i].1.config.config)
            &&& a[i].1.config.source == b[i].1.config.source
        }
}

/// A state-change event, by server name.
pub open spec fn is_state_change(e: McpEvent, name: Seq<char>, state: McpConnectionState) -> bool {
    e matches McpEvent::ServerStateChanged { server_name, state: s } && server_name@ == name && s
        == state
}

/// `events` announce `changes`, one state change each, in order.
pub open spec fn announces(events: Seq<McpEvent>, changes: Seq<(Seq<char>, McpConnectionState)>) -> bool {
    events.len() == changes.len() && forall|i: int|
        0 <= i < events.len() ==> is_state_change(#[trigger] events[i], changes[i].0, changes[i].1)
}

/// Servers no longer configured: their state changes to `Disconnected`.
pub open spec fn removed_changes(
    es: Seq<(String, McpServerEntry)>,
    reg: Seq<(String, SourcedMcpServerConfig)>,
) -> Seq<(Seq<char>, McpConnectionState)>
    decreases es.len(),
{
    if es.len() == 0 {
        Seq::empty()
    } else {
        removed_changes(es.drop_last(), reg) + if in_registry(reg, es.last().0@) {
            Seq::empty()
        } else {
            seq![(es.last().0@, McpConnectionState::Disconnected)]
        }
    }
}

pub open spec fn retained(
    es: Seq<(String, McpServerEntry)>,
    reg: Seq<(String, SourcedMcpServerConfig)>,
) -> Seq<(String, McpServerEntry)>
    decreases es.len(),
{
    if es.len() == 0 {
        Seq::empty()
    } else {
        retained(es.drop_last(), reg) + if in_registry(reg, es.last().0@) {
            seq![es.last()]
        } else {
            Seq::empty()
        }
    }
}

/// After the first `k` registry servers: a configured server whose first
/// tracked entry has the same configuration is left as it is; any other is
/// appended as a new `Connecting` entry and announced.
pub open spec fn reconciled(
    es: Seq<(String, McpServerEntry)>,
    reg: Seq<(String, SourcedMcpServerConfig)>,
    k: int,
) -> (Seq<(String, McpServerEntry)>, Seq<(Seq<char>, McpConnectionState)>)
    decreases k,
{
    if k <= 0 || k > reg.len() {
        (es, Seq::empty())
    } else {
        let prev = reconciled(es, reg, k - 1);
        let (name, cfg) = reg[k - 1];
        let i = first_named(prev.0, name@, 0);
        if i >= 0 && config_eq(prev.0[i].1.config.config, cfg.config) {
            prev
        } else {
            (
                prev.0.push(
                    (
                        name,
                        McpServerEntry {
                            config: cfg,
                            state: McpConnectionState::Connecting,
                            consecutive_failures: 0,
                        },
                    ),
                ),
                prev.1.push((name@, McpConnectionState::Connecting)),
            )
        }
    }
}

proof fn lemma_first_named_props(es: Seq<(String, McpServerEntry)>, name: Seq<char>, i: int)
    requires
        0 <= i <= es.len(),
    ensures
        -1 <= first_named(es, name, i) < es.len(),
        first_named(es, name, i) >= 0 ==> i <= first_named(es, name, i) && es[first_named(
            es,
            name,
            i,
        )].0@ == name,
        first_named(es, name, i) < 0 ==> forall|j: int| i <= j < es.len() ==> (#[trigger] es[j]).0@ != name,
        forall|j: int| i <= j < first_named(es, name, i) ==> (#[trigger] es[j]).0@ != name,
    decreases es.len() - i,
{
    if i < es.len() && es[i].0@ != name {
        lemma_first_named_props(es, name, i + 1);
    }
}

/// In agreeing entry lists, the first entry of a name is at the same place.
proof fn lemma_first_named_agree(
    a: Seq<(String, McpServerEntry)>,
    b: Seq<(String, McpServerEntry)>,
    name: Seq<char>,
    i: int,
)
    requires
        entries_agree(a, b),
        0 <= i <= a.len(),
    ensures
        first_named(a, name, i) == first_named(b, name, i),
    decreases a.len() - i,
{
    if i < a.len() {
        assert(a[i].0@ == b[i].0@);
        lemma_first_named_agree(a, b, name, i + 1);
    }
}

/// Whether a reconnect of `name` leaves its failure count and attempt
/// number within `u32`.
pub open spec fn reconnect_fits(es: Seq<(String, McpServerEntry)>, name: Seq<char>) -> bool {
    let i = first_named(es, name, 0);
    i >= 0 ==> es[i].1.consecutive_failures < u32::MAX - 1
}

/// What a reconnect of `name` does to the entries `es` (now `after`) and
/// announces: nothing for an untracked server; otherwise the first entry of
/// that name counts one more failure and is `Reconnecting`, announced by a
/// reconnect event (attempt number, backoff in milliseconds) and the state
/// change.
pub open spec fn reconnect_result(
    es: Seq<(String, McpServerEntry)>,
    after: Seq<(String, McpServerEntry)>,
    name: Seq<char>,
    events: Seq<McpEvent>,
) -> bool {
    let i = first_named(es, name, 0);
    if i < 0 {
        &&& events.len() == 0
        &&& after == es
    } else {
        let f = (es[i].1.consecutive_failures + 1) as u32;
        &&& after.len() == es.len()
        &&& forall|j: int| 0 <= j < es.len() && j != i ==> #[trigger] after[j] == es[j]
        &&& after[i].0 == es[i].0
        &&& after[i].1.config == es[i].1.config
        &&& after[i].1.consecutive_failures == f
        &&& after[i].1.state == McpConnectionState::Reconnecting
        &&& events.len() == 2
        &&& events[0] matches McpEvent::ServerReconnecting { server_name: n, attempt, backoff_ms } && n@
            == name && attempt == f + 1 && backoff_ms == backoff_secs(f) * 1000
        &&& is_state_change(events[1], name, McpConnectionState::Reconnecting)
    }
}

/// What reconciling the entries `es` (now `after`) with the registry
/// servers `reg` does and announces (see `McpConnectionManager::refresh`).
pub open spec fn refresh_result(
    es: Seq<(String, McpServerEntry)>,
    after: Seq<(String, McpServerEntry)>,
    reg: Seq<(String, SourcedMcpServerConfig)>,
    events: Seq<McpEvent>,
) -> bool {
    let kept = retained(es, reg);
    let rec = reconciled(kept, reg, reg.len() as int);
    &&& entries_agree(after, rec.0)
    &&& announces(events, removed_changes(es, reg) + rec.1)
}

// ---------------------------------------------------------------------------
// Manager
// ---------------------------------------------------------------------------

/// Tracks the connection state of every configured MCP server.
pub struct McpConnectionManager {
    entries: Vec<(String, McpServerEntry)>,
}

fn names_equal(a: &String, b: &str) -> (r: bool)
    ensures
        r == (a@ == b@),
{
    let c = lex_order_str(a.as_str(), b);
    proof {
        lemma_lex_order_props(a@, b@);
    }
    c == 0
}

fn registry_has(reg: &McpRegistry, name: &String) -> (r: bool)
    ensures
        r == in_registry(reg.servers@, name@),
{
    let mut i: usize = 0;
    while i < reg.servers.len()
        invariant
            i <= reg.servers.len(),
            forall|j: int| 0 <= j < i ==> (#[trigger] reg.servers@[j]).0@ != name@,
        decreases reg.servers.len() - i,
    {
        if names_equal(&reg.servers[i].0, name.as_str()) {
            assert((reg.servers@[i as int]).0@ == name@);
            return true;
        }
        i += 1;
    }
    false
}

fn state_change(name: &String, state: McpConnectionState) -> (e: McpEvent)
    ensures
        is_state_change(e, name@, state),
{
    McpEvent::ServerStateChanged { server_name: name.clone(), state }
}

fn find_named(es: &Vec<(String, McpServerEntry)>, name: &str) -> (r: Option<usize>)
    ensures
        match r {
            Some(i) => i as int == first_named(es@, name@, 0),
            None => first_named(es@, name@, 0) == -1,
        },
{
    let mut i: usize = 0;
    while i < es.len()
        invariant
            i <= es.len(),
            first_named(es@, name@, 0) == first_named(es@, name@, i as int),
        decreases es.len() - i,
    {
        if names_equal(&es[i].0, name) {
            return Some(i);
        }
        i += 1;
    }
    None
}

impl McpServerEntry {
    /// A copy: same state and failure count, the same configuration field by
    /// field, from the same file.
    pub fn duplicate(&self) -> (r: Self)
        ensures
            r.state == self.state,
            r.consecutive_failures == self.consecutive_failures,
            config_eq(r.config.config, self.config.config),
            r.config.source == self.config.source,
    {
        McpServerEntry {
            config: self.config.duplicate(),
            state: self.state,
            consecutive_failures: self.consecutive_failures,
        }
    }
}

impl McpConnectionManager {
    /// The tracked servers, in tracking order.
    pub closed spec fn entries(&self) -> Seq<(String, McpServerEntry)> {
        self.entries@
    }

    pub fn new() -> (r: Self)
        ensures
            r.entries().len() == 0,
    {
        McpConnectionManager { entries: Vec::new() }
    }

    fn find(&self, name: &str) -> (r: Option<usize>)
        ensures
            match r {
                Some(i) => i as int == first_named(self.entries(), name@, 0),
                None => first_named(self.entries(), name@, 0) == -1,
            },
    {
        find_named(&self.entries, name)
    }

    /// The consecutive connection failures of the tracked server named
    /// `name` (its first entry); none when it is not tracked.
    pub fn consecutive_failures(&self, name: &str) -> (r: Option<u32>)
        ensures
            ({
                let i = first_named(self.entries(), name@, 0);
                match r {
                    Some(f) => i >= 0 && f == self.entries()[i].1.consecutive_failures,
                    None => i < 0,
                }
            }),
    {
        match self.find(name) {
            Some(i) => {
                proof {
                    lemma_first_named_props(self.entries@, name@, 0);
                }
                Some(self.entries[i].1.consecutive_failures)
            },
            None => None,
        }
    }

    /// Reconciles the tracked servers with `registry`: servers no longer
    /// configured are dropped and announced `Disconnected` (in tracking
    /// order); then, in registry order, each configured server whose first
    /// tracked entry has the same configuration is left as it is, and every
    /// other one is appended as `Connecting` and announced.
    pub fn refresh(&mut self, registry: &McpRegistry) -> (events: Vec<McpEvent>)
        ensures
            refresh_result(old(self).entries(), final(self).entries(), registry.servers@, events@),
    {
        let ghost es = self.entries@;
        let ghost reg = registry.servers@;
        let mut events: Vec<McpEvent> = Vec::new();
        let mut kept: Vec<(String, McpServerEntry)> = Vec::new();
        let n = self.entries.len();
        let mut i: usize = 0;
        while i < n
            invariant
                n == es.len(),
                self.entries@ == es,
                i <= n,
                entries_agree(kept@, retained(es.take(i as int), reg)),
                announces(events@, removed_changes(es.take(i as int), reg)),
                reg == registry.servers@,
            decreases n - i,
        {
            let ghost t = es.take(i + 1);
            assert(t.drop_last() =~= es.take(i as int));
            assert(t.last() == es[i as int]);
            let ghost before = kept@;
            let ghost ret = retained(es.take(i as int), reg);
            if registry_has(registry, &self.entries[i].0) {
                kept.push((self.entries[i].0.clone(), self.entries[i].1.duplicate()));
                proof {
                    let r2 = retained(t, reg);
                    assert(r2 == ret.push(es[i as int]));
                    assert forall|q: int| 0 <= q < kept@.len() implies {
                        &&& (#[trigger] kept@[q]).0@ == r2[q].0@
                        &&& kept@[q].1.state == r2[q].1.state
                        &&& kept@[q].1.consecutive_failures == r2[q].1.consecutive_failures
                        &&& config_eq(kept@[q].1.config.config, r2[q].1.config.config)
                        &&& kept@[q].1.config.source == r2[q].1.config.source
                    } by {
                        if q < before.len() {
                            assert(kept@[q] == before[q]);
                            assert(r2[q] == ret[q]);
                        }
                    }
                }
            } else {
                events.push(state_change(&self.entries[i].0, McpConnectionState::Disconnected));
                assert(removed_changes(t, reg) =~= removed_changes(es.take(i as int), reg).push(
                    (es[i as int].0@, McpConnectionState::Disconnected),
                ));
            }
            i += 1;
        }
        assert(es.take(n as int) =~= es);
        let ghost kept0 = retained(es, reg);
        let ghost base = events@;
        let ghost removed = removed_changes(es, reg);
        let mut k: usize = 0;
        while k < registry.servers.len()
            invariant
                reg == registry.servers@,
                k <= reg.len(),
                entries_agree(kept@, reconciled(kept0, reg, k as int).0),
                announces(events@, removed + reconciled(kept0, reg, k as int).1),
                base.len() == removed.len(),
            decreases reg.len() - k,
        {
            let ghost prev = reconciled(kept0, reg, k as int);
            let name = &registry.servers[k].0;
            let cfg = &registry.servers[k].1;
            let found = find_named(&kept, name.as_str());
            proof {
                lemma_first_named_props(kept@, name@, 0);
                lemma_first_named_agree(kept@, prev.0, name@, 0);
            }
            let same = match found {
                Some(j) => kept[j].1.config.config.same_as(&cfg.config),
                None => false,
            };
            proof {
                let idx = first_named(kept@, name@, 0);
                if idx >= 0 {
                    assert(kept@[idx].0@ == prev.0[idx].0@);
                    lemma_config_eq_equivalence(kept@[idx].1.config.config, prev.0[idx].1.config.config, cfg.config);
                    lemma_config_eq_equivalence(prev.0[idx].1.config.config, kept@[idx].1.config.config, cfg.config);
                }
            }
            if !same {
                events.push(state_change(name, McpConnectionState::Connecting));
                let ghost before = kept@;
                kept.push(
                    (
                        name.clone(),
                        McpServerEntry {
                            config: cfg.duplicate(),
                            state: McpConnectionState::Connecting,
                            consecutive_failures: 0,
                        },
                    ),
                );
                proof {
                    let next = reconciled(kept0, reg, k + 1);
                    lemma_config_eq_equivalence(reg[k as int].1.config, reg[k as int].1.config, reg[k as int].1.config);
                    assert(next.0 == prev.0.push(
                        (
                            reg[k as int].0,
                            McpServerEntry {
                                config: reg[k as int].1,
                                state: McpConnectionState::Connecting,
                                consecutive_failures: 0,
                            },
                        ),
                    ));
                    assert forall|q: int| 0 <= q < kept@.len() implies {
                        &&& (#[trigger] kept@[q]).0@ == next.0[q].0@
                        &&& kept@[q].1.state == next.0[q].1.state
                        &&& kept@[q].1.consecutive_failures == next.0[q].1.consecutive_failures
                        &&& config_eq(kept@[q].1.config.config, next.0[q].1.config.config)
                        &&& kept@[q].1.config.source == next.0[q].1.config.source
                    } by {
                        if q < before.len() {
                            assert(kept@[q] == before[q]);
                            assert(next.0[q] == prev.0[q]);
                        }
                    }
                }
            }
            k += 1;
        }
        self.entries = kept;
        events
    }

    /// Schedules a reconnect of `server_name`: its failure count grows by
    /// one and it enters `Reconnecting`. Returns the reconnect announcement
    /// (with the attempt number and the backoff in milliseconds, capped at
    /// 64 s) followed by the state change; nothing for an untracked server.
    pub fn reconnect(&mut self, server_name: &str) -> (events: Vec<McpEvent>)
        requires
            reconnect_fits(old(self).entries(), server_name@),
        ensures
            reconnect_result(old(self).entries(), final(self).entries(), server_name@, events@),
    {
        let mut events: Vec<McpEvent> = Vec::new();
        let i = match self.find(server_name) {
            Some(i) => i,
            None => {
                return events;
            },
        };
        proof {
            lemma_first_named_props(self.entries@, server_name@, 0);
        }
        let (name, mut entry) = self.entries.remove(i);
        entry.consecutive_failures = entry.consecutive_failures + 1;
        let secs = entry.backoff_duration();
        let capped = if secs < McpServerEntry::max_backoff() {
            secs
        } else {
            McpServerEntry::max_backoff()
        };
        entry.state = McpConnectionState::Reconnecting;
        let attempt = entry.consecutive_failures + 1;
        events.push(
            McpEvent::ServerReconnecting {
                server_name: server_name.to_owned(),
                attempt,
                backoff_ms: capped * 1000,
            },
        );
        events.push(
            McpEvent::ServerStateChanged {
                server_name: server_name.to_owned(),
                state: McpConnectionState::Reconnecting,
            },
        );
        self.entries.insert(i, (name, entry));
        events
    }

    /// Answers a control request: a status query announces the registry
    /// snapshot and then every tracked server's state; a refresh of one
    /// server reconnects it, a refresh of all reconciles with the registry,
    /// either followed by `ConfigurationRefreshed`; a reconnect reconnects.
    pub fn handle_control(&mut self, request: &McpControlRequest, registry: &McpRegistry) -> (events:
        Vec<McpEvent>)
        requires
            match *request {
                McpControlRequest::Refresh { server_name: Some(n) } => reconnect_fits(old(self).entries(), n@),
                McpControlRequest::Reconnect { server_name } => reconnect_fits(old(self).entries(), server_name@),
                _ => true,
            },
        ensures
            match *request {
                McpControlRequest::QueryStatus => {
                    &&& final(self).entries() == old(self).entries()
                    &&& events@.len() == old(self).entries().len() + 1
                    &&& events@[0] matches McpEvent::StatusUpdated { snapshot }
                    &&& snapshot.servers@.len() == registry.servers@.len()
                    &&& forall|i: int|
                        0 <= i < registry.servers@.len() ==> is_server_status(
                            #[trigger] snapshot.servers@[i],
                            registry.servers@[i].0@,
                            registry.servers@[i].1,
                        )
                    &&& forall|i: int|
                        0 <= i < old(self).entries().len() ==> is_state_change(
                            #[trigger] events@[i + 1],
                            old(self).entries()[i].0@,
                            old(self).entries()[i].1.state,
                        )
                },
                McpControlRequest::Refresh { server_name: Some(n) } => {
                    &&& events@.len() > 0
                    &&& events@.last() is ConfigurationRefreshed
                    &&& reconnect_result(old(self).entries(), final(self).entries(), n@, events@.drop_last())
                },
                McpControlRequest::Refresh { server_name: None } => {
                    &&& events@.len() > 0
                    &&& events@.last() is ConfigurationRefreshed
                    &&& refresh_result(old(self).entries(), final(self).entries(), registry.servers@, events@.drop_last())
                },
                McpControlRequest::Reconnect { server_name } => reconnect_result(
                    old(self).entries(),
                    final(self).entries(),
                    server_name@,
                    events@,
                ),
            },
    {
        match request {
            McpControlRequest::QueryStatus => {
                let mut events: Vec<McpEvent> = Vec::new();
                events.push(
                    McpEvent::StatusUpdated { snapshot: McpStatusSnapshot::from_registry(registry) },
                );
                let mut i: usize = 0;
                while i < self.entries.len()
                    invariant
                        i <= self.entries.len(),
                        events@.len() == i + 1,
                        events@[0] matches McpEvent::StatusUpdated { snapshot } && snapshot.servers@.len()
                            == registry.servers@.len() && forall|k: int|
                            0 <= k < registry.servers@.len() ==> is_server_status(
                                #[trigger] snapshot.servers@[k],
                                registry.servers@[k].0@,
                                registry.servers@[k].1,
                            ),
                        forall|j: int|
                            0 <= j < i ==> is_state_change(
                                #[trigger] events@[j + 1],
                                self.entries@[j].0@,
                                self.entries@[j].1.state,
                            ),
                    decreases self.entries.len() - i,
                {
                    events.push(state_change(&self.entries[i].0, self.entries[i].1.state));
                    i += 1;
                }
                events
            },
            McpControlRequest::Refresh { server_name } => {
                let mut events = match server_name {
                    Some(name) => self.reconnect(name.as_str()),
                    None => self.refresh(registry),
                };
                let ghost before = events@;
                events.push(McpEvent::ConfigurationRefreshed);
                assert(events@.drop_last() =~= before);
                events
            },
            McpControlRequest::Reconnect { server_name } => self.reconnect(server_name.as_str()),
        }
    }
}

} // verus!
