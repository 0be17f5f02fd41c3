//! Protocol source registries.
//!
//! Prompt sources, skill sources and memory records registered by external
//! protocol adapters through the control plane. The registries here keep
//! their state and say which events a request publishes; publishing them is
//! the host's part.
//!
//! - Prompts: transient (turn-limited) sources expire as turns advance;
//!   persistent sources need explicit unregistration.
//! - Skills: protocol origin recorded beside the local skill resolution path.
pub mod memory;
pub mod prompt;
pub mod skill;

use vstd::prelude::*;

use crate::keyed::{has_key, keys_sorted, store, unstore, StringMap};
use crate::runtime_control::{
    PromptSourceControlRequest, PromptSourceEvent, PromptSourceLifetime, PromptSourceRegistration,
    SkillSourceControlRequest,
};

verus! {

/// Stored entry for a protocol-registered prompt source.
#[derive(Clone, Debug, PartialEq, Eq)]
pub struct PromptSourceEntry {
    pub registration: PromptSourceRegistration,
    /// Remaining turn count (only meaningful for a `Turns` lifetime).
    pub remaining_turns: Option<u32>,
}

pub open spec fn turns_of(l: PromptSourceLifetime) -> Option<u32> {
    match l {
        PromptSourceLifetime::Turns(n) => Some(n),
        _ => None,
    }
}

pub open spec fn registered_events(s: Seq<(String, PromptSourceEntry)>) -> Seq<PromptSourceEvent> {
    s.map_values(|e: (String, PromptSourceEntry)| PromptSourceEvent::Registered { source_id: e.0 })
}

/// The sources after one turn: those whose count reached zero removed, the
/// other counts decremented.
pub open spec fn turn_advanced(s: Seq<(String, PromptSourceEntry)>) -> Seq<(String, PromptSourceEntry)>
    decreases s.len(),
{
    if s.len() == 0 {
        Seq::empty()
    } else {
        let e = s.last();
        turn_advanced(s.drop_last()) + if e.1.remaining_turns == Some(0u32) {
            Seq::<(String, PromptSourceEntry)>::empty()
        } else {
            seq![
                (
                    e.0,
                    PromptSourceEntry {
                        remaining_turns: match e.1.remaining_turns {
                            Some(n) => Some((n - 1) as u32),
                            None => None,
                        },
                        ..e.1
                    },
                ),
            ]
        }
    }
}

/// The sources that one turn drops, in key order.
pub open spec fn turn_expired(s: Seq<(String, PromptSourceEntry)>) -> Seq<String>
    decreases s.len(),
{
    if s.len() == 0 {
        Seq::empty()
    } else {
        turn_expired(s.drop_last()) + if s.last().1.remaining_turns == Some(0u32) {
            seq![s.last().0]
        } else {
            Seq::empty()
        }
    }
}

/// `events` announces each of `ids` as dropped for an expired turn limit.
pub open spec fn dropped_events(events: Seq<PromptSourceEvent>, ids: Seq<String>) -> bool {
    &&& events.len() == ids.len()
    &&& forall|i: int|
        0 <= i < events.len() ==> (#[trigger] events[i] matches PromptSourceEvent::Dropped {
            source_id,
            reason,
        } && source_id == ids[i] && reason@ == "turn limit expired"@)
}

/// `turn_advanced` keeps keys sorted: it keeps a subsequence of the entries.
proof fn lemma_turn_advanced_sorted(s: Seq<(String, PromptSourceEntry)>)
    requires
        keys_sorted(s),
    ensures
        keys_sorted(turn_advanced(s)),
        forall|j: int|
            0 <= j < turn_advanced(s).len() && s.len() > 0 ==> crate::text::lex_lt(
                (#[trigger] turn_advanced(s)[j]).0@,
                s.last().0@,
            ) || turn_advanced(s)[j].0 == s.last().0,
    decreases s.len(),
{
    if s.len() > 0 {
        let s0 = s.drop_last();
        lemma_turn_advanced_sorted(s0);
        let a0 = turn_advanced(s0);
        let a = turn_advanced(s);
        if s0.len() > 0 {
            assert forall|j: int| 0 <= j < a0.len() implies crate::text::lex_lt(
                (#[trigger] a0[j]).0@,
                s.last().0@,
            ) by {
                assert(crate::text::lex_lt(s0.last().0@, s.last().0@));
                if a0[j].0 != s0.last().0 {
                    crate::text::lemma_lex_lt_trans(a0[j].0@, s0.last().0@, s.last().0@);
                }
            }
        }
        assert forall|i: int, j: int| 0 <= i < j < a.len() implies crate::text::lex_lt(
            a[i].0@,
            a[j].0@,
        ) by {
            if j < a0.len() {
                assert(a[i] == a0[i] && a[j] == a0[j]);
            } else {
                assert(a[i] == a0[i]);
                assert(a[j].0 == s.last().0);
            }
        }
        assert forall|j: int| 0 <= j < a.len() implies crate::text::lex_lt(
            (#[trigger] a[j]).0@,
            s.last().0@,
        ) || a[j].0 == s.last().0 by {
            if j < a0.len() {
                assert(a[j] == a0[j]);
            }
        }
    }
}

/// Registry for protocol-registered prompt sources, keyed by source id.
pub struct PromptSourceRegistry {
    sources: StringMap<PromptSourceEntry>,
}

impl PromptSourceRegistry {
    /// The registered sources, in source-id order.
    pub closed spec fn sources(&self) -> Seq<(String, PromptSourceEntry)> {
        self.sources.entries()
    }

    pub closed spec fn wf(&self) -> bool {
        self.sources.wf()
    }

    pub fn new() -> (r: Self)
        ensures
            r.wf(),
            r.sources().len() == 0,
    {
        PromptSourceRegistry { sources: StringMap::new() }
    }

    /// Applies a control request and returns the events it publishes:
    /// a registration stores (or replaces) the source; an unregistration
    /// removes it, announced only when it was there; a query announces every
    /// source in order.
    pub fn handle_control(&mut self, request: &PromptSourceControlRequest) -> (r: Vec<
        PromptSourceEvent,
    >)
        requires
            old(self).wf(),
        ensures
            final(self).wf(),
            match *request {
                PromptSourceControlRequest::Register(reg) => final(self).sources() == store(
                    old(self).sources(),
                    reg.source_id,
                    PromptSourceEntry { registration: reg, remaining_turns: turns_of(reg.lifetime) },
                ) && r@ == seq![PromptSourceEvent::Registered { source_id: reg.source_id }],
                PromptSourceControlRequest::Unregister { source_id } => final(self).sources()
                    == unstore(old(self).sources(), source_id@) && r@ == if has_key(
                    old(self).sources(),
                    source_id@,
                ) {
                    seq![PromptSourceEvent::Unregistered { source_id }]
                } else {
                    Seq::empty()
                },
                PromptSourceControlRequest::QuerySources => final(self).sources() == old(
                    self,
                ).sources() && r@ == registered_events(old(self).sources()),
            },
    {
        let mut events: Vec<PromptSourceEvent> = Vec::new();
        match request {
            PromptSourceControlRequest::Register(registration) => {
                let turns = match registration.lifetime {
                    PromptSourceLifetime::Turns(n) => Some(n),
                    _ => None,
                };
                self.sources.insert(
                    registration.source_id.clone(),
                    PromptSourceEntry { registration: registration.duplicate(), remaining_turns: turns },
                );
                events.push(PromptSourceEvent::Registered { source_id: registration.source_id.clone() });
            },
            PromptSourceControlRequest::Unregister { source_id } => {
                proof {
                    crate::keyed::lemma_has_key_index(self.sources.entries(), source_id@);
                }
                let removed = self.sources.remove(source_id.as_str());
                if removed.is_some() {
                    events.push(PromptSourceEvent::Unregistered { source_id: source_id.clone() });
                }
            },
            PromptSourceControlRequest::QuerySources => {
                let n = self.sources.len();
                let mut i: usize = 0;
                while i < n
                    invariant
                        n == self.sources.entries().len(),
                        i <= n,
                        events@ == registered_events(self.sources.entries().take(i as int)),
                    decreases n - i,
                {
                    let e = self.sources.entry(i);
                    events.push(PromptSourceEvent::Registered { source_id: e.0.clone() });
                    assert(registered_events(self.sources.entries().take(i + 1)) =~= registered_events(
                        self.sources.entries().take(i as int),
                    ).push(PromptSourceEvent::Registered { source_id: e.0 }));
                    i += 1;
                }
                assert(self.sources.entries().take(n as int) =~= self.sources.entries());
            },
        }
        events
    }

    /// Counts every turn-limited source down by one turn. Sources whose count
    /// was already zero are removed and announced as dropped, in key order.
    pub fn advance_turn(&mut self) -> (r: Vec<PromptSourceEvent>)
        requires
            old(self).wf(),
        ensures
            final(self).wf(),
            final(self).sources() == turn_advanced(old(self).sources()),
            dropped_events(r@, turn_expired(old(self).sources())),
    {
        let ghost s = self.sources.entries();
        proof {
            lemma_turn_advanced_sorted(s);
        }
        let mut kept_entries: Vec<(String, PromptSourceEntry)> = Vec::new();
        let mut events: Vec<PromptSourceEvent> = Vec::new();
        let n = self.sources.len();
        let mut i: usize = 0;
        while i < n
            invariant
                n == s.len(),
                self.sources.entries() == s,
                i <= n,
                kept_entries@ == turn_advanced(s.take(i as int)),
                dropped_events(events@, turn_expired(s.take(i as int))),
            decreases n - i,
        {
            let e = self.sources.entry(i);
            let ghost t = s.take(i + 1);
            assert(t.drop_last() =~= s.take(i as int));
            match e.1.remaining_turns {
                Some(0) => {
                    events.push(
                        PromptSourceEvent::Dropped {
                            source_id: e.0.clone(),
                            reason: "turn limit expired".to_owned(),
                        },
                    );
                    proof {
                        reveal_strlit("turn limit expired");
                    }
                    assert(turn_expired(t) =~= turn_expired(s.take(i as int)).push(e.0));
                },
                _ => {
                    let remaining = match e.1.remaining_turns {
                        Some(k) => Some(k - 1),
                        None => None,
                    };
                    kept_entries.push(
                        (
                            e.0.clone(),
                            PromptSourceEntry {
                                registration: e.1.registration.duplicate(),
                                remaining_turns: remaining,
                            },
                        ),
                    );
                    assert(turn_expired(t) =~= turn_expired(s.take(i as int)));
                },
            }
            assert(kept_entries@ =~= turn_advanced(t));
            i += 1;
        }
        assert(s.take(n as int) =~= s);
        let kept = StringMap::from_sorted(kept_entries);
        self.sources = kept;
        events
    }

    /// The registered sources, in source-id order.
    pub fn list_sources(&self) -> (r: Vec<PromptSourceRegistration>)
        ensures
            r@.len() == self.sources().len(),
            forall|i: int| 0 <= i < r@.len() ==> #[trigger] r@[i] == self.sources()[i].1.registration,
    {
        let mut r: Vec<PromptSourceRegistration> = Vec::new();
        let n = self.sources.len();
        let mut i: usize = 0;
        while i < n
            invariant
                n == self.sources.entries().len(),
                i <= n,
                r@.len() == i,
                forall|j: int| 0 <= j < i ==> #[trigger] r@[j] == self.sources.entries()[j].1.registration,
            decreases n - i,
        {
            r.push(self.sources.entry(i).1.registration.duplicate());
            i += 1;
        }
        r
    }
}

impl PromptSourceEntry {
    /// A field-for-field copy.
    pub fn clone_entry(&self) -> (r: Self)
        ensures
            r == *self,
    {
        PromptSourceEntry {
            registration: self.registration.duplicate(),
            remaining_turns: self.remaining_turns,
        }
    }
}

/// Stored entry for a protocol-registered skill or skill root.
#[derive(Clone, Debug, PartialEq, Eq)]
pub struct SkillSourceEntry {
    pub source_id: String,
    pub precedence_hint: Option<i32>,
}

/// Registry of protocol-registered skill roots and inline skills: the
/// protocol-origin metadata beside the local skill discovery path.
pub struct SkillSourceRegistry {
    roots: StringMap<SkillSourceEntry>,
    skills: StringMap<SkillSourceEntry>,
    disabled: Vec<String>,
}

impl SkillSourceRegistry {
    /// Registered skill roots, keyed by source id.
    pub closed spec fn roots(&self) -> Seq<(String, SkillSourceEntry)> {
        self.roots.entries()
    }

    /// Registered inline skills, keyed by skill name.
    pub closed spec fn skills(&self) -> Seq<(String, SkillSourceEntry)> {
        self.skills.entries()
    }

    /// Disabled skill names, in the order they were disabled.
    pub closed spec fn disabled(&self) -> Seq<String> {
        self.disabled@
    }

    pub closed spec fn wf(&self) -> bool {
        self.roots.wf() && self.skills.wf()
    }

    pub fn new() -> (r: Self)
        ensures
            r.wf(),
            r.roots().len() == 0,
            r.skills().len() == 0,
            r.disabled().len() == 0,
    {
        SkillSourceRegistry { roots: StringMap::new(), skills: StringMap::new(), disabled: Vec::new() }
    }

    /// Applies a control request and returns the events it publishes: only a
    /// query publishes, one `Registered` event per root and then per skill,
    /// each in key order.
    pub fn handle_control(&mut self, request: &SkillSourceControlRequest) -> (r: Vec<
        PromptSourceEvent,
    >)
        requires
            old(self).wf(),
        ensures
            final(self).wf(),
            match *request {
                SkillSourceControlRequest::RegisterRoot { source_id, precedence_hint, .. } => {
                    &&& final(self).roots() == store(
                        old(self).roots(),
                        source_id,
                        SkillSourceEntry { source_id, precedence_hint },
                    )
                    &&& final(self).skills() == old(self).skills()
                    &&& final(self).disabled() == old(self).disabled()
                    &&& r@.len() == 0
                },
                SkillSourceControlRequest::RegisterSkill { source_id, name, precedence_hint, .. } => {
                    &&& final(self).skills() == store(
                        old(self).skills(),
                        name,
                        SkillSourceEntry { source_id, precedence_hint },
                    )
                    &&& final(self).roots() == old(self).roots()
                    &&& final(self).disabled() == old(self).disabled()
                    &&& r@.len() == 0
                },
                SkillSourceControlRequest::DisableSkill { name, .. } => {
                    &&& final(self).disabled() == old(self).disabled().push(name)
                    &&& final(self).roots() == old(self).roots()
                    &&& final(self).skills() == old(self).skills()
                    &&& r@.len() == 0
                },
                SkillSourceControlRequest::QuerySkills => {
                    &&& final(self).roots() == old(self).roots()
                    &&& final(self).skills() == old(self).skills()
                    &&& final(self).disabled() == old(self).disabled()
                    &&& r@ == registered_keys(old(self).roots()) + registered_keys(
                        old(self).skills(),
                    )
                },
            },
    {
        let mut events: Vec<PromptSourceEvent> = Vec::new();
        match request {
            SkillSourceControlRequest::RegisterRoot { source_id, precedence_hint, .. } => {
                self.roots.insert(
                    source_id.clone(),
                    SkillSourceEntry { source_id: source_id.clone(), precedence_hint: *precedence_hint },
                );
            },
            SkillSourceControlRequest::RegisterSkill { source_id, name, precedence_hint, .. } => {
                self.skills.insert(
                    name.clone(),
                    SkillSourceEntry { source_id: source_id.clone(), precedence_hint: *precedence_hint },
                );
            },
            SkillSourceControlRequest::DisableSkill { name, .. } => {
                self.disabled.push(name.clone());
            },
            SkillSourceControlRequest::QuerySkills => {
                let roots = self.roots.keys();
                let skills = self.skills.keys();
                push_registered(&mut events, &roots);
                push_registered(&mut events, &skills);
                assert(roots@.map_values(|id: String| PromptSourceEvent::Registered { source_id: id })
                    =~= registered_keys(self.roots.entries()));
                assert(skills@.map_values(|id: String| PromptSourceEvent::Registered { source_id: id })
                    =~= registered_keys(self.skills.entries()));
                assert(events@ =~= registered_keys(self.roots.entries()) + registered_keys(
                    self.skills.entries(),
                ));
            },
        }
        events
    }
}

/// One `Registered` event per key, in order, naming the key.
pub open spec fn registered_keys<V>(s: Seq<(String, V)>) -> Seq<PromptSourceEvent> {
    s.map_values(|e: (String, V)| PromptSourceEvent::Registered { source_id: e.0 })
}

fn push_registered(events: &mut Vec<PromptSourceEvent>, ids: &Vec<String>)
    ensures
        final(events)@ == old(events)@ + ids@.map_values(
            |id: String| PromptSourceEvent::Registered { source_id: id },
        ),
{
    let ghost start = events@;
    let mut i: usize = 0;
    while i < ids.len()
        invariant
            i <= ids.len(),
            events@ == start + ids@.take(i as int).map_values(
                |id: String| PromptSourceEvent::Registered { source_id: id },
            ),
        decreases ids.len() - i,
    {
        events.push(PromptSourceEvent::Registered { source_id: ids[i].clone() });
        assert(ids@.take(i + 1).map_values(|id: String| PromptSourceEvent::Registered { source_id: id })
            =~= ids@.take(i as int).map_values(
            |id: String| PromptSourceEvent::Registered { source_id: id },
        ).push(PromptSourceEvent::Registered { source_id: ids@[i as int] }));
        i += 1;
    }
    assert(ids@.take(ids.len() as int) =~= ids@);
}

} // verus!
