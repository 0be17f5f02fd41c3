//! Protocol skill sources: the provenance bookkeeping around the skill
//! catalogue.
//!
//! The catalogue itself (registration, disabling, the catalogue listing) is
//! owned by the skill manager of the host. This registry decides what a
//! control request asks of the catalogue, records which origin registered
//! each `(source, name)` pair, and derives the events to publish once the
//! catalogue has answered.
use vstd::prelude::*;

use crate::protocol_sources::prompt::{provenance_valid, provenance_valid_exec};
use crate::runtime_control::{RuntimeProvenance, SkillEvent, SkillSourceControlRequest};
use crate::text::{copy_opt_string, lemma_lex_lt_trans, lemma_lex_order_props, lex_order, lex_order_str};

verus! {

/// Why a skill-source request was refused.
#[derive(Clone, Copy, Debug, PartialEq, Eq, Structural)]
pub enum SkillSourceError {
    Invalid,
    Unsupported,
    Capacity,
    Unavailable,
}

impl SkillSourceError {
    /// The human-readable message of the error.
    pub fn message(&self) -> (r: &'static str)
        ensures
            *self == SkillSourceError::Invalid ==> r@ == "skill source request is invalid"@,
            *self == SkillSourceError::Unsupported ==> r@ == "skill source operation is unsupported"@,
            *self == SkillSourceError::Capacity ==> r@ == "skill source capacity exceeded"@,
            *self == SkillSourceError::Unavailable ==> r@ == "skill source registry is unavailable"@,
    {
        proof {
            reveal_strlit("skill source request is invalid");
            reveal_strlit("skill source operation is unsupported");
            reveal_strlit("skill source capacity exceeded");
            reveal_strlit("skill source registry is unavailable");
        }
        match self {
            SkillSourceError::Invalid => "skill source request is invalid",
            SkillSourceError::Unsupported => "skill source operation is unsupported",
            SkillSourceError::Capacity => "skill source capacity exceeded",
            SkillSourceError::Unavailable => "skill source registry is unavailable",
        }
    }

    /// The refusal that a catalogue error becomes.
    pub fn from_catalogue(error: ProtocolSkillError) -> (r: Self)
        ensures
            r == catalogue_error(error),
    {
        match error {
            ProtocolSkillError::Invalid | ProtocolSkillError::NotFound => SkillSourceError::Invalid,
            ProtocolSkillError::Capacity => SkillSourceError::Capacity,
        }
    }
}

/// How the skill catalogue refuses a protocol registration or disable.
#[derive(Clone, Copy, Debug, PartialEq, Eq, Structural)]
pub enum ProtocolSkillError {
    Invalid,
    NotFound,
    Capacity,
}

pub open spec fn catalogue_error(e: ProtocolSkillError) -> SkillSourceError {
    match e {
        ProtocolSkillError::Capacity => SkillSourceError::Capacity,
        _ => SkillSourceError::Invalid,
    }
}

/// What a control request asks of the skill catalogue.
#[derive(Clone, Debug, PartialEq, Eq)]
pub enum SkillCatalogueCall {
    Register { source_id: String, name: String, content: String, precedence_hint: Option<i32> },
    Disable { name: String, source_id: Option<String> },
    Query,
}

/// The origin that registered a skill under `(source_id, name)`.
#[derive(Clone, Debug, PartialEq, Eq)]
pub struct SkillOrigin {
    pub source_id: String,
    pub name: String,
    pub provenance: RuntimeProvenance,
}

/// An event to publish, with the provenance and turn it is published under.
#[derive(Clone, Debug, PartialEq, Eq)]
pub struct SkillPublication {
    pub event: SkillEvent,
    pub provenance: RuntimeProvenance,
    pub turn_id: Option<String>,
}

// ---------------------------------------------------------------------------
// Key order: by source, then by name
// ---------------------------------------------------------------------------

pub open spec fn key_order(a: (Seq<char>, Seq<char>), b: (Seq<char>, Seq<char>)) -> int {
    if lex_order(a.0, b.0) != 0 {
        lex_order(a.0, b.0)
    } else {
        lex_order(a.1, b.1)
    }
}

pub open spec fn key_lt(a: (Seq<char>, Seq<char>), b: (Seq<char>, Seq<char>)) -> bool {
    key_order(a, b) < 0
}

pub open spec fn origin_key(o: SkillOrigin) -> (Seq<char>, Seq<char>) {
    (o.source_id@, o.name@)
}

pub proof fn lemma_key_order_props(a: (Seq<char>, Seq<char>), b: (Seq<char>, Seq<char>))
    ensures
        key_order(a, b) == -1 || key_order(a, b) == 0 || key_order(a, b) == 1,
        (key_order(a, b) == 0) == (a == b),
        key_order(b, a) == -key_order(a, b),
{
    lemma_lex_order_props(a.0, b.0);
    lemma_lex_order_props(a.1, b.1);
}

pub proof fn lemma_key_lt_trans(
    a: (Seq<char>, Seq<char>),
    b: (Seq<char>, Seq<char>),
    c: (Seq<char>, Seq<char>),
)
    requires
        key_lt(a, b),
        key_lt(b, c),
    ensures
        key_lt(a, c),
{
    lemma_lex_order_props(a.0, b.0);
    lemma_lex_order_props(b.0, c.0);
    lemma_lex_order_props(a.0, c.0);
    if lex_order(a.0, b.0) < 0 && lex_order(b.0, c.0) < 0 {
        lemma_lex_lt_trans(a.0, b.0, c.0);
    } else if lex_order(a.0, b.0) == 0 && lex_order(b.0, c.0) == 0 {
        lemma_lex_lt_trans(a.1, b.1, c.1);
    }
}

fn key_order_exec(s1: &String, n1: &String, s2: &String, n2: &String) -> (r: i8)
    ensures
        r as int == key_order((s1@, n1@), (s2@, n2@)),
{
    let c = lex_order_str(s1.as_str(), s2.as_str());
    if c != 0 {
        c
    } else {
        lex_order_str(n1.as_str(), n2.as_str())
    }
}

// ---------------------------------------------------------------------------
// Specification
// ---------------------------------------------------------------------------

pub open spec fn sorted_origins(s: Seq<SkillOrigin>) -> bool {
    forall|i: int, j: int| 0 <= i < j < s.len() ==> key_lt(origin_key(s[i]), origin_key(s[j]))
}

pub open spec fn origin_index_from(s: Seq<SkillOrigin>, k: (Seq<char>, Seq<char>), i: int) -> int
    decreases s.len() - i,
{
    if i < 0 || i >= s.len() {
        -1
    } else if origin_key(s[i]) == k {
        i
    } else {
        origin_index_from(s, k, i + 1)
    }
}

/// Index of the origin recorded for key `k`; -1 when none is.
pub open spec fn origin_index(s: Seq<SkillOrigin>, k: (Seq<char>, Seq<char>)) -> int {
    origin_index_from(s, k, 0)
}

pub open spec fn origin_insert_pos_from(s: Seq<SkillOrigin>, k: (Seq<char>, Seq<char>), i: int) -> int
    decreases s.len() - i,
{
    if i < 0 || i >= s.len() {
        if i < 0 { 0 } else { s.len() as int }
    } else if key_lt(k, origin_key(s[i])) {
        i
    } else {
        origin_insert_pos_from(s, k, i + 1)
    }
}

/// `s` with `o` recorded: replacing the origin of the same key, or inserted
/// in key order.
pub open spec fn record_origin(s: Seq<SkillOrigin>, o: SkillOrigin) -> Seq<SkillOrigin> {
    let k = origin_index(s, origin_key(o));
    if k >= 0 {
        s.update(k, o)
    } else {
        s.insert(origin_insert_pos_from(s, origin_key(o), 0), o)
    }
}

/// The provenance recorded for a registration: the request's, attributed to
/// the registering source.
pub open spec fn registration_origin(p: RuntimeProvenance, source_id: String) -> RuntimeProvenance {
    RuntimeProvenance { source_id: Some(source_id), ..p }
}

/// What a request asks of the catalogue, or the refusal that comes first.
pub open spec fn catalogue_call(
    available: bool,
    request: SkillSourceControlRequest,
    provenance: RuntimeProvenance,
) -> Result<SkillCatalogueCall, SkillSourceError> {
    if !provenance_valid(provenance) {
        Err(SkillSourceError::Invalid)
    } else if !available {
        Err(SkillSourceError::Unsupported)
    } else {
        match request {
            SkillSourceControlRequest::RegisterRoot { .. } => Err(SkillSourceError::Unsupported),
            SkillSourceControlRequest::RegisterSkill { source_id, name, content, precedence_hint } => Ok(
                SkillCatalogueCall::Register { source_id, name, content, precedence_hint },
            ),
            SkillSourceControlRequest::DisableSkill { name, source_id } => Ok(
                SkillCatalogueCall::Disable { name, source_id },
            ),
            SkillSourceControlRequest::QuerySkills => Ok(SkillCatalogueCall::Query),
        }
    }
}

/// Whether a disable of `name` (from `source`, when given) reaches `o`.
pub open spec fn disable_matches(o: SkillOrigin, name: Seq<char>, source: Option<String>) -> bool {
    o.name@ == name && match source {
        Some(s) => o.source_id@ == s@,
        None => true,
    }
}

/// The `Disabled` events of a disable, in key order, each under the origin
/// that registered the pair.
pub open spec fn disabled_publications(
    s: Seq<SkillOrigin>,
    name: String,
    source: Option<String>,
) -> Seq<SkillPublication>
    decreases s.len(),
{
    if s.len() == 0 {
        Seq::empty()
    } else {
        disabled_publications(s.drop_last(), name, source) + if disable_matches(
            s.last(),
            name@,
            source,
        ) {
            seq![
                SkillPublication {
                    event: SkillEvent::Disabled { source_id: s.last().source_id, name },
                    provenance: s.last().provenance,
                    turn_id: None,
                },
            ]
        } else {
            Seq::empty()
        }
    }
}

/// The origins and the events that follow an accepted catalogue call.
pub open spec fn after_catalogue(
    s: Seq<SkillOrigin>,
    request: SkillSourceControlRequest,
    provenance: RuntimeProvenance,
) -> (Seq<SkillOrigin>, Seq<SkillPublication>) {
    match request {
        SkillSourceControlRequest::RegisterSkill { source_id, name, .. } => {
            let origin = registration_origin(provenance, source_id);
            (
                record_origin(s, SkillOrigin { source_id, name, provenance: origin }),
                seq![
                    SkillPublication {
                        event: SkillEvent::Registered { source_id, name },
                        provenance: origin,
                        turn_id: None,
                    },
                ],
            )
        },
        SkillSourceControlRequest::DisableSkill { name, source_id } => (
            s,
            disabled_publications(s, name, source_id),
        ),
        _ => (s, Seq::empty()),
    }
}

// ---------------------------------------------------------------------------
// Lemmas
// ---------------------------------------------------------------------------

proof fn lemma_origin_index_props(s: Seq<SkillOrigin>, k: (Seq<char>, Seq<char>), i: int)
    requires
        0 <= i <= s.len(),
    ensures
        -1 <= origin_index_from(s, k, i) < s.len(),
        origin_index_from(s, k, i) >= 0 ==> i <= origin_index_from(s, k, i) && origin_key(
            s[origin_index_from(s, k, i)],
        ) == k,
        origin_index_from(s, k, i) < 0 ==> forall|j: int|
            i <= j < s.len() ==> origin_key(#[trigger] s[j]) != k,
    decreases s.len() - i,
{
    if i < s.len() && origin_key(s[i]) != k {
        lemma_origin_index_props(s, k, i + 1);
    }
}

proof fn lemma_origin_insert_pos_props(s: Seq<SkillOrigin>, k: (Seq<char>, Seq<char>), i: int)
    requires
        0 <= i <= s.len(),
    ensures
        i <= origin_insert_pos_from(s, k, i) <= s.len(),
        origin_insert_pos_from(s, k, i) < s.len() ==> key_lt(
            k,
            origin_key(s[origin_insert_pos_from(s, k, i)]),
        ),
        forall|j: int|
            i <= j < origin_insert_pos_from(s, k, i) ==> !key_lt(k, origin_key(#[trigger] s[j])),
    decreases s.len() - i,
{
    if i < s.len() && !key_lt(k, origin_key(s[i])) {
        lemma_origin_insert_pos_props(s, k, i + 1);
    }
}

proof fn lemma_record_origin_sorted(s: Seq<SkillOrigin>, o: SkillOrigin)
    requires
        sorted_origins(s),
    ensures
        sorted_origins(record_origin(s, o)),
{
    let k = origin_key(o);
    lemma_origin_index_props(s, k, 0);
    let idx = origin_index(s, k);
    if idx >= 0 {
        let t = s.update(idx, o);
        assert forall|i: int, j: int| 0 <= i < j < t.len() implies key_lt(
            origin_key(t[i]),
            origin_key(t[j]),
        ) by {
            assert(origin_key(t[i]) == origin_key(s[i]));
            assert(origin_key(t[j]) == origin_key(s[j]));
        }
    } else {
        lemma_origin_insert_pos_props(s, k, 0);
        let p = origin_insert_pos_from(s, k, 0);
        let t = s.insert(p, o);
        assert forall|j: int| 0 <= j < p implies key_lt(origin_key(s[j]), k) by {
            lemma_key_order_props(k, origin_key(s[j]));
        }
        assert forall|j: int| p <= j < s.len() implies key_lt(k, origin_key(s[j])) by {
            if j > p {
                lemma_key_lt_trans(k, origin_key(s[p]), origin_key(s[j]));
            }
        }
        assert forall|i: int, j: int| 0 <= i < j < t.len() implies key_lt(
            origin_key(t[i]),
            origin_key(t[j]),
        ) by {
            if i < p && j < p {
                assert(t[i] == s[i] && t[j] == s[j]);
            } else if i < p && j == p {
                assert(t[i] == s[i]);
            } else if i < p {
                assert(t[i] == s[i] && t[j] == s[j - 1]);
                lemma_key_lt_trans(origin_key(s[i]), k, origin_key(s[j - 1]));
            } else if i == p {
                assert(t[j] == s[j - 1]);
            } else {
                assert(t[i] == s[i - 1] && t[j] == s[j - 1]);
            }
        }
    }
}

/// After a skill registration the catalogue accepted, the pair is recorded
/// under the request's provenance attributed to the registering source, so a
/// later invocation of that skill is published under it.
pub proof fn law_registration_attributes_invocations(
    s: Seq<SkillOrigin>,
    source_id: String,
    name: String,
    content: String,
    precedence_hint: Option<i32>,
    provenance: RuntimeProvenance,
)
    requires
        sorted_origins(s),
    ensures
        ({
            let t = after_catalogue(
                s,
                SkillSourceControlRequest::RegisterSkill { source_id, name, content, precedence_hint },
                provenance,
            ).0;
            let k = origin_index(t, (source_id@, name@));
            &&& sorted_origins(t)
            &&& 0 <= k < t.len()
            &&& t[k].provenance == registration_origin(provenance, source_id)
        }),
{
    let o = SkillOrigin { source_id, name, provenance: registration_origin(provenance, source_id) };
    let key = origin_key(o);
    lemma_record_origin_sorted(s, o);
    lemma_origin_index_props(s, key, 0);
    let k0 = origin_index(s, key);
    if k0 < 0 {
        lemma_origin_insert_pos_props(s, key, 0);
    }
    let t = record_origin(s, o);
    let pos = if k0 >= 0 { k0 } else { origin_insert_pos_from(s, key, 0) };
    assert(t[pos] == o);
    lemma_origin_index_props(t, key, 0);
    let k = origin_index(t, key);
    if k != pos {
        if k < pos {
            assert(key_lt(origin_key(t[k]), origin_key(t[pos])));
        } else {
            assert(key_lt(origin_key(t[pos]), origin_key(t[k])));
        }
        lemma_key_order_props(key, key);
    }
}

// ---------------------------------------------------------------------------
// Registry
// ---------------------------------------------------------------------------

/// Session-owned provenance bookkeeping for protocol skills.
pub struct SkillSourceRegistry {
    available: bool,
    origins: Vec<SkillOrigin>,
}

impl SkillSourceRegistry {
    /// Whether a skill catalogue backs the registry.
    pub closed spec fn has_catalogue(&self) -> bool {
        self.available
    }

    /// The recorded origins, in key order.
    pub closed spec fn origins(&self) -> Seq<SkillOrigin> {
        self.origins@
    }

    pub open spec fn wf(&self) -> bool {
        sorted_origins(self.origins())
    }

    /// A registry backed by a skill catalogue.
    pub fn with_manager() -> (r: Self)
        ensures
            r.wf(),
            r.has_catalogue(),
            r.origins().len() == 0,
    {
        SkillSourceRegistry { available: true, origins: Vec::new() }
    }

    /// A registry without a skill catalogue: every request is unsupported.
    pub fn unavailable() -> (r: Self)
        ensures
            r.wf(),
            !r.has_catalogue(),
            r.origins().len() == 0,
    {
        SkillSourceRegistry { available: false, origins: Vec::new() }
    }

    /// Whether a skill catalogue backs the registry.
    pub fn is_available(&self) -> (b: bool)
        ensures
            b == self.has_catalogue(),
    {
        self.available
    }

    /// What `request`, arriving with `provenance`, asks of the catalogue; or
    /// the refusal, checked in order: malformed provenance labels, no
    /// catalogue, a root registration.
    pub fn catalogue_call_for(
        &self,
        request: &SkillSourceControlRequest,
        provenance: &RuntimeProvenance,
    ) -> (r: Result<SkillCatalogueCall, SkillSourceError>)
        ensures
            r == catalogue_call(self.has_catalogue(), *request, *provenance),
    {
        if !provenance_valid_exec(provenance) {
            return Err(SkillSourceError::Invalid);
        }
        if !self.available {
            return Err(SkillSourceError::Unsupported);
        }
        match request {
            SkillSourceControlRequest::RegisterRoot { .. } => Err(SkillSourceError::Unsupported),
            SkillSourceControlRequest::RegisterSkill { source_id, name, content, precedence_hint } => Ok(
                SkillCatalogueCall::Register {
                    source_id: source_id.clone(),
                    name: name.clone(),
                    content: content.clone(),
                    precedence_hint: *precedence_hint,
                },
            ),
            SkillSourceControlRequest::DisableSkill { name, source_id } => Ok(
                SkillCatalogueCall::Disable { name: name.clone(), source_id: copy_opt_string(source_id) },
            ),
            SkillSourceControlRequest::QuerySkills => Ok(SkillCatalogueCall::Query),
        }
    }

    /// Index of the origin recorded for `(source_id, name)`, or `None`.
    fn find(&self, source_id: &String, name: &String) -> (r: Option<usize>)
        ensures
            match r {
                Some(k) => k as int == origin_index(self.origins(), (source_id@, name@)),
                None => origin_index(self.origins(), (source_id@, name@)) == -1,
            },
    {
        let mut i: usize = 0;
        while i < self.origins.len()
            invariant
                i <= self.origins.len(),
                origin_index(self.origins@, (source_id@, name@)) == origin_index_from(
                    self.origins@,
                    (source_id@, name@),
                    i as int,
                ),
            decreases self.origins.len() - i,
        {
            let o = &self.origins[i];
            let c = key_order_exec(&o.source_id, &o.name, source_id, name);
            proof {
                lemma_key_order_props(origin_key(self.origins@[i as int]), (source_id@, name@));
            }
            if c == 0 {
                return Some(i);
            }
            i += 1;
        }
        None
    }

    fn insert_position(&self, source_id: &String, name: &String) -> (r: usize)
        ensures
            r as int == origin_insert_pos_from(self.origins(), (source_id@, name@), 0),
    {
        let mut i: usize = 0;
        while i < self.origins.len()
            invariant
                i <= self.origins.len(),
                origin_insert_pos_from(self.origins@, (source_id@, name@), 0)
                    == origin_insert_pos_from(self.origins@, (source_id@, name@), i as int),
            decreases self.origins.len() - i,
        {
            let o = &self.origins[i];
            if key_order_exec(source_id, name, &o.source_id, &o.name) < 0 {
                return i;
            }
            i += 1;
        }
        i
    }

    fn record(&mut self, o: SkillOrigin)
        requires
            old(self).wf(),
        ensures
            final(self).wf(),
            final(self).origins() == record_origin(old(self).origins(), o),
            final(self).has_catalogue() == old(self).has_catalogue(),
    {
        proof {
            lemma_record_origin_sorted(self.origins@, o);
            lemma_origin_index_props(self.origins@, origin_key(o), 0);
            lemma_origin_insert_pos_props(self.origins@, origin_key(o), 0);
        }
        match self.find(&o.source_id, &o.name) {
            Some(k) => {
                self.origins.set(k, o);
            },
            None => {
                let p = self.insert_position(&o.source_id, &o.name);
                self.origins.insert(p, o);
            },
        }
    }

    fn disabled_events(&self, name: &String, source: &Option<String>) -> (r: Vec<SkillPublication>)
        ensures
            r@ == disabled_publications(self.origins(), *name, *source),
    {
        let mut out: Vec<SkillPublication> = Vec::new();
        let mut i: usize = 0;
        while i < self.origins.len()
            invariant
                i <= self.origins.len(),
                out@ == disabled_publications(self.origins@.take(i as int), *name, *source),
            decreases self.origins.len() - i,
        {
            let o = &self.origins[i];
            let ghost t = self.origins@.take(i + 1);
            assert(t.drop_last() =~= self.origins@.take(i as int));
            let name_eq = lex_order_str(o.name.as_str(), name.as_str()) == 0;
            proof {
                lemma_lex_order_props(o.name@, name@);
            }
            let source_ok = match source {
                Some(s) => {
                    let c = lex_order_str(o.source_id.as_str(), s.as_str());
                    proof {
                        lemma_lex_order_props(o.source_id@, s@);
                    }
                    c == 0
                },
                None => true,
            };
            if name_eq && source_ok {
                out.push(
                    SkillPublication {
                        event: SkillEvent::Disabled {
                            source_id: o.source_id.clone(),
                            name: name.clone(),
                        },
                        provenance: o.provenance.duplicate(),
                        turn_id: None,
                    },
                );
            }
            assert(out@ =~= disabled_publications(t, *name, *source));
            i += 1;
        }
        assert(self.origins@.take(self.origins.len() as int) =~= self.origins@);
        out
    }

    /// Completes a request once the catalogue has answered `outcome` to the
    /// call that `catalogue_call_for` named. A refusal by the catalogue
    /// leaves the origins unchanged and publishes nothing; otherwise the
    /// origins and the events are those of `after_catalogue`. The catalogue
    /// listing event, published under the request's provenance, follows these
    /// events.
    pub fn complete_control(
        &mut self,
        request: &SkillSourceControlRequest,
        provenance: &RuntimeProvenance,
        outcome: Result<(), ProtocolSkillError>,
    ) -> (r: Result<Vec<SkillPublication>, SkillSourceError>)
        requires
            old(self).wf(),
        ensures
            final(self).wf(),
            final(self).has_catalogue() == old(self).has_catalogue(),
            match outcome {
                Err(e) => r == Err::<Vec<SkillPublication>, SkillSourceError>(catalogue_error(e))
                    && final(self).origins() == old(self).origins(),
                Ok(_) => r matches Ok(v) && v@ == after_catalogue(
                    old(self).origins(),
                    *request,
                    *provenance,
                ).1 && final(self).origins() == after_catalogue(
                    old(self).origins(),
                    *request,
                    *provenance,
                ).0,
            },
    {
        if let Err(e) = outcome {
            return Err(SkillSourceError::from_catalogue(e));
        }
        match request {
            SkillSourceControlRequest::RegisterSkill { source_id, name, .. } => {
                let mut origin = provenance.duplicate();
                origin.source_id = Some(source_id.clone());
                let event = SkillPublication {
                    event: SkillEvent::Registered { source_id: source_id.clone(), name: name.clone() },
                    provenance: origin.duplicate(),
                    turn_id: None,
                };
                self.record(SkillOrigin { source_id: source_id.clone(), name: name.clone(), provenance: origin });
                let mut events: Vec<SkillPublication> = Vec::new();
                events.push(event);
                Ok(events)
            },
            SkillSourceControlRequest::DisableSkill { name, source_id } => {
                Ok(self.disabled_events(name, source_id))
            },
            _ => Ok(Vec::new()),
        }
    }

    /// The `Injected` event for a skill body that the native tool has just
    /// returned, under the origin that registered it; `Unavailable` when no
    /// origin is recorded for the pair.
    pub fn record_invocation(
        &self,
        source_id: &String,
        name: &String,
        turn_id: Option<String>,
    ) -> (r: Result<SkillPublication, SkillSourceError>)
        ensures
            ({
                let k = origin_index(self.origins(), (source_id@, name@));
                &&& k < 0 ==> r == Err::<SkillPublication, SkillSourceError>(
                    SkillSourceError::Unavailable,
                )
                &&& k >= 0 ==> r == Ok::<SkillPublication, SkillSourceError>(
                    SkillPublication {
                        event: SkillEvent::Injected { source_id: *source_id, name: *name },
                        provenance: self.origins()[k].provenance,
                        turn_id,
                    },
                )
            }),
    {
        proof {
            lemma_origin_index_props(self.origins@, (source_id@, name@), 0);
        }
        match self.find(source_id, name) {
            Some(k) => Ok(
                SkillPublication {
                    event: SkillEvent::Injected { source_id: source_id.clone(), name: name.clone() },
                    provenance: self.origins[k].provenance.duplicate(),
                    turn_id,
                },
            ),
            None => Err(SkillSourceError::Unavailable),
        }
    }
}

} // verus!
