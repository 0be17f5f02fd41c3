//! Request headers for streamable-HTTP MCP servers, and the cache of tools
//! that connected MCP servers expose, searched on demand by the model.
use vstd::prelude::*;

use crate::keyed::{has_key, key_index, keys_sorted, lemma_has_key_index, lemma_store, store, StringMap};
use crate::text::{lowercase, push_str, string_from_chars, to_lowercase};

verus! {

// ---------------------------------------------------------------------------
// HTTP header resolution
// ---------------------------------------------------------------------------

/// Header sources declared by a streamable-HTTP MCP server config. Each
/// header list is a map from name: in the order a `BTreeMap` walks it, by
/// name, with no name twice (see `sources_sorted`).
pub struct HttpHeaderSources<'a> {
    pub bearer_token_env_var: Option<&'a str>,
    /// Static headers, name to value.
    pub headers: Option<&'a Vec<(String, String)>>,
    /// Headers read from the environment, name to variable.
    pub env_headers: Option<&'a Vec<(String, String)>>,
}

/// Request headers for a streamable-HTTP MCP server, by name, plus the
/// environment variables that were unset.
#[derive(Clone, Debug, PartialEq, Eq)]
pub struct ResolvedHttpHeaders {
    pub headers: Vec<(String, String)>,
    pub missing_env_vars: Vec<String>,
}

pub open spec fn strs(s: Seq<String>) -> Seq<Seq<char>> {
    s.map_values(|x: String| x@)
}

pub open spec fn pair_views(s: Seq<(String, String)>) -> Seq<(Seq<char>, Seq<char>)> {
    s.map_values(|p: (String, String)| (p.0@, p.1@))
}

/// A header list as a map walks it: names strictly increasing.
pub open spec fn names_sorted(s: Seq<(String, String)>) -> bool {
    forall|i: int, j: int| 0 <= i < j < s.len() ==> crate::text::lex_lt(s[i].0@, s[j].0@)
}

/// Both header lists of `sources` are walked by name.
pub open spec fn sources_sorted(sources: HttpHeaderSources) -> bool {
    names_sorted(opt_pairs(sources.headers)) && names_sorted(opt_pairs(sources.env_headers))
}

pub open spec fn opt_pairs(o: Option<&Vec<(String, String)>>) -> Seq<(String, String)> {
    match o {
        Some(v) => v@,
        None => Seq::empty(),
    }
}

/// The environment variables read, in order: the bearer token's, then one
/// per environment header.
pub open spec fn lookup_vars(sources: HttpHeaderSources) -> Seq<Seq<char>> {
    (match sources.bearer_token_env_var {
        Some(v) => seq![v@],
        None => Seq::empty(),
    }) + opt_pairs(sources.env_headers).map_values(|p: (String, String)| p.1@)
}

pub open spec fn bearer_count(sources: HttpHeaderSources) -> int {
    if sources.bearer_token_env_var is Some { 1 } else { 0 }
}

/// The environment headers that were found, name and value, in order.
pub open spec fn env_assignments(env: Seq<(String, String)>, vals: Seq<Option<String>>) -> Seq<
    (Seq<char>, Seq<char>),
>
    decreases env.len(),
{
    if env.len() == 0 || vals.len() < env.len() {
        Seq::empty()
    } else {
        env_assignments(env.drop_last(), vals) + match vals[env.len() - 1] {
            Some(v) => seq![(env.last().0@, v@)],
            None => Seq::empty(),
        }
    }
}

/// The environment variables of environment headers that were unset.
pub open spec fn env_missing(env: Seq<(String, String)>, vals: Seq<Option<String>>) -> Seq<Seq<char>>
    decreases env.len(),
{
    if env.len() == 0 || vals.len() < env.len() {
        Seq::empty()
    } else {
        env_missing(env.drop_last(), vals) + match vals[env.len() - 1] {
            Some(_) => Seq::empty(),
            None => seq![env.last().1@],
        }
    }
}

/// Header assignments in priority order, lowest first: the bearer token,
/// the environment headers, the static headers. `vals` holds the values read
/// for `lookup_vars(sources)`.
pub open spec fn header_assignments(sources: HttpHeaderSources, vals: Seq<Option<String>>) -> Seq<
    (Seq<char>, Seq<char>),
> {
    let b = bearer_count(sources);
    (if b == 1 && vals.len() > 0 && vals[0] is Some {
        seq![("Authorization"@, "Bearer "@ + vals[0]->0@)]
    } else {
        Seq::empty()
    }) + env_assignments(opt_pairs(sources.env_headers), vals.skip(b)) + pair_views(
        opt_pairs(sources.headers),
    )
}

/// The unset variables: the bearer token's, then the environment headers'.
pub open spec fn missing_vars(sources: HttpHeaderSources, vals: Seq<Option<String>>) -> Seq<Seq<char>> {
    let b = bearer_count(sources);
    (if b == 1 && vals.len() > 0 && vals[0] is None {
        seq![sources.bearer_token_env_var->0@]
    } else {
        Seq::empty()
    }) + env_missing(opt_pairs(sources.env_headers), vals.skip(b))
}

/// The value last assigned to `k`, if any.
pub open spec fn last_assigned(a: Seq<(Seq<char>, Seq<char>)>, k: Seq<char>) -> Option<Seq<char>>
    decreases a.len(),
{
    if a.len() == 0 {
        None
    } else if a.last().0 == k {
        Some(a.last().1)
    } else {
        last_assigned(a.drop_last(), k)
    }
}

/// `headers` holds, in name order, each assigned name with the value last
/// assigned to it, and nothing else.
pub open spec fn holds_last_assignments(
    headers: Seq<(String, String)>,
    a: Seq<(Seq<char>, Seq<char>)>,
) -> bool {
    &&& keys_sorted(headers)
    &&& forall|k: Seq<char>| #[trigger] has_key(headers, k) <==> last_assigned(a, k) is Some
    &&& forall|i: int|
        0 <= i < headers.len() ==> last_assigned(a, (#[trigger] headers[i]).0@) == Some(
            headers[i].1@,
        )
}

pub open spec fn resolved_as(
    r: ResolvedHttpHeaders,
    sources: HttpHeaderSources,
    vals: Seq<Option<String>>,
) -> bool {
    &&& holds_last_assignments(r.headers@, header_assignments(sources, vals))
    &&& strs(r.missing_env_vars@) == missing_vars(sources, vals)
}

/// `f` may have answered `v` when asked for variable `var`.
pub open spec fn env_answer<F: Fn(&str) -> Option<String>>(f: F, var: Seq<char>, v: Option<String>) -> bool {
    exists|a: &str| a@ == var && #[trigger] call_ensures(f, (a,), v)
}

/// Headers being assembled: stores `(k, v)` and keeps track of the
/// assignments made so far.
pub fn assign_header(
    m: &mut StringMap<String>,
    k: String,
    v: String,
    Ghost(a): Ghost<Seq<(Seq<char>, Seq<char>)>>,
)
    requires
        old(m).wf(),
        holds_last_assignments(old(m).entries(), a),
    ensures
        final(m).wf(),
        holds_last_assignments(final(m).entries(), a.push((k@, v@))),
{
    let ghost s = m.entries();
    let ghost a2 = a.push((k@, v@));
    m.insert(k, v);
    proof {
        let t = m.entries();
        assert(a2.drop_last() =~= a);
        assert forall|q: Seq<char>| #[trigger] has_key(t, q) <==> last_assigned(a2, q) is Some by {
            lemma_store(s, k, v, q);
        }
        assert forall|i: int| 0 <= i < t.len() implies last_assigned(a2, (#[trigger] t[i]).0@)
            == Some(t[i].1@) by {
            let q = t[i].0@;
            lemma_store(s, k, v, q);
            crate::keyed::lemma_key_index_props(t, q, 0);
            assert(has_key(t, q));
            lemma_has_key_index(t, q);
            let j = key_index(t, q);
            if j != i {
                if j < i {
                    assert(crate::text::lex_lt(t[j].0@, t[i].0@));
                } else {
                    assert(crate::text::lex_lt(t[i].0@, t[j].0@));
                }
                crate::text::lemma_lex_order_props(q, q);
            }
            if q != k@ {
                lemma_has_key_index(s, q);
                let si = key_index(s, q);
                crate::keyed::lemma_key_index_props(s, q, 0);
                assert(last_assigned(a, s[si].0@) == Some(s[si].1@));
            }
        }
    }
}

/// Resolves the request headers of a streamable-HTTP MCP server from the
/// values `vals` read for `lookup_vars(sources)` (in that order).
///
/// Header-name priority from lowest to highest is the bearer token, the
/// environment headers, then the static headers, so an explicit static
/// header always wins over a value read from the environment. The bearer
/// token is sent as `Authorization: Bearer <token>`.
pub fn resolve_http_headers_from(sources: &HttpHeaderSources, vals: &Vec<Option<String>>) -> (r:
    ResolvedHttpHeaders)
    requires
        sources_sorted(*sources),
        vals@.len() == lookup_vars(*sources).len(),
    ensures
        resolved_as(r, *sources, vals@),
{
    let mut m: StringMap<String> = StringMap::new();
    let mut missing: Vec<String> = Vec::new();
    let ghost mut a: Seq<(Seq<char>, Seq<char>)> = Seq::empty();
    let mut next: usize = 0;
    proof {
        reveal_strlit("Authorization");
        reveal_strlit("Bearer ");
    }
    if let Some(var) = sources.bearer_token_env_var {
        match &vals[0] {
            Some(token) => {
                let mut value: Vec<char> = Vec::new();
                push_str(&mut value, "Bearer ");
                push_str(&mut value, token.as_str());
                let value = string_from_chars(&value);
                assign_header(&mut m, "Authorization".to_owned(), value, Ghost(a));
                proof {
                    a = a.push(("Authorization"@, "Bearer "@ + token@));
                }
            },
            None => {
                missing.push(var.to_owned());
            },
        }
        next = 1;
    }
    let ghost b = next as int;
    let ghost head = a;
    let ghost missing_head = strs(missing@);
    assert(b == bearer_count(*sources));
    if let Some(env) = sources.env_headers {
        let mut i: usize = 0;
        while i < env.len()
            invariant
                m.wf(),
                b == bearer_count(*sources),
                0 <= b <= 1,
                next as int == b,
                sources.env_headers == Some(env),
                vals@.len() == b + env@.len(),
                i <= env.len(),
                a == head + env_assignments(env@.take(i as int), vals@.skip(b)),
                holds_last_assignments(m.entries(), a),
                strs(missing@) == missing_head + env_missing(env@.take(i as int), vals@.skip(b)),
            decreases env.len() - i,
        {
            let ghost t = env@.take(i + 1);
            assert(t.drop_last() =~= env@.take(i as int));
            assert(vals@.skip(b)[i as int] == vals@[b + i]);
            match &vals[next + i] {
                Some(v) => {
                    assign_header(&mut m, env[i].0.clone(), v.clone(), Ghost(a));
                    proof {
                        a = a.push((env@[i as int].0@, v@));
                    }
                    assert(a =~= head + env_assignments(t, vals@.skip(b)));
                    assert(strs(missing@) =~= missing_head + env_missing(t, vals@.skip(b)));
                },
                None => {
                    let ghost before = missing@;
                    missing.push(env[i].1.clone());
                    assert(strs(missing@) =~= strs(before).push(env@[i as int].1@));
                    assert(t.last() == env@[i as int]);
                    assert(env_missing(t, vals@.skip(b)) =~= env_missing(env@.take(i as int), vals@.skip(b)).push(env@[i as int].1@));
                    assert(a =~= head + env_assignments(t, vals@.skip(b)));
                    assert(strs(missing@) =~= missing_head + env_missing(t, vals@.skip(b)));
                },
            }
            i += 1;
        }
        assert(env@.take(env.len() as int) =~= env@);
    }
    let ghost mid = a;
    assert(mid == head + env_assignments(opt_pairs(sources.env_headers), vals@.skip(b)));
    if let Some(statics) = sources.headers {
        let mut i: usize = 0;
        while i < statics.len()
            invariant
                m.wf(),
                sources.headers == Some(statics),
                i <= statics.len(),
                a == mid + pair_views(statics@.take(i as int)),
                holds_last_assignments(m.entries(), a),
            decreases statics.len() - i,
        {
            assign_header(&mut m, statics[i].0.clone(), statics[i].1.clone(), Ghost(a));
            proof {
                a = a.push((statics@[i as int].0@, statics@[i as int].1@));
            }
            assert(pair_views(statics@.take(i + 1)) =~= pair_views(statics@.take(i as int)).push(
                (statics@[i as int].0@, statics@[i as int].1@),
            ));
            assert(a =~= mid + pair_views(statics@.take(i + 1)));
            i += 1;
        }
        assert(statics@.take(statics.len() as int) =~= statics@);
    }
    assert(a =~= header_assignments(*sources, vals@));
    assert(strs(missing@) =~= missing_vars(*sources, vals@)) by {
        assert(missing_head =~= (if b == 1 && vals@[0] is None {
            seq![sources.bearer_token_env_var->0@]
        } else {
            Seq::empty()
        }));
    }
    ResolvedHttpHeaders { headers: m.into_entries(), missing_env_vars: missing }
}

/// Resolves the request headers of a streamable-HTTP MCP server, reading
/// each variable of `lookup_vars(sources)` once, in order, through
/// `lookup_env`. The headers are those `resolve_http_headers_from` gives for
/// the values that came back, whatever they were.
pub fn resolve_http_headers<F: Fn(&str) -> Option<String>>(
    sources: &HttpHeaderSources,
    lookup_env: F,
) -> (r: ResolvedHttpHeaders)
    requires
        sources_sorted(*sources),
        forall|a: &str| call_requires(lookup_env, (a,)),
    ensures
        exists|vals: Seq<Option<String>>|
            vals.len() == lookup_vars(*sources).len() && (forall|i: int|
                0 <= i < vals.len() ==> env_answer(lookup_env, lookup_vars(*sources)[i], vals[i]))
                && resolved_as(r, *sources, vals),
{
    let mut vals: Vec<Option<String>> = Vec::new();
    if let Some(var) = sources.bearer_token_env_var {
        let v = lookup_env(var);
        vals.push(v);
        assert(env_answer(lookup_env, var@, v));
    }
    let ghost b = vals@.len() as int;
    assert(b == bearer_count(*sources));
    if let Some(env) = sources.env_headers {
        let mut i: usize = 0;
        while i < env.len()
            invariant
                forall|a: &str| call_requires(lookup_env, (a,)),
                sources.env_headers == Some(env),
                b == bearer_count(*sources),
                i <= env.len(),
                vals@.len() == b + i,
                forall|j: int|
                    0 <= j < vals@.len() ==> env_answer(
                        lookup_env,
                        lookup_vars(*sources)[j],
                        #[trigger] vals@[j],
                    ),
            decreases env.len() - i,
        {
            let v = lookup_env(env[i].1.as_str());
            assert(env_answer(lookup_env, env@[i as int].1@, v));
            assert(lookup_vars(*sources)[b + i] == env@[i as int].1@);
            vals.push(v);
            i += 1;
        }
    }
    assert(vals@.len() == lookup_vars(*sources).len());
    let r = resolve_http_headers_from(sources, &vals);
    assert(vals@.len() == lookup_vars(*sources).len() && (forall|i: int|
        0 <= i < vals@.len() ==> env_answer(lookup_env, lookup_vars(*sources)[i], vals@[i]))
        && resolved_as(r, *sources, vals@));
    r
}

} // verus!

verus! {

// ---------------------------------------------------------------------------
// Tool cache
// ---------------------------------------------------------------------------

/// A tool exposed by an MCP server.
#[derive(Clone, Debug, PartialEq, Eq)]
pub struct McpToolRecord {
    pub server: String,
    pub name: String,
    pub display_name: String,
    pub description: String,
}

impl McpToolRecord {
    /// A field-for-field copy.
    pub fn duplicate(&self) -> (r: Self)
        ensures
            r == *self,
    {
        McpToolRecord {
            server: self.server.clone(),
            name: self.name.clone(),
            display_name: self.display_name.clone(),
            description: self.description.clone(),
        }
    }
}

/// Whether a tool matches a search: the lower-cased query occurs in the
/// lower-cased name or description.
pub open spec fn tool_matches(t: McpToolRecord, query: Seq<char>) -> bool {
    crate::text::contains(lowercase(t.name@), lowercase(query)) || crate::text::contains(
        lowercase(t.description@),
        lowercase(query),
    )
}

pub open spec fn matching(s: Seq<McpToolRecord>, query: Seq<char>) -> Seq<McpToolRecord> {
    s.filter(|t: McpToolRecord| tool_matches(t, query))
}

/// Position at which `x` goes into `s` (ordered by name) to keep tools of
/// equal name in arrival order: after every tool whose name is not greater.
pub open spec fn name_slot(s: Seq<McpToolRecord>, x: McpToolRecord, i: int) -> int
    decreases s.len() - i,
{
    if i < 0 || i >= s.len() {
        s.len() as int
    } else if crate::text::lex_lt(x.name@, s[i].name@) {
        i
    } else {
        name_slot(s, x, i + 1)
    }
}

/// Stable sort by name.
pub open spec fn sorted_by_name(s: Seq<McpToolRecord>) -> Seq<McpToolRecord>
    decreases s.len(),
{
    if s.len() == 0 {
        Seq::empty()
    } else {
        let r = sorted_by_name(s.drop_last());
        r.insert(name_slot(r, s.last(), 0), s.last())
    }
}

proof fn lemma_sorted_by_name_len(s: Seq<McpToolRecord>)
    ensures
        sorted_by_name(s).len() == s.len(),
    decreases s.len(),
{
    if s.len() > 0 {
        lemma_sorted_by_name_len(s.drop_last());
        lemma_name_slot_bounds(sorted_by_name(s.drop_last()), s.last(), 0);
    }
}

proof fn lemma_name_slot_bounds(s: Seq<McpToolRecord>, x: McpToolRecord, i: int)
    requires
        0 <= i <= s.len(),
    ensures
        i <= name_slot(s, x, i) <= s.len(),
    decreases s.len() - i,
{
    if i < s.len() && !crate::text::lex_lt(x.name@, s[i].name@) {
        lemma_name_slot_bounds(s, x, i + 1);
    }
}

/// The search results: per server in name order, the server's matching
/// tools in name order (ties in arrival order), at most ten in all.
pub open spec fn search_results(servers: Seq<(String, Vec<McpToolRecord>)>, query: Seq<char>) -> Seq<
    McpToolRecord,
> {
    all_results(servers, query).take(if all_results(servers, query).len() < 10 {
        all_results(servers, query).len() as int
    } else {
        10
    })
}

pub open spec fn all_results(servers: Seq<(String, Vec<McpToolRecord>)>, query: Seq<char>) -> Seq<
    McpToolRecord,
>
    decreases servers.len(),
{
    if servers.len() == 0 {
        Seq::empty()
    } else {
        all_results(servers.drop_last(), query) + sorted_by_name(
            matching(servers.last().1@, query),
        )
    }
}

/// The record as the cache stores it for `server`.
pub open spec fn stamped(t: McpToolRecord, server: Seq<char>) -> bool {
    t.server@ == server
}

/// In-memory cache of MCP tool records, by server name.
pub struct McpToolCache {
    tools: StringMap<Vec<McpToolRecord>>,
}

fn name_slot_exec(sorted: &Vec<McpToolRecord>, x: &McpToolRecord) -> (r: usize)
    ensures
        r as int == name_slot(sorted@, *x, 0),
{
    let mut i: usize = 0;
    while i < sorted.len()
        invariant
            i <= sorted.len(),
            name_slot(sorted@, *x, 0) == name_slot(sorted@, *x, i as int),
        decreases sorted.len() - i,
    {
        if crate::text::lex_order_str(x.name.as_str(), sorted[i].name.as_str()) < 0 {
            return i;
        }
        i += 1;
    }
    i
}

fn insert_by_name(sorted: &mut Vec<McpToolRecord>, x: McpToolRecord)
    ensures
        final(sorted)@ == old(sorted)@.insert(name_slot(old(sorted)@, x, 0), x),
{
    let i = name_slot_exec(sorted, &x);
    proof {
        lemma_name_slot_bounds(sorted@, x, 0);
    }
    sorted.insert(i, x);
}

impl McpToolCache {
    /// The cached tools, by server name.
    pub closed spec fn servers(&self) -> Seq<(String, Vec<McpToolRecord>)> {
        self.tools.entries()
    }

    pub closed spec fn wf(&self) -> bool {
        self.tools.wf()
    }

    pub fn new() -> (r: Self)
        ensures
            r.wf(),
            r.servers().len() == 0,
    {
        McpToolCache { tools: StringMap::new() }
    }

    /// Replaces the tool list of `server`: each tool is stamped with the
    /// server and displayed as `"<server>: <name>"`.
    pub fn insert_server_tools(&mut self, server: String, tools: Vec<McpToolRecord>)
        requires
            old(self).wf(),
        ensures
            final(self).wf(),
            ({
                let i = key_index(final(self).servers(), server@);
                &&& 0 <= i < final(self).servers().len()
                &&& final(self).servers()[i].1@.len() == tools@.len()
                &&& forall|j: int|
                    0 <= j < tools@.len() ==> {
                        let t = #[trigger] final(self).servers()[i].1@[j];
                        &&& t.server@ == server@
                        &&& t.name == tools@[j].name
                        &&& t.description == tools@[j].description
                        &&& t.display_name@ == server@ + ": "@ + tools@[j].name@
                    }
            }),
            forall|other: Seq<char>|
                other != server@ ==> (#[trigger] has_key(final(self).servers(), other) <==> has_key(
                    old(self).servers(),
                    other,
                )),
    {
        let mut stamped: Vec<McpToolRecord> = Vec::new();
        let mut j: usize = 0;
        proof {
            reveal_strlit(": ");
        }
        while j < tools.len()
            invariant
                j <= tools.len(),
                stamped@.len() == j,
                forall|k: int|
                    0 <= k < j ==> {
                        let t = #[trigger] stamped@[k];
                        &&& t.server@ == server@
                        &&& t.name == tools@[k].name
                        &&& t.description == tools@[k].description
                        &&& t.display_name@ == server@ + ": "@ + tools@[k].name@
                    },
            decreases tools.len() - j,
        {
            let t = &tools[j];
            let mut d: Vec<char> = Vec::new();
            push_str(&mut d, server.as_str());
            push_str(&mut d, ": ");
            push_str(&mut d, t.name.as_str());
            stamped.push(
                McpToolRecord {
                    server: server.clone(),
                    name: t.name.clone(),
                    display_name: string_from_chars(&d),
                    description: t.description.clone(),
                },
            );
            j += 1;
        }
        let ghost s = self.tools.entries();
        let ghost key = server@;
        proof {
            assert forall|other: Seq<char>| other != key implies (#[trigger] has_key(
                store(s, server, stamped),
                other,
            ) <==> has_key(s, other)) by {
                lemma_store(s, server, stamped, other);
            }
            lemma_store(s, server, stamped, key);
        }
        self.tools.insert(server, stamped);
    }

    /// Empties the cache.
    pub fn clear(&mut self)
        ensures
            final(self).wf(),
            final(self).servers().len() == 0,
    {
        self.tools = StringMap::new();
    }

    /// Whether nothing is cached.
    pub fn is_empty(&self) -> (b: bool)
        ensures
            b == (self.servers().len() == 0),
    {
        self.tools.len() == 0
    }

    /// Searches the cached tools by case-insensitive substring match on name
    /// and description: per server in name order, the matches in name order
    /// (ties in arrival order), at most ten.
    pub fn search(&self, query: &str) -> (r: Vec<McpToolRecord>)
        ensures
            r@ == search_results(self.servers(), query@),
            r@.len() <= 10,
    {
        let q = to_lowercase(query);
        let qv = crate::text::chars_of(q.as_str());
        let n = self.tools.len();
        let mut all: Vec<McpToolRecord> = Vec::new();
        let mut i: usize = 0;
        while i < n
            invariant
                n == self.tools.entries().len(),
                i <= n,
                qv@ == lowercase(query@),
                all@ == all_results(self.tools.entries().take(i as int), query@),
            decreases n - i,
        {
            let entry = self.tools.entry(i);
            let tools = &entry.1;
            let mut sorted: Vec<McpToolRecord> = Vec::new();
            let mut j: usize = 0;
            while j < tools.len()
                invariant
                    j <= tools.len(),
                    qv@ == lowercase(query@),
                    sorted@ == sorted_by_name(matching(tools@.take(j as int), query@)),
                decreases tools.len() - j,
            {
                let t = &tools[j];
                let ghost tk = tools@.take(j + 1);
                assert(tk.drop_last() =~= tools@.take(j as int));
                let name_l = crate::text::chars_of(to_lowercase(t.name.as_str()).as_str());
                let desc_l = crate::text::chars_of(to_lowercase(t.description.as_str()).as_str());
                let hit = crate::text::contains_chars(&name_l, &qv) || crate::text::contains_chars(
                    &desc_l,
                    &qv,
                );
                proof {
                    reveal(Seq::filter);
                    assert(tk.last() == tools@[j as int]);
                    let m0 = matching(tools@.take(j as int), query@);
                    if tool_matches(tools@[j as int], query@) {
                        assert(matching(tk, query@) == m0.push(tools@[j as int]));
                        assert(m0.push(tools@[j as int]).drop_last() =~= m0);
                    } else {
                        assert(matching(tk, query@) == m0);
                    }
                }
                if hit {
                    insert_by_name(&mut sorted, t.duplicate());
                }
                j += 1;
            }
            assert(tools@.take(tools.len() as int) =~= tools@);
            let ghost tk = self.tools.entries().take(i + 1);
            assert(tk.drop_last() =~= self.tools.entries().take(i as int));
            let ghost before = all@;
            let mut k: usize = 0;
            while k < sorted.len()
                invariant
                    k <= sorted.len(),
                    all@ == before + sorted@.take(k as int),
                decreases sorted.len() - k,
            {
                all.push(sorted[k].duplicate());
                assert(all@ =~= before + sorted@.take(k + 1));
                k += 1;
            }
            assert(sorted@.take(sorted.len() as int) =~= sorted@);
            i += 1;
        }
        assert(self.tools.entries().take(n as int) =~= self.tools.entries());
        let limit: usize = if all.len() < 10 {
            all.len()
        } else {
            10
        };
        let mut r: Vec<McpToolRecord> = Vec::new();
        let mut k: usize = 0;
        while k < limit
            invariant
                limit <= all.len(),
                k <= limit,
                r@ == all@.take(k as int),
            decreases limit - k,
        {
            r.push(all[k].duplicate());
            assert(r@ =~= all@.take(k + 1));
            k += 1;
        }
        r
    }
}

} // verus!
