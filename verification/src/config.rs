//! MCP server configuration as the runtime reads it.
use vstd::prelude::*;

use crate::text::{lemma_lex_order_props, lex_order_str};

verus! {

/// Where an MCP server configuration was declared.
#[derive(Clone, Copy, Debug, PartialEq, Eq, Structural)]
pub enum McpServerScope {
    Project,
    Local,
    User,
    Enterprise,
    Builtin,
    Plugin,
}

/// The declaration order of scopes, which orders them.
pub open spec fn scope_rank(s: McpServerScope) -> int {
    match s {
        McpServerScope::Project => 0,
        McpServerScope::Local => 1,
        McpServerScope::User => 2,
        McpServerScope::Enterprise => 3,
        McpServerScope::Builtin => 4,
        McpServerScope::Plugin => 5,
    }
}

pub fn scope_rank_exec(s: McpServerScope) -> (r: u8)
    ensures
        r as int == scope_rank(s),
{
    match s {
        McpServerScope::Project => 0,
        McpServerScope::Local => 1,
        McpServerScope::User => 2,
        McpServerScope::Enterprise => 3,
        McpServerScope::Builtin => 4,
        McpServerScope::Plugin => 5,
    }
}

/// The file that declared a server.
#[derive(Clone, Debug, PartialEq, Eq)]
pub struct McpServerSource {
    pub scope: McpServerScope,
    pub path: String,
}

/// How the runtime reaches an MCP server.
#[derive(Clone, Debug, PartialEq, Eq)]
pub enum McpServerTransport {
    Stdio {
        command: String,
        args: Vec<String>,
        env: Option<Vec<(String, String)>>,
        cwd: Option<String>,
    },
    StreamableHttp {
        url: String,
        bearer_token_env_var: Option<String>,
        http_headers: Option<Vec<(String, String)>>,
        env_http_headers: Option<Vec<(String, String)>>,
    },
}

/// One configured MCP server.
#[derive(Clone, Debug, PartialEq, Eq)]
pub struct McpServerConfig {
    pub transport: McpServerTransport,
    pub enabled: bool,
    pub required: bool,
    pub enabled_tools: Option<Vec<String>>,
    pub disabled_tools: Option<Vec<String>>,
}

/// A configuration together with the file that declared it.
#[derive(Clone, Debug, PartialEq, Eq)]
pub struct SourcedMcpServerConfig {
    pub config: McpServerConfig,
    pub source: McpServerSource,
}

/// All configured MCP servers, by name in ascending order.
#[derive(Clone, Debug, PartialEq, Eq)]
pub struct McpRegistry {
    pub servers: Vec<(String, SourcedMcpServerConfig)>,
}

impl McpRegistry {
    /// An empty registry.
    pub fn empty() -> (r: Self)
        ensures
            r.servers@.len() == 0,
    {
        McpRegistry { servers: Vec::new() }
    }
}

/// Two string lists are equal element by element.
pub open spec fn strings_eq(a: Seq<String>, b: Seq<String>) -> bool {
    a.len() == b.len() && forall|i: int| 0 <= i < a.len() ==> (#[trigger] a[i])@ == b[i]@
}

/// Two lists of string pairs are equal element by element.
pub open spec fn pairs_eq(a: Seq<(String, String)>, b: Seq<(String, String)>) -> bool {
    a.len() == b.len() && forall|i: int|
        0 <= i < a.len() ==> (#[trigger] a[i]).0@ == b[i].0@ && a[i].1@ == b[i].1@
}

pub open spec fn opt_str_eq(a: Option<String>, b: Option<String>) -> bool {
    match (a, b) {
        (Some(x), Some(y)) => x@ == y@,
        (None, None) => true,
        _ => false,
    }
}

pub open spec fn opt_strings_eq(a: Option<Vec<String>>, b: Option<Vec<String>>) -> bool {
    match (a, b) {
        (Some(x), Some(y)) => strings_eq(x@, y@),
        (None, None) => true,
        _ => false,
    }
}

pub open spec fn opt_pairs_eq(a: Option<Vec<(String, String)>>, b: Option<Vec<(String, String)>>) -> bool {
    match (a, b) {
        (Some(x), Some(y)) => pairs_eq(x@, y@),
        (None, None) => true,
        _ => false,
    }
}

/// Two transports are the same: same kind, equal fields.
pub open spec fn transport_eq(a: McpServerTransport, b: McpServerTransport) -> bool {
    match (a, b) {
        (
            McpServerTransport::Stdio { command: c1, args: a1, env: e1, cwd: w1 },
            McpServerTransport::Stdio { command: c2, args: a2, env: e2, cwd: w2 },
        ) => c1@ == c2@ && strings_eq(a1@, a2@) && opt_pairs_eq(e1, e2) && opt_str_eq(w1, w2),
        (
            McpServerTransport::StreamableHttp {
                url: u1,
                bearer_token_env_var: b1,
                http_headers: h1,
                env_http_headers: x1,
            },
            McpServerTransport::StreamableHttp {
                url: u2,
                bearer_token_env_var: b2,
                http_headers: h2,
                env_http_headers: x2,
            },
        ) => u1@ == u2@ && opt_str_eq(b1, b2) && opt_pairs_eq(h1, h2) && opt_pairs_eq(x1, x2),
        _ => false,
    }
}

/// Two configurations are the same, field by field.
pub open spec fn config_eq(a: McpServerConfig, b: McpServerConfig) -> bool {
    &&& transport_eq(a.transport, b.transport)
    &&& a.enabled == b.enabled
    &&& a.required == b.required
    &&& opt_strings_eq(a.enabled_tools, b.enabled_tools)
    &&& opt_strings_eq(a.disabled_tools, b.disabled_tools)
}

fn str_eq(a: &String, b: &String) -> (r: bool)
    ensures
        r == (a@ == b@),
{
    let c = lex_order_str(a.as_str(), b.as_str());
    proof {
        lemma_lex_order_props(a@, b@);
    }
    c == 0
}

fn strings_eq_exec(a: &Vec<String>, b: &Vec<String>) -> (r: bool)
    ensures
        r == strings_eq(a@, b@),
{
    if a.len() != b.len() {
        return false;
    }
    let mut i: usize = 0;
    while i < a.len()
        invariant
            a.len() == b.len(),
            i <= a.len(),
            forall|k: int| 0 <= k < i ==> (#[trigger] a@[k])@ == b@[k]@,
        decreases a.len() - i,
    {
        if !str_eq(&a[i], &b[i]) {
            return false;
        }
        i += 1;
    }
    true
}

fn pairs_eq_exec(a: &Vec<(String, String)>, b: &Vec<(String, String)>) -> (r: bool)
    ensures
        r == pairs_eq(a@, b@),
{
    if a.len() != b.len() {
        return false;
    }
    let mut i: usize = 0;
    while i < a.len()
        invariant
            a.len() == b.len(),
            i <= a.len(),
            forall|k: int| 0 <= k < i ==> (#[trigger] a@[k]).0@ == b@[k].0@ && a@[k].1@ == b@[k].1@,
        decreases a.len() - i,
    {
        if !str_eq(&a[i].0, &b[i].0) || !str_eq(&a[i].1, &b[i].1) {
            return false;
        }
        i += 1;
    }
    true
}

fn opt_str_eq_exec(a: &Option<String>, b: &Option<String>) -> (r: bool)
    ensures
        r == opt_str_eq(*a, *b),
{
    match (a, b) {
        (Some(x), Some(y)) => str_eq(x, y),
        (None, None) => true,
        _ => false,
    }
}

fn opt_strings_eq_exec(a: &Option<Vec<String>>, b: &Option<Vec<String>>) -> (r: bool)
    ensures
        r == opt_strings_eq(*a, *b),
{
    match (a, b) {
        (Some(x), Some(y)) => strings_eq_exec(x, y),
        (None, None) => true,
        _ => false,
    }
}

fn opt_pairs_eq_exec(a: &Option<Vec<(String, String)>>, b: &Option<Vec<(String, String)>>) -> (r:
    bool)
    ensures
        r == opt_pairs_eq(*a, *b),
{
    match (a, b) {
        (Some(x), Some(y)) => pairs_eq_exec(x, y),
        (None, None) => true,
        _ => false,
    }
}

impl McpServerConfig {
    /// Whether two configurations are the same, field by field.
    pub fn same_as(&self, other: &Self) -> (r: bool)
        ensures
            r == config_eq(*self, *other),
    {
        let transport_same = match (&self.transport, &other.transport) {
            (
                McpServerTransport::Stdio { command: c1, args: a1, env: e1, cwd: w1 },
                McpServerTransport::Stdio { command: c2, args: a2, env: e2, cwd: w2 },
            ) => str_eq(c1, c2) && strings_eq_exec(a1, a2) && opt_pairs_eq_exec(e1, e2)
                && opt_str_eq_exec(w1, w2),
            (
                McpServerTransport::StreamableHttp {
                    url: u1,
                    bearer_token_env_var: b1,
                    http_headers: h1,
                    env_http_headers: x1,
                },
                McpServerTransport::StreamableHttp {
                    url: u2,
                    bearer_token_env_var: b2,
                    http_headers: h2,
                    env_http_headers: x2,
                },
            ) => str_eq(u1, u2) && opt_str_eq_exec(b1, b2) && opt_pairs_eq_exec(h1, h2)
                && opt_pairs_eq_exec(x1, x2),
            _ => false,
        };
        transport_same && self.enabled == other.enabled && self.required == other.required
            && opt_strings_eq_exec(&self.enabled_tools, &other.enabled_tools)
            && opt_strings_eq_exec(&self.disabled_tools, &other.disabled_tools)
    }
}

/// Field-by-field sameness of configurations is an equivalence.
pub proof fn lemma_config_eq_equivalence(a: McpServerConfig, b: McpServerConfig, c: McpServerConfig)
    ensures
        config_eq(a, a),
        config_eq(a, b) == config_eq(b, a),
        config_eq(a, b) && config_eq(b, c) ==> config_eq(a, c),
{
}

fn copy_strings_opt(v: &Option<Vec<String>>) -> (r: Option<Vec<String>>)
    ensures
        opt_strings_eq(r, *v),
{
    match v {
        Some(x) => {
            let y = crate::text::copy_strings(x);
            Some(y)
        },
        None => None,
    }
}

fn copy_pairs(v: &Vec<(String, String)>) -> (r: Vec<(String, String)>)
    ensures
        pairs_eq(r@, v@),
{
    let mut r: Vec<(String, String)> = Vec::new();
    let mut i: usize = 0;
    while i < v.len()
        invariant
            i <= v.len(),
            r@.len() == i,
            forall|k: int| 0 <= k < i ==> (#[trigger] r@[k]).0@ == v@[k].0@ && r@[k].1@ == v@[k].1@,
        decreases v.len() - i,
    {
        r.push((v[i].0.clone(), v[i].1.clone()));
        i += 1;
    }
    r
}

fn copy_pairs_opt(v: &Option<Vec<(String, String)>>) -> (r: Option<Vec<(String, String)>>)
    ensures
        opt_pairs_eq(r, *v),
{
    match v {
        Some(x) => Some(copy_pairs(x)),
        None => None,
    }
}

impl McpServerConfig {
    /// A copy, the same field by field.
    pub fn duplicate(&self) -> (r: Self)
        ensures
            config_eq(r, *self),
    {
        let transport = match &self.transport {
            McpServerTransport::Stdio { command, args, env, cwd } => McpServerTransport::Stdio {
                command: command.clone(),
                args: crate::text::copy_strings(args),
                env: copy_pairs_opt(env),
                cwd: crate::text::copy_opt_string(cwd),
            },
            McpServerTransport::StreamableHttp {
                url,
                bearer_token_env_var,
                http_headers,
                env_http_headers,
            } => McpServerTransport::StreamableHttp {
                url: url.clone(),
                bearer_token_env_var: crate::text::copy_opt_string(bearer_token_env_var),
                http_headers: copy_pairs_opt(http_headers),
                env_http_headers: copy_pairs_opt(env_http_headers),
            },
        };
        McpServerConfig {
            transport,
            enabled: self.enabled,
            required: self.required,
            enabled_tools: copy_strings_opt(&self.enabled_tools),
            disabled_tools: copy_strings_opt(&self.disabled_tools),
        }
    }
}

impl SourcedMcpServerConfig {
    /// A copy: the same configuration, field by field, from the same file.
    pub fn duplicate(&self) -> (r: Self)
        ensures
            config_eq(r.config, self.config),
            r.source == self.source,
    {
        SourcedMcpServerConfig {
            config: self.config.duplicate(),
            source: McpServerSource { scope: self.source.scope, path: self.source.path.clone() },
        }
    }
}

} // verus!
