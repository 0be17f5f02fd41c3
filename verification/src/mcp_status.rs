//! MCP server status snapshots and their text rendering.
use vstd::prelude::*;

use crate::config::{
    McpRegistry, McpServerConfig, McpServerScope, McpServerTransport, SourcedMcpServerConfig, scope_rank,
    scope_rank_exec,
};
use crate::redaction::{sanitize_url_for_display, sanitize_url_for_display_spec};
use crate::path::{lemma_path_order_props, path_order, path_order_exec};
use crate::text::{chars_of, copy_opt_string, decimal, join, join_exec, lex_order, lex_order_exec, push_decimal, push_str, string_from_chars, views};

verus! {

#[derive(Clone, Copy, Debug, PartialEq, Eq, Structural)]
pub enum McpConnectionState {
    Configured,
    Connecting,
    Connected,
    Disconnected,
    Refreshing,
    Reconnecting,
    Failed,
    Disabled,
}

pub open spec fn connection_state_label(s: McpConnectionState) -> Seq<char> {
    match s {
        McpConnectionState::Configured => "configured"@,
        McpConnectionState::Connecting => "connecting"@,
        McpConnectionState::Connected => "connected"@,
        McpConnectionState::Disconnected => "disconnected"@,
        McpConnectionState::Refreshing => "refreshing"@,
        McpConnectionState::Reconnecting => "reconnecting"@,
        McpConnectionState::Failed => "failed"@,
        McpConnectionState::Disabled => "disabled"@,
    }
}

impl McpConnectionState {
    pub fn label(self) -> (r: &'static str)
        ensures
            r@ == connection_state_label(self),
    {
        match self {
            Self::Configured => "configured",
            Self::Connecting => "connecting",
            Self::Connected => "connected",
            Self::Disconnected => "disconnected",
            Self::Refreshing => "refreshing",
            Self::Reconnecting => "reconnecting",
            Self::Failed => "failed",
            Self::Disabled => "disabled",
        }
    }
}

#[derive(Clone, Copy, Debug, PartialEq, Eq, Structural)]
pub enum McpTransportKind {
    Stdio,
    StreamableHttp,
}

pub open spec fn transport_kind_label(k: McpTransportKind) -> Seq<char> {
    match k {
        McpTransportKind::Stdio => "stdio"@,
        McpTransportKind::StreamableHttp => "streamable-http"@,
    }
}

impl McpTransportKind {
    pub fn label(self) -> (r: &'static str)
        ensures
            r@ == transport_kind_label(self),
    {
        match self {
            Self::Stdio => "stdio",
            Self::StreamableHttp => "streamable-http",
        }
    }
}

/// Status of one configured MCP server.
#[derive(Clone, Debug, PartialEq, Eq)]
pub struct McpServerStatus {
    pub name: String,
    pub scope: McpServerScope,
    pub source_path: String,
    pub state: McpConnectionState,
    pub transport: McpTransportKind,
    pub display_target: String,
    pub required: bool,
    pub enabled: bool,
    pub allowed_tools_count: Option<usize>,
    pub disabled_tools_count: Option<usize>,
    pub last_error: Option<String>,
}

impl McpServerStatus {
    /// A field-for-field copy.
    pub fn duplicate(&self) -> (r: Self)
        ensures
            r == *self,
    {
        McpServerStatus {
            name: self.name.clone(),
            scope: self.scope,
            source_path: self.source_path.clone(),
            state: self.state,
            transport: self.transport,
            display_target: self.display_target.clone(),
            required: self.required,
            enabled: self.enabled,
            allowed_tools_count: self.allowed_tools_count,
            disabled_tools_count: self.disabled_tools_count,
            last_error: copy_opt_string(&self.last_error),
        }
    }
}

/// Status of every configured MCP server.
#[derive(Clone, Debug, PartialEq, Eq)]
pub struct McpStatusSnapshot {
    pub servers: Vec<McpServerStatus>,
}

// ---------------------------------------------------------------------------
// Rendering specification
// ---------------------------------------------------------------------------

pub open spec fn scope_heading_spec(scope: McpServerScope) -> Seq<char> {
    match scope {
        McpServerScope::Project => "Project"@,
        McpServerScope::Local => "Local"@,
        McpServerScope::User => "User"@,
        McpServerScope::Enterprise => "Enterprise"@,
        McpServerScope::Builtin => "Builtin"@,
        McpServerScope::Plugin => "Plugin"@,
    }
}

pub open spec fn status_flags_spec(required: bool, enabled: bool) -> Seq<char> {
    if required && enabled {
        " (required)"@
    } else if required && !enabled {
        " (required, disabled)"@
    } else if !required && !enabled {
        " (disabled)"@
    } else {
        Seq::empty()
    }
}

/// `- name [state] transport: target flags`
pub open spec fn server_line(s: McpServerStatus) -> Seq<char> {
    "- "@ + s.name@ + " ["@ + connection_state_label(s.state) + "] "@ + transport_kind_label(
        s.transport,
    ) + ": "@ + s.display_target@ + status_flags_spec(s.required, s.enabled)
}

pub open spec fn count_or_zero(c: Option<usize>) -> nat {
    match c {
        Some(n) => n as nat,
        None => 0,
    }
}

/// The lines printed for one server: its line, the tool counts when either is
/// known, and its last error when there is one.
pub open spec fn server_lines(s: McpServerStatus) -> Seq<Seq<char>> {
    let tools: Seq<Seq<char>> = if s.allowed_tools_count is Some || s.disabled_tools_count is Some {
        seq![
            "  tools: allow "@ + decimal(count_or_zero(s.allowed_tools_count)) + ", deny "@
                + decimal(count_or_zero(s.disabled_tools_count)),
        ]
    } else {
        Seq::empty()
    };
    let error: Seq<Seq<char>> = match s.last_error {
        Some(e) => seq!["  error: "@ + e@],
        None => Seq::empty(),
    };
    seq![server_line(s)] + tools + error
}

pub open spec fn group_lines(g: Seq<McpServerStatus>) -> Seq<Seq<char>>
    decreases g.len(),
{
    if g.len() == 0 {
        Seq::empty()
    } else {
        group_lines(g.drop_last()) + server_lines(g.last())
    }
}

/// Servers are grouped by `(scope, source path)`, ordered by scope and then
/// by path.
pub open spec fn key_order(a: McpServerStatus, b: McpServerStatus) -> int {
    if scope_rank(a.scope) < scope_rank(b.scope) {
        -1
    } else if scope_rank(a.scope) > scope_rank(b.scope) {
        1
    } else {
        path_order(a.source_path@, b.source_path@)
    }
}

/// Index of the first server with the least key, scanning from `i`.
pub open spec fn min_key_from(s: Seq<McpServerStatus>, i: int, best: int) -> int
    decreases s.len() - i,
{
    if i < 0 || i >= s.len() {
        best
    } else if key_order(s[i], s[best]) < 0 {
        min_key_from(s, i + 1, i)
    } else {
        min_key_from(s, i + 1, best)
    }
}

/// The servers among the first `n` whose key equals that of `k`, in order.
pub open spec fn group_of(s: Seq<McpServerStatus>, k: McpServerStatus, n: int) -> Seq<
    McpServerStatus,
>
    decreases n,
{
    if n <= 0 || n > s.len() {
        Seq::empty()
    } else {
        group_of(s, k, n - 1) + if key_order(s[n - 1], k) == 0 {
            seq![s[n - 1]]
        } else {
            Seq::empty()
        }
    }
}

/// The servers among the first `n` whose key differs from that of `k`.
pub open spec fn rest_of(s: Seq<McpServerStatus>, k: McpServerStatus, n: int) -> Seq<
    McpServerStatus,
>
    decreases n,
{
    if n <= 0 || n > s.len() {
        Seq::empty()
    } else {
        rest_of(s, k, n - 1) + if key_order(s[n - 1], k) != 0 {
            seq![s[n - 1]]
        } else {
            Seq::empty()
        }
    }
}

/// Index of the first server with the least name, scanning from `i`.
pub open spec fn min_name_from(g: Seq<McpServerStatus>, i: int, best: int) -> int
    decreases g.len() - i,
{
    if i < 0 || i >= g.len() {
        best
    } else if lex_order(g[i].name@, g[best].name@) < 0 {
        min_name_from(g, i + 1, i)
    } else {
        min_name_from(g, i + 1, best)
    }
}

/// Stable sort by name.
pub open spec fn sorted_by_name(g: Seq<McpServerStatus>) -> Seq<McpServerStatus>
    decreases g.len(),
{
    if g.len() == 0 {
        Seq::empty()
    } else {
        let m = min_name_from(g, 1, 0);
        if 0 <= m < g.len() {
            seq![g[m]] + sorted_by_name(g.remove(m))
        } else {
            Seq::empty()
        }
    }
}

pub open spec fn heading_line(k: McpServerStatus) -> Seq<char> {
    scope_heading_spec(k.scope) + " ("@ + k.source_path@ + ")"@
}

/// The lines of all groups: each group is preceded by an empty line and its
/// heading, and lists its servers sorted by name.
pub open spec fn render_groups(s: Seq<McpServerStatus>) -> Seq<Seq<char>>
    decreases s.len(),
{
    if s.len() == 0 {
        Seq::empty()
    } else {
        let k = s[min_key_from(s, 1, 0)];
        let rest = rest_of(s, k, s.len() as int);
        if rest.len() < s.len() {
            seq![Seq::<char>::empty(), heading_line(k)] + group_lines(
                sorted_by_name(group_of(s, k, s.len() as int)),
            ) + render_groups(rest)
        } else {
            Seq::empty()
        }
    }
}

pub open spec fn status_lines(servers: Seq<McpServerStatus>) -> Seq<Seq<char>> {
    if servers.len() == 0 {
        seq!["MCP Servers"@, Seq::<char>::empty(), "No MCP servers configured."@]
    } else {
        seq!["MCP Servers"@] + render_groups(servers)
    }
}

pub open spec fn newline() -> Seq<char> {
    seq!['\n']
}

pub open spec fn format_mcp_status_spec(snapshot: McpStatusSnapshot) -> Seq<char> {
    join(status_lines(snapshot.servers@), newline())
}

// ---------------------------------------------------------------------------
// Lemmas
// ---------------------------------------------------------------------------

proof fn lemma_key_order_props(a: McpServerStatus, b: McpServerStatus)
    ensures
        key_order(a, b) == -1 || key_order(a, b) == 0 || key_order(a, b) == 1,
        key_order(b, a) == -key_order(a, b),
        key_order(a, a) == 0,
{
    lemma_path_order_props(a.source_path@, b.source_path@);
    lemma_path_order_props(a.source_path@, a.source_path@);
}

proof fn lemma_min_key_in_range(s: Seq<McpServerStatus>, i: int, best: int)
    requires
        0 <= best < s.len(),
        i >= 0,
    ensures
        0 <= min_key_from(s, i, best) < s.len(),
    decreases s.len() - i,
{
    if i < s.len() {
        if key_order(s[i], s[best]) < 0 {
            lemma_min_key_in_range(s, i + 1, i);
        } else {
            lemma_min_key_in_range(s, i + 1, best);
        }
    }
}

proof fn lemma_min_name_in_range(g: Seq<McpServerStatus>, i: int, best: int)
    requires
        0 <= best < g.len(),
        i >= 0,
    ensures
        0 <= min_name_from(g, i, best) < g.len(),
    decreases g.len() - i,
{
    if i < g.len() {
        if lex_order(g[i].name@, g[best].name@) < 0 {
            lemma_min_name_in_range(g, i + 1, i);
        } else {
            lemma_min_name_in_range(g, i + 1, best);
        }
    }
}

proof fn lemma_group_rest_len(s: Seq<McpServerStatus>, k: McpServerStatus, n: int)
    requires
        0 <= n <= s.len(),
    ensures
        group_of(s, k, n).len() + rest_of(s, k, n).len() == n,
        forall|j: int| 0 <= j < n && key_order(s[j], k) == 0 ==> group_of(s, k, n).len() >= 1,
    decreases n,
{
    if n > 0 {
        lemma_group_rest_len(s, k, n - 1);
    }
}

// ---------------------------------------------------------------------------
// Exec
// ---------------------------------------------------------------------------

pub fn scope_heading(scope: McpServerScope) -> (r: &'static str)
    ensures
        r@ == scope_heading_spec(scope),
{
    match scope {
        McpServerScope::Project => "Project",
        McpServerScope::Local => "Local",
        McpServerScope::User => "User",
        McpServerScope::Enterprise => "Enterprise",
        McpServerScope::Builtin => "Builtin",
        McpServerScope::Plugin => "Plugin",
    }
}

pub fn status_flags(server: &McpServerStatus) -> (r: String)
    ensures
        r@ == status_flags_spec(server.required, server.enabled),
{
    if server.required && server.enabled {
        " (required)".to_owned()
    } else if server.required && !server.enabled {
        " (required, disabled)".to_owned()
    } else if !server.required && !server.enabled {
        " (disabled)".to_owned()
    } else {
        String::new()
    }
}

fn key_order_exec(a: &McpServerStatus, b: &McpServerStatus) -> (r: i8)
    ensures
        r as int == key_order(*a, *b),
{
    let ra = scope_rank_exec(a.scope);
    let rb = scope_rank_exec(b.scope);
    if ra < rb {
        -1
    } else if ra > rb {
        1
    } else {
        let pa = chars_of(a.source_path.as_str());
        let pb = chars_of(b.source_path.as_str());
        path_order_exec(&pa, &pb)
    }
}

fn push_server_lines(lines: &mut Vec<Vec<char>>, s: &McpServerStatus)
    ensures
        views(final(lines)@) == views(old(lines)@) + server_lines(*s),
{
    let ghost start = views(lines@);
    let mut line: Vec<char> = Vec::new();
    push_str(&mut line, "- ");
    push_str(&mut line, s.name.as_str());
    push_str(&mut line, " [");
    push_str(&mut line, s.state.label());
    push_str(&mut line, "] ");
    push_str(&mut line, s.transport.label());
    push_str(&mut line, ": ");
    push_str(&mut line, s.display_target.as_str());
    let flags = status_flags(s);
    push_str(&mut line, flags.as_str());
    assert(line@ =~= server_line(*s));
    lines.push(line);
    let ghost after_first = views(lines@);
    assert(after_first =~= start + seq![server_line(*s)]);
    if s.allowed_tools_count.is_some() || s.disabled_tools_count.is_some() {
        let allowed: usize = match s.allowed_tools_count {
            Some(n) => n,
            None => 0,
        };
        let denied: usize = match s.disabled_tools_count {
            Some(n) => n,
            None => 0,
        };
        let mut t: Vec<char> = Vec::new();
        push_str(&mut t, "  tools: allow ");
        push_decimal(&mut t, allowed as u64);
        push_str(&mut t, ", deny ");
        push_decimal(&mut t, denied as u64);
        lines.push(t);
        assert(views(lines@) =~= after_first + seq![
            "  tools: allow "@ + decimal(count_or_zero(s.allowed_tools_count)) + ", deny "@
                + decimal(count_or_zero(s.disabled_tools_count)),
        ]);
    }
    let ghost after_tools = views(lines@);
    match &s.last_error {
        Some(e) => {
            let mut el: Vec<char> = Vec::new();
            push_str(&mut el, "  error: ");
            push_str(&mut el, e.as_str());
            lines.push(el);
            assert(views(lines@) =~= after_tools + seq!["  error: "@ + e@]);
        },
        None => {},
    }
    assert(views(lines@) =~= start + server_lines(*s));
}

/// Renders MCP server status grouped by scope and source path, each group
/// sorted by server name.
pub fn format_mcp_status(snapshot: &McpStatusSnapshot) -> (r: String)
    ensures
        r@ == format_mcp_status_spec(*snapshot),
{
    let mut lines: Vec<Vec<char>> = Vec::new();
    lines.push(chars_of("MCP Servers"));
    if snapshot.servers.len() == 0 {
        lines.push(Vec::new());
        lines.push(chars_of("No MCP servers configured."));
        assert(views(lines@) =~= status_lines(snapshot.servers@));
        let sep = chars_of("\n");
        proof {
            reveal_strlit("\n");
        }
        assert(sep@ =~= newline());
        let out = join_exec(&lines, &sep);
        return string_from_chars(&out);
    }
    let mut rem: Vec<McpServerStatus> = Vec::new();
    let mut i: usize = 0;
    while i < snapshot.servers.len()
        invariant
            i <= snapshot.servers.len(),
            rem@ == snapshot.servers@.take(i as int),
        decreases snapshot.servers.len() - i,
    {
        rem.push(snapshot.servers[i].duplicate());
        assert(rem@ =~= snapshot.servers@.take(i + 1));
        i += 1;
    }
    assert(snapshot.servers@.take(snapshot.servers.len() as int) =~= snapshot.servers@);
    assert(views(lines@) =~= seq!["MCP Servers"@]);
    while rem.len() > 0
        invariant
            snapshot.servers@.len() > 0,
            views(lines@) + render_groups(rem@) == status_lines(snapshot.servers@),
        decreases rem.len(),
    {
        let ghost s = rem@;
        // The first server with the least key.
        let mut best: usize = 0;
        let mut j: usize = 1;
        while j < rem.len()
            invariant
                rem@ == s,
                1 <= j <= rem.len(),
                best < rem.len(),
                min_key_from(s, 1, 0) == min_key_from(s, j as int, best as int),
            decreases rem.len() - j,
        {
            if key_order_exec(&rem[j], &rem[best]) < 0 {
                best = j;
            }
            j += 1;
        }
        let k = rem[best].duplicate();
        proof {
            lemma_key_order_props(k, k);
            lemma_group_rest_len(s, k, s.len() as int);
        }
        // Partition into the group of `k` and the rest, keeping order.
        let mut group: Vec<McpServerStatus> = Vec::new();
        let mut rest: Vec<McpServerStatus> = Vec::new();
        let mut j: usize = 0;
        while j < rem.len()
            invariant
                rem@ == s,
                j <= rem.len(),
                group@ == group_of(s, k, j as int),
                rest@ == rest_of(s, k, j as int),
            decreases rem.len() - j,
        {
            if key_order_exec(&rem[j], &k) == 0 {
                group.push(rem[j].duplicate());
            } else {
                rest.push(rem[j].duplicate());
            }
            j += 1;
        }
        // Stable selection sort of the group by name.
        let ghost g0 = group@;
        let mut sorted: Vec<McpServerStatus> = Vec::new();
        while group.len() > 0
            invariant
                sorted@ + sorted_by_name(group@) == sorted_by_name(g0),
            decreases group.len(),
        {
            let ghost g = group@;
            let mut m: usize = 0;
            let mut q: usize = 1;
            while q < group.len()
                invariant
                    group@ == g,
                    1 <= q <= group.len(),
                    m < group.len(),
                    min_name_from(g, 1, 0) == min_name_from(g, q as int, m as int),
                decreases group.len() - q,
            {
                let a = chars_of(group[q].name.as_str());
                let b = chars_of(group[m].name.as_str());
                if lex_order_exec(&a, &b) < 0 {
                    m = q;
                }
                q += 1;
            }
            let item = group.remove(m);
            sorted.push(item);
            assert(sorted_by_name(g) == seq![g[m as int]] + sorted_by_name(g.remove(m as int)));
            assert(sorted@ + sorted_by_name(group@) =~= sorted_by_name(g0));
        }
        assert(sorted@ =~= sorted_by_name(g0));
        // Heading and server lines.
        let ghost before = views(lines@);
        lines.push(Vec::new());
        let mut heading: Vec<char> = Vec::new();
        push_str(&mut heading, scope_heading(k.scope));
        push_str(&mut heading, " (");
        push_str(&mut heading, k.source_path.as_str());
        push_str(&mut heading, ")");
        assert(heading@ =~= heading_line(k));
        lines.push(heading);
        assert(views(lines@) =~= before + seq![Seq::<char>::empty(), heading_line(k)]);
        let ghost with_heading = views(lines@);
        let mut j: usize = 0;
        while j < sorted.len()
            invariant
                j <= sorted.len(),
                views(lines@) == with_heading + group_lines(sorted@.take(j as int)),
            decreases sorted.len() - j,
        {
            push_server_lines(&mut lines, &sorted[j]);
            assert(sorted@.take(j + 1).drop_last() =~= sorted@.take(j as int));
            assert(views(lines@) =~= with_heading + group_lines(sorted@.take(j + 1)));
            j += 1;
        }
        assert(sorted@.take(sorted.len() as int) =~= sorted@);
        assert(render_groups(s) == seq![Seq::<char>::empty(), heading_line(k)] + group_lines(
            sorted_by_name(group_of(s, k, s.len() as int)),
        ) + render_groups(rest_of(s, k, s.len() as int)));
        rem = rest;
        assert(views(lines@) + render_groups(rem@) =~= status_lines(snapshot.servers@));
    }
    assert(views(lines@) =~= status_lines(snapshot.servers@));
    let sep = chars_of("\n");
    proof {
        reveal_strlit("\n");
    }
    assert(sep@ =~= newline());
    let out = join_exec(&lines, &sep);
    string_from_chars(&out)
}

// ---------------------------------------------------------------------------
// Status from configuration
// ---------------------------------------------------------------------------

pub open spec fn string_views(v: Seq<String>) -> Seq<Seq<char>> {
    v.map_values(|x: String| x@)
}

/// The transport kind and display target of a configuration: the command
/// line for stdio servers, the sanitized URL for HTTP servers.
pub open spec fn transport_display_spec(config: McpServerConfig) -> (McpTransportKind, Seq<char>) {
    match config.transport {
        McpServerTransport::Stdio { command, args, .. } => (
            McpTransportKind::Stdio,
            join(seq![command@] + string_views(args@), seq![' ']),
        ),
        McpServerTransport::StreamableHttp { url, .. } => (
            McpTransportKind::StreamableHttp,
            sanitize_url_for_display_spec(url@),
        ),
    }
}

pub open spec fn opt_len(v: Option<Vec<String>>) -> Option<usize> {
    match v {
        Some(v) => Some(v.len()),
        None => None,
    }
}

/// Whether `st` is the status derived from the configuration `sourced` of
/// the server named `name`.
pub open spec fn is_server_status(
    st: McpServerStatus,
    name: Seq<char>,
    sourced: SourcedMcpServerConfig,
) -> bool {
    let (kind, target) = transport_display_spec(sourced.config);
    &&& st.name@ == name
    &&& st.scope == sourced.source.scope
    &&& st.source_path@ == sourced.source.path@
    &&& st.state == (if sourced.config.enabled {
        McpConnectionState::Configured
    } else {
        McpConnectionState::Disabled
    })
    &&& st.transport == kind
    &&& st.display_target@ == target
    &&& st.required == sourced.config.required
    &&& st.enabled == sourced.config.enabled
    &&& st.allowed_tools_count == opt_len(sourced.config.enabled_tools)
    &&& st.disabled_tools_count == opt_len(sourced.config.disabled_tools)
    &&& st.last_error is None
}

pub fn transport_display(config: &McpServerConfig) -> (r: (McpTransportKind, String))
    ensures
        r.0 == transport_display_spec(*config).0,
        r.1@ == transport_display_spec(*config).1,
{
    match &config.transport {
        McpServerTransport::Stdio { command, args, .. } => {
            let mut parts: Vec<Vec<char>> = Vec::new();
            parts.push(chars_of(command.as_str()));
            let mut i: usize = 0;
            while i < args.len()
                invariant
                    i <= args.len(),
                    views(parts@) == seq![command@] + string_views(args@).take(i as int),
                decreases args.len() - i,
            {
                let ghost prev = views(parts@);
                parts.push(chars_of(args[i].as_str()));
                assert(views(parts@) =~= prev + seq![args@[i as int]@]);
                assert(string_views(args@).take(i + 1) =~= string_views(args@).take(i as int)
                    + seq![args@[i as int]@]);
                i += 1;
            }
            assert(string_views(args@).take(args.len() as int) =~= string_views(args@));
            let mut sp: Vec<char> = Vec::new();
            sp.push(' ');
            assert(sp@ =~= seq![' ']);
            let line = join_exec(&parts, &sp);
            (McpTransportKind::Stdio, string_from_chars(&line))
        },
        McpServerTransport::StreamableHttp { url, .. } => {
            (McpTransportKind::StreamableHttp, sanitize_url_for_display(url.as_str()))
        },
    }
}

fn opt_len_exec(v: &Option<Vec<String>>) -> (r: Option<usize>)
    ensures
        r == opt_len(*v),
{
    match v {
        Some(v) => Some(v.len()),
        None => None,
    }
}

/// The status of a configured server before any connection attempt.
pub fn server_status(name: &str, sourced: &SourcedMcpServerConfig) -> (r: McpServerStatus)
    ensures
        is_server_status(r, name@, *sourced),
{
    let (transport, display_target) = transport_display(&sourced.config);
    McpServerStatus {
        name: name.to_owned(),
        scope: sourced.source.scope,
        source_path: sourced.source.path.clone(),
        state: if sourced.config.enabled {
            McpConnectionState::Configured
        } else {
            McpConnectionState::Disabled
        },
        transport,
        display_target,
        required: sourced.config.required,
        enabled: sourced.config.enabled,
        allowed_tools_count: opt_len_exec(&sourced.config.enabled_tools),
        disabled_tools_count: opt_len_exec(&sourced.config.disabled_tools),
        last_error: None,
    }
}

impl McpStatusSnapshot {
    /// One status per configured server, in registry order.
    pub fn from_registry(registry: &McpRegistry) -> (r: Self)
        ensures
            r.servers@.len() == registry.servers@.len(),
            forall|i: int|
                0 <= i < r.servers@.len() ==> is_server_status(
                    #[trigger] r.servers@[i],
                    registry.servers@[i].0@,
                    registry.servers@[i].1,
                ),
    {
        let mut servers: Vec<McpServerStatus> = Vec::new();
        let mut i: usize = 0;
        while i < registry.servers.len()
            invariant
                i <= registry.servers.len(),
                servers@.len() == i,
                forall|j: int|
                    0 <= j < i ==> is_server_status(
                        #[trigger] servers@[j],
                        registry.servers@[j].0@,
                        registry.servers@[j].1,
                    ),
            decreases registry.servers.len() - i,
        {
            let st = server_status(registry.servers[i].0.as_str(), &registry.servers[i].1);
            servers.push(st);
            i += 1;
        }
        McpStatusSnapshot { servers }
    }
}

} // verus!
