//! Runtime bootstrap decisions: which model backend a provider name
//! selects and with which endpoint defaults, what each backend requires,
//! the system-prompt additions of built-in plugins and of the multi-agent
//! policy, and where a workspace keeps its memory.
use vstd::prelude::*;

use crate::config::{McpRegistry, McpServerScope};
use crate::path::join_path;
use crate::runtime_session::profile::RuntimeSessionProfile;
use crate::text::{is_blank, is_blank_str, push_str, string_from_chars};

verus! {

/// The kind of backend a provider selects.
#[derive(Clone, Copy, Debug, PartialEq, Eq, Structural)]
pub enum ProviderBackend {
    Codex,
    /// A provider of the OpenAI-compatible family (its endpoint kind comes
    /// from the active profile or the provider name).
    OpenAiCompatibleFamily,
    Ollama,
    OllamaOpenAi,
    Gemini,
    GeminiCodeAssist,
    Local,
    Bedrock,
    Mock,
    /// Any other provider with a configured base URL, served as a custom
    /// OpenAI-compatible endpoint.
    ConfiguredOpenAiCompatible,
}

pub open spec fn named_backend(p: Seq<char>) -> Option<ProviderBackend> {
    if p == "codex"@ {
        Some(ProviderBackend::Codex)
    } else if p == "ollama"@ || p == "ollama-native"@ {
        Some(ProviderBackend::Ollama)
    } else if p == "ollama-openai"@ {
        Some(ProviderBackend::OllamaOpenAi)
    } else if p == "gemini"@ {
        Some(ProviderBackend::Gemini)
    } else if p == "gemini-code-assist"@ {
        Some(ProviderBackend::GeminiCodeAssist)
    } else if p == "gemma4"@ || p == "qwen3"@ || p == "qwn3"@ || p == "local"@ || p == "local-candle"@ {
        Some(ProviderBackend::Local)
    } else if p == "bedrock"@ {
        Some(ProviderBackend::Bedrock)
    } else if p == "mock"@ {
        Some(ProviderBackend::Mock)
    } else {
        None
    }
}

/// The backend of `provider`: `codex` first, then the OpenAI-compatible
/// family, then the named providers, then any provider with a non-blank
/// base URL; otherwise the provider is unsupported.
pub open spec fn provider_backend_spec(provider: Seq<char>, openai_family: bool, base_url: Option<Seq<char>>) -> Result<
    ProviderBackend,
    Seq<char>,
> {
    if provider == "codex"@ {
        Ok(ProviderBackend::Codex)
    } else if openai_family {
        Ok(ProviderBackend::OpenAiCompatibleFamily)
    } else if named_backend(provider) is Some {
        Ok(named_backend(provider)->0)
    } else if base_url matches Some(u) && !is_blank(u) {
        Ok(ProviderBackend::ConfiguredOpenAiCompatible)
    } else {
        Err("Unsupported provider '"@ + provider + "'"@)
    }
}

fn is(p: &Vec<char>, s: &str) -> (b: bool)
    ensures
        b == (p@ == s@),
{
    crate::text::eq_str(p, s)
}

/// Selects the backend for `provider`. `openai_family` is whether the
/// configuration counts the provider among the OpenAI-compatible family;
/// `base_url` is the configured base URL.
pub fn provider_backend(provider: &str, openai_family: bool, base_url: Option<&str>) -> (r: Result<
    ProviderBackend,
    String,
>)
    ensures
        match provider_backend_spec(
            provider@,
            openai_family,
            match base_url {
                Some(u) => Some(u@),
                None => None,
            },
        ) {
            Ok(b) => r == Ok::<ProviderBackend, String>(b),
            Err(m) => r matches Err(e) && e@ == m,
        },
{
    let p = crate::text::chars_of(provider);
    if is(&p, "codex") {
        return Ok(ProviderBackend::Codex);
    }
    if openai_family {
        return Ok(ProviderBackend::OpenAiCompatibleFamily);
    }
    if is(&p, "ollama") || is(&p, "ollama-native") {
        Ok(ProviderBackend::Ollama)
    } else if is(&p, "ollama-openai") {
        Ok(ProviderBackend::OllamaOpenAi)
    } else if is(&p, "gemini") {
        Ok(ProviderBackend::Gemini)
    } else if is(&p, "gemini-code-assist") {
        Ok(ProviderBackend::GeminiCodeAssist)
    } else if is(&p, "gemma4") || is(&p, "qwen3") || is(&p, "qwn3") || is(&p, "local") || is(&p, "local-candle") {
        Ok(ProviderBackend::Local)
    } else if is(&p, "bedrock") {
        Ok(ProviderBackend::Bedrock)
    } else if is(&p, "mock") {
        Ok(ProviderBackend::Mock)
    } else if is_configured_openai_compatible_provider(openai_family, base_url) {
        Ok(ProviderBackend::ConfiguredOpenAiCompatible)
    } else {
        let mut out: Vec<char> = Vec::new();
        push_str(&mut out, "Unsupported provider '");
        push_str(&mut out, provider);
        push_str(&mut out, "'");
        Err(string_from_chars(&out))
    }
}

/// Whether a provider outside the OpenAI-compatible family is served as a
/// custom OpenAI-compatible endpoint: when a non-blank base URL is set.
pub fn is_configured_openai_compatible_provider(openai_family: bool, base_url: Option<&str>) -> (b: bool)
    ensures
        b == (!openai_family && (base_url matches Some(u) && !is_blank(u@))),
{
    if openai_family {
        return false;
    }
    match base_url {
        Some(u) => !is_blank_str(u),
        None => false,
    }
}

/// The OpenAI-compatible endpoint kinds.
#[derive(Clone, Copy, Debug, PartialEq, Eq, Structural)]
pub enum OpenAiEndpointKind {
    Deepseek,
    Kimi,
    KimiCoding,
    Openrouter,
    Custom,
}

/// The endpoint kind a provider name implies when no profile names one.
pub fn endpoint_kind_for_provider(provider: &str) -> (r: OpenAiEndpointKind)
    ensures
        r == (if provider@ == "deepseek"@ {
            OpenAiEndpointKind::Deepseek
        } else if provider@ == "kimi"@ {
            OpenAiEndpointKind::Kimi
        } else if provider@ == "kimi-coding"@ {
            OpenAiEndpointKind::KimiCoding
        } else if provider@ == "openrouter"@ {
            OpenAiEndpointKind::Openrouter
        } else {
            OpenAiEndpointKind::Custom
        }),
{
    let p = crate::text::chars_of(provider);
    if is(&p, "deepseek") {
        OpenAiEndpointKind::Deepseek
    } else if is(&p, "kimi") {
        OpenAiEndpointKind::Kimi
    } else if is(&p, "kimi-coding") {
        OpenAiEndpointKind::KimiCoding
    } else if is(&p, "openrouter") {
        OpenAiEndpointKind::Openrouter
    } else {
        OpenAiEndpointKind::Custom
    }
}

/// The Ollama endpoint: the configured base URL, else the local default.
pub fn ollama_base_url(base_url: Option<String>) -> (r: String)
    ensures
        r@ == match base_url {
            Some(u) => u@,
            None => "http://localhost:11434"@,
        },
{
    match base_url {
        Some(u) => u,
        None => "http://localhost:11434".to_owned(),
    }
}

/// A setting the backend cannot do without: its value, or the error.
pub fn required_setting(value: Option<String>, message: &str) -> (r: Result<String, String>)
    ensures
        match value {
            Some(v) => r == Ok::<String, String>(v),
            None => r matches Err(m) && m@ == message@,
        },
{
    match value {
        Some(v) => Ok(v),
        None => Err(message.to_owned()),
    }
}

/// The error of a configured provider that lacks `what` (`Model` or
/// `Base URL`).
pub fn configured_provider_requirement(what: &str, provider: &str) -> (r: String)
    ensures
        r@ == what@ + " required for configured provider '"@ + provider@ + "'"@,
{
    let mut out: Vec<char> = Vec::new();
    push_str(&mut out, what);
    push_str(&mut out, " required for configured provider '");
    push_str(&mut out, provider);
    push_str(&mut out, "'");
    string_from_chars(&out)
}

/// Whether Ollama thinks: never when the reasoning summary is switched off
/// (`summary_off`), else as configured, on by default.
pub fn ollama_thinking_enabled(summary_off: bool, thinking: Option<bool>) -> (b: bool)
    ensures
        b == (!summary_off && match thinking {
            Some(t) => t,
            None => true,
        }),
{
    if summary_off {
        false
    } else {
        match thinking {
            Some(t) => t,
            None => true,
        }
    }
}

/// Appends `instructions` to the system-prompt addition, after a blank
/// line when there is one already.
pub fn append_system_prompt(existing: Option<String>, instructions: &str) -> (r: String)
    ensures
        r@ == match existing {
            Some(e) => e@ + "\n\n"@ + instructions@,
            None => instructions@,
        },
{
    match existing {
        Some(e) => {
            let mut out: Vec<char> = Vec::new();
            push_str(&mut out, e.as_str());
            push_str(&mut out, "\n\n");
            push_str(&mut out, instructions);
            string_from_chars(&out)
        },
        None => instructions.to_owned(),
    }
}

/// How the runtime may delegate to other agents.
#[derive(Clone, Copy, Debug, PartialEq, Eq, Structural)]
pub enum MultiAgentPolicy {
    Disabled,
    Explicit,
    ProactiveReadOnly,
}

pub open spec fn explicit_policy_text() -> Seq<char> {
    "## Multi-Agent Policy\n- Delegation is explicit-only for this runtime.\n- Use agent tools only when the user requests delegation or the task contract explicitly requires parallel agent work.\n- A higher reasoning effort does not enable proactive delegation.\n- When delegating, assign non-overlapping tasks and synthesize the returned evidence yourself."@
}

pub open spec fn proactive_policy_text() -> Seq<char> {
    "## Multi-Agent Policy\n- You may proactively delegate bounded independent research, repository exploration, planning, or review when parallel work materially improves the result.\n- Proactive work must use read-only roles such as explore, plan, architect, or researcher. Do not proactively select a general or custom mutation-capable agent.\n- Do not delegate trivial work, duplicate a child's assignment, or use delegation as a substitute for synthesis.\n- Launch independent tasks together when practical, continue non-overlapping work, and use wait_agent when their results are required.\n- Model selection and permissions are independent: choose an appropriate child provider/model without weakening the selected role's tool policy."@
}

/// The system-prompt addition after the multi-agent policy's instructions:
/// unchanged when delegation is disabled.
pub fn append_multi_agent_prompt_instructions(existing: Option<String>, policy: MultiAgentPolicy) -> (r: Option<
    String,
>)
    ensures
        match policy {
            MultiAgentPolicy::Disabled => r == existing,
            MultiAgentPolicy::Explicit => r matches Some(s) && s@ == match existing {
                Some(e) => e@ + "\n\n"@ + explicit_policy_text(),
                None => explicit_policy_text(),
            },
            MultiAgentPolicy::ProactiveReadOnly => r matches Some(s) && s@ == match existing {
                Some(e) => e@ + "\n\n"@ + proactive_policy_text(),
                None => proactive_policy_text(),
            },
        },
{
    match policy {
        MultiAgentPolicy::Disabled => existing,
        MultiAgentPolicy::Explicit => Some(
            append_system_prompt(
                existing,
                "## Multi-Agent Policy\n- Delegation is explicit-only for this runtime.\n- Use agent tools only when the user requests delegation or the task contract explicitly requires parallel agent work.\n- A higher reasoning effort does not enable proactive delegation.\n- When delegating, assign non-overlapping tasks and synthesize the returned evidence yourself.",
            ),
        ),
        MultiAgentPolicy::ProactiveReadOnly => Some(
            append_system_prompt(
                existing,
                "## Multi-Agent Policy\n- You may proactively delegate bounded independent research, repository exploration, planning, or review when parallel work materially improves the result.\n- Proactive work must use read-only roles such as explore, plan, architect, or researcher. Do not proactively select a general or custom mutation-capable agent.\n- Do not delegate trivial work, duplicate a child's assignment, or use delegation as a substitute for synthesis.\n- Launch independent tasks together when practical, continue non-overlapping work, and use wait_agent when their results are required.\n- Model selection and permissions are independent: choose an appropriate child provider/model without weakening the selected role's tool policy.",
            ),
        ),
    }
}

/// Where a workspace keeps its memory: `memory` under its `.rara` directory.
pub fn memory_handle_uri_for_workspace(rara_dir: &str) -> (r: String)
    ensures
        r@ == join_path(rara_dir@, "memory"@),
{
    string_from_chars(&crate::path::join_path_str(&crate::text::chars_of(rara_dir), "memory"))
}

/// Where a workspace keeps its vector index: `lancedb` under its `.rara`
/// directory.
pub fn vector_db_uri_for_workspace(rara_dir: &str) -> (r: String)
    ensures
        r@ == join_path(rara_dir@, "lancedb"@),
{
    string_from_chars(&crate::path::join_path_str(&crate::text::chars_of(rara_dir), "lancedb"))
}

// ---------------------------------------------------------------------------
// Session bootstrap
// ---------------------------------------------------------------------------

/// The facilities a session bootstrap sets up, and its profile and event
/// capacity.
#[derive(Clone, Copy, Debug, PartialEq, Eq, Structural)]
pub struct BootstrapSettings {
    pub extension_discovery: bool,
    pub transcript_persistence: bool,
    pub memory_facilities: bool,
    pub session_profile: RuntimeSessionProfile,
    pub event_capacity: usize,
}

impl BootstrapSettings {
    /// Everything on, the default profile, room for 256 events.
    pub fn new() -> (r: Self)
        ensures
            r.extension_discovery && r.transcript_persistence && r.memory_facilities,
            r.session_profile == RuntimeSessionProfile::Default,
            r.event_capacity == 256,
    {
        BootstrapSettings {
            extension_discovery: true,
            transcript_persistence: true,
            memory_facilities: true,
            session_profile: RuntimeSessionProfile::Default,
            event_capacity: 256,
        }
    }

    /// The same settings with room for `capacity` events, at least one.
    pub fn with_event_capacity(self, capacity: usize) -> (r: Self)
        ensures
            r == (BootstrapSettings { event_capacity: if capacity < 1 { 1 } else { capacity }, ..self }),
    {
        BootstrapSettings { event_capacity: if capacity < 1 { 1 } else { capacity }, ..self }
    }

    /// The settings a bootstrap applies: a profile that leaves out ambient
    /// facilities turns off extension discovery, transcript persistence and
    /// memory, whatever was asked.
    pub fn effective(self) -> (r: Self)
        ensures
            self.session_profile == RuntimeSessionProfile::HeadlessCodingV1 ==> r == (BootstrapSettings {
                extension_discovery: false,
                transcript_persistence: false,
                memory_facilities: false,
                ..self
            }),
            self.session_profile == RuntimeSessionProfile::Default ==> r == self,
    {
        if self.session_profile.disables_ambient_facilities() {
            BootstrapSettings {
                extension_discovery: false,
                transcript_persistence: false,
                memory_facilities: false,
                ..self
            }
        } else {
            self
        }
    }
}

/// The delegation policy of a session: the configured one, except that a
/// headless profile never delegates.
pub fn effective_multi_agent_policy(profile: RuntimeSessionProfile, configured: MultiAgentPolicy) -> (r:
    MultiAgentPolicy)
    ensures
        profile == RuntimeSessionProfile::Default ==> r == configured,
        profile == RuntimeSessionProfile::HeadlessCodingV1 ==> r == MultiAgentPolicy::Disabled,
{
    match profile {
        RuntimeSessionProfile::Default => configured,
        RuntimeSessionProfile::HeadlessCodingV1 => MultiAgentPolicy::Disabled,
    }
}

/// Where a skill was found.
#[derive(Clone, Copy, Debug, PartialEq, Eq, Structural)]
pub enum SkillScope {
    Global,
    Home,
    Workspace,
    Repo,
    Cwd,
    Plugin,
    System,
}

pub open spec fn prompt_scope_name(scope: SkillScope) -> Seq<char> {
    match scope {
        SkillScope::Global | SkillScope::Home => "global"@,
        SkillScope::Workspace | SkillScope::Repo | SkillScope::Cwd => "workspace"@,
        SkillScope::Plugin => "plugin"@,
        SkillScope::System => "system"@,
    }
}

/// How the prompt names the scope of an available skill.
pub fn prompt_skill_scope(scope: SkillScope) -> (r: &'static str)
    ensures
        r@ == prompt_scope_name(scope),
{
    match scope {
        SkillScope::Global | SkillScope::Home => "global",
        SkillScope::Workspace | SkillScope::Repo | SkillScope::Cwd => "workspace",
        SkillScope::Plugin => "plugin",
        SkillScope::System => "system",
    }
}

/// Whether a server comes from an extension: a plugin or a built-in one.
pub open spec fn from_extension(scope: McpServerScope) -> bool {
    scope == McpServerScope::Plugin || scope == McpServerScope::Builtin
}

/// How many of the first `n` registry servers come from extensions.
pub open spec fn extension_servers(servers: Seq<(String, crate::config::SourcedMcpServerConfig)>, n: int) -> nat
    decreases n,
{
    if n <= 0 || n > servers.len() {
        0
    } else {
        extension_servers(servers, n - 1) + if from_extension(servers[n - 1].1.source.scope) {
            1nat
        } else {
            0nat
        }
    }
}

proof fn lemma_extension_servers_le(servers: Seq<(String, crate::config::SourcedMcpServerConfig)>, n: int)
    requires
        0 <= n <= servers.len(),
    ensures
        extension_servers(servers, n) <= n,
    decreases n,
{
    if n > 0 {
        lemma_extension_servers_le(servers, n - 1);
    }
}

/// How many configured MCP servers come from extensions.
pub fn extension_mcp_server_count(registry: &McpRegistry) -> (r: usize)
    ensures
        r == extension_servers(registry.servers@, registry.servers@.len() as int),
{
    let mut count: usize = 0;
    let mut i: usize = 0;
    while i < registry.servers.len()
        invariant
            i <= registry.servers.len(),
            count == extension_servers(registry.servers@, i as int),
        decreases registry.servers.len() - i,
    {
        proof {
            lemma_extension_servers_le(registry.servers@, i as int);
        }
        let scope = registry.servers[i].1.source.scope;
        if scope == McpServerScope::Plugin || scope == McpServerScope::Builtin {
            count = count + 1;
        }
        i += 1;
    }
    count
}

/// The prompt entry of a file hook: its phase as a heading, then its body.
pub fn hook_prompt_entry(phase: &str, body: &str) -> (r: String)
    ensures
        r@ == "## "@ + phase@ + "\n\n"@ + body@,
{
    let mut out: Vec<char> = Vec::new();
    push_str(&mut out, "## ");
    push_str(&mut out, phase);
    push_str(&mut out, "\n\n");
    push_str(&mut out, body);
    string_from_chars(&out)
}

/// Whether a file hook's body goes into the prompt: hooks read from the
/// shared settings file the host names (`shared_settings`) do not.
pub fn hook_enters_prompt(source_path: &str, shared_settings: &str) -> (b: bool)
    ensures
        b == (source_path@ != shared_settings@),
{
    !crate::text::eq_str(&crate::text::chars_of(source_path), shared_settings)
}

/// The message refusing a backend that needs a model when none is set; none
/// for a backend that has a default model (or needs none).
pub open spec fn missing_model_message(backend: ProviderBackend, provider: Seq<char>) -> Option<Seq<char>> {
    match backend {
        ProviderBackend::Ollama => Some("Model required for Ollama provider"@),
        ProviderBackend::OllamaOpenAi => Some("Model required for Ollama OpenAI provider"@),
        ProviderBackend::Bedrock => Some("Model required for Bedrock provider"@),
        ProviderBackend::ConfiguredOpenAiCompatible => Some(
            "Model required for configured provider '"@ + provider + "'"@,
        ),
        _ => None,
    }
}

/// The configured model for a backend: refused when the backend needs a
/// model and none is configured; otherwise the configured model, which
/// backends with a default may leave unset.
pub fn backend_model(backend: ProviderBackend, provider: &str, model: Option<String>) -> (r: Result<Option<String>, String>)
    ensures
        match missing_model_message(backend, provider@) {
            Some(m) => match model {
                Some(v) => r == Ok::<Option<String>, String>(Some(v)),
                None => r matches Err(e) && e@ == m,
            },
            None => r == Ok::<Option<String>, String>(model),
        },
{
    proof {
        reveal_strlit("Model");
        reveal_strlit(" required for configured provider '");
        reveal_strlit("Model required for configured provider '");
    }
    let message = match backend {
        ProviderBackend::Ollama => "Model required for Ollama provider".to_owned(),
        ProviderBackend::OllamaOpenAi => "Model required for Ollama OpenAI provider".to_owned(),
        ProviderBackend::Bedrock => "Model required for Bedrock provider".to_owned(),
        ProviderBackend::ConfiguredOpenAiCompatible => configured_provider_requirement("Model", provider),
        _ => return Ok(model),
    };
    match model {
        Some(v) => Ok(Some(v)),
        None => Err(message),
    }
}

/// Whether a tool orchestrates other agents: starting one or waiting for
/// one.
pub open spec fn orchestration_tool(name: Seq<char>) -> bool {
    name == "spawn_agent"@ || name == "wait_agent"@
}

/// Keeps, in order, the registered tools the delegation policy allows: with
/// delegation disabled, the agent-orchestration tools are removed.
pub fn project_policy_tools(policy: MultiAgentPolicy, tools: &mut Vec<String>)
    ensures
        policy == MultiAgentPolicy::Disabled ==> final(tools)@ == old(tools)@.filter(
            |t: String| !orchestration_tool(t@),
        ),
        policy != MultiAgentPolicy::Disabled ==> final(tools)@ == old(tools)@,
{
    if policy != MultiAgentPolicy::Disabled {
        return;
    }
    let ghost original = tools@;
    let ghost pred = |t: String| !orchestration_tool(t@);
    let mut kept: Vec<String> = Vec::new();
    let mut i: usize = 0;
    while i < tools.len()
        invariant
            i <= tools.len(),
            tools@ == original,
            pred == (|t: String| !orchestration_tool(t@)),
            kept@ == original.take(i as int).filter(pred),
        decreases tools.len() - i,
    {
        proof {
            assert(original.take(i + 1) =~= original.take(i as int).push(original[i as int]));
            original.take(i as int).lemma_filter_push(original[i as int], pred);
        }
        let name = crate::text::chars_of(tools[i].as_str());
        let orchestrates = crate::text::eq_str(&name, "spawn_agent") || crate::text::eq_str(&name, "wait_agent");
        assert(orchestrates == orchestration_tool(original[i as int]@));
        if !orchestrates {
            kept.push(tools[i].clone());
        }
        i += 1;
    }
    assert(original.take(original.len() as int) =~= original);
    *tools = kept;
}

} // verus!
