//! Control-plane protocol types: provenance, prompt-source requests and the
//! structured runtime events published to protocol subscribers.
use vstd::prelude::*;

use crate::mcp_status::{McpConnectionState, McpStatusSnapshot};
use crate::runtime_event_bus::ToolEvent;
use crate::text::copy_opt_string;

verus! {

/// Which controller originated a control request or event.
#[derive(Clone, Copy, Debug, PartialEq, Eq, Structural)]
pub enum RuntimeControllerKind {
    Runtime,
    AppServer,
    Acp,
}

/// Origin of a control request or event.
#[derive(Clone, Debug, PartialEq, Eq)]
pub struct RuntimeProvenance {
    pub controller: RuntimeControllerKind,
    pub adapter: Option<String>,
    pub session_id: Option<String>,
    pub source_id: Option<String>,
}

impl RuntimeProvenance {
    /// Provenance of events produced by the runtime itself.
    pub fn runtime(session_id: Option<String>) -> (r: Self)
        ensures
            r.controller == RuntimeControllerKind::Runtime,
            r.adapter is None,
            r.session_id == session_id,
            r.source_id is None,
    {
        RuntimeProvenance {
            controller: RuntimeControllerKind::Runtime,
            adapter: None,
            session_id,
            source_id: None,
        }
    }

    /// Provenance of a request that arrived through a protocol adapter.
    pub fn protocol(
        controller: RuntimeControllerKind,
        adapter: &str,
        session_id: Option<String>,
        source_id: Option<String>,
    ) -> (r: Self)
        ensures
            r.controller == controller,
            r.adapter matches Some(a) && a@ == adapter@,
            r.session_id == session_id,
            r.source_id == source_id,
    {
        RuntimeProvenance {
            controller,
            adapter: Some(adapter.to_owned()),
            session_id,
            source_id,
        }
    }

    /// A field-for-field copy.
    pub fn duplicate(&self) -> (r: Self)
        ensures
            r == *self,
    {
        RuntimeProvenance {
            controller: self.controller,
            adapter: copy_opt_string(&self.adapter),
            session_id: copy_opt_string(&self.session_id),
            source_id: copy_opt_string(&self.source_id),
        }
    }
}

/// Where a prompt source applies.
#[derive(Clone, Copy, Debug, PartialEq, Eq, Structural)]
pub enum SourceScope {
    Session,
    Protocol,
    Home,
}

/// Which prompt layer a source is assembled into.
#[derive(Clone, Copy, Debug, PartialEq, Eq, Structural)]
pub enum SourceLayer {
    System,
    User,
}

/// How long a prompt source stays registered.
#[derive(Clone, Copy, Debug, PartialEq, Eq, Structural)]
pub enum PromptSourceLifetime {
    /// Removed after this many queries.
    Turns(u32),
    Session,
    Persistent,
}

/// A prompt source offered by a protocol adapter.
#[derive(Clone, Debug, PartialEq, Eq)]
pub struct PromptSourceRegistration {
    pub source_id: String,
    pub scope: SourceScope,
    pub layer: SourceLayer,
    pub budget_hint_tokens: Option<u32>,
    pub lifetime: PromptSourceLifetime,
    pub content: String,
}

impl PromptSourceRegistration {
    /// A field-for-field copy.
    pub fn duplicate(&self) -> (r: Self)
        ensures
            r == *self,
    {
        PromptSourceRegistration {
            source_id: self.source_id.clone(),
            scope: self.scope,
            layer: self.layer,
            budget_hint_tokens: self.budget_hint_tokens,
            lifetime: self.lifetime,
            content: self.content.clone(),
        }
    }
}

/// Prompt-source control requests.
#[derive(Clone, Debug, PartialEq, Eq)]
pub enum PromptSourceControlRequest {
    Register(PromptSourceRegistration),
    Unregister { source_id: String },
    QuerySources,
}

/// A reply to a pending plan approval.
#[derive(Clone, Copy, Debug, PartialEq, Eq, Structural)]
pub enum PlanApprovalDecision {
    Approve,
    ContinuePlanning,
    Reject,
}

/// A reply to a pending shell-command approval.
#[derive(Clone, Copy, Debug, PartialEq, Eq, Structural)]
pub enum ShellApprovalDecision {
    Once,
    Prefix,
    Always,
    Suggestion,
}

/// Skill-source control requests.
#[derive(Clone, Debug, PartialEq, Eq)]
pub enum SkillSourceControlRequest {
    RegisterRoot { source_id: String, root: String, precedence_hint: Option<i32> },
    RegisterSkill {
        source_id: String,
        name: String,
        content: String,
        precedence_hint: Option<i32>,
    },
    DisableSkill { name: String, source_id: Option<String> },
    QuerySkills,
}

/// Memory scopes that protocol adapters may address.
#[derive(Clone, Copy, Debug, PartialEq, Eq, Structural)]
pub enum MemoryScope {
    Workspace,
    Thread,
}

#[derive(Clone, Debug, PartialEq, Eq)]
pub enum SessionEvent {
    Created { session_id: String },
    Resumed { session_id: String },
    Status { message: String },
    TurnStarted,
    TurnCancelled,
    TurnInterrupted,
    TurnFinished { reason: Option<String> },
    TurnFailed { reason: String },
    ModelRequest {
        model: String,
        /// Estimated input tokens for the outgoing request; 0 when the
        /// provider reports the count only with the response.
        input_tokens: u32,
    },
    ModelResponse { model: String, output_tokens: u32, finish_reason: Option<String> },
    Compacted {
        count: usize,
        before_tokens: usize,
        after_tokens: usize,
        summary: String,
        recent_files: Vec<String>,
    },
}

#[derive(Clone, Debug, PartialEq, Eq)]
pub enum InputEvent {
    UserPromptSubmitted,
    FollowUpQueued { queue_len: u32 },
    PendingInputAnswered,
}

#[derive(Clone, Debug, PartialEq, Eq)]
pub enum AssistantEvent {
    Text(String),
    TextDelta(String),
    ThinkingDelta(String),
}

#[derive(Clone, Copy, Debug, PartialEq, Eq, Structural)]
pub enum ToolStream {
    Stdout,
    Stderr,
}

#[derive(Clone, Debug, PartialEq, Eq)]
pub enum ApprovalEvent {
    Requested { approval_id: String, kind: String },
    Answered { approval_id: String, approved: bool },
}

#[derive(Clone, Debug, PartialEq, Eq)]
pub enum PlanEvent {
    Updated { steps: Vec<PlanStepEvent>, explanation: Option<String> },
    Approved,
    Continued,
}

#[derive(Clone, Debug, PartialEq, Eq)]
pub struct PlanStepEvent {
    pub step: String,
    pub status: PlanStepStatusEvent,
}

#[derive(Clone, Copy, Debug, PartialEq, Eq, Structural)]
pub enum PlanStepStatusEvent {
    Pending,
    InProgress,
    Completed,
}

#[derive(Clone, Debug, PartialEq, Eq)]
pub enum PromptSourceEvent {
    Registered { source_id: String },
    Injected { source_id: String },
    Unregistered { source_id: String },
    Dropped { source_id: String, reason: String },
}

#[derive(Clone, Debug, PartialEq, Eq)]
pub enum SkillEvent {
    Registered { source_id: String, name: String },
    Disabled { source_id: String, name: String },
    Unregistered { source_id: String, name: String },
    Injected { source_id: String, name: String },
    Shadowed { name: String, by_source_id: String },
    Failed { source_id: String, reason: String },
}

#[derive(Clone, Debug, PartialEq, Eq)]
pub enum McpEvent {
    StatusUpdated { snapshot: McpStatusSnapshot },
    StatusLoadFailed { message: String },
    ServerStateChanged { server_name: String, state: McpConnectionState },
    ServerReconnecting { server_name: String, attempt: u32, backoff_ms: u64 },
    ConfigurationRefreshed,
}

#[derive(Clone, Debug, PartialEq, Eq)]
pub struct MemoryLabelSummary {
    pub label: String,
    pub count: usize,
}

#[derive(Clone, Debug, PartialEq, Eq)]
pub struct MemoryRecordSummary {
    pub id: String,
    pub title: String,
    pub content: String,
    pub labels: Vec<String>,
    pub importance_basis_points: u32,
    pub pinned: bool,
    pub scope: String,
    pub session_id: Option<String>,
    pub thread_id: Option<String>,
}

#[derive(Clone, Debug, PartialEq, Eq)]
pub enum ContextEvent {
    SnapshotUpdated,
}

#[derive(Clone, Debug, PartialEq, Eq)]
pub enum ExtensionEvent {
    ReadinessUpdated { snapshot: ExtensionReadinessSnapshot },
}

#[derive(Clone, Debug, Default, PartialEq, Eq)]
pub struct ExtensionReadinessSnapshot {
    pub plugin_count: usize,
    pub hook_count: usize,
    pub skill_count: usize,
    pub command_count: usize,
    pub agent_count: usize,
    pub mcp_server_count: usize,
}

#[derive(Clone, Debug, PartialEq, Eq)]
pub enum WarningEvent {
    RuntimeWarning { message: String },
}

#[derive(Clone, Debug, PartialEq, Eq)]
pub enum ErrorEvent {
    RuntimeError { message: String, recoverable: bool },
}

/// A memory event published to protocol subscribers.
#[derive(Clone, Debug, PartialEq, Eq)]
pub enum MemoryEvent {
    RecordAdded { memory_id: String },
    RecordUpdated { memory_id: String },
    RecordDeleted { memory_id: String },
    LabelsListed { scope: Option<MemoryScope>, labels: Vec<MemoryLabelSummary> },
    MetadataQueried { record_count: usize, labels: Vec<MemoryLabelSummary> },
    RecordsQueried { query: String, records: Vec<MemoryRecordSummary> },
    ActionObserved { message: String },
    SelectionUpdated,
}

/// A todo-list event; the list is carried as its JSON text.
#[derive(Clone, Debug, PartialEq, Eq)]
pub enum TodoEvent {
    Updated { state: String },
}

/// A structured event of the runtime control plane.
#[derive(Clone, Debug, PartialEq, Eq)]
pub enum RuntimeEvent {
    Session(SessionEvent),
    Input(InputEvent),
    Assistant(AssistantEvent),
    Tool(ToolEvent),
    Approval(ApprovalEvent),
    Plan(PlanEvent),
    PromptSource(PromptSourceEvent),
    Skill(SkillEvent),
    Mcp(McpEvent),
    Memory(MemoryEvent),
    Context(ContextEvent),
    Extension(ExtensionEvent),
    Todo(TodoEvent),
    Warning(WarningEvent),
    Error(ErrorEvent),
}

/// A runtime event with its identity, origin, turn and place in the stream.
#[derive(Clone, Debug, PartialEq, Eq)]
pub struct RuntimeControlEvent {
    pub event_id: String,
    pub provenance: RuntimeProvenance,
    pub turn_id: Option<String>,
    pub sequence: u64,
    pub event: RuntimeEvent,
}

/// The status of one step of an agent's plan.
#[derive(Clone, Copy, Debug, PartialEq, Eq, Structural)]
pub enum PlanStepStatus {
    Pending,
    InProgress,
    Completed,
}

/// One step of an agent's plan.
#[derive(Clone, Debug, PartialEq, Eq)]
pub struct PlanStep {
    pub step: String,
    pub status: PlanStepStatus,
}

/// What the agent loop reports while it works. Tool inputs are carried as
/// JSON text and the todo list as its JSON text.
#[derive(Clone, Debug, PartialEq, Eq)]
pub enum AgentEvent {
    Status(String),
    AssistantText(String),
    AssistantDelta(String),
    AssistantThinkingDelta(String),
    ToolUse { call_id: String, name: String, input: String },
    ToolResult { call_id: String, name: String, content: String, is_error: bool },
    ToolProgress { call_id: String, name: String, stream: ToolStream, chunk: String },
    MemoryAction { message: String },
    McpStatusUpdated(McpStatusSnapshot),
    McpStatusLoadFailed { message: String },
    TodoUpdated(String),
    PlanUpdated { steps: Vec<PlanStep>, explanation: Option<String> },
    ApprovalRequested { approval_id: String, kind: String },
    ApprovalAnswered { approval_id: String, approved: bool },
    AgentStart,
    AgentStop { reason: String },
    AgentError { message: String, recoverable: bool },
    ModelRequest { model: String, input_tokens: u32 },
    ModelResponse { model: String, output_tokens: u32, finish_reason: Option<String> },
    Compaction {
        count: usize,
        before_tokens: usize,
        after_tokens: usize,
        summary: String,
        recent_files: Vec<String>,
    },
}

pub open spec fn plan_step_status_event(s: PlanStepStatus) -> PlanStepStatusEvent {
    match s {
        PlanStepStatus::Pending => PlanStepStatusEvent::Pending,
        PlanStepStatus::InProgress => PlanStepStatusEvent::InProgress,
        PlanStepStatus::Completed => PlanStepStatusEvent::Completed,
    }
}

pub open spec fn plan_step_event(s: PlanStep) -> PlanStepEvent {
    PlanStepEvent { step: s.step, status: plan_step_status_event(s.status) }
}

impl From<PlanStep> for PlanStepEvent {
    fn from(step: PlanStep) -> (r: Self) {
        let status = match step.status {
            PlanStepStatus::Pending => PlanStepStatusEvent::Pending,
            PlanStepStatus::InProgress => PlanStepStatusEvent::InProgress,
            PlanStepStatus::Completed => PlanStepStatusEvent::Completed,
        };
        PlanStepEvent { step: step.step, status }
    }
}

impl vstd::std_specs::convert::FromSpecImpl<PlanStep> for PlanStepEvent {
    open spec fn obeys_from_spec() -> bool {
        true
    }

    open spec fn from_spec(v: PlanStep) -> PlanStepEvent {
        plan_step_event(v)
    }
}

/// The runtime event that reports an agent event: each agent event maps to
/// the event of the same meaning, tool events carrying their call identity.
pub open spec fn reports_agent_event(event: AgentEvent, r: RuntimeEvent) -> bool {
    match event {
        AgentEvent::Status(message) => r == RuntimeEvent::Session(SessionEvent::Status { message }),
        AgentEvent::AssistantText(text) => r == RuntimeEvent::Assistant(AssistantEvent::Text(text)),
        AgentEvent::AssistantDelta(d) => r == RuntimeEvent::Assistant(AssistantEvent::TextDelta(d)),
        AgentEvent::AssistantThinkingDelta(d) => r == RuntimeEvent::Assistant(
            AssistantEvent::ThinkingDelta(d),
        ),
        AgentEvent::ToolUse { call_id, name, input } => r == RuntimeEvent::Tool(
            ToolEvent::Use { call_id: Some(call_id), name, input },
        ),
        AgentEvent::ToolResult { call_id, name, content, is_error } => r == RuntimeEvent::Tool(
            ToolEvent::Result { call_id: Some(call_id), name, content, is_error },
        ),
        AgentEvent::ToolProgress { call_id, name, stream, chunk } => r == RuntimeEvent::Tool(
            ToolEvent::Progress { call_id: Some(call_id), name, stream, chunk },
        ),
        AgentEvent::MemoryAction { message } => r == RuntimeEvent::Memory(
            MemoryEvent::ActionObserved { message },
        ),
        AgentEvent::McpStatusUpdated(snapshot) => r == RuntimeEvent::Mcp(
            McpEvent::StatusUpdated { snapshot },
        ),
        AgentEvent::McpStatusLoadFailed { message } => r == RuntimeEvent::Mcp(
            McpEvent::StatusLoadFailed { message },
        ),
        AgentEvent::TodoUpdated(state) => r == RuntimeEvent::Todo(TodoEvent::Updated { state }),
        AgentEvent::PlanUpdated { steps, explanation } => r matches RuntimeEvent::Plan(
            PlanEvent::Updated { steps: out, explanation: e },
        ) && out@ == steps@.map_values(|s: PlanStep| plan_step_event(s)) && e == explanation,
        AgentEvent::ApprovalRequested { approval_id, kind } => r == RuntimeEvent::Approval(
            ApprovalEvent::Requested { approval_id, kind },
        ),
        AgentEvent::ApprovalAnswered { approval_id, approved } => r == RuntimeEvent::Approval(
            ApprovalEvent::Answered { approval_id, approved },
        ),
        AgentEvent::AgentStart => r == RuntimeEvent::Session(SessionEvent::TurnStarted),
        AgentEvent::AgentStop { reason } => r == RuntimeEvent::Session(
            SessionEvent::TurnFinished { reason: Some(reason) },
        ),
        AgentEvent::AgentError { message, recoverable } => r == RuntimeEvent::Error(
            ErrorEvent::RuntimeError { message, recoverable },
        ),
        AgentEvent::ModelRequest { model, input_tokens } => r == RuntimeEvent::Session(
            SessionEvent::ModelRequest { model, input_tokens },
        ),
        AgentEvent::ModelResponse { model, output_tokens, finish_reason } => r == RuntimeEvent::Session(
            SessionEvent::ModelResponse { model, output_tokens, finish_reason },
        ),
        AgentEvent::Compaction { count, before_tokens, after_tokens, summary, recent_files } => r
            == RuntimeEvent::Session(
            SessionEvent::Compacted { count, before_tokens, after_tokens, summary, recent_files },
        ),
    }
}

/// The runtime event reporting an agent event.
pub fn agent_event_to_runtime_event(event: AgentEvent) -> (r: RuntimeEvent)
    ensures
        reports_agent_event(event, r),
{
    match event {
        AgentEvent::Status(message) => RuntimeEvent::Session(SessionEvent::Status { message }),
        AgentEvent::AssistantText(text) => RuntimeEvent::Assistant(AssistantEvent::Text(text)),
        AgentEvent::AssistantDelta(d) => RuntimeEvent::Assistant(AssistantEvent::TextDelta(d)),
        AgentEvent::AssistantThinkingDelta(d) => RuntimeEvent::Assistant(
            AssistantEvent::ThinkingDelta(d),
        ),
        AgentEvent::ToolUse { call_id, name, input } => RuntimeEvent::Tool(
            ToolEvent::Use { call_id: Some(call_id), name, input },
        ),
        AgentEvent::ToolResult { call_id, name, content, is_error } => RuntimeEvent::Tool(
            ToolEvent::Result { call_id: Some(call_id), name, content, is_error },
        ),
        AgentEvent::ToolProgress { call_id, name, stream, chunk } => RuntimeEvent::Tool(
            ToolEvent::Progress { call_id: Some(call_id), name, stream, chunk },
        ),
        AgentEvent::MemoryAction { message } => RuntimeEvent::Memory(
            MemoryEvent::ActionObserved { message },
        ),
        AgentEvent::McpStatusUpdated(snapshot) => RuntimeEvent::Mcp(
            McpEvent::StatusUpdated { snapshot },
        ),
        AgentEvent::McpStatusLoadFailed { message } => RuntimeEvent::Mcp(
            McpEvent::StatusLoadFailed { message },
        ),
        AgentEvent::TodoUpdated(state) => RuntimeEvent::Todo(TodoEvent::Updated { state }),
        AgentEvent::PlanUpdated { steps, explanation } => {
            let mut out: Vec<PlanStepEvent> = Vec::new();
            let mut i: usize = 0;
            while i < steps.len()
                invariant
                    i <= steps.len(),
                    out@.len() == i,
                    forall|k: int| 0 <= k < i ==> out@[k] == plan_step_event(#[trigger] steps@[k]),
                decreases steps.len() - i,
            {
                let step = PlanStep { step: steps[i].step.clone(), status: steps[i].status };
                assert(step.step@ == steps@[i as int].step@);
                out.push(PlanStepEvent::from(step));
                i += 1;
            }
            assert(out@ =~= steps@.map_values(|s: PlanStep| plan_step_event(s)));
            RuntimeEvent::Plan(PlanEvent::Updated { steps: out, explanation })
        },
        AgentEvent::ApprovalRequested { approval_id, kind } => RuntimeEvent::Approval(
            ApprovalEvent::Requested { approval_id, kind },
        ),
        AgentEvent::ApprovalAnswered { approval_id, approved } => RuntimeEvent::Approval(
            ApprovalEvent::Answered { approval_id, approved },
        ),
        AgentEvent::AgentStart => RuntimeEvent::Session(SessionEvent::TurnStarted),
        AgentEvent::AgentStop { reason } => RuntimeEvent::Session(
            SessionEvent::TurnFinished { reason: Some(reason) },
        ),
        AgentEvent::AgentError { message, recoverable } => RuntimeEvent::Error(
            ErrorEvent::RuntimeError { message, recoverable },
        ),
        AgentEvent::ModelRequest { model, input_tokens } => RuntimeEvent::Session(
            SessionEvent::ModelRequest { model, input_tokens },
        ),
        AgentEvent::ModelResponse { model, output_tokens, finish_reason } => RuntimeEvent::Session(
            SessionEvent::ModelResponse { model, output_tokens, finish_reason },
        ),
        AgentEvent::Compaction { count, before_tokens, after_tokens, summary, recent_files } =>
            RuntimeEvent::Session(
            SessionEvent::Compacted { count, before_tokens, after_tokens, summary, recent_files },
        ),
    }
}

/// An agent event wrapped for the control plane, outside any turn.
pub fn wrap_agent_event(event_id: String, sequence: u64, provenance: RuntimeProvenance, event: AgentEvent) -> (r:
    RuntimeControlEvent)
    ensures
        r.event_id == event_id,
        r.sequence == sequence,
        r.provenance == provenance,
        r.turn_id is None,
        reports_agent_event(event, r.event),
{
    RuntimeControlEvent {
        event_id,
        provenance,
        turn_id: None,
        sequence,
        event: agent_event_to_runtime_event(event),
    }
}

} // verus!
