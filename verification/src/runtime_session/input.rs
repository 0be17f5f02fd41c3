//! Strict session input and the interaction a session waits on.
use vstd::prelude::*;

use crate::runtime_control::{PlanApprovalDecision, ShellApprovalDecision};
use crate::runtime_session::error::RuntimeSessionError;
use crate::runtime_session::ids::RuntimeTurnId;

verus! {

/// Strict session input. Replies name the turn that created their pending
/// interaction.
#[derive(Clone, Debug)]
pub enum RuntimeInput {
    Prompt(String),
    FollowUp(String),
    Answer { waiting_turn: RuntimeTurnId, answer: RuntimeInputAnswer },
}

/// A native response whose kind must match the currently pending interaction.
#[derive(Clone, Debug)]
pub enum RuntimeInputAnswer {
    User { answer: String },
    Plan { decision: PlanApprovalDecision, feedback: Option<String> },
    Shell { decision: ShellApprovalDecision },
}

/// Session-owned interaction state, separate from active provider execution.
#[derive(Clone, Debug, PartialEq, Eq)]
pub struct RuntimePendingInput {
    pub turn_id: RuntimeTurnId,
    pub kind: RuntimePendingInputKind,
}

#[derive(Clone, Debug, PartialEq, Eq)]
pub enum RuntimePendingInputKind {
    User { question: String, options: Vec<(String, String)>, note: Option<String> },
    Plan { approval_id: String, plan: String },
    /// A shell command waiting for approval; `request` is the command as
    /// the shell tool received it.
    Shell { approval_id: String, request: String },
}

/// A pending shell approval of the agent.
#[derive(Clone, Debug, PartialEq, Eq)]
pub struct PendingShellApproval {
    pub tool_use_id: String,
    pub request: String,
}

/// A pending question of the agent to its user.
#[derive(Clone, Debug, PartialEq, Eq)]
pub struct PendingUserQuestion {
    pub question: String,
    pub options: Vec<(String, String)>,
    pub note: Option<String>,
}

/// What an agent waits on, as the agent reports it: a shell approval, a plan
/// approval (the plan-exit tool id and the current plan), or a question.
#[derive(Clone, Debug, PartialEq, Eq)]
pub struct AgentPendingState {
    pub approval: Option<PendingShellApproval>,
    pub plan_exit: Option<(String, String)>,
    pub user_input: Option<PendingUserQuestion>,
}

/// The interaction an agent waits on, by priority.
pub open spec fn pending_of(turn_id: RuntimeTurnId, agent: AgentPendingState) -> Option<RuntimePendingInput> {
    match agent.approval {
        Some(a) => Some(
            RuntimePendingInput {
                turn_id,
                kind: RuntimePendingInputKind::Shell { approval_id: a.tool_use_id, request: a.request },
            },
        ),
        None => match agent.plan_exit {
            Some(p) => Some(
                RuntimePendingInput {
                    turn_id,
                    kind: RuntimePendingInputKind::Plan { approval_id: p.0, plan: p.1 },
                },
            ),
            None => match agent.user_input {
                Some(u) => Some(
                    RuntimePendingInput {
                        turn_id,
                        kind: RuntimePendingInputKind::User {
                            question: u.question,
                            options: u.options,
                            note: u.note,
                        },
                    },
                ),
                None => None,
            },
        },
    }
}

impl RuntimePendingInput {
    /// The interaction that `turn_id` waits on, if any. A shell approval
    /// comes first, then a plan approval, then a question: a plain text reply
    /// must never bypass a native tool or plan approval.
    pub fn from_agent(turn_id: RuntimeTurnId, agent: AgentPendingState) -> (r: Option<Self>)
        ensures
            r == pending_of(turn_id, agent),
    {
        let kind = if let Some(pending) = agent.approval {
            RuntimePendingInputKind::Shell { approval_id: pending.tool_use_id, request: pending.request }
        } else if let Some(plan) = agent.plan_exit {
            RuntimePendingInputKind::Plan { approval_id: plan.0, plan: plan.1 }
        } else if let Some(pending) = agent.user_input {
            RuntimePendingInputKind::User {
                question: pending.question,
                options: pending.options,
                note: pending.note,
            }
        } else {
            return None;
        };
        Some(RuntimePendingInput { turn_id, kind })
    }
}

/// Input for one turn: a legacy prompt, or strict session input.
#[derive(Clone, Debug)]
pub enum TurnInput {
    LegacyPrompt(String),
    Controlled(RuntimeInput),
}

/// Whether an answer is of the kind of the pending interaction.
pub open spec fn answer_fits(answer: RuntimeInputAnswer, kind: RuntimePendingInputKind) -> bool {
    match answer {
        RuntimeInputAnswer::User { .. } => kind is User,
        RuntimeInputAnswer::Plan { .. } => kind is Plan,
        RuntimeInputAnswer::Shell { .. } => kind is Shell,
    }
}

impl TurnInput {
    /// Whether this input answers a pending interaction.
    pub fn is_answer(&self) -> (b: bool)
        ensures
            b == (*self matches TurnInput::Controlled(RuntimeInput::Answer { .. })),
    {
        match self {
            TurnInput::Controlled(RuntimeInput::Answer { .. }) => true,
            _ => false,
        }
    }

    /// Whether this input may start a turn while `pending` is what the
    /// session waits on. A legacy prompt always may. A prompt or follow-up
    /// may only when nothing is pending. An answer must name the waiting
    /// turn and be of the pending kind.
    pub fn validate(&self, pending: Option<&RuntimePendingInput>) -> (r: Result<(), RuntimeSessionError>)
        ensures
            match *self {
                TurnInput::LegacyPrompt(_) => r is Ok,
                TurnInput::Controlled(RuntimeInput::Answer { waiting_turn, answer }) => match pending {
                    None => r matches Err(RuntimeSessionError::NoPendingInput),
                    Some(p) => if waiting_turn@ != p.turn_id@ {
                        r matches Err(RuntimeSessionError::StaleInput { expected, waiting })
                            && expected@ == waiting_turn@ && waiting@ == p.turn_id@
                    } else if answer_fits(answer, p.kind) {
                        r is Ok
                    } else {
                        r matches Err(RuntimeSessionError::InputKindMismatch)
                    },
                },
                TurnInput::Controlled(_) => match pending {
                    None => r is Ok,
                    Some(p) => r matches Err(RuntimeSessionError::AwaitingInput { waiting_turn })
                        && waiting_turn@ == p.turn_id@,
                },
            },
    {
        match self {
            TurnInput::LegacyPrompt(_) => Ok(()),
            TurnInput::Controlled(RuntimeInput::Answer { waiting_turn, answer }) => {
                let pending = match pending {
                    Some(p) => p,
                    None => {
                        return Err(RuntimeSessionError::NoPendingInput);
                    },
                };
                if !waiting_turn.same_as(&pending.turn_id) {
                    return Err(
                        RuntimeSessionError::StaleInput {
                            expected: waiting_turn.duplicate(),
                            waiting: pending.turn_id.duplicate(),
                        },
                    );
                }
                let fits = match answer {
                    RuntimeInputAnswer::User { .. } => {
                        match pending.kind {
                            RuntimePendingInputKind::User { .. } => true,
                            _ => false,
                        }
                    },
                    RuntimeInputAnswer::Plan { .. } => {
                        match pending.kind {
                            RuntimePendingInputKind::Plan { .. } => true,
                            _ => false,
                        }
                    },
                    RuntimeInputAnswer::Shell { .. } => {
                        match pending.kind {
                            RuntimePendingInputKind::Shell { .. } => true,
                            _ => false,
                        }
                    },
                };
                if fits {
                    Ok(())
                } else {
                    Err(RuntimeSessionError::InputKindMismatch)
                }
            },
            TurnInput::Controlled(_) => {
                match pending {
                    Some(p) => Err(
                        RuntimeSessionError::AwaitingInput { waiting_turn: p.turn_id.duplicate() },
                    ),
                    None => Ok(()),
                }
            },
        }
    }
}

} // verus!
