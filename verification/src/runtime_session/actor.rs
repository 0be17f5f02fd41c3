//! The session actor's decisions.
//!
//! The actor owns at most one active turn. Its host loop receives commands
//! and turn completions; every decision about them (accept or refuse, which
//! phase to publish, what a completed turn resolves to) is a transition of
//! `SessionActorState`. The host performs the effects: running the agent,
//! signalling cancellation, publishing events and snapshots.
use vstd::prelude::*;

use crate::runtime_control::SessionEvent;
use crate::runtime_session::error::RuntimeSessionError;
use crate::runtime_session::ids::RuntimeTurnId;
use crate::runtime_session::snapshot::RuntimeSessionPhase;
use crate::runtime_session::turn::RuntimeTurnOutcome;

verus! {

/// How a caller asked an active turn to stop.
#[derive(Clone, Copy, Debug, PartialEq, Eq, Structural)]
pub enum TurnStopKind {
    Cancel,
    Interrupt,
}

/// The turn the actor is executing.
#[derive(Clone, Debug)]
pub struct ActiveTurn {
    pub turn_id: RuntimeTurnId,
    pub generation: u64,
    /// The stop that was accepted for this turn, if any.
    pub stop_kind: Option<TurnStopKind>,
    /// Whether cancellation has been signalled to the running agent.
    pub cancelled: bool,
}

/// The actor's bookkeeping.
#[derive(Clone, Debug)]
pub struct SessionActorState {
    pub generation: u64,
    pub active: Option<ActiveTurn>,
    pub closing: bool,
    /// Whether the agent is parked in the session (not lent to a turn).
    pub agent_present: bool,
}

/// How a finished turn resolves.
#[derive(Clone, Debug, PartialEq, Eq)]
pub enum TurnVerdict {
    /// A completion arrived while no turn was active; it is dropped.
    NoActiveTurn,
    /// The completion does not belong to the active turn; the turn's waiter
    /// is answered `ActorStopped`.
    Stale,
    Completed,
    Cancelled,
    Interrupted,
    Failed { message: String },
}

/// The refusal, if any, of a command that needs the idle agent.
pub open spec fn idle_refusal(s: SessionActorState) -> Option<RuntimeSessionError> {
    if s.closing {
        Some(RuntimeSessionError::Closed)
    } else if s.active is Some {
        Some(RuntimeSessionError::Busy { active_turn: s.active->0.turn_id })
    } else if !s.agent_present {
        Some(RuntimeSessionError::ActorStopped)
    } else {
        None
    }
}

/// Whether `e` is `refusal`, identities compared by their views.
pub open spec fn same_refusal(e: RuntimeSessionError, refusal: RuntimeSessionError) -> bool {
    match refusal {
        RuntimeSessionError::Busy { active_turn } => e matches RuntimeSessionError::Busy {
            active_turn: t,
        } && t@ == active_turn@,
        RuntimeSessionError::Closed => e is Closed,
        RuntimeSessionError::ActorStopped => e is ActorStopped,
        _ => false,
    }
}

/// Whether a stop names a turn other than `active`.
pub open spec fn names_other_turn(expected: Option<RuntimeTurnId>, active: RuntimeTurnId) -> bool {
    match expected {
        Some(e) => e@ != active@,
        None => false,
    }
}

/// Whether a stop of another kind than `kind` was already accepted.
pub open spec fn other_stop_accepted(accepted: Option<TurnStopKind>, kind: TurnStopKind) -> bool {
    match accepted {
        Some(k) => k != kind,
        None => false,
    }
}

impl SessionActorState {
    /// A fresh actor holding its agent, with no turn.
    pub fn new() -> (r: Self)
        ensures
            r.generation == 0,
            r.active is None,
            !r.closing,
            r.agent_present,
    {
        SessionActorState { generation: 0, active: None, closing: false, agent_present: true }
    }

    /// Whether a command that needs the idle agent (backend, limits, tools,
    /// transcript) may run now.
    pub fn check_idle(&self) -> (r: Result<(), RuntimeSessionError>)
        ensures
            match idle_refusal(*self) {
                None => r is Ok,
                Some(refusal) => r matches Err(e) && same_refusal(e, refusal),
            },
    {
        if self.closing {
            return Err(RuntimeSessionError::Closed);
        }
        if let Some(active) = &self.active {
            return Err(RuntimeSessionError::Busy { active_turn: active.turn_id.duplicate() });
        }
        if !self.agent_present {
            return Err(RuntimeSessionError::ActorStopped);
        }
        Ok(())
    }

    /// Accepts a new turn, lending it the agent; the phase becomes
    /// `Running`. Refused exactly as `check_idle` refuses, and then the
    /// state is unchanged: a session never runs two turns at once.
    pub fn start_turn(&mut self, turn_id: RuntimeTurnId) -> (r: Result<
        RuntimeSessionPhase,
        RuntimeSessionError,
    >)
        ensures
            match idle_refusal(*old(self)) {
                None => {
                    &&& r matches Ok(RuntimeSessionPhase::Running { turn_id: t }) && t@ == turn_id@
                    &&& final(self).active matches Some(a) && a.turn_id@ == turn_id@ && a.generation
                        == old(self).generation && a.stop_kind is None && !a.cancelled
                    &&& !final(self).agent_present
                    &&& final(self).closing == old(self).closing
                    &&& final(self).generation == old(self).generation
                },
                Some(refusal) => r matches Err(e) && same_refusal(e, refusal) && *final(self)
                    == *old(self),
            },
    {
        if let Err(e) = self.check_idle() {
            return Err(e);
        }
        let phase = RuntimeSessionPhase::Running { turn_id: turn_id.duplicate() };
        self.active = Some(
            ActiveTurn { turn_id, generation: self.generation, stop_kind: None, cancelled: false },
        );
        self.agent_present = false;
        Ok(phase)
    }

    /// Signals cancellation to the active turn; a turn not yet asked to stop
    /// counts as cancelled.
    fn cancel_active(&mut self)
        ensures
            final(self).generation == old(self).generation,
            final(self).closing == old(self).closing,
            final(self).agent_present == old(self).agent_present,
            match old(self).active {
                None => final(self).active is None,
                Some(a) => final(self).active matches Some(b) && b.turn_id == a.turn_id
                    && b.generation == a.generation && b.cancelled && b.stop_kind == Some(
                    match a.stop_kind {
                        Some(k) => k,
                        None => TurnStopKind::Cancel,
                    },
                ),
            },
    {
        if let Some(active) = &mut self.active {
            if active.stop_kind.is_none() {
                active.stop_kind = Some(TurnStopKind::Cancel);
            }
            active.cancelled = true;
        }
    }

    /// Asks the active turn to stop. Refused, with the state unchanged, when
    /// the session is closing, when no turn is active, when `expected_turn`
    /// names another turn, or when a stop of the other kind was already
    /// accepted. Otherwise the stop is recorded, cancellation signalled, and
    /// the phase becomes `Cancelling`; the stopped turn is returned.
    pub fn stop_turn(&mut self, expected_turn: Option<RuntimeTurnId>, kind: TurnStopKind) -> (r:
        Result<(RuntimeTurnId, RuntimeSessionPhase), RuntimeSessionError>)
        ensures
            if old(self).closing {
                (r matches Err(RuntimeSessionError::Closed)) && *final(self) == *old(self)
            } else {
                match old(self).active {
                    None => (r matches Err(RuntimeSessionError::NotRunning)) && *final(self) == *old(self),
                    Some(a) => if names_other_turn(expected_turn, a.turn_id) {
                        (r matches Err(RuntimeSessionError::StaleTurn { expected, active })
                            && expected@ == expected_turn->0@ && active@ == a.turn_id@) && *final(self) == *old(self)
                    } else if other_stop_accepted(a.stop_kind, kind) {
                        (r matches Err(RuntimeSessionError::StopInProgress { active_turn })
                            && active_turn@ == a.turn_id@) && *final(self) == *old(self)
                    } else {
                        &&& (r matches Ok((t, RuntimeSessionPhase::Cancelling { turn_id: p })) && t@
                            == a.turn_id@ && p@ == a.turn_id@)
                        &&& (final(self).active matches Some(b) && b.turn_id == a.turn_id
                            && b.stop_kind == Some(kind) && b.cancelled && b.generation
                            == a.generation)
                        &&& final(self).closing == old(self).closing
                        &&& final(self).agent_present == old(self).agent_present
                        &&& final(self).generation == old(self).generation
                    },
                }
            },
    {
        if self.closing {
            return Err(RuntimeSessionError::Closed);
        }
        let (turn_id, stop_kind) = match &self.active {
            None => {
                return Err(RuntimeSessionError::NotRunning);
            },
            Some(active) => (active.turn_id.duplicate(), active.stop_kind),
        };
        if let Some(expected) = expected_turn {
            if !expected.same_as(&turn_id) {
                return Err(RuntimeSessionError::StaleTurn { expected, active: turn_id });
            }
        }
        if let Some(accepted) = stop_kind {
            if accepted != kind {
                return Err(RuntimeSessionError::StopInProgress { active_turn: turn_id });
            }
        }
        if let Some(active) = &mut self.active {
            active.stop_kind = Some(kind);
        }
        self.cancel_active();
        let phase = RuntimeSessionPhase::Cancelling { turn_id: turn_id.duplicate() };
        Ok((turn_id, phase))
    }

    /// Starts closing: no new work is admitted, and an active turn is
    /// cancelled. Returns whether cleanup can finish now (no turn is left to
    /// wait for).
    pub fn begin_shutdown(&mut self) -> (finish_now: bool)
        ensures
            final(self).closing,
            finish_now == (old(self).active is None),
            final(self).generation == old(self).generation,
            final(self).agent_present == old(self).agent_present,
            match old(self).active {
                None => final(self).active is None,
                Some(a) => final(self).active matches Some(b) && b.turn_id == a.turn_id && b.cancelled,
            },
    {
        self.closing = true;
        self.cancel_active();
        self.active.is_none()
    }

    /// Resolves a turn completion reported for `turn_id` in `generation`,
    /// with `failure` the agent's error message if it failed. The active
    /// turn is always released. A completion that does not match the active
    /// turn (identity or generation) is stale and leaves the agent lent out;
    /// otherwise the agent is parked again and the verdict is, in order:
    /// interrupted or cancelled when a stop was accepted (cancellation
    /// without a recorded kind counts as a cancel), else failed or completed
    /// as the agent reported. The phase to publish is `Idle` unless the
    /// session is closing.
    pub fn finish_turn(
        &mut self,
        turn_id: &RuntimeTurnId,
        generation: u64,
        failure: Option<String>,
    ) -> (r: (TurnVerdict, Option<RuntimeSessionPhase>))
        ensures
            final(self).active is None,
            final(self).closing == old(self).closing,
            final(self).generation == old(self).generation,
            old(self).active is None ==> r.0 == TurnVerdict::NoActiveTurn && r.1 is None
                && final(self).agent_present == old(self).agent_present,
            old(self).active matches Some(a) ==> {
                if generation != a.generation || turn_id@ != a.turn_id@ || generation != old(self).generation {
                    r.0 == TurnVerdict::Stale && r.1 is None && final(self).agent_present == old(self).agent_present
                } else {
                    &&& final(self).agent_present
                    &&& (old(self).closing ==> r.1 is None)
                    &&& (!old(self).closing ==> r.1 == Some(RuntimeSessionPhase::Idle))
                    &&& r.0 == (if a.cancelled {
                        if a.stop_kind == Some(TurnStopKind::Interrupt) {
                            TurnVerdict::Interrupted
                        } else {
                            TurnVerdict::Cancelled
                        }
                    } else {
                        match failure {
                            Some(message) => TurnVerdict::Failed { message },
                            None => TurnVerdict::Completed,
                        }
                    })
                }
            },
    {
        let active = match self.active.take() {
            None => {
                return (TurnVerdict::NoActiveTurn, None);
            },
            Some(a) => a,
        };
        if generation != active.generation || !turn_id.same_as(&active.turn_id) || generation
            != self.generation {
            return (TurnVerdict::Stale, None);
        }
        self.agent_present = true;
        let verdict = if active.cancelled {
            match active.stop_kind {
                Some(TurnStopKind::Interrupt) => TurnVerdict::Interrupted,
                _ => TurnVerdict::Cancelled,
            }
        } else {
            match failure {
                Some(message) => TurnVerdict::Failed { message },
                None => TurnVerdict::Completed,
            }
        };
        let phase = if self.closing {
            None
        } else {
            Some(RuntimeSessionPhase::Idle)
        };
        (verdict, phase)
    }

    /// Whether closing can finish: the session is closing and no turn is
    /// left.
    pub fn ready_to_close(&self) -> (b: bool)
        ensures
            b == (self.closing && self.active is None),
    {
        self.closing && self.active.is_none()
    }
}

/// The terminal reason and session event published for a verdict, if it
/// publishes one.
pub fn terminal_event(verdict: &TurnVerdict) -> (r: Option<(&'static str, SessionEvent)>)
    ensures
        match *verdict {
            TurnVerdict::Completed => r matches Some((reason, SessionEvent::TurnFinished {
                reason: Some(m),
            })) && reason@ == "completed"@ && m@ == "completed"@,
            TurnVerdict::Cancelled => r matches Some((reason, SessionEvent::TurnCancelled))
                && reason@ == "cancelled"@,
            TurnVerdict::Interrupted => r matches Some((reason, SessionEvent::TurnInterrupted))
                && reason@ == "interrupted"@,
            TurnVerdict::Failed { message } => r matches Some((reason, SessionEvent::TurnFailed {
                reason: m,
            })) && reason@ == "failed"@ && m@ == message@,
            _ => r is None,
        },
{
    match verdict {
        TurnVerdict::Completed => Some(
            ("completed", SessionEvent::TurnFinished { reason: Some("completed".to_owned()) }),
        ),
        TurnVerdict::Cancelled => Some(("cancelled", SessionEvent::TurnCancelled)),
        TurnVerdict::Interrupted => Some(("interrupted", SessionEvent::TurnInterrupted)),
        TurnVerdict::Failed { message } => Some(
            ("failed", SessionEvent::TurnFailed { reason: message.clone() }),
        ),
        _ => None,
    }
}

/// What the waiter of a turn is answered, given the verdict and the turn's
/// retained evidence (`None` only for a verdict that has no waiter to give
/// it to).
pub fn turn_result(verdict: TurnVerdict, outcome: RuntimeTurnOutcome) -> (r: Result<
    RuntimeTurnOutcome,
    RuntimeSessionError,
>)
    ensures
        match verdict {
            TurnVerdict::Completed => r == Ok::<RuntimeTurnOutcome, RuntimeSessionError>(outcome),
            TurnVerdict::Cancelled => r == Err::<RuntimeTurnOutcome, RuntimeSessionError>(
                RuntimeSessionError::Cancelled { outcome },
            ),
            TurnVerdict::Interrupted => r == Err::<RuntimeTurnOutcome, RuntimeSessionError>(
                RuntimeSessionError::Interrupted { outcome },
            ),
            TurnVerdict::Failed { message } => r == Err::<RuntimeTurnOutcome, RuntimeSessionError>(
                RuntimeSessionError::Execution { message, outcome },
            ),
            _ => r == Err::<RuntimeTurnOutcome, RuntimeSessionError>(
                RuntimeSessionError::ActorStopped,
            ),
        },
{
    match verdict {
        TurnVerdict::Completed => Ok(outcome),
        TurnVerdict::Cancelled => Err(RuntimeSessionError::Cancelled { outcome }),
        TurnVerdict::Interrupted => Err(RuntimeSessionError::Interrupted { outcome }),
        TurnVerdict::Failed { message } => Err(RuntimeSessionError::Execution { message, outcome }),
        _ => Err(RuntimeSessionError::ActorStopped),
    }
}

/// The answer to any command that arrives while the session is closing
/// (other than a further shutdown request, which joins the shutdown).
pub fn closed_refusal() -> (r: RuntimeSessionError)
    ensures
        r is Closed,
{
    RuntimeSessionError::Closed
}

} // verus!
