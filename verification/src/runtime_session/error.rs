//! Typed failures of the session command boundary.
use vstd::prelude::*;

use crate::runtime_session::ids::{RuntimeSessionId, RuntimeTurnId};
use crate::runtime_session::turn::RuntimeTurnOutcome;

verus! {

/// Typed failures returned by the session command boundary.
#[derive(Clone, Debug)]
pub enum RuntimeSessionError {
    /// The session is already executing a turn.
    Busy { active_turn: RuntimeTurnId },
    /// The session has no active turn.
    NotRunning,
    /// The host already contains a session with this identity.
    AlreadyExists(RuntimeSessionId),
    /// The session command queue is full.
    Overloaded,
    /// The session is closing or closed.
    Closed,
    /// The session actor stopped before acknowledging the command.
    ActorStopped,
    /// The turn was cancelled.
    Cancelled { outcome: RuntimeTurnOutcome },
    /// The turn was interrupted.
    Interrupted { outcome: RuntimeTurnOutcome },
    /// An event subscriber lagged by this many events.
    EventLagged(u64),
    /// Event replay cannot resume after `requested`.
    ResyncRequired { requested: u64, oldest_available: u64, latest: u64 },
    /// The turn failed.
    Execution { message: String, outcome: RuntimeTurnOutcome },
    /// Session cleanup failed.
    ShutdownFailed,
    /// A prompt arrived while the session waits for an answer.
    AwaitingInput { waiting_turn: RuntimeTurnId },
    /// An answer arrived while nothing is pending.
    NoPendingInput,
    /// An answer names another turn than the one waiting.
    StaleInput { expected: RuntimeTurnId, waiting: RuntimeTurnId },
    /// An answer of another kind than the pending interaction.
    InputKindMismatch,
    /// A stop names another turn than the active one.
    StaleTurn { expected: RuntimeTurnId, active: RuntimeTurnId },
    /// A stop of another kind is already in progress.
    StopInProgress { active_turn: RuntimeTurnId },
}

impl RuntimeSessionError {
    /// The partial turn evidence retained by a cancellation or an execution
    /// failure.
    pub fn turn_outcome(&self) -> (r: Option<&RuntimeTurnOutcome>)
        ensures
            match *self {
                RuntimeSessionError::Cancelled { outcome } => r == Some(&outcome),
                RuntimeSessionError::Execution { outcome, .. } => r == Some(&outcome),
                _ => r is None,
            },
    {
        match self {
            RuntimeSessionError::Cancelled { outcome } => Some(outcome),
            RuntimeSessionError::Execution { outcome, .. } => Some(outcome),
            _ => None,
        }
    }
}

/// A gap in the event replay window: events after `requested` are no longer
/// all retained.
#[derive(Clone, Copy, Debug, PartialEq, Eq, Structural)]
pub struct RuntimeReplayGap {
    pub requested: u64,
    pub oldest_available: u64,
    pub latest: u64,
}

/// The error with which a replay gap is reported to the subscriber.
pub fn replay_gap_error(gap: RuntimeReplayGap) -> (r: RuntimeSessionError)
    ensures
        r == (RuntimeSessionError::ResyncRequired {
            requested: gap.requested,
            oldest_available: gap.oldest_available,
            latest: gap.latest,
        }),
{
    RuntimeSessionError::ResyncRequired {
        requested: gap.requested,
        oldest_available: gap.oldest_available,
        latest: gap.latest,
    }
}

} // verus!
