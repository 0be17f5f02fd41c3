//! Observable session state.
use vstd::prelude::*;

use crate::runtime_session::ids::{RuntimeSessionId, RuntimeTurnId};
use crate::runtime_session::input::RuntimePendingInput;

verus! {

/// Observable lifecycle state for one runtime session.
#[derive(Clone, Debug, PartialEq, Eq)]
pub enum RuntimeSessionPhase {
    Idle,
    AwaitingInput { turn_id: RuntimeTurnId },
    Running { turn_id: RuntimeTurnId },
    Cancelling { turn_id: RuntimeTurnId },
    Closing,
    Closed,
}

/// Point-in-time session state paired with the ordered event cursor.
#[derive(Clone, Debug, PartialEq, Eq)]
pub struct RuntimeSessionSnapshot {
    pub session_id: RuntimeSessionId,
    pub phase: RuntimeSessionPhase,
    pub generation: u64,
    pub last_sequence: u64,
    pub pending_input: Option<RuntimePendingInput>,
}

} // verus!
