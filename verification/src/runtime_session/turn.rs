//! Completed observations for one submitted turn.
use vstd::prelude::*;

use crate::model_observation::QueryReport;
use crate::runtime_session::ids::RuntimeTurnId;

verus! {

/// Completed observations for one submitted turn.
#[derive(Clone, Debug)]
pub struct RuntimeTurnOutcome {
    /// Stable identity assigned when the turn was accepted.
    pub turn_id: RuntimeTurnId,
    /// Provider usage, cache, timing, and request-fingerprint observations.
    pub query_report: QueryReport,
    /// Model-visible transcript after all completed work in this turn, one
    /// rendered message per entry.
    pub transcript: Vec<String>,
}

} // verus!
