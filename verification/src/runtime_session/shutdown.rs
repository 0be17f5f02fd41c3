//! Retained cleanup evidence.
use vstd::prelude::*;

use crate::runtime_session::error::RuntimeSessionError;

verus! {

/// Retained cleanup evidence, independent of channel or event stream closure.
#[derive(Clone, Copy, Debug, PartialEq, Eq, Structural)]
pub enum ShutdownOutcome {
    Complete,
    Failed,
}

impl ShutdownOutcome {
    /// What a shutdown waiter is answered.
    pub fn result(self) -> (r: Result<(), RuntimeSessionError>)
        ensures
            self == ShutdownOutcome::Complete ==> r is Ok,
            self == ShutdownOutcome::Failed ==> r matches Err(RuntimeSessionError::ShutdownFailed),
    {
        match self {
            ShutdownOutcome::Complete => Ok(()),
            ShutdownOutcome::Failed => Err(RuntimeSessionError::ShutdownFailed),
        }
    }
}

} // verus!
