//! Session-scoped runtime ownership: identities, the errors of the command
//! boundary, strict session input, profiles, and the session actor's state
//! machine.
pub mod actor;
pub mod error;
pub mod host;
pub mod ids;
pub mod input;
pub mod profile;
pub mod shutdown;
pub mod snapshot;
pub mod subscription;
pub mod turn;

pub use error::RuntimeSessionError;
pub use ids::{RuntimeSessionId, RuntimeTurnId};
pub use input::{RuntimeInput, RuntimeInputAnswer, RuntimePendingInput, RuntimePendingInputKind};
pub use profile::RuntimeSessionProfile;
pub use snapshot::{RuntimeSessionPhase, RuntimeSessionSnapshot};
pub use turn::RuntimeTurnOutcome;
