//! Language-server management: server kinds and failures, the diagnostic
//! cache, and the decisions of server startup.
pub mod cache;
pub mod types;
pub mod manager;
pub mod protocol;
pub mod sync;
