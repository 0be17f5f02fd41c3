use vstd::prelude::*;

pub mod config;
pub mod mcp_connection_manager;
pub mod keyed;
pub mod lsp_manager;
pub mod mcp_status;
pub mod mcp_tool_cache;
pub mod memory;
pub mod memory_distiller;
pub mod memory_lifecycle;
pub mod memory_patch;
pub mod model_context;
pub mod model_observation;
pub mod oauth;
pub mod path;
pub mod plugin_cli;
pub mod plugin_hooks;
pub mod plugin_middleware;
pub mod print_consumer;
pub mod prompt;
pub mod protocol_sources;
pub mod redaction;
pub mod runtime_client;
pub mod runtime_context;
pub mod runtime_control;
pub mod runtime_event_bus;
pub mod runtime_goal;
pub mod runtime_session;
pub mod text;

verus! {
}
