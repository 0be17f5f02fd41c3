//! Print mode: what each agent event writes to the terminal.
use vstd::prelude::*;

use crate::runtime_control::AgentEvent;
use crate::text::{push_str, string_from_chars};

verus! {

/// Text for one of the two output streams.
#[derive(Clone, Debug, PartialEq, Eq)]
pub enum PrintOutput {
    Stdout(String),
    Stderr(String),
}

/// What print mode writes for an event: assistant text as it streams, to
/// standard output; tool uses, failed tool results and status lines as
/// bracketed notes on their own line, to standard error; nothing else.
pub fn render_event(event: &AgentEvent) -> (r: Option<PrintOutput>)
    ensures
        match *event {
            AgentEvent::AssistantDelta(t) => r == Some(PrintOutput::Stdout(t)),
            AgentEvent::AssistantText(t) => r == Some(PrintOutput::Stdout(t)),
            AgentEvent::ToolUse { name, .. } => r matches Some(PrintOutput::Stderr(s)) && s@ == "\n[Tool: "@
                + name@ + "]\n"@,
            AgentEvent::ToolResult { name, is_error, .. } => if is_error {
                r matches Some(PrintOutput::Stderr(s)) && s@ == "\n[Tool error: "@ + name@ + "]\n"@
            } else {
                r is None
            },
            AgentEvent::Status(m) => r matches Some(PrintOutput::Stderr(s)) && s@ == "\n["@ + m@ + "]\n"@,
            _ => r is None,
        },
{
    match event {
        AgentEvent::AssistantDelta(t) => Some(PrintOutput::Stdout(t.clone())),
        AgentEvent::AssistantText(t) => Some(PrintOutput::Stdout(t.clone())),
        AgentEvent::ToolUse { name, .. } => {
            let mut out: Vec<char> = Vec::new();
            push_str(&mut out, "\n[Tool: ");
            push_str(&mut out, name.as_str());
            push_str(&mut out, "]\n");
            Some(PrintOutput::Stderr(string_from_chars(&out)))
        },
        AgentEvent::ToolResult { name, is_error, .. } => {
            if *is_error {
                let mut out: Vec<char> = Vec::new();
                push_str(&mut out, "\n[Tool error: ");
                push_str(&mut out, name.as_str());
                push_str(&mut out, "]\n");
                Some(PrintOutput::Stderr(string_from_chars(&out)))
            } else {
                None
            }
        },
        AgentEvent::Status(m) => {
            let mut out: Vec<char> = Vec::new();
            push_str(&mut out, "\n[");
            push_str(&mut out, m.as_str());
            push_str(&mut out, "]\n");
            Some(PrintOutput::Stderr(string_from_chars(&out)))
        },
        _ => None,
    }
}

} // verus!
