//! Prompt sources assembled into the model prompt.
use vstd::prelude::*;

verus! {

/// Where a prompt source came from.
#[derive(Clone, Copy, Debug, PartialEq, Eq, Structural)]
pub enum PromptSourceKind {
    ProtocolPromptSource,
}

/// One labelled piece of prompt content.
#[derive(Clone, Debug, PartialEq, Eq)]
pub struct PromptSource {
    pub kind: PromptSourceKind,
    pub label: String,
    pub display_path: String,
    pub content: String,
}

} // verus!
