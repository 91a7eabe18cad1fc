//! Agent harness identities shared across the application layer.
use vstd::prelude::*;

verus! {

/// The CLI harness that runs an agent.
#[derive(Debug, Clone, Copy, PartialEq, Eq, Structural)]
pub enum AgentHarnessKind {
    /// Anthropic's agent CLI.
    Claude,
    Codex,
}

/// The lower-case name a harness displays as.
pub open spec fn harness_name(h: AgentHarnessKind) -> Seq<char> {
    match h {
        AgentHarnessKind::Claude => "anthropic"@,
        AgentHarnessKind::Codex => "codex"@,
    }
}

impl AgentHarnessKind {
    /// The lower-case name of this harness (its `Display` form).
    pub fn as_str(&self) -> (s: &'static str)
        ensures
            s@ == harness_name(*self),
    {
        match self {
            AgentHarnessKind::Claude => "anthropic",
            AgentHarnessKind::Codex => "codex",
        }
    }
}

/// The kind of conversation an agent runs in.
#[derive(Debug, Clone, Copy, PartialEq, Eq, Structural)]
pub enum ChatContextType {
    Ideation,
    Task,
    Project,
    TaskExecution,
    Review,
    Merge,
    BranchUpdate,
    Standalone,
    Delegation,
}

} // verus!
