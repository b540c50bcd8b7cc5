//! Whether an agent event starts or ends a turn.

use vstd::prelude::*;

verus! {

/// The kind of an agent event, as far as turn tracking needs it.
#[derive(Debug, Clone, Copy, PartialEq, Eq, Structural)]
pub enum AgentEventKind {
    TextDelta,
    ThinkingDelta,
    ToolUseStart,
    ToolUseDelta,
    ToolResult,
    ToolOutput,
    ReplOutput,
    Compacting,
    Done,
    Aborted,
    Error,
    TurnEnd,
    TreeUpdate,
    Other,
}

/// Streaming and tool events mark a turn active; only an explicit
/// completion (done, aborted, error) clears it; other events (such as a
/// turn end or tree update arriving after completion) say nothing.
pub open spec fn turn_activity(ev: AgentEventKind) -> Option<bool> {
    match ev {
        AgentEventKind::TextDelta | AgentEventKind::ThinkingDelta | AgentEventKind::ToolUseStart
        | AgentEventKind::ToolUseDelta | AgentEventKind::ToolResult | AgentEventKind::ToolOutput
        | AgentEventKind::ReplOutput | AgentEventKind::Compacting => Some(true),
        AgentEventKind::Done | AgentEventKind::Aborted | AgentEventKind::Error => Some(false),
        _ => None,
    }
}

/// Whether an agent event marks a turn as active (`Some(true)`), finished
/// (`Some(false)`), or neither.
pub fn turn_active_from_event(ev: &AgentEventKind) -> (r: Option<bool>)
    ensures
        r == turn_activity(*ev),
{
    match ev {
        AgentEventKind::TextDelta | AgentEventKind::ThinkingDelta | AgentEventKind::ToolUseStart
        | AgentEventKind::ToolUseDelta | AgentEventKind::ToolResult | AgentEventKind::ToolOutput
        | AgentEventKind::ReplOutput | AgentEventKind::Compacting => Some(true),
        AgentEventKind::Done | AgentEventKind::Aborted | AgentEventKind::Error => Some(false),
        _ => None,
    }
}

} // verus!
