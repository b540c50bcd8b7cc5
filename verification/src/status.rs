//! Session attention state: blocked / working / done / idle.

use vstd::prelude::*;
use crate::text::{str_eq, str_starts_with, starts_with};

pub use crate::text::ellipsize;

verus! {

/// High-signal session state for the header chip.
#[derive(Debug, Clone, Copy, PartialEq, Eq, Structural)]
pub enum SessionUiState {
    /// Needs a human answer (permission / question).
    Blocked,
    /// Agent or tool is running.
    Working,
    /// Finished since last focus (unseen completion).
    Done,
    /// Idle / ready.
    Idle,
}

/// Glyph of each state.
pub open spec fn state_icon(s: SessionUiState) -> Seq<char> {
    match s {
        SessionUiState::Blocked => "\u{25cf}"@,
        SessionUiState::Working => "\u{25d0}"@,
        SessionUiState::Done => "\u{2713}"@,
        SessionUiState::Idle => "\u{25cb}"@,
    }
}

/// Word of each state.
pub open spec fn state_label(s: SessionUiState) -> Seq<char> {
    match s {
        SessionUiState::Blocked => "blocked"@,
        SessionUiState::Working => "working"@,
        SessionUiState::Done => "done"@,
        SessionUiState::Idle => "idle"@,
    }
}

/// Attention rank: blocked, then done, then working, then idle.
pub open spec fn state_priority(s: SessionUiState) -> u8 {
    match s {
        SessionUiState::Blocked => 0,
        SessionUiState::Done => 1,
        SessionUiState::Working => 2,
        SessionUiState::Idle => 3,
    }
}

/// The state shown for the given flags and status text: a pending
/// permission or question, or status `STUCK`, blocks; activity works;
/// `error` / `recover` blocks; an unseen completion or `aborted` is done.
pub open spec fn ui_state_of(
    pending_permission: bool,
    pending_question: bool,
    waiting: bool,
    tool_running: bool,
    status: Seq<char>,
    unseen_done: bool,
) -> SessionUiState {
    if pending_permission || pending_question || status == "STUCK"@ {
        SessionUiState::Blocked
    } else if waiting || tool_running || status == "thinking..."@ || starts_with(status, "using "@) {
        SessionUiState::Working
    } else if status == "error"@ || status == "recover"@ {
        SessionUiState::Blocked
    } else if unseen_done || status == "aborted"@ {
        SessionUiState::Done
    } else {
        SessionUiState::Idle
    }
}

impl SessionUiState {
    /// Glyph of the state.
    pub fn icon(self) -> (r: &'static str)
        ensures
            r@ == state_icon(self),
    {
        match self {
            SessionUiState::Blocked => "\u{25cf}",
            SessionUiState::Working => "\u{25d0}",
            SessionUiState::Done => "\u{2713}",
            SessionUiState::Idle => "\u{25cb}",
        }
    }

    /// Word of the state.
    pub fn label(self) -> (r: &'static str)
        ensures
            r@ == state_label(self),
    {
        match self {
            SessionUiState::Blocked => "blocked",
            SessionUiState::Working => "working",
            SessionUiState::Done => "done",
            SessionUiState::Idle => "idle",
        }
    }

    /// Attention rank (lower needs attention first).
    pub fn priority(self) -> (r: u8)
        ensures
            r == state_priority(self),
    {
        match self {
            SessionUiState::Blocked => 0,
            SessionUiState::Done => 1,
            SessionUiState::Working => 2,
            SessionUiState::Idle => 3,
        }
    }

    /// State for the header chip from the app's flags and status text.
    pub fn from_app(
        pending_permission: bool,
        pending_question: bool,
        waiting: bool,
        tool_running: bool,
        status: &str,
        unseen_done: bool,
    ) -> (r: SessionUiState)
        ensures
            r == ui_state_of(
                pending_permission,
                pending_question,
                waiting,
                tool_running,
                status@,
                unseen_done,
            ),
    {
        if pending_permission || pending_question || str_eq(status, "STUCK") {
            return SessionUiState::Blocked;
        }
        if waiting || tool_running || str_eq(status, "thinking...") || str_starts_with(
            status,
            "using ",
        ) {
            return SessionUiState::Working;
        }
        if str_eq(status, "error") || str_eq(status, "recover") {
            return SessionUiState::Blocked;
        }
        if unseen_done || str_eq(status, "aborted") {
            return SessionUiState::Done;
        }
        SessionUiState::Idle
    }
}

/// Priorities order the states, each state with its own rank.
pub proof fn lemma_state_priority_distinct(a: SessionUiState, b: SessionUiState)
    ensures
        state_priority(a) == state_priority(b) <==> a == b,
        state_priority(SessionUiState::Blocked) < state_priority(SessionUiState::Done) < state_priority(
            SessionUiState::Working,
        ) < state_priority(SessionUiState::Idle),
{
}

/// A pending permission or question always shows as blocked, whatever else
/// is going on.
pub proof fn lemma_pending_blocks(
    pending_permission: bool,
    pending_question: bool,
    waiting: bool,
    tool_running: bool,
    status: Seq<char>,
    unseen_done: bool,
)
    requires
        pending_permission || pending_question,
    ensures
        ui_state_of(pending_permission, pending_question, waiting, tool_running, status, unseen_done)
            == SessionUiState::Blocked,
{
}

} // verus!
