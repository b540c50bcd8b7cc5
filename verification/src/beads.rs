//! Work items ("beads"), fleet seats and their log lines, as the cockpit
//! reads them.

use vstd::prelude::*;
use crate::text::{chars_of, string_of_all};

verus! {

/// Kind of a bead.
#[derive(Debug, Clone, Copy, PartialEq, Eq, Structural)]
pub enum BeadKind {
    Design,
    Implement,
    Review,
    Task,
}

/// Name of each bead kind.
pub open spec fn bead_kind_name(k: BeadKind) -> Seq<char> {
    match k {
        BeadKind::Design => "design"@,
        BeadKind::Implement => "implement"@,
        BeadKind::Review => "review"@,
        BeadKind::Task => "task"@,
    }
}

impl BeadKind {
    /// Name of the kind.
    pub fn as_str(self) -> (r: &'static str)
        ensures
            r@ == bead_kind_name(self),
    {
        match self {
            BeadKind::Design => "design",
            BeadKind::Implement => "implement",
            BeadKind::Review => "review",
            BeadKind::Task => "task",
        }
    }
}

/// Status of a bead.
#[derive(Debug, Clone, Copy, PartialEq, Eq, Structural)]
pub enum BeadStatus {
    Open,
    Claimed,
    Blocked,
    Gated,
    Closed,
}

/// A work item.
#[derive(Debug, Clone)]
pub struct Bead {
    pub id: String,
    pub title: String,
    pub notes: String,
    pub kind: BeadKind,
    pub priority: u32,
    pub claimant: Option<String>,
}

/// Agent lifecycle reported by a seat.
#[derive(Debug, Clone, Copy, PartialEq, Eq, Structural)]
pub enum Lifecycle {
    Working,
    Blocked,
    Done,
    Idle,
    Unknown,
}

/// Caste of a seat (what kind of work it takes).
#[derive(Debug, Clone, Copy, PartialEq, Eq, Structural)]
pub enum SeatCaste {
    Crew,
    Fleet,
    Review,
    Marshal,
    Seneschal,
    Role,
    Any,
}

/// Status file of one fleet seat.
#[derive(Debug, Clone)]
pub struct SeatStatus {
    pub seat: String,
    pub state: String,
    pub lifecycle: Option<Lifecycle>,
    pub awaiting_human: Option<bool>,
    pub running: bool,
    pub last_bead: Option<String>,
    pub last_title: Option<String>,
    pub last_line: Option<String>,
}

/// Value of an optional string.
pub open spec fn opt_seq(o: Option<String>) -> Option<Seq<char>> {
    match o {
        Some(s) => Some(s@),
        None => None,
    }
}

/// Value of a seat status.
pub struct SeatView {
    pub seat: Seq<char>,
    pub state: Seq<char>,
    pub lifecycle: Option<Lifecycle>,
    pub awaiting_human: Option<bool>,
    pub running: bool,
    pub last_bead: Option<Seq<char>>,
    pub last_title: Option<Seq<char>>,
    pub last_line: Option<Seq<char>>,
}

impl View for SeatStatus {
    type V = SeatView;

    open spec fn view(&self) -> SeatView {
        SeatView {
            seat: self.seat@,
            state: self.state@,
            lifecycle: self.lifecycle,
            awaiting_human: self.awaiting_human,
            running: self.running,
            last_bead: opt_seq(self.last_bead),
            last_title: opt_seq(self.last_title),
            last_line: opt_seq(self.last_line),
        }
    }
}

/// A copy of an optional string.
pub fn copy_opt(o: &Option<String>) -> (r: Option<String>)
    ensures
        opt_seq(r) == opt_seq(*o),
{
    match o {
        Some(s) => Some(s.clone()),
        None => None,
    }
}

impl SeatStatus {
    /// A copy with the same value.
    pub fn copy(&self) -> (r: SeatStatus)
        ensures
            r@ == self@,
    {
        SeatStatus {
            seat: self.seat.clone(),
            state: self.state.clone(),
            lifecycle: self.lifecycle,
            awaiting_human: self.awaiting_human,
            running: self.running,
            last_bead: copy_opt(&self.last_bead),
            last_title: copy_opt(&self.last_title),
            last_line: copy_opt(&self.last_line),
        }
    }
}

/// Kind of a parsed seat log line.
#[derive(Debug, Clone, Copy, PartialEq, Eq, Structural)]
pub enum LogKind {
    Tool,
    ToolResult,
    Say,
    Heartbeat,
    Claimed,
    Closed,
    Session,
    Error,
    Status,
    Raw,
}

/// One parsed seat log line.
#[derive(Debug, Clone)]
pub struct ParsedLogLine {
    pub kind: LogKind,
    pub timestamp: Option<String>,
    pub body: String,
}

} // verus!
