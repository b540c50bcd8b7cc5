//! Following, attaching to and inspecting a fleet seat from the chat: what
//! steer, abort and detach do in each phase, and when a pending attach
//! completes or gives up.

use vstd::prelude::*;
use crate::header::AttachPhase;
use crate::text::{str_eq, trim, trim_str};

verus! {

/// What `/seat steer <text>` does.
#[derive(Clone, Debug, PartialEq, Eq)]
pub enum SteerAction<S> {
    /// No instruction was given.
    Usage,
    /// No seat is followed or attached.
    NeedSeat,
    /// Queue the instruction on the followed seat's control file.
    Remote { seat: S, text: S },
    /// Steer the attached turn running in this chat.
    Local(S),
    /// The inspect view cannot steer.
    ReadOnly,
}

/// The characters a steer action holds.
pub open spec fn steer_view(a: SteerAction<String>) -> SteerAction<Seq<char>> {
    match a {
        SteerAction::Usage => SteerAction::Usage,
        SteerAction::NeedSeat => SteerAction::NeedSeat,
        SteerAction::Remote { seat, text } => SteerAction::Remote { seat: seat@, text: text@ },
        SteerAction::Local(t) => SteerAction::Local(t@),
        SteerAction::ReadOnly => SteerAction::ReadOnly,
    }
}

/// What steering with `text` does, given the seat the chat is connected to
/// and how: following or attaching steers the worker remotely, an attached
/// chat steers its own turn, inspecting cannot steer.
pub open spec fn steer_of(text: Seq<char>, attached: Option<(Seq<char>, AttachPhase)>) -> SteerAction<
    Seq<char>,
> {
    let t = trim(text);
    if t.len() == 0 {
        SteerAction::Usage
    } else {
        match attached {
            None => SteerAction::NeedSeat,
            Some((seat, phase)) => match phase {
                AttachPhase::Follow | AttachPhase::Attaching => SteerAction::Remote { seat, text: t },
                AttachPhase::Attached => SteerAction::Local(t),
                AttachPhase::Inspect => SteerAction::ReadOnly,
            },
        }
    }
}

/// What steering does (see `steer_of`).
pub fn steer_action(text: &str, attached: Option<(&str, AttachPhase)>) -> (r: SteerAction<String>)
    ensures
        steer_view(r) == steer_of(
            text@,
            match attached {
                Some((s, p)) => Some((s@, p)),
                None => None,
            },
        ),
{
    let t = trim_str(text);
    if t.as_str().is_empty() {
        return SteerAction::Usage;
    }
    match attached {
        None => SteerAction::NeedSeat,
        Some((seat, phase)) => match phase {
            AttachPhase::Follow | AttachPhase::Attaching => SteerAction::Remote {
                seat: seat.to_string(),
                text: t,
            },
            AttachPhase::Attached => SteerAction::Local(t),
            AttachPhase::Inspect => SteerAction::ReadOnly,
        },
    }
}

/// The message shown for a steer action.
pub open spec fn steer_note_text(a: SteerAction<Seq<char>>) -> Seq<char> {
    match a {
        SteerAction::Usage => "Usage: /seat steer <instruction>"@,
        SteerAction::NeedSeat => "Follow or attach a seat first: /seat follow <seat>"@,
        SteerAction::Remote { seat, text } => "Steer \u{2192} `"@ + seat + "`: "@ + text,
        SteerAction::Local(text) => "Steer (attached): "@ + text,
        SteerAction::ReadOnly => "Inspect is read-only. `/seat follow` + `/seat steer \u{2026}`, or `/seat attach`."@,
    }
}

/// The message shown for a steer action.
pub fn steer_note(a: &SteerAction<String>) -> (r: String)
    ensures
        r@ == steer_note_text(steer_view(*a)),
{
    match a {
        SteerAction::Usage => "Usage: /seat steer <instruction>".to_string(),
        SteerAction::NeedSeat => "Follow or attach a seat first: /seat follow <seat>".to_string(),
        SteerAction::Remote { seat, text } => {
            let mut m = "Steer \u{2192} `".to_string();
            m.append(seat.as_str());
            m.append("`: ");
            m.append(text.as_str());
            m
        },
        SteerAction::Local(text) => {
            let mut m = "Steer (attached): ".to_string();
            m.append(text.as_str());
            m
        },
        SteerAction::ReadOnly => "Inspect is read-only. `/seat follow` + `/seat steer \u{2026}`, or `/seat attach`.".to_string(),
    }
}

/// What `/seat abort` does.
#[derive(Clone, Debug, PartialEq, Eq)]
pub enum AbortAction<S> {
    /// No seat is followed or attached.
    NeedSeat,
    /// Ask the followed seat's worker to abort its turn.
    Remote(S),
    /// Abort the attached turn running in this chat.
    Local,
    /// The inspect view cannot abort.
    ReadOnly,
}

/// What aborting does, by how the chat is connected to a seat.
pub open spec fn abort_of(attached: Option<(Seq<char>, AttachPhase)>) -> AbortAction<Seq<char>> {
    match attached {
        None => AbortAction::NeedSeat,
        Some((seat, phase)) => match phase {
            AttachPhase::Follow | AttachPhase::Attaching => AbortAction::Remote(seat),
            AttachPhase::Attached => AbortAction::Local,
            AttachPhase::Inspect => AbortAction::ReadOnly,
        },
    }
}

/// The characters an abort action holds.
pub open spec fn abort_view(a: AbortAction<String>) -> AbortAction<Seq<char>> {
    match a {
        AbortAction::NeedSeat => AbortAction::NeedSeat,
        AbortAction::Remote(s) => AbortAction::Remote(s@),
        AbortAction::Local => AbortAction::Local,
        AbortAction::ReadOnly => AbortAction::ReadOnly,
    }
}

/// What aborting does (see `abort_of`), with the message shown for it.
pub fn abort_action(attached: Option<(&str, AttachPhase)>) -> (r: (AbortAction<String>, String))
    ensures
        abort_view(r.0) == abort_of(
            match attached {
                Some((s, p)) => Some((s@, p)),
                None => None,
            },
        ),
        r.1@ == (match abort_view(r.0) {
            AbortAction::NeedSeat => "Follow or attach a seat first: /seat follow <seat>"@,
            AbortAction::Remote(seat) => "Abort \u{2192} `"@ + seat + "` (worker turn)"@,
            AbortAction::Local => "Abort (attached turn)"@,
            AbortAction::ReadOnly => "Inspect is read-only. `/seat follow` then `/seat abort`."@,
        }),
{
    match attached {
        None => (AbortAction::NeedSeat, "Follow or attach a seat first: /seat follow <seat>".to_string()),
        Some((seat, phase)) => match phase {
            AttachPhase::Follow | AttachPhase::Attaching => {
                let mut m = "Abort \u{2192} `".to_string();
                m.append(seat);
                m.append("` (worker turn)");
                (AbortAction::Remote(seat.to_string()), m)
            },
            AttachPhase::Attached => (AbortAction::Local, "Abort (attached turn)".to_string()),
            AttachPhase::Inspect => (
                AbortAction::ReadOnly,
                "Inspect is read-only. `/seat follow` then `/seat abort`.".to_string(),
            ),
        },
    }
}

/// What `/seat detach` does.
#[derive(Clone, Copy, Debug, PartialEq, Eq, Structural)]
pub enum DetachAction {
    /// Nothing is followed or attached.
    NotAttached,
    /// Save the session, signal the worker to resume and mark the seat
    /// idle (attached or attaching).
    Release,
    /// Stop following the seat.
    StopFollow,
    /// Close the inspect view.
    CloseInspect,
}

/// What detaching does, by the phase of the connection.
pub open spec fn detach_of(phase: Option<AttachPhase>) -> DetachAction {
    match phase {
        None => DetachAction::NotAttached,
        Some(AttachPhase::Attached) | Some(AttachPhase::Attaching) => DetachAction::Release,
        Some(AttachPhase::Follow) => DetachAction::StopFollow,
        Some(AttachPhase::Inspect) => DetachAction::CloseInspect,
    }
}

/// What detaching does, with the message shown for it.
pub fn detach_action(attached: Option<(&str, AttachPhase)>) -> (r: (DetachAction, String))
    ensures
        r.0 == detach_of(
            match attached {
                Some((_, p)) => Some(p),
                None => None,
            },
        ),
        r.1@ == (match attached {
            None => "Not attached to a fleet seat."@,
            Some((seat, _)) => match r.0 {
                DetachAction::Release => "Detached from `"@ + seat@
                    + "` \u{2014} worker resume signaled. Session saved."@,
                DetachAction::StopFollow => "Stopped following `"@ + seat@ + "`."@,
                _ => "Closed inspect view for `"@ + seat@ + "`."@,
            },
        }),
{
    match attached {
        None => (DetachAction::NotAttached, "Not attached to a fleet seat.".to_string()),
        Some((seat, phase)) => match phase {
            AttachPhase::Attached | AttachPhase::Attaching => {
                let mut m = "Detached from `".to_string();
                m.append(seat);
                m.append("` \u{2014} worker resume signaled. Session saved.");
                (DetachAction::Release, m)
            },
            AttachPhase::Follow => {
                let mut m = "Stopped following `".to_string();
                m.append(seat);
                m.append("`.");
                (DetachAction::StopFollow, m)
            },
            AttachPhase::Inspect => {
                let mut m = "Closed inspect view for `".to_string();
                m.append(seat);
                m.append("`.");
                (DetachAction::CloseInspect, m)
            },
        },
    }
}

/// How long an attach waits for the worker's session id, in nanoseconds.
pub const SESSION_WAIT_NANOS: u128 = 90_000_000_000;

/// How long an attach waits for the worker to pause, in nanoseconds.
pub const PAUSE_WAIT_NANOS: u128 = 120_000_000_000;

/// The next step of a pending attach.
#[derive(Clone, Debug, PartialEq, Eq)]
pub enum AttachStep<S> {
    /// The connection is not attaching: nothing to do.
    Idle,
    /// Keep waiting.
    Wait,
    /// No session id after the wait: give up and let the worker resume.
    NoSession,
    /// The worker did not pause in time: give up and let it resume.
    NoPause,
    /// The worker paused: load this session and take over.
    Load(S),
}

/// The characters an attach step holds.
pub open spec fn attach_step_view(s: AttachStep<String>) -> AttachStep<Seq<char>> {
    match s {
        AttachStep::Idle => AttachStep::Idle,
        AttachStep::Wait => AttachStep::Wait,
        AttachStep::NoSession => AttachStep::NoSession,
        AttachStep::NoPause => AttachStep::NoPause,
        AttachStep::Load(s) => AttachStep::Load(s@),
    }
}

/// A pending attach completes once a session id is known (the seat's
/// status first, else the one noted when the attach began) and the seat
/// reports `paused` or `attached`; it gives up after 90 s without a session
/// id or 120 s without the pause.
pub open spec fn attach_step_of(
    phase: AttachPhase,
    status_session: Option<Seq<char>>,
    known_session: Option<Seq<char>>,
    seat_state: Option<Seq<char>>,
    elapsed_nanos: nat,
) -> AttachStep<Seq<char>> {
    if phase != AttachPhase::Attaching {
        AttachStep::Idle
    } else {
        let sid = match status_session {
            Some(s) => Some(s),
            None => known_session,
        };
        match sid {
            None => if elapsed_nanos > SESSION_WAIT_NANOS {
                AttachStep::NoSession
            } else {
                AttachStep::Wait
            },
            Some(s) => {
                let paused = match seat_state {
                    Some(st) => st == "paused"@ || st == "attached"@,
                    None => false,
                };
                if !paused {
                    if elapsed_nanos > PAUSE_WAIT_NANOS {
                        AttachStep::NoPause
                    } else {
                        AttachStep::Wait
                    }
                } else {
                    AttachStep::Load(s)
                }
            },
        }
    }
}

/// The next step of a pending attach (see `attach_step_of`).
pub fn attach_step(
    phase: AttachPhase,
    status_session: Option<&str>,
    known_session: Option<&str>,
    seat_state: Option<&str>,
    elapsed_nanos: u128,
) -> (r: AttachStep<String>)
    ensures
        attach_step_view(r) == attach_step_of(
            phase,
            match status_session {
                Some(s) => Some(s@),
                None => None,
            },
            match known_session {
                Some(s) => Some(s@),
                None => None,
            },
            match seat_state {
                Some(s) => Some(s@),
                None => None,
            },
            elapsed_nanos as nat,
        ),
{
    if phase != AttachPhase::Attaching {
        return AttachStep::Idle;
    }
    let sid = match status_session {
        Some(s) => Some(s),
        None => known_session,
    };
    match sid {
        None => if elapsed_nanos > SESSION_WAIT_NANOS {
            AttachStep::NoSession
        } else {
            AttachStep::Wait
        },
        Some(s) => {
            let paused = match seat_state {
                Some(st) => str_eq(st, "paused") || str_eq(st, "attached"),
                None => false,
            };
            if !paused {
                if elapsed_nanos > PAUSE_WAIT_NANOS {
                    AttachStep::NoPause
                } else {
                    AttachStep::Wait
                }
            } else {
                AttachStep::Load(s.to_string())
            }
        },
    }
}


/// A pending attach does not wait forever: past the longer wait it has
/// either loaded the session or given up.
pub proof fn lemma_attach_wait_bounded(
    status_session: Option<Seq<char>>,
    known_session: Option<Seq<char>>,
    seat_state: Option<Seq<char>>,
    elapsed_nanos: nat,
)
    requires
        elapsed_nanos > PAUSE_WAIT_NANOS,
    ensures
        attach_step_of(AttachPhase::Attaching, status_session, known_session, seat_state, elapsed_nanos)
            != AttachStep::<Seq<char>>::Wait,
{
}

} // verus!

