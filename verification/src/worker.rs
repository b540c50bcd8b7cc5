//! Overnight worker decisions: configuration, the claimant's name, the
//! control commands a seat receives (pause, resume, abort, steer), which
//! claimed bead is its own, the task prompt, and the log lines it writes.

use vstd::prelude::*;
use crate::beads::{bead_kind_name, opt_seq, Bead, BeadStatus, SeatCaste, SeatStatus, SeatView};
use crate::helpers::newlines_to_spaces;
use std::time::Instant;
use crate::search::first_index;
use crate::text::{byte_len, byte_len_prefix, chars_of, contains, decimal, push_decimal, string_of_all, string_views, trim, trim_bounds, truncated};

pub use crate::text::truncate;

verus! {

/// Worker settings.
#[derive(Debug, Clone)]
pub struct WorkerConfig {
    pub loop_mode: bool,
    pub budget_minutes: u64,
    pub approve: bool,
    pub seat: Option<String>,
    pub fail_fast: bool,
    pub max_rlm_depth: u32,
    pub max_iterations: usize,
    pub thinking_budget: Option<u32>,
    pub sleep_secs: u64,
    pub goal_verify: bool,
    /// Log tool and text summaries.
    pub verbose: bool,
    /// No response within this many seconds: the turn is stuck (retriable).
    pub response_timeout_secs: u64,
}

impl Default for WorkerConfig {
    /// One pass, an 8-hour budget, tools approved, 5 s between polls,
    /// goals verified, verbose, and a 10-minute response timeout.
    fn default() -> (r: Self)
        ensures
            !r.loop_mode,
            r.budget_minutes == 480,
            r.approve,
            r.seat is None,
            !r.fail_fast,
            r.max_rlm_depth == 2,
            r.max_iterations == 99999,
            r.thinking_budget is None,
            r.sleep_secs == 5,
            r.goal_verify,
            r.verbose,
            r.response_timeout_secs == 600,
    {
        WorkerConfig {
            loop_mode: false,
            budget_minutes: 480,
            approve: true,
            seat: None,
            fail_fast: false,
            max_rlm_depth: 2,
            max_iterations: 99999,
            thinking_budget: None,
            sleep_secs: 5,
            goal_verify: true,
            verbose: true,
            response_timeout_secs: 600,
        }
    }
}

/// Two limits on a turn: silence (no response) and wall-clock time, in
/// seconds.
#[derive(Debug, Clone, Copy, PartialEq, Eq, Structural)]
pub struct DualTimeout {
    pub response_secs: u64,
    pub wall_secs: u64,
}

/// `a * b`, saturating at `u64::MAX`.
pub open spec fn sat_mul(a: u64, b: u64) -> u64 {
    if a * b > u64::MAX {
        u64::MAX
    } else {
        (a * b) as u64
    }
}

impl WorkerConfig {
    /// Response silence limit and wall budget (the budget in seconds,
    /// saturating).
    pub fn dual_timeout(&self) -> (r: DualTimeout)
        ensures
            r.response_secs == self.response_timeout_secs,
            r.wall_secs == sat_mul(self.budget_minutes, 60),
    {
        let wall = match self.budget_minutes.checked_mul(60) {
            Some(w) => w,
            None => u64::MAX,
        };
        DualTimeout { response_secs: self.response_timeout_secs, wall_secs: wall }
    }
}

/// The claimant name: the configured seat, else `worker-<pid>`.
pub open spec fn claimant_of(seat: Option<Seq<char>>, pid: u32) -> Seq<char> {
    match seat {
        Some(s) => s,
        None => "worker-"@ + decimal(pid as nat),
    }
}

/// The claimant name for a worker running as process `pid`.
pub fn claimant_name(cfg: &WorkerConfig, pid: u32) -> (r: String)
    ensures
        r@ == claimant_of(opt_seq(cfg.seat), pid),
{
    match &cfg.seat {
        Some(s) => s.clone(),
        None => {
            let mut n = "worker-".to_string();
            push_decimal(&mut n, pid as u64);
            n
        },
    }
}

/// A control operation sent to a seat.
#[derive(Debug, Clone, Copy, PartialEq, Eq, Structural)]
pub enum ControlOp {
    Pause,
    Resume,
    Abort,
    Steer,
}

/// A control command: the operation and, for steering, its text.
#[derive(Debug, Clone)]
pub struct ControlCommand {
    pub op: ControlOp,
    pub text: Option<String>,
}

/// Control state of a worker: abort flag, queued steering, and pending
/// pause / resume requests.
#[derive(Debug, Clone)]
pub struct WorkerControl {
    pub abort: bool,
    pub steer: Vec<String>,
    pub pause_requested: bool,
    pub resume_requested: bool,
}

/// Value of the control state.
pub struct ControlView {
    pub abort: bool,
    pub steer: Seq<Seq<char>>,
    pub pause_requested: bool,
    pub resume_requested: bool,
}

impl View for WorkerControl {
    type V = ControlView;

    open spec fn view(&self) -> ControlView {
        ControlView {
            abort: self.abort,
            steer: string_views(self.steer@),
            pause_requested: self.pause_requested,
            resume_requested: self.resume_requested,
        }
    }
}

/// One command applied: pause requests a pause and aborts the turn; resume
/// requests a resume and withdraws the pause; abort aborts; steer queues
/// its text unless it is blank or missing.
pub open spec fn apply_one(v: ControlView, op: ControlOp, text: Option<Seq<char>>) -> ControlView {
    match op {
        ControlOp::Pause => ControlView { pause_requested: true, abort: true, ..v },
        ControlOp::Resume => ControlView { resume_requested: true, pause_requested: false, ..v },
        ControlOp::Abort => ControlView { abort: true, ..v },
        ControlOp::Steer => match text {
            Some(t) => if trim(t).len() > 0 {
                ControlView { steer: v.steer.push(t), ..v }
            } else {
                v
            },
            None => v,
        },
    }
}

/// The commands applied in order.
pub open spec fn apply_all(v: ControlView, cmds: Seq<ControlCommand>) -> ControlView
    decreases cmds.len(),
{
    if cmds.len() == 0 {
        v
    } else {
        apply_one(apply_all(v, cmds.drop_last()), cmds.last().op, opt_seq(cmds.last().text))
    }
}

impl WorkerControl {
    /// Nothing requested, nothing queued.
    pub fn new() -> (r: WorkerControl)
        ensures
            !r@.abort,
            r@.steer.len() == 0,
            !r@.pause_requested,
            !r@.resume_requested,
    {
        WorkerControl { abort: false, steer: Vec::new(), pause_requested: false, resume_requested: false }
    }

    /// Apply control commands in order.
    pub fn apply_commands(&mut self, cmds: &[ControlCommand])
        ensures
            final(self)@ == apply_all(old(self)@, cmds@),
    {
        let ghost v0 = self@;
        let mut i: usize = 0;
        proof {
            assert(cmds@.take(0) =~= Seq::<ControlCommand>::empty());
        }
        while i < cmds.len()
            invariant
                i <= cmds.len(),
                self@ == apply_all(v0, cmds@.take(i as int)),
            decreases cmds.len() - i,
        {
            let c = &cmds[i];
            let ghost before = self@;
            match c.op {
                ControlOp::Pause => {
                    self.pause_requested = true;
                    self.abort = true;
                },
                ControlOp::Resume => {
                    self.resume_requested = true;
                    self.pause_requested = false;
                },
                ControlOp::Abort => {
                    self.abort = true;
                },
                ControlOp::Steer => match &c.text {
                    Some(t) => {
                        let tv = chars_of(t.as_str());
                        let (lo, hi) = trim_bounds(&tv);
                        if lo < hi {
                            self.steer.push(t.clone());
                            proof {
                                assert(self@.steer =~= before.steer.push(t@));
                            }
                        }
                    },
                    None => {},
                },
            }
            proof {
                assert(cmds@.take(i + 1).drop_last() =~= cmds@.take(i as int));
                assert(cmds@.take(i + 1).last() == *c);
                assert(self@ == apply_one(before, c.op, opt_seq(c.text)));
            }
            i += 1;
        }
        proof {
            assert(cmds@.take(cmds.len() as int) =~= cmds@);
        }
    }

    /// Before a turn: clear the abort flag and the steering queue.
    pub fn clear_turn_flags(&mut self)
        ensures
            final(self)@ == (ControlView { abort: false, steer: seq![], ..old(self)@ }),
    {
        self.abort = false;
        self.steer = Vec::new();
        proof {
            assert(self@.steer =~= Seq::<Seq<char>>::empty());
        }
    }
}

/// Beads claimed by `claimant`.
pub open spec fn claimed_by(claimant: Seq<char>) -> spec_fn(Bead) -> bool {
    |b: Bead| opt_seq(b.claimant) == Some(claimant)
}

/// The first of the claimed beads that `claimant` holds.
pub fn find_claimed_by(claimed: &[Bead], claimant: &str) -> (r: Option<Bead>)
    ensures
        (match first_index(claimed@, claimed_by(claimant@)) {
            Some(i) => r matches Some(b) && b.id@ == claimed@[i].id@ && b.title@ == claimed@[i].title@
                && b.notes@ == claimed@[i].notes@ && b.kind == claimed@[i].kind && b.priority
                == claimed@[i].priority && opt_seq(b.claimant) == opt_seq(claimed@[i].claimant),
            None => r is None,
        }),
{
    let mut i: usize = 0;
    while i < claimed.len()
        invariant
            i <= claimed.len(),
            forall|j: int| 0 <= j < i ==> !claimed_by(claimant@)(#[trigger] claimed@[j]),
        decreases claimed.len() - i,
    {
        let b = &claimed[i];
        let hit = match &b.claimant {
            Some(c) => crate::text::str_eq(c.as_str(), claimant),
            None => false,
        };
        if hit {
            proof {
                crate::search::lemma_first_index_is(claimed@, claimed_by(claimant@), i as int);
            }
            return Some(
                Bead {
                    id: b.id.clone(),
                    title: b.title.clone(),
                    notes: b.notes.clone(),
                    kind: b.kind,
                    priority: b.priority,
                    claimant: crate::beads::copy_opt(&b.claimant),
                },
            );
        }
        i += 1;
    }
    proof {
        crate::search::lemma_first_index_none(claimed@, claimed_by(claimant@));
    }
    None
}

/// Opening brief of the task prompt for each caste.
pub open spec fn caste_brief(c: SeatCaste) -> Seq<char> {
    match c {
        SeatCaste::Fleet => "You are a Fleet implementer. Claim and close implement (and task) beads only. Do not redesign \u{2014} follow the design notes. Prefer small diffs and cargo check/test."@,
        SeatCaste::Review => "You are a Review caste seat. Verify the linked implement; close on pass, or bead fail (reopens implement) on fail. Do not rewrite the feature."@,
        SeatCaste::Crew => "You are Crew. Produce clear design beads or review carefully. Closing design spawns implement for Fleet."@,
        SeatCaste::Marshal => "You are Marshal-adjacent. Prefer assign/reclaim via tools; only execute beads if needed."@,
        SeatCaste::Seneschal => "You are Seneschal. Triage mail/wishes into beads; avoid deep implementation."@,
        SeatCaste::Role => "You are a standing role agent. Follow standing orders; unstick or report, then handoff."@,
        SeatCaste::Any => "You are an overnight factory worker. Implement this bead and close it when done."@,
    }
}

fn caste_brief_str(c: SeatCaste) -> (r: &'static str)
    ensures
        r@ == caste_brief(c),
{
    match c {
        SeatCaste::Fleet => "You are a Fleet implementer. Claim and close implement (and task) beads only. Do not redesign \u{2014} follow the design notes. Prefer small diffs and cargo check/test.",
        SeatCaste::Review => "You are a Review caste seat. Verify the linked implement; close on pass, or bead fail (reopens implement) on fail. Do not rewrite the feature.",
        SeatCaste::Crew => "You are Crew. Produce clear design beads or review carefully. Closing design spawns implement for Fleet.",
        SeatCaste::Marshal => "You are Marshal-adjacent. Prefer assign/reclaim via tools; only execute beads if needed.",
        SeatCaste::Seneschal => "You are Seneschal. Triage mail/wishes into beads; avoid deep implementation.",
        SeatCaste::Role => "You are a standing role agent. Follow standing orders; unstick or report, then handoff.",
        SeatCaste::Any => "You are an overnight factory worker. Implement this bead and close it when done.",
    }
}

/// Rules of the task prompt up to the bead id.
pub open spec fn rules_head() -> Seq<char> {
    "\n\nRules:\n- Use tools to implement and verify as appropriate for your caste.\n- Pipeline: design close \u{2192} spawns implement; implement close \u{2192} spawns review; review fail \u{2192} reopens implement (bead fail). Call bead land only after review passed.\n- When finished successfully: call bead close with id "@
}

/// Rules of the task prompt after the bead id.
pub open spec fn rules_tail() -> Seq<char> {
    " and a short notes summary.\n- If blocked (needs human/secrets): call bead block with reason, then escalate.\n- Heartbeat the claim if work runs long (bead heartbeat).\n- At the end call the handoff tool with summary/open_threads/next_steps."@
}

/// The task prompt for a bead: the caste's brief, the bead's id, kind,
/// title and notes, then the rules (which name the bead id again).
pub open spec fn task_prompt(b: Bead, caste: SeatCaste) -> Seq<char> {
    caste_brief(caste) + "\n\nBead id: "@ + b.id@ + "\nKind: "@ + bead_kind_name(b.kind) + "\nTitle: "@
        + b.title@ + "\nNotes:\n"@ + b.notes@ + rules_head() + b.id@ + rules_tail()
}

/// The prompt that sets a worker on a bead.
pub fn bead_task_prompt(bead: &Bead, caste: SeatCaste) -> (r: String)
    ensures
        r@ == task_prompt(*bead, caste),
{
    let mut s = caste_brief_str(caste).to_string();
    s.append("\n\nBead id: ");
    s.append(bead.id.as_str());
    s.append("\nKind: ");
    s.append(bead.kind.as_str());
    s.append("\nTitle: ");
    s.append(bead.title.as_str());
    s.append("\nNotes:\n");
    s.append(bead.notes.as_str());
    s.append("\n\nRules:\n- Use tools to implement and verify as appropriate for your caste.\n- Pipeline: design close \u{2192} spawns implement; implement close \u{2192} spawns review; review fail \u{2192} reopens implement (bead fail). Call bead land only after review passed.\n- When finished successfully: call bead close with id ");
    s.append(bead.id.as_str());
    s.append(" and a short notes summary.\n- If blocked (needs human/secrets): call bead block with reason, then escalate.\n- Heartbeat the claim if work runs long (bead heartbeat).\n- At the end call the handoff tool with summary/open_threads/next_steps.");
    s
}

/// Running seats.
pub open spec fn running_pred() -> spec_fn(SeatView) -> bool {
    |s: SeatView| s.running
}

/// The status to show for "the" worker: the first running seat, else the
/// first seat listed.
pub fn read_status(seats: &Vec<SeatStatus>) -> (r: Option<SeatStatus>)
    ensures
        (match first_index(crate::fleet_panel::seat_views(seats@), running_pred()) {
            Some(i) => r matches Some(s) && s@ == seats@[i]@,
            None => if seats@.len() == 0 {
                r is None
            } else {
                r matches Some(s) && s@ == seats@[0]@
            },
        }),
{
    let ghost sv = crate::fleet_panel::seat_views(seats@);
    let mut i: usize = 0;
    while i < seats.len()
        invariant
            i <= seats.len(),
            sv == crate::fleet_panel::seat_views(seats@),
            sv.len() == seats.len(),
            forall|j: int| 0 <= j < i ==> !running_pred()(#[trigger] sv[j]),
        decreases seats.len() - i,
    {
        if seats[i].running {
            proof {
                crate::search::lemma_first_index_is(sv, running_pred(), i as int);
            }
            return Some(seats[i].copy());
        }
        i += 1;
    }
    proof {
        crate::search::lemma_first_index_none(sv, running_pred());
    }
    if seats.len() == 0 {
        None
    } else {
        Some(seats[0].copy())
    }
}

/// Applying two batches of commands one after the other is applying them
/// as one batch.
pub proof fn lemma_apply_batches(v: ControlView, a: Seq<ControlCommand>, b: Seq<ControlCommand>)
    ensures
        apply_all(apply_all(v, a), b) == apply_all(v, a + b),
    decreases b.len(),
{
    if b.len() == 0 {
        assert(a + b =~= a);
    } else {
        lemma_apply_batches(v, a, b.drop_last());
        assert((a + b).drop_last() =~= a + b.drop_last());
        assert((a + b).last() == b.last());
    }
}

/// A resume after a pause leaves no pause pending, a resume pending, and
/// the turn aborted.
pub proof fn lemma_pause_then_resume(v: ControlView, t1: Option<Seq<char>>, t2: Option<Seq<char>>)
    ensures
        ({
            let w = apply_one(apply_one(v, ControlOp::Pause, t1), ControlOp::Resume, t2);
            !w.pause_requested && w.resume_requested && w.abort && w.steer == v.steer
        }),
{
}

/// Steering with blank text changes nothing; with other text it queues
/// exactly that text at the end.
pub proof fn lemma_steer_queues_text(v: ControlView, t: Seq<char>)
    ensures
        trim(t).len() == 0 ==> apply_one(v, ControlOp::Steer, Some(t)) == v,
        trim(t).len() > 0 ==> apply_one(v, ControlOp::Steer, Some(t)).steer == v.steer.push(t),
{
}

/// Preview of a tool result: one line, at most 120 characters.
pub open spec fn result_preview(content: Seq<char>) -> Seq<char> {
    truncated(newlines_to_spaces(content), 120)
}

/// Log line of a tool result: `← <name> [ok|ERR] <preview>`.
pub open spec fn tool_result_text(name: Seq<char>, content: Seq<char>, is_error: bool) -> Seq<char> {
    "\u{2190} "@ + name + " ["@ + (if is_error {
        "ERR"@
    } else {
        "ok"@
    }) + "] "@ + result_preview(content)
}

/// Preview of a tool result.
pub fn tool_result_preview(content: &str) -> (r: String)
    ensures
        r@ == result_preview(content@),
{
    let f = crate::helpers::replace_newlines(content);
    truncate(f.as_str(), 120)
}

/// Log line of a tool result.
pub fn tool_result_line(name: &str, content: &str, is_error: bool) -> (r: String)
    ensures
        r@ == tool_result_text(name@, content@, is_error),
{
    let preview = tool_result_preview(content);
    let mut s = "\u{2190} ".to_string();
    s.append(name);
    s.append(" [");
    s.append(if is_error { "ERR" } else { "ok" });
    s.append("] ");
    s.append(preview.as_str());
    s
}

/// Log line of tool output: `  <name>| <line>`, the output on one line
/// cut to 100 characters; none when that is blank.
pub open spec fn tool_output_text(name: Seq<char>, text: Seq<char>) -> Option<Seq<char>> {
    let line = truncated(newlines_to_spaces(text), 100);
    if trim(line).len() == 0 {
        None
    } else {
        Some("  "@ + name + "| "@ + line)
    }
}

/// Log line of tool output, if any.
pub fn tool_output_line(name: &str, text: &str) -> (r: Option<String>)
    ensures
        opt_seq(r) == tool_output_text(name@, text@),
{
    let f = crate::helpers::replace_newlines(text);
    let line = truncate(f.as_str(), 100);
    let lv = chars_of(line.as_str());
    let (lo, hi) = trim_bounds(&lv);
    if lo >= hi {
        return None;
    }
    let mut s = "  ".to_string();
    s.append(name);
    s.append("| ");
    s.append(line.as_str());
    Some(s)
}

/// Streamed text is buffered; once the buffer holds a newline or more than
/// 160 bytes it is flushed as one `say:` line (on one line, cut to 160
/// characters; nothing is logged when that is blank).
pub open spec fn say_step(buf: Seq<char>, text: Seq<char>) -> (Seq<char>, Option<Seq<char>>) {
    let b = buf + text;
    if contains(b, "\n"@) || byte_len(b) > 160 {
        let line = truncated(newlines_to_spaces(b), 160);
        (seq![], if trim(line).len() == 0 {
            None
        } else {
            Some("say: "@ + line)
        })
    } else {
        (b, None)
    }
}

/// Buffer streamed text (only when verbose) and return the `say:` line to
/// log, if one is due.
pub fn say_flush(buf: &mut String, text: &str, verbose: bool) -> (r: Option<String>)
    ensures
        !verbose ==> final(buf)@ == old(buf)@ && r is None,
        verbose ==> final(buf)@ == say_step(old(buf)@, text@).0 && opt_seq(r) == say_step(old(buf)@, text@).1,
{
    if !verbose {
        return None;
    }
    buf.append(text);
    let bv = chars_of(buf.as_str());
    let nl = chars_of("\n");
    let has_nl = crate::text::contains_exec(&bv, &nl);
    let bytes = byte_len_prefix(&bv, bv.len());
    proof {
        assert(bv@.take(bv@.len() as int) =~= bv@);
    }
    if has_nl || bytes > 160 {
        let f = crate::helpers::replace_newlines(buf.as_str());
        let line = truncate(f.as_str(), 160);
        *buf = String::new();
        let lv = chars_of(line.as_str());
        let (lo, hi) = trim_bounds(&lv);
        if lo >= hi {
            return None;
        }
        let mut s = "say: ".to_string();
        s.append(line.as_str());
        Some(s)
    } else {
        None
    }
}

/// The prompt for a bead the worker was already on (its conversation is
/// reloaded).
pub open spec fn continue_text(b: Bead) -> Seq<char> {
    "Continue working on bead "@ + b.id@ + " ("@ + b.title@
        + "). Prior conversation is in context. Finish and close the bead when done, or follow any new [steer] instructions."@
}

/// The prompt that resumes work on a bead.
pub fn continue_prompt(bead: &Bead) -> (r: String)
    ensures
        r@ == continue_text(*bead),
{
    let mut s = "Continue working on bead ".to_string();
    s.append(bead.id.as_str());
    s.append(" (");
    s.append(bead.title.as_str());
    s.append(
        "). Prior conversation is in context. Finish and close the bead when done, or follow any new [steer] instructions.",
    );
    s
}

/// Title of a worker's session: bead id and title (cut to 40 characters).
pub open spec fn session_title_text(b: Bead) -> Seq<char> {
    b.id@ + ": "@ + truncated(b.title@, 40)
}

/// Title of the session a worker keeps for a bead.
pub fn worker_session_title(bead: &Bead) -> (r: String)
    ensures
        r@ == session_title_text(*bead),
{
    let mut s = bead.id.clone();
    s.append(": ");
    s.append(truncate(bead.title.as_str(), 40).as_str());
    s
}

/// What happens to a bead whose turn failed.
#[derive(Debug, Clone, PartialEq, Eq)]
pub enum FailureAction {
    /// Give the claim back (a transport failure: another try may work).
    Release,
    /// Stop the worker (fail-fast).
    Stop,
    /// Block the bead with this reason.
    Block(String),
}

/// A transport failure (named in the error, or as the agent reports it)
/// releases the bead; otherwise fail-fast stops the worker, else the bead
/// is blocked with the error.
pub open spec fn failure_action_of(err: Seq<char>, fail_fast: bool, transport: bool) -> (int, Seq<char>) {
    if contains(err, "stream error"@) || contains(err, "error sending request"@) || transport {
        (0, seq![])
    } else if fail_fast {
        (1, seq![])
    } else {
        (2, "worker error: "@ + err)
    }
}

/// A failed bead is released whenever the failure is a transport one: its
/// error names a stream error or a request that could not be sent, or the
/// agent reports it so, whatever fail-fast says. Otherwise fail-fast stops
/// the worker, and without it the bead is blocked with the error as its
/// reason.
pub proof fn lemma_failure_actions(err: Seq<char>, fail_fast: bool, transport: bool)
    ensures
        contains(err, "stream error"@) ==> failure_action_of(err, fail_fast, transport).0 == 0,
        contains(err, "error sending request"@) ==> failure_action_of(err, fail_fast, transport).0 == 0,
        transport ==> failure_action_of(err, fail_fast, transport).0 == 0,
        !contains(err, "stream error"@) && !contains(err, "error sending request"@) && !transport ==> ({
            let a = failure_action_of(err, fail_fast, transport);
            if fail_fast {
                a.0 == 1
            } else {
                a.0 == 2 && a.1 == "worker error: "@ + err
            }
        }),
{
}

/// Value of a failure action.
pub open spec fn failure_action_view(a: FailureAction) -> (int, Seq<char>) {
    match a {
        FailureAction::Release => (0, seq![]),
        FailureAction::Stop => (1, seq![]),
        FailureAction::Block(r) => (2, r@),
    }
}

/// Decide what to do with a failed bead; `transport` says whether the
/// agent reports the error as a transport failure.
pub fn failure_action(err: &str, fail_fast: bool, transport: bool) -> (r: FailureAction)
    ensures
        failure_action_view(r) == failure_action_of(err@, fail_fast, transport),
{
    if crate::text::str_contains(err, "stream error") || crate::text::str_contains(err, "error sending request")
        || transport {
        FailureAction::Release
    } else if fail_fast {
        FailureAction::Stop
    } else {
        let mut r = "worker error: ".to_string();
        r.append(err);
        FailureAction::Block(r)
    }
}

/// Why a pause ends, if it does.
#[derive(Debug, Clone, Copy, PartialEq, Eq, Structural)]
pub enum PauseStep {
    /// The budget ran out.
    Budget,
    /// A resume arrived.
    Resumed,
    /// The pause outlived its time to live.
    Expired,
    /// Keep waiting (and keep the lease alive).
    Wait,
}

/// A pause ends when the budget is spent, then on a resume, then when it
/// expires.
pub open spec fn pause_step_of(budget_spent: bool, resumed: bool, expired: bool) -> PauseStep {
    if budget_spent {
        PauseStep::Budget
    } else if resumed {
        PauseStep::Resumed
    } else if expired {
        PauseStep::Expired
    } else {
        PauseStep::Wait
    }
}

/// One check of a paused worker: budget, then the control state (after
/// applying the commands polled), then the pause's time to live.
pub fn pause_step(budget_spent: bool, control: &WorkerControl, expired: bool) -> (r: PauseStep)
    ensures
        r == pause_step_of(budget_spent, control@.resume_requested, expired),
{
    if budget_spent {
        PauseStep::Budget
    } else if control.resume_requested {
        PauseStep::Resumed
    } else if expired {
        PauseStep::Expired
    } else {
        PauseStep::Wait
    }
}

/// The worker's next move.
#[derive(Debug, Clone, Copy, PartialEq, Eq, Structural)]
pub enum WorkerStep {
    /// Budget spent: write a handoff and stop.
    Handoff,
    /// A pause was requested: wait for a resume.
    Pause,
    /// Continue the bead this seat already holds.
    Continue,
    /// Claim the next ready bead.
    Claim,
}

/// The budget comes first, then a requested pause, then a bead the seat
/// already holds, then a new claim.
pub open spec fn worker_step_of(budget_spent: bool, pause_requested: bool, holds_bead: bool) -> WorkerStep {
    if budget_spent {
        WorkerStep::Handoff
    } else if pause_requested {
        WorkerStep::Pause
    } else if holds_bead {
        WorkerStep::Continue
    } else {
        WorkerStep::Claim
    }
}

/// Decide the worker's next move.
pub fn worker_step(budget_spent: bool, control: &WorkerControl, holds_bead: bool) -> (r: WorkerStep)
    ensures
        r == worker_step_of(budget_spent, control@.pause_requested, holds_bead),
{
    if budget_spent {
        WorkerStep::Handoff
    } else if control.pause_requested {
        WorkerStep::Pause
    } else if holds_bead {
        WorkerStep::Continue
    } else {
        WorkerStep::Claim
    }
}

/// A pause command is obeyed at the next step: after it, the worker pauses
/// (unless the budget is spent), whatever else it was doing.
pub proof fn lemma_pause_command_pauses(v: ControlView, text: Option<Seq<char>>, holds_bead: bool)
    ensures
        worker_step_of(false, apply_one(v, ControlOp::Pause, text).pause_requested, holds_bead) == WorkerStep::Pause,
        apply_one(v, ControlOp::Pause, text).abort,
{
}

/// An agent event as the worker's log reads it.
#[derive(Debug, Clone)]
pub enum SinkEvent {
    Status(String),
    Error(String),
    ToolUseStart(String),
    ToolResult { name: String, content: String, is_error: bool },
    ToolOutput { name: String, text: String },
    TextDelta(String),
    Done,
    Aborted,
    Other,
}

/// What the worker does about an event: log lines and seat-status updates.
#[derive(Debug, Clone, PartialEq, Eq)]
pub enum SinkEffect {
    /// Log the line (to stderr and the seat log) and note it as the seat's
    /// latest activity.
    Emit(String),
    /// Log the line only.
    Log(String),
    /// The seat is in error with this message.
    SetError(String),
    /// The seat is working on this tool.
    ToolStarted(String),
    /// The tool finished; its preview is the latest activity.
    ToolFinished { name: String, preview: String },
    /// Touch the seat's heartbeat.
    Heartbeat,
}

/// Value of an effect: code and texts.
pub open spec fn effect_view(e: SinkEffect) -> (int, Seq<char>, Seq<char>) {
    match e {
        SinkEffect::Emit(t) => (0, t@, seq![]),
        SinkEffect::Log(t) => (1, t@, seq![]),
        SinkEffect::SetError(t) => (2, t@, seq![]),
        SinkEffect::ToolStarted(t) => (3, t@, seq![]),
        SinkEffect::ToolFinished { name, preview } => (4, name@, preview@),
        SinkEffect::Heartbeat => (5, seq![], seq![]),
    }
}

/// Views of effects.
pub open spec fn effect_views(s: Seq<SinkEffect>) -> Seq<(int, Seq<char>, Seq<char>)> {
    s.map_values(|e: SinkEffect| effect_view(e))
}

/// The worker's log of agent events: the seat, whether it logs verbosely,
/// the last status message, streamed text waiting for a line end, and when
/// the agent last did anything.
#[derive(Debug)]
pub struct EventSink {
    pub seat: String,
    pub verbose: bool,
    pub last_status_msg: String,
    pub text_buf: String,
    pub last_activity: Instant,
}

/// The effects of an event (given the streamed-text buffer): status
/// messages are logged; errors logged and recorded; tool starts recorded
/// (and logged when verbose); tool results logged when verbose, then
/// recorded; tool output logged when verbose and not blank; streamed text
/// logged a line at a time (when verbose); a finished or aborted turn
/// touches the heartbeat.
pub open spec fn sink_effects(ev: SinkEvent, verbose: bool, buf: Seq<char>) -> Seq<(int, Seq<char>, Seq<char>)> {
    match ev {
        SinkEvent::Status(m) => seq![(0, m@, seq![])],
        SinkEvent::Error(m) => seq![(0, "error: "@ + m@, seq![]), (2, m@, seq![])],
        SinkEvent::ToolUseStart(n) => seq![(3, n@, seq![])] + if verbose {
            seq![(0, "\u{2192} tool "@ + n@, seq![])]
        } else {
            seq![]
        },
        SinkEvent::ToolResult { name, content, is_error } => (if verbose {
            seq![(0, tool_result_text(name@, content@, is_error), seq![])]
        } else {
            seq![]
        }) + seq![(4, name@, result_preview(content@))],
        SinkEvent::ToolOutput { name, text } => if verbose {
            match tool_output_text(name@, text@) {
                Some(l) => seq![(0, l, seq![])],
                None => seq![],
            }
        } else {
            seq![]
        },
        SinkEvent::TextDelta(t) => if verbose {
            match say_step(buf, t@).1 {
                Some(l) => seq![(1, l, seq![])],
                None => seq![],
            }
        } else {
            seq![]
        },
        SinkEvent::Done | SinkEvent::Aborted => seq![(5, seq![], seq![])],
        SinkEvent::Other => seq![],
    }
}

fn push_effect(out: &mut Vec<SinkEffect>, e: SinkEffect)
    ensures
        effect_views(final(out)@) == effect_views(old(out)@).push(effect_view(e)),
{
    let ghost before = out@;
    let ghost ev = effect_view(e);
    out.push(e);
    proof {
        assert(effect_views(out@) =~= effect_views(before).push(ev));
    }
}

impl EventSink {
    /// A log for `seat`.
    pub fn new(seat: &str, verbose: bool) -> (r: EventSink)
        ensures
            r.seat@ == seat@,
            r.verbose == verbose,
            r.last_status_msg@.len() == 0,
            r.text_buf@.len() == 0,
    {
        EventSink {
            seat: seat.to_string(),
            verbose,
            last_status_msg: String::new(),
            text_buf: String::new(),
            last_activity: crate::toast::now(),
        }
    }

    /// Note that the agent did something now.
    pub fn touch_activity(&mut self)
        ensures
            final(self).seat@ == old(self).seat@,
            final(self).verbose == old(self).verbose,
            final(self).last_status_msg@ == old(self).last_status_msg@,
            final(self).text_buf@ == old(self).text_buf@,
    {
        self.last_activity = crate::toast::now();
    }

    /// Take in an agent event: note the activity, keep the last status
    /// message and the streamed-text buffer, and say what to log and record.
    pub fn handle(&mut self, ev: &SinkEvent) -> (r: Vec<SinkEffect>)
        ensures
            effect_views(r@) == sink_effects(*ev, old(self).verbose, old(self).text_buf@),
            final(self).verbose == old(self).verbose,
            final(self).seat@ == old(self).seat@,
            final(self).last_status_msg@ == (match ev {
                SinkEvent::Status(m) => m@,
                _ => old(self).last_status_msg@,
            }),
            final(self).text_buf@ == (match ev {
                SinkEvent::TextDelta(t) => if old(self).verbose {
                    say_step(old(self).text_buf@, t@).0
                } else {
                    old(self).text_buf@
                },
                _ => old(self).text_buf@,
            }),
    {
        self.touch_activity();
        let mut out: Vec<SinkEffect> = Vec::new();
        proof {
            assert(effect_views(out@) =~= Seq::<(int, Seq<char>, Seq<char>)>::empty());
        }
        match ev {
            SinkEvent::Status(m) => {
                self.last_status_msg = m.clone();
                push_effect(&mut out, SinkEffect::Emit(m.clone()));
            },
            SinkEvent::Error(m) => {
                let mut t = "error: ".to_string();
                t.append(m.as_str());
                push_effect(&mut out, SinkEffect::Emit(t));
                push_effect(&mut out, SinkEffect::SetError(m.clone()));
            },
            SinkEvent::ToolUseStart(n) => {
                push_effect(&mut out, SinkEffect::ToolStarted(n.clone()));
                if self.verbose {
                    let mut t = "\u{2192} tool ".to_string();
                    t.append(n.as_str());
                    push_effect(&mut out, SinkEffect::Emit(t));
                }
            },
            SinkEvent::ToolResult { name, content, is_error } => {
                if self.verbose {
                    push_effect(&mut out, SinkEffect::Emit(tool_result_line(name.as_str(), content.as_str(), *is_error)));
                }
                let preview = tool_result_preview(content.as_str());
                push_effect(&mut out, SinkEffect::ToolFinished { name: name.clone(), preview });
            },
            SinkEvent::ToolOutput { name, text } => {
                if self.verbose {
                    match tool_output_line(name.as_str(), text.as_str()) {
                        Some(l) => push_effect(&mut out, SinkEffect::Emit(l)),
                        None => {},
                    }
                }
            },
            SinkEvent::TextDelta(t) => {
                let verbose = self.verbose;
                match say_flush(&mut self.text_buf, t.as_str(), verbose) {
                    Some(l) => push_effect(&mut out, SinkEffect::Log(l)),
                    None => {},
                }
            },
            SinkEvent::Done | SinkEvent::Aborted => {
                push_effect(&mut out, SinkEffect::Heartbeat);
            },
            SinkEvent::Other => {},
        }
        proof {
            assert(effect_views(out@) =~= sink_effects(*ev, old(self).verbose, old(self).text_buf@));
        }
        out
    }
}

/// How a bead's turn ended.
pub enum BeadOutcome {
    /// The turn ended; the bead's status as read back from the store
    /// (`None` when it could not be read).
    Finished(Option<BeadStatus>),
    /// The turn failed with `error`; `transport` says whether the agent
    /// reports it as a transport failure.
    Failed { error: String, transport: bool },
}

/// The worker's counters and seat state.
pub struct WorkerTally {
    pub beads_closed: u64,
    pub beads_blocked: u64,
    pub state: String,
    pub last_error: Option<String>,
    pub running: bool,
}

/// Value of the worker's counters and seat state.
pub struct TallyView {
    pub beads_closed: u64,
    pub beads_blocked: u64,
    pub state: Seq<char>,
    pub last_error: Option<Seq<char>>,
    pub running: bool,
}

impl View for WorkerTally {
    type V = TallyView;

    open spec fn view(&self) -> TallyView {
        TallyView {
            beads_closed: self.beads_closed,
            beads_blocked: self.beads_blocked,
            state: self.state@,
            last_error: opt_seq(self.last_error),
            running: self.running,
        }
    }
}

/// What the worker does after a bead's turn.
pub enum AfterBead {
    /// Wait while paused, then look again.
    Pause,
    /// Go on to the next step.
    Proceed,
    /// Sleep this many seconds, then look again.
    Sleep(u64),
    /// Stop the worker with this error.
    Stop(String),
}

/// The outside work after a bead's turn: where the worker goes next,
/// whether to give the claim back, a reason to block the bead with, and
/// whether to write the seat status.
pub struct BeadResolution {
    pub next: AfterBead,
    pub release: bool,
    pub block_reason: Option<String>,
    pub write_status: bool,
}

/// Value of a resolution: next move (0 pause, 1 proceed, 2 sleep, 3 stop)
/// with its seconds or error, release, block reason, status write.
pub open spec fn resolution_view(r: BeadResolution) -> (int, u64, Seq<char>, bool, Option<Seq<char>>, bool) {
    let (k, secs, err) = match r.next {
        AfterBead::Pause => (0int, 0u64, Seq::<char>::empty()),
        AfterBead::Proceed => (1int, 0u64, Seq::<char>::empty()),
        AfterBead::Sleep(n) => (2int, n, Seq::<char>::empty()),
        AfterBead::Stop(e) => (3int, 0u64, e@),
    };
    (k, secs, err, r.release, opt_seq(r.block_reason), r.write_status)
}

/// Seconds to wait after a failure: the configured sleep, at least three.
pub open spec fn failure_sleep(sleep_secs: u64) -> u64 {
    if sleep_secs < 3 {
        3
    } else {
        sleep_secs
    }
}

/// The tally after a bead's turn. A requested pause leaves it as it is.
/// A finished bead counts as closed or blocked by its status read back,
/// and the seat is idle again. A failure is recorded (state `error`); a
/// new claim that fails without a transport failure stops the worker
/// (fail-fast: it is no longer running) or counts a blocked bead.
pub open spec fn tally_after(
    t: TallyView,
    outcome_ok: bool,
    status: Option<BeadStatus>,
    error: Seq<char>,
    transport: bool,
    held: bool,
    pause_requested: bool,
    fail_fast: bool,
) -> TallyView {
    if pause_requested {
        t
    } else if outcome_ok {
        match status {
            Some(BeadStatus::Closed) => TallyView { beads_closed: (t.beads_closed + 1) as u64, state: "idle"@, ..t },
            Some(BeadStatus::Blocked) => TallyView { beads_blocked: (t.beads_blocked + 1) as u64, state: "idle"@, ..t },
            Some(_) => TallyView { state: "idle"@, ..t },
            None => t,
        }
    } else {
        let failed = TallyView { last_error: Some(error), state: "error"@, ..t };
        if held {
            failed
        } else {
            let a = failure_action_of(error, fail_fast, transport);
            if a.0 == 1 {
                TallyView { running: false, ..failed }
            } else if a.0 == 2 {
                TallyView { beads_blocked: (t.beads_blocked + 1) as u64, ..failed }
            } else {
                failed
            }
        }
    }
}

/// The worker's move after a bead's turn (see `tally_after`): pause when
/// asked; after a finished bead go on (writing the status when the bead
/// was read back); after a failure, a held bead sleeps (or stops, with
/// fail-fast), and a new claim releases, stops or blocks as
/// `failure_action_of` says, sleeping unless it stops.
pub open spec fn resolution_after(
    outcome_ok: bool,
    status: Option<BeadStatus>,
    error: Seq<char>,
    transport: bool,
    held: bool,
    pause_requested: bool,
    fail_fast: bool,
    sleep_secs: u64,
) -> (int, u64, Seq<char>, bool, Option<Seq<char>>, bool) {
    if pause_requested {
        (0, 0, seq![], false, None, false)
    } else if outcome_ok {
        (1, 0, seq![], false, None, status is Some)
    } else if held {
        if fail_fast {
            (3, 0, error, false, None, true)
        } else {
            (2, failure_sleep(sleep_secs), seq![], false, None, true)
        }
    } else {
        let a = failure_action_of(error, fail_fast, transport);
        if a.0 == 0 {
            (2, failure_sleep(sleep_secs), seq![], true, None, true)
        } else if a.0 == 1 {
            (3, 0, error, false, None, true)
        } else {
            (2, failure_sleep(sleep_secs), seq![], false, Some(a.1), true)
        }
    }
}

/// Settle a bead's turn: update the tally and say what comes next.
/// `held` says whether the bead was one the seat already held.
pub fn after_bead(
    tally: &mut WorkerTally,
    outcome: BeadOutcome,
    held: bool,
    pause_requested: bool,
    fail_fast: bool,
    sleep_secs: u64,
) -> (r: BeadResolution)
    requires
        old(tally).beads_closed < u64::MAX,
        old(tally).beads_blocked < u64::MAX,
    ensures
        ({
            let (ok, st, err, tr) = match outcome {
                BeadOutcome::Finished(s) => (true, s, Seq::<char>::empty(), false),
                BeadOutcome::Failed { error, transport } => (false, None, error@, transport),
            };
            &&& final(tally)@ == tally_after(old(tally)@, ok, st, err, tr, held, pause_requested, fail_fast)
            &&& resolution_view(r) == resolution_after(ok, st, err, tr, held, pause_requested, fail_fast, sleep_secs)
        }),
{
    let nap: u64 = if sleep_secs < 3 {
        3
    } else {
        sleep_secs
    };
    if pause_requested {
        return BeadResolution { next: AfterBead::Pause, release: false, block_reason: None, write_status: false };
    }
    match outcome {
        BeadOutcome::Finished(status) => {
            match status {
                Some(s) => {
                    match s {
                        BeadStatus::Closed => {
                            tally.beads_closed = tally.beads_closed + 1;
                        },
                        BeadStatus::Blocked => {
                            tally.beads_blocked = tally.beads_blocked + 1;
                        },
                        _ => {},
                    }
                    tally.state = "idle".to_string();
                    BeadResolution { next: AfterBead::Proceed, release: false, block_reason: None, write_status: true }
                },
                None => BeadResolution {
                    next: AfterBead::Proceed,
                    release: false,
                    block_reason: None,
                    write_status: false,
                },
            }
        },
        BeadOutcome::Failed { error, transport } => {
            tally.last_error = Some(error.clone());
            tally.state = "error".to_string();
            if held {
                if fail_fast {
                    return BeadResolution {
                        next: AfterBead::Stop(error),
                        release: false,
                        block_reason: None,
                        write_status: true,
                    };
                }
                return BeadResolution {
                    next: AfterBead::Sleep(nap),
                    release: false,
                    block_reason: None,
                    write_status: true,
                };
            }
            match failure_action(error.as_str(), fail_fast, transport) {
                FailureAction::Release => BeadResolution {
                    next: AfterBead::Sleep(nap),
                    release: true,
                    block_reason: None,
                    write_status: true,
                },
                FailureAction::Stop => {
                    tally.running = false;
                    BeadResolution { next: AfterBead::Stop(error), release: false, block_reason: None, write_status: true }
                },
                FailureAction::Block(reason) => {
                    tally.beads_blocked = tally.beads_blocked + 1;
                    BeadResolution {
                        next: AfterBead::Sleep(nap),
                        release: false,
                        block_reason: Some(reason),
                        write_status: true,
                    }
                },
            }
        },
    }
}

/// A failure never leaves the worker without a record of it, and it only
/// goes on without sleeping when it stops.
pub proof fn lemma_failure_is_recorded(
    t: TallyView,
    error: Seq<char>,
    transport: bool,
    held: bool,
    fail_fast: bool,
    sleep_secs: u64,
)
    ensures
        tally_after(t, false, None, error, transport, held, false, fail_fast).last_error == Some(error),
        tally_after(t, false, None, error, transport, held, false, fail_fast).state == "error"@,
        ({
            let r = resolution_after(false, None, error, transport, held, false, fail_fast, sleep_secs);
            r.0 == 3 || (r.0 == 2 && r.1 >= 3)
        }),
{
}

/// The worker's moves in order of precedence: a spent budget always ends
/// in a handoff; otherwise a requested pause always pauses; otherwise a
/// held bead is continued before anything new is claimed. A pause ends on
/// a spent budget first, then on a resume, then on expiry, and otherwise
/// goes on waiting.
pub proof fn lemma_worker_moves(budget_spent: bool, pause_requested: bool, holds_bead: bool, resumed: bool, expired: bool)
    ensures
        budget_spent ==> worker_step_of(budget_spent, pause_requested, holds_bead) == WorkerStep::Handoff,
        !budget_spent && pause_requested ==> worker_step_of(budget_spent, pause_requested, holds_bead) == WorkerStep::Pause,
        !budget_spent && !pause_requested && holds_bead ==> worker_step_of(budget_spent, pause_requested, holds_bead)
            == WorkerStep::Continue,
        !budget_spent && !pause_requested && !holds_bead ==> worker_step_of(budget_spent, pause_requested, holds_bead)
            == WorkerStep::Claim,
        budget_spent ==> pause_step_of(budget_spent, resumed, expired) == PauseStep::Budget,
        !budget_spent && resumed ==> pause_step_of(budget_spent, resumed, expired) == PauseStep::Resumed,
        !budget_spent && !resumed && expired ==> pause_step_of(budget_spent, resumed, expired) == PauseStep::Expired,
        !budget_spent && !resumed && !expired ==> pause_step_of(budget_spent, resumed, expired) == PauseStep::Wait,
{
}

/// After a finished bead the worker goes on, counting one more closed bead
/// when the bead is closed and one more blocked bead when it is blocked,
/// and the seat is idle; a pause leaves everything as it was.
pub proof fn lemma_finished_bead_counted(t: TallyView, status: BeadStatus, held: bool, fail_fast: bool, sleep_secs: u64)
    requires
        t.beads_closed < u64::MAX,
        t.beads_blocked < u64::MAX,
    ensures
        ({
            let n = tally_after(t, true, Some(status), seq![], false, held, false, fail_fast);
            &&& n.beads_closed == if status == BeadStatus::Closed { t.beads_closed + 1 } else { t.beads_closed as int }
            &&& n.beads_blocked == if status == BeadStatus::Blocked { t.beads_blocked + 1 } else { t.beads_blocked as int }
            &&& n.state == "idle"@
            &&& n.last_error == t.last_error
            &&& n.running == t.running
        }),
        resolution_after(true, Some(status), seq![], false, held, false, fail_fast, sleep_secs).0 == 1,
        tally_after(t, true, Some(status), seq![], false, held, true, fail_fast) == t,
        resolution_after(true, Some(status), seq![], false, held, true, fail_fast, sleep_secs).0 == 0,
{
}

} // verus!
