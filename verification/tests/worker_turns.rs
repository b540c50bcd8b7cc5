use rs_agent::beads::BeadStatus;
use rs_agent::worker::{after_bead, AfterBead, BeadOutcome, WorkerTally};

fn tally() -> WorkerTally {
    WorkerTally { beads_closed: 2, beads_blocked: 1, state: "working".to_string(), last_error: None, running: true }
}

fn failed(e: &str, transport: bool) -> BeadOutcome {
    BeadOutcome::Failed { error: e.to_string(), transport }
}

#[test]
fn finished_beads_are_counted() {
    let mut t = tally();
    let r = after_bead(&mut t, BeadOutcome::Finished(Some(BeadStatus::Closed)), false, false, false, 10);
    assert!(matches!(r.next, AfterBead::Proceed));
    assert!(r.write_status);
    assert_eq!((t.beads_closed, t.beads_blocked, t.state.as_str()), (3, 1, "idle"));
    let r = after_bead(&mut t, BeadOutcome::Finished(Some(BeadStatus::Blocked)), true, false, false, 10);
    assert!(matches!(r.next, AfterBead::Proceed));
    assert_eq!((t.beads_closed, t.beads_blocked), (3, 2));
    let mut u = tally();
    let r = after_bead(&mut u, BeadOutcome::Finished(None), false, false, false, 10);
    assert!(!r.write_status);
    assert_eq!(u.state, "working");
}

#[test]
fn a_pause_leaves_the_tally_alone() {
    let mut t = tally();
    let r = after_bead(&mut t, failed("boom", false), false, true, true, 10);
    assert!(matches!(r.next, AfterBead::Pause));
    assert_eq!(t.last_error, None);
    assert_eq!(t.state, "working");
}

#[test]
fn failed_new_claims_release_block_or_stop() {
    let mut t = tally();
    let r = after_bead(&mut t, failed("stream error: reset", false), false, false, true, 1);
    assert!(r.release);
    assert!(matches!(r.next, AfterBead::Sleep(3)));
    assert_eq!(t.state, "error");
    assert_eq!(t.last_error.as_deref(), Some("stream error: reset"));
    let mut t = tally();
    let r = after_bead(&mut t, failed("bad input", false), false, false, false, 20);
    assert_eq!(r.block_reason.as_deref(), Some("worker error: bad input"));
    assert!(matches!(r.next, AfterBead::Sleep(20)));
    assert_eq!(t.beads_blocked, 2);
    let mut t = tally();
    let r = after_bead(&mut t, failed("bad input", false), false, false, true, 20);
    assert!(matches!(r.next, AfterBead::Stop(ref e) if e == "bad input"));
    assert!(!t.running);
}

#[test]
fn failed_held_beads_sleep_or_stop() {
    let mut t = tally();
    let r = after_bead(&mut t, failed("bad input", true), true, false, false, 0);
    assert!(matches!(r.next, AfterBead::Sleep(3)));
    assert!(!r.release);
    assert_eq!(r.block_reason, None);
    let mut t = tally();
    let r = after_bead(&mut t, failed("bad input", false), true, false, true, 0);
    assert!(matches!(r.next, AfterBead::Stop(_)));
    assert!(t.running);
}
