use rs_agent::attach::{
    abort_action, attach_step, detach_action, steer_action, steer_note, AbortAction, AttachStep, DetachAction, SteerAction,
};
use rs_agent::header::AttachPhase;

fn s(x: &str) -> String {
    x.to_string()
}

#[test]
fn steering_depends_on_the_connection() {
    assert_eq!(steer_action("   ", Some(("Fleet-1", AttachPhase::Follow))), SteerAction::Usage);
    assert_eq!(steer_action("go", None), SteerAction::NeedSeat);
    let remote = steer_action(" fix tests ", Some(("Fleet-1", AttachPhase::Follow)));
    assert_eq!(remote, SteerAction::Remote { seat: s("Fleet-1"), text: s("fix tests") });
    assert_eq!(steer_note(&remote), "Steer → `Fleet-1`: fix tests");
    assert_eq!(
        steer_action("x", Some(("Fleet-1", AttachPhase::Attaching))),
        SteerAction::Remote { seat: s("Fleet-1"), text: s("x") }
    );
    let local = steer_action("x", Some(("Fleet-1", AttachPhase::Attached)));
    assert_eq!(local, SteerAction::Local(s("x")));
    assert_eq!(steer_note(&local), "Steer (attached): x");
    let ro = steer_action("x", Some(("Fleet-1", AttachPhase::Inspect)));
    assert_eq!(ro, SteerAction::ReadOnly);
    assert_eq!(steer_note(&ro), "Inspect is read-only. `/seat follow` + `/seat steer …`, or `/seat attach`.");
    assert_eq!(steer_note(&SteerAction::Usage), "Usage: /seat steer <instruction>");
}

#[test]
fn aborting_depends_on_the_connection() {
    assert_eq!(abort_action(None), (AbortAction::NeedSeat, s("Follow or attach a seat first: /seat follow <seat>")));
    assert_eq!(
        abort_action(Some(("Crew-1", AttachPhase::Follow))),
        (AbortAction::Remote(s("Crew-1")), s("Abort → `Crew-1` (worker turn)"))
    );
    assert_eq!(abort_action(Some(("Crew-1", AttachPhase::Attached))), (AbortAction::Local, s("Abort (attached turn)")));
    assert_eq!(abort_action(Some(("Crew-1", AttachPhase::Inspect))).0, AbortAction::ReadOnly);
}

#[test]
fn detaching_releases_or_closes() {
    assert_eq!(detach_action(None), (DetachAction::NotAttached, s("Not attached to a fleet seat.")));
    assert_eq!(
        detach_action(Some(("Fleet-2", AttachPhase::Attaching))),
        (DetachAction::Release, s("Detached from `Fleet-2` — worker resume signaled. Session saved."))
    );
    assert_eq!(detach_action(Some(("Fleet-2", AttachPhase::Follow))), (DetachAction::StopFollow, s("Stopped following `Fleet-2`.")));
    assert_eq!(
        detach_action(Some(("Fleet-2", AttachPhase::Inspect))),
        (DetachAction::CloseInspect, s("Closed inspect view for `Fleet-2`."))
    );
}

#[test]
fn pending_attach_waits_loads_or_gives_up() {
    let sec: u128 = 1_000_000_000;
    assert_eq!(attach_step(AttachPhase::Follow, Some("s1"), None, Some("paused"), 0), AttachStep::Idle);
    assert_eq!(attach_step(AttachPhase::Attaching, None, None, None, 10 * sec), AttachStep::Wait);
    assert_eq!(attach_step(AttachPhase::Attaching, None, None, None, 90 * sec), AttachStep::Wait);
    assert_eq!(attach_step(AttachPhase::Attaching, None, None, None, 90 * sec + 1), AttachStep::NoSession);
    assert_eq!(attach_step(AttachPhase::Attaching, None, Some("s0"), Some("working"), 100 * sec), AttachStep::Wait);
    assert_eq!(attach_step(AttachPhase::Attaching, None, Some("s0"), Some("working"), 121 * sec), AttachStep::NoPause);
    assert_eq!(attach_step(AttachPhase::Attaching, Some("s1"), Some("s0"), Some("attached"), 5 * sec), AttachStep::Load(s("s1")));
    assert_eq!(attach_step(AttachPhase::Attaching, None, Some("s0"), Some("paused"), 5 * sec), AttachStep::Load(s("s0")));
}
