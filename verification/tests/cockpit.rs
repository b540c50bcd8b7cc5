use rs_agent::beads::{Bead, BeadKind, BeadStatus, Lifecycle, LogKind, ParsedLogLine, SeatCaste, SeatStatus};
use rs_agent::city_ops::{
    cycle_city_focus, ensure_city_focus, fleet_up_opts, parse_count, seats_for_spawn, should_divert_logs,
};
use rs_agent::fleet_panel::{
    _bead_status_short, caste_badge, format_parsed_log, is_wish_bead, BoardRow, CityPanelState, CityRow, FlowStage,
    SeatAttention,
};
use rs_agent::focus::FocusZone;

fn seat(name: &str, state: &str) -> SeatStatus {
    SeatStatus {
        seat: name.to_string(),
        state: state.to_string(),
        lifecycle: None,
        awaiting_human: None,
        running: true,
        last_bead: None,
        last_title: None,
        last_line: None,
    }
}

fn bead(id: &str, title: &str, notes: &str) -> Bead {
    Bead {
        id: id.to_string(),
        title: title.to_string(),
        notes: notes.to_string(),
        kind: BeadKind::Implement,
        priority: 50,
        claimant: None,
    }
}

#[test]
fn attention_from_state_text_and_flags() {
    assert_eq!(SeatAttention::from_status(&seat("a", "ERROR: boom")), SeatAttention::Blocked);
    assert_eq!(SeatAttention::from_status(&seat("a", "done")), SeatAttention::Done);
    assert_eq!(SeatAttention::from_status(&seat("a", "running tool")), SeatAttention::Working);
    assert_eq!(SeatAttention::from_status(&seat("a", "idle")), SeatAttention::Idle);
    assert_eq!(SeatAttention::from_status(&seat("a", "")), SeatAttention::Unknown);
    let mut s = seat("a", "idle");
    s.awaiting_human = Some(true);
    assert_eq!(SeatAttention::from_status(&s), SeatAttention::Blocked);
    let mut s = seat("a", "");
    s.last_bead = Some("b-1".to_string());
    assert_eq!(SeatAttention::from_status(&s), SeatAttention::Working);
    let mut s = seat("a", "");
    s.lifecycle = Some(Lifecycle::Done);
    assert_eq!(SeatAttention::from_status(&s), SeatAttention::Done);
}

#[test]
fn attention_priority_and_icons() {
    assert_eq!(SeatAttention::Blocked.priority(), 0);
    assert_eq!(SeatAttention::Unknown.priority(), 4);
    assert_eq!(SeatAttention::Done.icon(), "\u{2713}");
    assert_eq!(FlowStage::Ready.tag(), "ready");
    assert_eq!(caste_badge(SeatCaste::Fleet), "F");
    assert_eq!(caste_badge(SeatCaste::Any), "\u{b7}");
    assert_eq!(_bead_status_short(BeadStatus::Closed), "done");
}

#[test]
fn wish_beads_by_label_or_title() {
    assert!(is_wish_bead(&bead("b1", "whatever", "label:wish\nauto:ready")));
    assert!(is_wish_bead(&bead("b2", "Wish: dark mode", "")));
    assert!(is_wish_bead(&bead("b3", "WISH more tests", "")));
    assert!(!is_wish_bead(&bead("b4", "wishlist", "")));
}

#[test]
fn parsed_log_formatting() {
    let l = ParsedLogLine { kind: LogKind::ToolResult, timestamp: Some("12:00".to_string()), body: "ok".to_string() };
    assert_eq!(format_parsed_log(&l), "12:00 [result] ok");
    let l = ParsedLogLine { kind: LogKind::Heartbeat, timestamp: None, body: "beat".to_string() };
    assert_eq!(format_parsed_log(&l), "[hb] beat");
    let l = ParsedLogLine { kind: LogKind::Say, timestamp: Some(String::new()), body: "hi".to_string() };
    assert_eq!(format_parsed_log(&l), "[say] hi");
}

#[test]
fn board_row_keys() {
    let r = BoardRow::Worker { seat: seat("Fleet-1", "idle") };
    assert_eq!(r.key(), "w:Fleet-1");
    let state = CityPanelState::default();
    assert_eq!(state.spawn_fleet_n, "2");
    assert_eq!(state.spawn_crew_n, "0");
    assert!(state.spawn_focus_fleet);
    assert!(!state.has_selection());
}

#[test]
fn refresh_sorts_seats_and_builds_flow() {
    let mut st = CityPanelState::default();
    let mut working = seat("Fleet-2", "working");
    working.last_bead = Some("b-ready".to_string());
    let seats = vec![seat("Crew-1", "idle"), working, seat("Fleet-1", "error")];
    let open = vec![bead("b-wish", "Wish: faster", ""), bead("b-plain", "plain", "")];
    let ready = vec![bead("b-ready", "ready one", ""), bead("b-wish", "Wish: faster", "")];
    st.refresh(&seats, &open, &ready, None);
    let names: Vec<&str> = st.seats.iter().map(|s| s.seat.as_str()).collect();
    assert_eq!(names, vec!["Fleet-1", "Fleet-2", "Crew-1"]);
    let flow: Vec<(&str, FlowStage)> = st.flow.iter().map(|f| (f.id.as_str(), f.stage)).collect();
    assert_eq!(flow, vec![("b-wish", FlowStage::Wish), ("b-ready", FlowStage::Doing)]);
    assert_eq!(st.board_rows.len(), 5);
    assert_eq!(st.selection, 0);
    assert_eq!(st.blocked_count(), 1);
    assert_eq!(st.first_blocked_seat(), Some("Fleet-1"));
}

#[test]
fn refresh_caps_flow_and_keeps_selection_key() {
    let mut st = CityPanelState::default();
    let ready: Vec<Bead> = (0..20).map(|i| bead(&format!("b{i}"), "t", "")).collect();
    st.refresh(&vec![seat("A", "idle")], &Vec::new(), &ready, None);
    assert_eq!(st.flow.len(), 14);
    st.selection = 3;
    let key = st.board_rows[3].key();
    st.refresh(&vec![seat("Z", "idle"), seat("A", "idle")], &Vec::new(), &ready, None);
    assert_eq!(st.board_rows[st.selection].key(), key);
    assert_eq!(st.selection, 4);
}

#[test]
fn refresh_clamps_selection_when_rows_shrink() {
    let mut st = CityPanelState::default();
    st.refresh(&vec![seat("A", "idle"), seat("B", "idle")], &Vec::new(), &Vec::new(), None);
    st.selection = 1;
    st.refresh(&vec![seat("C", "idle")], &Vec::new(), &Vec::new(), None);
    assert_eq!(st.selection, 0);
    st.refresh(&Vec::new(), &Vec::new(), &Vec::new(), None);
    assert_eq!(st.selection, 0);
}

#[test]
fn selecting_a_worker_and_a_flow_item() {
    let mut st = CityPanelState::default();
    let mut w = seat("Fleet-1", "working");
    w.last_bead = Some("b1".to_string());
    st.refresh(&vec![w, seat("Crew-1", "idle")], &Vec::new(), &vec![bead("b2", "second", "")], None);
    let ids: Vec<&str> = st.flow.iter().map(|f| f.id.as_str()).collect();
    assert_eq!(ids, vec!["b2", "b1"]);
    assert_eq!(st.flow[1].title, "b1");
    st.log_lines.push("old".to_string());
    st.move_sel(1);
    assert_eq!(st.selected_seat.as_deref(), Some("Crew-1"));
    assert!(st.log_lines.is_empty());
    st.move_sel(1);
    assert_eq!(st.selected_flow_id.as_deref(), Some("b2"));
    assert_eq!(st.selected_seat.as_deref(), Some("Crew-1"));
    assert_eq!(st.status_line, "ready \u{b7} second");
    st.log_lines.push("kept?".to_string());
    st.move_sel(1);
    assert_eq!(st.selected_flow_id.as_deref(), Some("b1"));
    assert_eq!(st.selected_seat.as_deref(), Some("Fleet-1"));
    assert!(st.log_lines.is_empty());
    assert_eq!(st.status_line, "doing \u{b7} b1");
    st.move_sel(-3);
    assert_eq!(st.selection, 0);
    st.select_seat("Crew-1", None);
    assert_eq!(st.selected_seat.as_deref(), Some("Crew-1"));
    assert_eq!(st.selection, 1);
    st.select_seat("Ghost", None);
    assert_eq!(st.selected_seat.as_deref(), Some("Ghost"));
    assert!(st.detail_seat.is_none());
}

#[test]
fn log_is_capped_and_scrolls_within_bounds() {
    let mut st = CityPanelState::default();
    for i in 0..405 {
        st.push_log_line(&ParsedLogLine { kind: LogKind::Raw, timestamp: None, body: format!("{i}") });
    }
    assert_eq!(st.log_lines.len(), 400);
    assert_eq!(st.log_lines[0], "[log] 5");
    assert_eq!(st.log_lines[399], "[log] 404");
    st.log_scroll_by(-1000);
    assert_eq!(st.log_scroll, 399);
    st.log_scroll_by(10);
    assert_eq!(st.log_scroll, 389);
    st.log_scroll_by(1000);
    assert_eq!(st.log_scroll, 0);
    st.set_log_from_parsed(&[ParsedLogLine { kind: LogKind::Error, timestamp: None, body: "x".to_string() }]);
    assert_eq!(st.log_lines, vec!["[err] x".to_string()]);
}

#[test]
fn list_rows_selectable() {
    assert!(CityRow::Action { id: "x", label: "y".to_string() }.selectable());
    assert!(!CityRow::Hint { text: "h".to_string() }.selectable());
}

#[test]
fn spawn_seats_and_counts() {
    assert_eq!(seats_for_spawn(2, 1), vec!["Fleet-1", "Fleet-2", "Crew-1"]);
    assert_eq!(seats_for_spawn(20, 0).len(), 16);
    assert_eq!(seats_for_spawn(0, 9).len(), 8);
    assert_eq!(seats_for_spawn(0, 9)[7], "Crew-8");
    assert_eq!(parse_count("3", 2), 3);
    assert_eq!(parse_count("+4", 2), 4);
    assert_eq!(parse_count(" 3", 2), 2);
    assert_eq!(parse_count("x", 2), 2);
    let o = fleet_up_opts(vec!["Fleet-1".to_string()], None, Some("m".to_string()));
    assert_eq!(o.budget_minutes, 480);
    assert_eq!(o.sleep_secs, 5);
    assert!(o.approve && !o.quiet && !o.fail_fast);
}

#[test]
fn city_focus_helpers() {
    let st = CityPanelState::default();
    assert_eq!(cycle_city_focus(&st, FocusZone::CityWish, 1), FocusZone::CityBoard);
    assert_eq!(cycle_city_focus(&st, FocusZone::CityWish, -1), FocusZone::CitySpawn);
    assert_eq!(ensure_city_focus(FocusZone::Chat), FocusZone::CityWish);
    assert_eq!(ensure_city_focus(FocusZone::CitySteer), FocusZone::CitySteer);
    assert!(should_divert_logs(true, Some("a"), Some("a")));
    assert!(!should_divert_logs(true, Some("a"), Some("b")));
    assert!(!should_divert_logs(false, Some("a"), Some("a")));
    assert!(!should_divert_logs(true, None, None));
}

#[test]
fn flow_at_stage_lists_ids_and_titles_in_order() {
    let mut st = CityPanelState::default();
    let open = vec![bead("b-wish", "Wish: faster", ""), bead("b-w2", "Wish: calmer", "")];
    let ready = vec![bead("b-ready", "ready one", "")];
    st.refresh(&vec![seat("Crew-1", "idle")], &open, &ready, None);
    let wishes = st.flow_at_stage(FlowStage::Wish);
    assert_eq!(wishes, vec![("b-wish".to_string(), "Wish: faster".to_string()), ("b-w2".to_string(), "Wish: calmer".to_string())]);
    assert_eq!(st.flow_at_stage(FlowStage::Ready), vec![("b-ready".to_string(), "ready one".to_string())]);
    assert!(st.flow_at_stage(FlowStage::Done).is_empty());
}

#[test]
fn first_blocked_seat_exactly_when_some_are_blocked() {
    let mut st = CityPanelState::default();
    st.refresh(&vec![seat("Crew-1", "idle"), seat("Fleet-2", "working")], &vec![], &vec![], None);
    assert_eq!(st.blocked_count(), 0);
    assert_eq!(st.first_blocked_seat(), None);
    st.refresh(&vec![seat("Crew-1", "idle"), seat("Fleet-3", "error"), seat("Fleet-4", "error")], &vec![], &vec![], None);
    assert_eq!(st.blocked_count(), 2);
    assert_eq!(st.first_blocked_seat(), Some("Fleet-3"));
}
