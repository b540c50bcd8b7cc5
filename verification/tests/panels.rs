use rs_agent::focus::{cycle_focus, visible_city_zones, FocusZone};
use rs_agent::geometry::{centered_rect, toast_area, Rect};
use rs_agent::help::{build_entries, filtered, HelpOverlay};
use rs_agent::hit::{HitMap, HitTarget};
use rs_agent::keys::{default_keybindings, KeyMap};
use rs_agent::layout::{assemble_view, compute_view, view_constraints, LayoutConstraint, LayoutOpts};
use rs_agent::sessions_panel::{leaf_of, listing_root, path_leaf, short_id, SessionRow, SessionSummary, SessionsPanelState};
use rs_agent::settings::{SettingsState, SettingsTab};
use rs_agent::status::SessionUiState;
use rs_agent::theme::ThemeName;
use rs_agent::toast::{Toast, ToastKind};

fn summary(id: &str) -> SessionSummary {
    SessionSummary {
        id: id.to_string(),
        title: None,
        model: "m".to_string(),
        updated_at: "2024-01-01".to_string(),
        message_count: 3,
        parent_id: None,
        branch_label: None,
        project_root: None,
    }
}

#[test]
fn sessions_rows_and_active_selection() {
    let mut st = SessionsPanelState::default();
    st.refresh("s1", None, Some("/home/u/proj".to_string()), vec![summary("s0"), summary("s1")], None);
    assert_eq!(st.rows.len(), 9);
    match &st.rows[0] {
        SessionRow::Header { title } => assert_eq!(title, "sessions \u{b7} THIS PROJECT"),
        _ => panic!("header expected"),
    }
    match &st.rows[1] {
        SessionRow::Hint { text } => assert_eq!(text, "cwd proj"),
        _ => panic!("hint expected"),
    }
    match &st.rows[2] {
        SessionRow::Header { title } => assert_eq!(title, "chats (2)"),
        _ => panic!("header expected"),
    }
    assert_eq!(st.selection, 4);
    match st.selected_row() {
        Some(SessionRow::Session { summary }) => assert_eq!(summary.id, "s1"),
        _ => panic!("session expected"),
    }
    st.move_sel(1);
    assert_eq!(st.selection, 6);
    st.move_sel(-1);
    assert_eq!(st.selection, 4);
}

#[test]
fn sessions_active_loaded_and_background() {
    let mut st = SessionsPanelState::default();
    st.show_all = true;
    st.refresh("s9", Some("0123456789abc"), None, vec![summary("s0")], Some(summary("s9")));
    match &st.rows[1] {
        SessionRow::Hint { text } => assert_eq!(text, "cwd ."),
        _ => panic!("hint expected"),
    }
    match &st.rows[2] {
        SessionRow::Hint { text } => assert_eq!(text, "\u{25d0} bg 01234567"),
        _ => panic!("hint expected"),
    }
    match &st.rows[4] {
        SessionRow::Session { summary } => assert_eq!(summary.id, "s9"),
        _ => panic!("session expected"),
    }
    assert_eq!(st.selection, 4);
    match &st.rows[8] {
        SessionRow::Action { id, label } => {
            assert_eq!(*id, "toggle_scope");
            assert_eq!(label, "\u{2299} show this project only");
        },
        _ => panic!("action expected"),
    }
}

#[test]
fn sessions_empty_listing_and_clamp() {
    let mut st = SessionsPanelState::default();
    st.selection = 100;
    st.refresh("none", None, None, Vec::new(), None);
    assert_eq!(st.rows.len(), 7);
    match &st.rows[2] {
        SessionRow::Hint { text } => assert_eq!(text, "no sessions yet \u{2014} press n"),
        _ => panic!("hint expected"),
    }
    // Clamped onto the last row (a hint), then moved forward to the first
    // selectable row.
    assert_eq!(st.selection, 4);
    assert!(st.rows[st.selection].selectable());
}

#[test]
fn session_helpers() {
    assert_eq!(short_id("abcdefghij"), "abcdefgh");
    assert_eq!(short_id("abc"), "abc");
    assert_eq!(path_leaf("/home/u/proj"), "proj");
    assert_eq!(path_leaf("/"), "/");
    assert_eq!(leaf_of("/x", None), "/x");
    assert_eq!(leaf_of("/x/y", Some("y".to_string())), "y");
    assert_eq!(listing_root(true, &Some("/r".to_string())), None);
    assert_eq!(listing_root(false, &Some("/r".to_string())), Some("/r".to_string()));
}

#[test]
fn help_entries_sorted_and_filtered() {
    let keys = KeyMap::new(default_keybindings());
    let e = build_entries(&keys);
    assert_eq!(e.len(), 25);
    assert_eq!(e[0].keys, "f/a/o/s/b");
    assert_eq!(e[0].group, "city");
    assert_eq!(e[2].keys, "?");
    assert_eq!(e[e.len() - 1].group, "slash");
    let perm: Vec<_> = e.iter().filter(|x| x.group == "permission").collect();
    assert_eq!(perm[0].keys, "a/p/A/d");
    assert_eq!(filtered(&e, "").len(), 25);
    let t = filtered(&e, "  THEME ");
    assert_eq!(t.len(), 1);
    assert_eq!(t[0].keys, "/theme");
    assert_eq!(filtered(&e, "city").len(), 4);
    let o = HelpOverlay::default();
    assert_eq!(o.selection, 0);
}

#[test]
fn settings_tabs_cycle() {
    assert_eq!(SettingsTab::all(), vec![SettingsTab::Theme, SettingsTab::Keys, SettingsTab::Input, SettingsTab::Alerts]);
    assert_eq!(SettingsTab::Alerts.next(), SettingsTab::Theme);
    assert_eq!(SettingsTab::Theme.prev(), SettingsTab::Alerts);
    assert_eq!(SettingsTab::Input.label(), "Input");
    let s = SettingsState::from_app(ThemeName::Forest, true, false, true, "bell");
    assert_eq!(s.tab, SettingsTab::Theme);
    assert_eq!(s.notify, "bell");
}

#[test]
fn session_ui_states() {
    assert_eq!(SessionUiState::from_app(true, false, false, false, "", false), SessionUiState::Blocked);
    assert_eq!(SessionUiState::from_app(false, false, false, false, "using bash", false), SessionUiState::Working);
    assert_eq!(SessionUiState::from_app(false, false, false, false, "recover", false), SessionUiState::Blocked);
    assert_eq!(SessionUiState::from_app(false, false, false, false, "aborted", false), SessionUiState::Done);
    assert_eq!(SessionUiState::from_app(false, false, false, false, "ready", false), SessionUiState::Idle);
    assert_eq!(SessionUiState::Done.priority(), 1);
    assert_eq!(SessionUiState::Working.label(), "working");
}

#[test]
fn focus_cycles_visible_zones() {
    let zones = visible_city_zones(true);
    assert_eq!(zones.len(), 5);
    assert_eq!(cycle_focus(FocusZone::CitySpawn, &zones, 1), FocusZone::CityWish);
    assert_eq!(cycle_focus(FocusZone::Chat, &zones, 1), FocusZone::CityBoard);
    assert_eq!(cycle_focus(FocusZone::CityWish, &[], 1), FocusZone::CityWish);
    assert_eq!(FocusZone::CityInspector.label(), "inspect");
}

#[test]
fn toast_lifetimes() {
    let t = Toast::blocked("needs you", "permission");
    assert_eq!(t.kind, ToastKind::NeedsAttention);
    assert_eq!(t.ttl_secs, 8);
    assert!(!t.expired_after(7_999_999_999));
    assert!(t.expired_after(8_000_000_000));
    assert!(!t.expired());
    assert_eq!(t.icon(), "\u{25cf}");
    let f = Toast::finished("done", "");
    assert_eq!(f.ttl_secs, 5);
    assert_eq!(f.icon(), "\u{2713}");
}

#[test]
fn hit_map_last_wins() {
    let mut m = HitMap::default();
    m.push(Rect { x: 0, y: 0, width: 10, height: 10 }, HitTarget::Help);
    m.push(Rect { x: 5, y: 5, width: 2, height: 2 }, HitTarget::Toast);
    m.push(Rect { x: 0, y: 0, width: 0, height: 5 }, HitTarget::ModalDismiss);
    assert_eq!(m.hits.len(), 2);
    assert_eq!(m.hit_at(5, 5), Some(&HitTarget::Toast));
    assert_eq!(m.hit_at(7, 5), Some(&HitTarget::Help));
    assert_eq!(m.hit_at(10, 0), None);
    m.push_line(20, 3, 4, HitTarget::FleetRow { index: 2 });
    assert_eq!(m.hit_at(23, 3), Some(&HitTarget::FleetRow { index: 2 }));
    assert_eq!(m.hit_at(23, 4), None);
    m.clear();
    assert_eq!(m.hit_at(5, 5), None);
}

#[test]
fn modal_and_toast_geometry() {
    let r = centered_rect(Rect { x: 0, y: 0, width: 100, height: 40 }, 72, 20);
    assert_eq!(r, Rect { x: 14, y: 10, width: 72, height: 20 });
    let r = centered_rect(Rect { x: 2, y: 1, width: 20, height: 6 }, 72, 20);
    assert_eq!(r, Rect { x: 3, y: 2, width: 18, height: 4 });
    // clamped to a tiny area: never wider or taller than the area itself
    let r = centered_rect(Rect { x: 4, y: 3, width: 5, height: 2 }, 20, 20);
    assert_eq!(r, Rect { x: 4, y: 3, width: 5, height: 2 });
    let r = centered_rect(Rect { x: 0, y: 0, width: 11, height: 10 }, 20, 2);
    assert_eq!(r, Rect { x: 0, y: 4, width: 10, height: 2 });
    let t = toast_area(Rect { x: 0, y: 0, width: 100, height: 30 });
    assert_eq!(t, Rect { x: 57, y: 1, width: 42, height: 4 });
    let t = toast_area(Rect { x: 0, y: 0, width: 10, height: 30 });
    assert_eq!(t, Rect { x: 0, y: 1, width: 18, height: 4 });
}

#[test]
fn layout_constraints_and_assembly() {
    let opts = LayoutOpts { show_repl: true, show_side: true, side_pct: 60, repl_height: 2 };
    assert_eq!(
        view_constraints(opts),
        vec![
            LayoutConstraint::Length(1),
            LayoutConstraint::Min(3),
            LayoutConstraint::Length(4),
            LayoutConstraint::Length(3),
            LayoutConstraint::Length(1)
        ]
    );
    let area = Rect { x: 0, y: 0, width: 80, height: 24 };
    let rows: Vec<Rect> = (0..5u16).map(|i| Rect { x: 0, y: i, width: 80, height: 1 }).collect();
    let cols = vec![Rect { x: 0, y: 1, width: 40, height: 1 }, Rect { x: 40, y: 1, width: 40, height: 1 }];
    let v = assemble_view(area, opts, &rows, &cols);
    assert_eq!(v.header, rows[0]);
    assert_eq!(v.chat, cols[0]);
    assert_eq!(v.side, Some(cols[1]));
    assert_eq!(v.repl, Some(rows[2]));
    assert_eq!(v.input, rows[3]);
    assert_eq!(v.footer, rows[4]);
    assert_eq!(v.full, area);
}

#[test]
fn layout_solver_plain_shell() {
    let area = Rect { x: 0, y: 0, width: 80, height: 24 };
    let opts = LayoutOpts { show_repl: false, show_side: false, side_pct: 30, repl_height: 8 };
    let v = compute_view(area, opts);
    assert_eq!(v.header, Rect { x: 0, y: 0, width: 80, height: 1 });
    assert_eq!(v.chat, Rect { x: 0, y: 1, width: 80, height: 19 });
    assert_eq!(v.input, Rect { x: 0, y: 20, width: 80, height: 3 });
    assert_eq!(v.footer, Rect { x: 0, y: 23, width: 80, height: 1 });
    assert_eq!(v.side, None);
    assert_eq!(v.repl, None);
}

#[test]
fn sessions_listing_newest_first() {
    let mut a = summary("20240101_a");
    a.title = Some("first".to_string());
    let mut c = summary("20240301_c");
    c.parent_id = Some("20240101_a".to_string());
    c.branch_label = Some("alt".to_string());
    let b = summary("20240201_b");
    let text = rs_agent::sessions_list::sessions_listing(&vec![a, c, b]);
    assert_eq!(
        text,
        "Sessions (newest first):\n  20240301  3 msgs  m  \u{2014} (untitled) \u{21a9}20240101 [alt]\n  20240201  3 msgs  m  \u{2014} (untitled)\n  20240101  3 msgs  m  \u{2014} first\nResume: rs-agent -r <id> \u{b7} rs-agent -r latest \u{b7} Fork: /fork [label]"
    );
    assert_eq!(rs_agent::sessions_list::sessions_listing(&Vec::new()), "No saved sessions.");
    let many: Vec<SessionSummary> = (0..25).map(|i| summary(&format!("s{:02}", i))).collect();
    let t = rs_agent::sessions_list::sessions_listing(&many);
    assert_eq!(t.lines().count(), 22);
    assert!(t.starts_with("Sessions (newest first):\n  s24  "));
}

#[test]
fn sessions_refresh_with_a_given_label() {
    let mut st = SessionsPanelState::default();
    st.refresh_labelled("s0", None, Some("C:\\work\\proj".to_string()), "proj", vec![summary("s0")], None);
    match &st.rows[1] {
        SessionRow::Hint { text } => assert_eq!(text, "cwd proj"),
        _ => panic!("hint expected"),
    }
    match st.selected_row() {
        Some(SessionRow::Session { summary }) => assert_eq!(summary.id, "s0"),
        _ => panic!("session expected"),
    }
}

#[test]
fn theme_setting_that_would_not_end_is_refused() {
    assert_eq!(ThemeName::parse_checked("auto", None, Some("auto")), None);
    assert_eq!(ThemeName::parse_checked(" AUTO ", Some("15;junk"), Some(" Auto")), None);
    assert_eq!(ThemeName::parse_checked("auto", Some("0;15"), Some("auto")), Some(ThemeName::Light));
    assert_eq!(ThemeName::parse_checked("auto", None, Some("forest")), Some(ThemeName::Forest));
    assert_eq!(ThemeName::parse_checked("auto", None, None), Some(ThemeName::Dark));
    assert_eq!(ThemeName::parse_checked(" LIGHT ", None, Some("auto")), Some(ThemeName::Light));
    assert_eq!(ThemeName::parse_checked("mauve", None, Some("auto")), Some(ThemeName::Dark));
}

#[test]
fn layout_areas_stay_inside_the_screen() {
    for (w, h) in [(80u16, 24u16), (20, 6), (3, 2), (200, 60)] {
        let area = Rect { x: 2, y: 1, width: w, height: h };
        for (repl, side) in [(false, false), (true, false), (false, true), (true, true)] {
            let opts = LayoutOpts { show_repl: repl, show_side: side, side_pct: 30, repl_height: 8 };
            let v = compute_view(area, opts);
            let mut parts = vec![v.header, v.chat, v.input, v.footer];
            parts.extend(v.side);
            parts.extend(v.repl);
            for p in parts {
                assert!(p.x >= area.x && p.x + p.width <= area.x + area.width, "{:?} in {:?}", p, area);
                assert!(p.y >= area.y && p.y + p.height <= area.y + area.height, "{:?} in {:?}", p, area);
            }
        }
    }
}
