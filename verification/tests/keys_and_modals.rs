use rs_agent::chat_view::InputMode;
use rs_agent::header::{
    approval_label, attach_label, footer_hints, footer_spans, spinner_frame, AttachPhase, FooterContext, FooterTone,
};
use rs_agent::input_view::{cursor_column, input_display, input_label, placeholder_text};
use rs_agent::help::{build_entries, filtered, HelpOverlay};
use rs_agent::helpers::{ChatMessage, ToolBlock};
use rs_agent::keys::{default_keybindings, KeyInput, KeyInputCode, KeyMap};
use rs_agent::modal_text::{help_lines, help_modal_height, settings_lines, ModalTone};
use rs_agent::normal_keys::{
    insert_action, normal_action, picker_key, remember_input, toggle_last_thinking, toggle_last_tool, toggle_tree,
    InsertAction, NormalAction, NormalContext, PickerMode, PickerOutcome, PickerState, SidePanels,
};
use rs_agent::overlay_keys::{
    help_key, palette_key, permission_choice, question_answer, settings_key, waiting_key, PaletteOutcome, PermChoice,
    SettingsOutcome, WaitAction,
};
use rs_agent::settings::{SettingsState, SettingsTab};
use rs_agent::theme::ThemeName;
use rs_agent::tree_view::SidePanelMode;

fn k(code: KeyInputCode) -> KeyInput {
    KeyInput { code, ctrl: false, alt: false }
}

fn ch(c: char) -> KeyInput {
    k(KeyInputCode::Char(c))
}

fn ctrl(c: char) -> KeyInput {
    KeyInput { code: KeyInputCode::Char(c), ctrl: true, alt: false }
}

#[test]
fn help_overlay_keys() {
    let mut o = HelpOverlay::default();
    assert!(!help_key(&mut o, ch('t')));
    assert!(!help_key(&mut o, ch('h')));
    assert_eq!(o.query, "th");
    help_key(&mut o, k(KeyInputCode::Down));
    help_key(&mut o, k(KeyInputCode::Down));
    assert_eq!(o.selection, 2);
    help_key(&mut o, k(KeyInputCode::Backspace));
    assert_eq!((o.query.as_str(), o.selection), ("t", 0));
    help_key(&mut o, k(KeyInputCode::Up));
    assert_eq!(o.selection, 0);
    help_key(&mut o, ctrl('u'));
    assert_eq!(o.query, "");
    help_key(&mut o, ctrl('x'));
    assert_eq!(o.query, "");
    assert!(help_key(&mut o, k(KeyInputCode::Esc)));
}

fn settings() -> SettingsState {
    SettingsState::from_app(ThemeName::Dark, true, true, false, "off")
}

#[test]
fn settings_modal_keys() {
    let mut s = settings();
    assert_eq!(settings_key(&mut s, ch('2')), SettingsOutcome::Stay);
    assert_eq!(s.theme, ThemeName::Light);
    settings_key(&mut s, k(KeyInputCode::Left));
    assert_eq!(s.tab, SettingsTab::Alerts);
    settings_key(&mut s, ch('n'));
    assert_eq!(s.notify, "terminal");
    settings_key(&mut s, ch('n'));
    assert_eq!(s.notify, "system");
    settings_key(&mut s, ch('n'));
    assert_eq!(s.notify, "off");
    settings_key(&mut s, ch('s'));
    assert!(s.toast_sound);
    settings_key(&mut s, ch('m'));
    assert!(s.mouse_enabled);
    settings_key(&mut s, k(KeyInputCode::Tab));
    assert_eq!(s.tab, SettingsTab::Theme);
    assert_eq!(settings_key(&mut s, k(KeyInputCode::Enter)), SettingsOutcome::Apply);
    assert_eq!(settings_key(&mut s, k(KeyInputCode::Esc)), SettingsOutcome::Close);
}

#[test]
fn palette_keys() {
    let items = vec!["/help".to_string(), "/keys".to_string()];
    let mut q = String::new();
    let mut sel = 0usize;
    assert_eq!(palette_key(&mut q, &mut sel, &items, k(KeyInputCode::Down)), PaletteOutcome::Stay);
    assert_eq!(palette_key(&mut q, &mut sel, &items, k(KeyInputCode::Down)), PaletteOutcome::Stay);
    assert_eq!(sel, 1);
    assert_eq!(palette_key(&mut q, &mut sel, &items, k(KeyInputCode::Enter)), PaletteOutcome::Run("/keys".to_string()));
    assert_eq!(palette_key(&mut q, &mut sel, &items, ch('h')), PaletteOutcome::Refilter);
    assert_eq!(q, "h");
    assert_eq!(palette_key(&mut q, &mut sel, &items, k(KeyInputCode::Backspace)), PaletteOutcome::Refilter);
    assert_eq!(q, "");
    assert_eq!(palette_key(&mut q, &mut sel, &Vec::new(), k(KeyInputCode::Enter)), PaletteOutcome::Stay);
    assert_eq!(palette_key(&mut q, &mut sel, &items, k(KeyInputCode::Esc)), PaletteOutcome::Dismiss);
}

#[test]
fn permission_question_and_waiting_keys() {
    let keys = KeyMap::new(default_keybindings());
    assert_eq!(permission_choice(&keys, k(KeyInputCode::Enter)), PermChoice::Once);
    assert_eq!(permission_choice(&keys, ch('a')), PermChoice::Once);
    assert_eq!(permission_choice(&keys, ch('p')), PermChoice::Path);
    // Bindings match in either case, so `A` reaches the once binding first.
    assert_eq!(permission_choice(&keys, ch('A')), PermChoice::Once);
    let mut custom = default_keybindings();
    custom.insert("perm_always".to_string(), "w".to_string());
    assert_eq!(permission_choice(&KeyMap::new(custom), ch('w')), PermChoice::Always);
    assert_eq!(permission_choice(&keys, ch('d')), PermChoice::Deny);
    assert_eq!(permission_choice(&keys, k(KeyInputCode::Esc)), PermChoice::Deny);
    assert_eq!(permission_choice(&keys, ch('z')), PermChoice::Keep);
    let options = vec!["red".to_string(), "blue".to_string()];
    assert_eq!(question_answer(" 2 ", &options), Some("blue".to_string()));
    assert_eq!(question_answer("3", &options), Some("3".to_string()));
    assert_eq!(question_answer("green ", &options), Some("green".to_string()));
    assert_eq!(question_answer("   ", &options), None);
    assert_eq!(waiting_key(k(KeyInputCode::Esc), false, ""), WaitAction::Abort);
    assert_eq!(waiting_key(ch('k'), true, ""), WaitAction::PrevTab);
    assert_eq!(waiting_key(ch('k'), false, ""), WaitAction::Type('k'));
    assert_eq!(waiting_key(k(KeyInputCode::Up), false, ""), WaitAction::Nothing);
    assert_eq!(waiting_key(k(KeyInputCode::Enter), false, "  "), WaitAction::Nothing);
    assert_eq!(waiting_key(k(KeyInputCode::Enter), false, "go"), WaitAction::Steer);
}

#[test]
fn normal_mode_keys() {
    let keys = KeyMap::new(default_keybindings());
    let plain = NormalContext { has_tool_tabs: false, fleet_panel: false, timeline_panel: false };
    assert_eq!(normal_action(&keys, ch('i'), plain), NormalAction::EnterInsert);
    assert_eq!(normal_action(&keys, ch('q'), plain), NormalAction::Quit);
    assert_eq!(normal_action(&keys, ch('t'), plain), NormalAction::ToggleThinking);
    assert_eq!(normal_action(&keys, ch('G'), plain), NormalAction::JumpBottom);
    assert_eq!(normal_action(&keys, k(KeyInputCode::Tab), plain), NormalAction::Nothing);
    let tabs = NormalContext { has_tool_tabs: true, ..plain };
    assert_eq!(normal_action(&keys, k(KeyInputCode::Tab), tabs), NormalAction::NextTab);
    let fleet = NormalContext { fleet_panel: true, ..plain };
    assert_eq!(normal_action(&keys, k(KeyInputCode::Up), fleet), NormalAction::FleetUp);
    assert_eq!(normal_action(&keys, k(KeyInputCode::Up), plain), NormalAction::ScrollUp);
    let tl = NormalContext { timeline_panel: true, ..plain };
    assert_eq!(normal_action(&keys, ch('j'), tl), NormalAction::TimelineDown);
    assert_eq!(normal_action(&keys, ch('@'), plain), NormalAction::FilePicker);
    assert_eq!(normal_action(&keys, k(KeyInputCode::PageDown), plain), NormalAction::PageDown);
}

fn msg(role: &str, thinking: Option<&str>, blocks: usize) -> ChatMessage {
    ChatMessage {
        role: role.to_string(),
        text: String::new(),
        thinking: thinking.map(|t| t.to_string()),
        show_thinking: false,
        tool_blocks: (0..blocks)
            .map(|i| ToolBlock {
                name: format!("t{i}"),
                preview: String::new(),
                full: String::new(),
                expanded: false,
                is_error: false,
            })
            .collect(),
    }
}

#[test]
fn transcript_toggles() {
    let mut m = vec![msg("assistant", Some("a"), 1), msg("assistant", Some(""), 2), msg("user", None, 0)];
    toggle_last_thinking(&mut m);
    assert!(m[0].show_thinking);
    assert!(!m[1].show_thinking);
    toggle_last_thinking(&mut m);
    assert!(!m[0].show_thinking);
    toggle_last_tool(&mut m);
    assert!(m[1].tool_blocks[1].expanded);
    assert!(!m[1].tool_blocks[0].expanded);
    assert!(!m[0].tool_blocks[0].expanded);
    let p = SidePanels { tree: false, timeline: true, fleet: true, mode: SidePanelMode::Timeline };
    let q = toggle_tree(p);
    assert_eq!(q, SidePanels { tree: true, timeline: false, fleet: false, mode: SidePanelMode::Tree });
    assert_eq!(toggle_tree(q).mode, SidePanelMode::Timeline);
}

#[test]
fn picker_and_insert_keys() {
    let mut p = PickerState {
        query: "ma".to_string(),
        selection: 0,
        results: vec!["src/main.rs".to_string(), "src/map.rs".to_string()],
        prefix: "look at ".to_string(),
        mode: PickerMode::File,
    };
    assert_eq!(picker_key(&mut p, k(KeyInputCode::Down)), PickerOutcome::Stay);
    assert_eq!(picker_key(&mut p, k(KeyInputCode::Down)), PickerOutcome::Stay);
    assert_eq!(p.selection, 1);
    assert_eq!(picker_key(&mut p, k(KeyInputCode::Enter)), PickerOutcome::Close { input: "look at src/map.rs ".to_string() });
    p.mode = PickerMode::Dir;
    assert_eq!(picker_key(&mut p, k(KeyInputCode::Tab)), PickerOutcome::Close { input: "look at #src/map.rs ".to_string() });
    p.mode = PickerMode::Model;
    assert_eq!(picker_key(&mut p, k(KeyInputCode::Enter)), PickerOutcome::Choose { row: "src/map.rs".to_string() });
    assert_eq!(picker_key(&mut p, k(KeyInputCode::Backspace)), PickerOutcome::Refilter);
    assert_eq!(picker_key(&mut p, k(KeyInputCode::Backspace)), PickerOutcome::Refilter);
    assert_eq!(picker_key(&mut p, k(KeyInputCode::Backspace)), PickerOutcome::Close { input: "look at ".to_string() });
    assert_eq!(insert_action(k(KeyInputCode::Enter), " x "), InsertAction::Submit);
    assert_eq!(insert_action(k(KeyInputCode::Enter), "  "), InsertAction::Nothing);
    assert_eq!(insert_action(ch('#'), ""), InsertAction::DirPicker);
    assert_eq!(insert_action(k(KeyInputCode::Esc), ""), InsertAction::Leave);
    let mut h = vec!["a".to_string()];
    remember_input(&mut h, "a");
    remember_input(&mut h, "b");
    assert_eq!(h, vec!["a".to_string(), "b".to_string()]);
}

#[test]
fn modal_texts() {
    let keys = KeyMap::new(default_keybindings());
    let e = build_entries(&keys);
    let m = filtered(&e, "theme");
    let lines = help_lines("theme", &m, 5);
    assert_eq!(lines[0][1].0, " theme ");
    assert_eq!(lines[1][0].0, "\u{2500}".repeat(40));
    assert_eq!(lines[2], vec![(" /theme        switch theme dark|light|forest (slash)".to_string(), ModalTone::Highlight)]);
    assert_eq!(lines.len(), 4);
    let none = help_lines("", &Vec::new(), 0);
    assert_eq!(none[0][1].0, " type to filter\u{2026} ");
    assert_eq!(none[2][0].0, " (no matches)");
    assert_eq!(help_modal_height(1), 8);
    assert_eq!(help_modal_height(10), 14);
    assert_eq!(help_modal_height(25), 20);
    let mut s = SettingsState::from_app(ThemeName::Light, false, true, false, "system");
    let l = settings_lines(&s);
    assert_eq!(l[0][0], (" Theme ".to_string(), ModalTone::Badge));
    assert_eq!(l[0][2], (" Keys ".to_string(), ModalTone::Faint));
    assert_eq!(l[3], vec![(" \u{25cf} light".to_string(), ModalTone::Accent)]);
    s.tab = SettingsTab::Alerts;
    let l = settings_lines(&s);
    assert_eq!(l[2][0].0, " \u{25cf} toast   \u{25cb} sound   notify=system");
    assert_eq!(
        footer_spans("hints", "ready", ""),
        vec![("hints".to_string(), FooterTone::Hints)]
    );
    assert_eq!(footer_spans("h", "busy", "|").len(), 4);
}

#[test]
fn argument_completion() {
    let names = vec!["alpha".to_string(), "beta".to_string(), "alphabet".to_string()];
    assert_eq!(rs_agent::completion::complete_argument("/x ta", "/x ", &names, 10), rs_agent::completion::Completion::Complete("/x beta ".to_string()));
    assert_eq!(rs_agent::completion::complete_argument("/y be", "/x ", &names, 10), rs_agent::completion::Completion::NotApplicable);
    assert_eq!(rs_agent::completion::complete_argument("/x a b", "/x ", &names, 10), rs_agent::completion::Completion::NotApplicable);
    assert_eq!(rs_agent::completion::complete_argument("/x zz", "/x ", &names, 10), rs_agent::completion::Completion::NoMatch);
    assert_eq!(
        rs_agent::completion::complete_argument("/x ", "/x ", &names, 10),
        rs_agent::completion::Completion::Pick { prefix: "/x ".to_string(), query: String::new(), results: names.clone() }
    );
    assert_eq!(
        rs_agent::completion::complete_argument("/x ALPH", "/x ", &names, 10),
        rs_agent::completion::Completion::Pick {
            prefix: "/x ".to_string(),
            query: "ALPH".to_string(),
            results: vec!["alpha".to_string(), "alphabet".to_string()]
        }
    );
    assert_eq!(rs_agent::completion::complete_fixed("/theme fo"), rs_agent::completion::Completion::Complete("/theme forest ".to_string()));
    assert_eq!(rs_agent::completion::complete_fixed("/mode a"), rs_agent::completion::Completion::Pick {
        prefix: "/mode ".to_string(),
        query: "a".to_string(),
        results: vec!["ask".to_string(), "agent".to_string(), "plan".to_string()],
    });
    assert_eq!(rs_agent::completion::complete_fixed("/help"), rs_agent::completion::Completion::NotApplicable);
}

#[test]
fn directory_summaries() {
    let names = vec!["b.rs".to_string(), "a/".to_string(), "C.md".to_string()];
    assert_eq!(rs_agent::dir_summary::dir_summary("src", names), "<dir path=\"src\">\nC.md\na/\nb.rs\n</dir>");
    let many: Vec<String> = (0..45).map(|i| format!("f{:02}", i)).collect();
    let s = rs_agent::dir_summary::dir_summary("d", many);
    assert!(s.ends_with("f39\n...\n</dir>"));
    assert_eq!(s.lines().count(), 43);
}

#[test]
fn worker_steps_and_slash_arguments() {
    let b = rs_agent::beads::Bead {
        id: "b1".to_string(),
        title: "x".repeat(45),
        notes: String::new(),
        kind: rs_agent::beads::BeadKind::Task,
        priority: 50,
        claimant: None,
    };
    assert_eq!(rs_agent::worker::worker_session_title(&b), format!("b1: {}\u{2026}", "x".repeat(40)));
    assert!(rs_agent::worker::continue_prompt(&b).starts_with("Continue working on bead b1 (xxx"));
    assert_eq!(rs_agent::worker::failure_action("stream error: eof", true, false), rs_agent::worker::FailureAction::Release);
    assert_eq!(rs_agent::worker::failure_action("boom", true, false), rs_agent::worker::FailureAction::Stop);
    assert_eq!(rs_agent::worker::failure_action("boom", false, true), rs_agent::worker::FailureAction::Release);
    assert_eq!(
        rs_agent::worker::failure_action("boom", false, false),
        rs_agent::worker::FailureAction::Block("worker error: boom".to_string())
    );
    let mut c = rs_agent::worker::WorkerControl::new();
    assert_eq!(rs_agent::worker::worker_step(false, &c, true), rs_agent::worker::WorkerStep::Continue);
    assert_eq!(rs_agent::worker::worker_step(false, &c, false), rs_agent::worker::WorkerStep::Claim);
    c.apply_commands(&[rs_agent::worker::ControlCommand { op: rs_agent::worker::ControlOp::Pause, text: None }]);
    assert_eq!(rs_agent::worker::worker_step(false, &c, true), rs_agent::worker::WorkerStep::Pause);
    assert_eq!(rs_agent::worker::worker_step(true, &c, true), rs_agent::worker::WorkerStep::Handoff);
    assert_eq!(rs_agent::worker::pause_step(false, &c, true), rs_agent::worker::PauseStep::Expired);
    c.apply_commands(&[rs_agent::worker::ControlCommand { op: rs_agent::worker::ControlOp::Resume, text: None }]);
    assert_eq!(rs_agent::worker::pause_step(false, &c, true), rs_agent::worker::PauseStep::Resumed);
    assert_eq!(rs_agent::slash::export_format(""), Ok("md"));
    assert_eq!(rs_agent::slash::export_format(" HTM "), Ok("html"));
    assert_eq!(
        rs_agent::slash::export_format("PDF"),
        Err("Unknown export format `pdf`. Use /export [md|json|html]".to_string())
    );
    assert_eq!(rs_agent::slash::context_arg("ON", false), Some(true));
    assert_eq!(rs_agent::slash::context_arg("toggle", true), Some(false));
    assert_eq!(rs_agent::slash::context_arg("", true), None);
}

#[test]
fn input_box_and_header_notes() {
    use_input_box();
}

fn picker(mode: PickerMode) -> PickerState {
    PickerState { query: "ma".to_string(), selection: 0, results: Vec::new(), prefix: "see ".to_string(), mode }
}

fn use_input_box() {
    assert_eq!(input_label(InputMode::ApiKey), "api key");
    assert_eq!(input_display(InputMode::ApiKey, "sk-12", None), "\u{2022}".repeat(5));
    assert_eq!(input_display(InputMode::Insert, "hi", None), "hi");
    let f = picker(PickerMode::File);
    assert_eq!(input_display(InputMode::Insert, "see ", Some(&f)), "see @ma");
    let d = picker(PickerMode::Dir);
    assert_eq!(input_display(InputMode::Insert, "see ", Some(&d)), "see #ma");
    let m = picker(PickerMode::Model);
    assert_eq!(input_display(InputMode::Insert, "see ", Some(&m)), "see ma");
    assert_eq!(cursor_column(InputMode::Normal, "abc", None, 80), None);
    assert_eq!(cursor_column(InputMode::Insert, "abc", None, 80), Some(4));
    assert_eq!(cursor_column(InputMode::Insert, "see ", Some(&f), 80), Some(8));
    assert_eq!(cursor_column(InputMode::Insert, "abcdefghij", None, 6), Some(4));
    assert_eq!(placeholder_text(), " message, /command, @file, #dir\u{2026}");
    assert_eq!(approval_label(false, true, true), "AUTO");
    assert_eq!(approval_label(false, false, false), "");
    assert_eq!(attach_label(AttachPhase::Inspect, "Fleet-2"), "INSPECT Fleet-2");
}

#[test]
fn picker_walk_and_ignores() {
    assert!(rs_agent::picker_files::picker_keeps(".hidden", 0, true));
    assert!(!rs_agent::picker_files::picker_keeps(".env", 1, false));
    assert!(!rs_agent::picker_files::picker_keeps("target", 2, true));
    assert!(rs_agent::picker_files::picker_keeps("target", 2, false));
    assert_eq!(rs_agent::picker_files::ignore_patterns(None).len(), 5);
    let p = rs_agent::picker_files::ignore_patterns(Some("# comment\n\n/dist/\nbuild\n!keep\ndocs/gen\n"));
    assert_eq!(
        p[5..].to_vec(),
        vec![
            "dist".to_string(),
            "dist/**".to_string(),
            "**/build".to_string(),
            "**/build/**".to_string(),
            "docs/gen".to_string(),
            "docs/gen/**".to_string()
        ]
    );
}

#[test]
fn picker_lists_filter_and_sort() {
    let patterns = rs_agent::picker_files::ignore_patterns(Some("*.log\n/out\n"));
    let walked = vec![
        "src\\main.rs".to_string(),
        "b.txt".to_string(),
        "debug.log".to_string(),
        "out/x.rs".to_string(),
        "deep/target/y.rs".to_string(),
        "a.rs".to_string(),
    ];
    assert_eq!(
        rs_agent::picker_files::picker_file_list(&patterns, &walked),
        vec!["a.rs".to_string(), "b.txt".to_string(), "src/main.rs".to_string()]
    );
    let dirs = vec!["src".to_string(), "out".to_string(), "docs".to_string(), "node_modules".to_string()];
    assert_eq!(
        rs_agent::picker_files::picker_dir_list(&patterns, &dirs),
        vec!["docs".to_string(), "src".to_string()]
    );
}

#[test]
fn footer_hint_texts() {
    let keys = KeyMap::new(default_keybindings());
    let base = FooterContext {
        mode: InputMode::Insert,
        permission_pending: false,
        queued_steers: 0,
        tabs: 0,
        tab: 0,
        ready_beads: 0,
    };
    assert_eq!(footer_hints(&keys, base, ""), " ^C quit \u{b7} i insert \u{b7} /help \u{b7} /keys");
    let waiting = FooterContext { mode: InputMode::Waiting, queued_steers: 2, tabs: 3, tab: 1, ..base };
    assert_eq!(
        footer_hints(&keys, waiting, "lsp:ok"),
        " Esc abort \u{b7} Tab console \u{b7} Enter steer \u{b7} queued:2 \u{b7} out:2/3 lsp:ok"
    );
    let perm = FooterContext { permission_pending: true, ready_beads: 4, ..base };
    assert_eq!(
        footer_hints(&keys, perm, ""),
        " [a] once \u{b7} [p] path \u{b7} [A] always \u{b7} [d] deny \u{b7} beads:4 ready"
    );
    let normal = FooterContext { mode: InputMode::Normal, ..base };
    assert_eq!(footer_hints(&keys, normal, ""), keys.hint_line());
    assert_eq!(spinner_frame(0), '\u{25d0}');
    assert_eq!(spinner_frame(250), '\u{25d1}');
    assert_eq!(spinner_frame(480), '\u{25d0}');
}

#[test]
fn backslash_globs_are_left_out_and_the_rest_still_apply() {
    let patterns = rs_agent::picker_files::ignore_patterns(Some("*.log\nfoo\\*bar\n"));
    let kept = rs_agent::picker_files::portable_patterns(&patterns);
    assert!(kept.iter().all(|p| !p.contains('\\')));
    assert!(kept.iter().any(|p| p.contains("*.log")));
    let expected: Vec<String> = patterns.iter().filter(|p| !p.contains('\\')).cloned().collect();
    assert_eq!(kept, expected);
    assert!(kept.len() < patterns.len());
    assert!(rs_agent::picker_files::picker_file_list_checked(&patterns, &vec!["a.rs".to_string()]).is_none());
    let walked = vec!["a.rs".to_string(), "debug.log".to_string()];
    assert_eq!(rs_agent::picker_files::picker_file_list(&kept, &walked), vec!["a.rs".to_string()]);
}
