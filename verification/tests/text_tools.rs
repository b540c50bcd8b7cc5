use rs_agent::beads::{Bead, BeadKind, LogKind, ParsedLogLine, SeatCaste, SeatStatus};
use rs_agent::command_catalog::{filter_commands, palette_commands};
use rs_agent::console::{append_tool_tab_output, cycle_tool_output_tab, sanitize_console_text, trim_panel_utf8, ToolOutputTab};
use rs_agent::fuzzy::{fuzzy_score, fuzzy_score_one, rank_and_filter, rank_and_filter_checked};
use rs_agent::helpers::{
    api_messages_to_chat, extract_saved_file_path, fleet_log_message, saved_path_candidates, summarize_api_messages,
    ContentBlock, ContentType, Message, Role,
};
use rs_agent::input::{auto_allow, history_command, next_cycle_index, note_cycle_entry, split_slash_command, HistoryReply, InputHistory};
use rs_agent::keys::{default_keybindings, eq_ignore_case_str, merge_keybindings, KeyBindings, KeyInput, KeyInputCode, KeyMap};
use rs_agent::kitty::{kitty_graphics_likely, kitty_image_payload};
use rs_agent::prompt::{format_permission_input, permission_lines};
use rs_agent::session_runtime::{turn_active_from_event, AgentEventKind};
use rs_agent::slash::{help_text, keys_text};
use rs_agent::status::ellipsize;
use rs_agent::theme::{Palette, ThemeName};
use rs_agent::tree_view::{parse_text_tree, NodeStatus, SidePanelMode};
use rs_agent::wish::{create_wish, format_created};
use rs_agent::worker::{
    bead_task_prompt, claimant_name, find_claimed_by, read_status, say_flush, tool_output_line, tool_result_line, truncate,
    ControlCommand, ControlOp, WorkerConfig, WorkerControl,
};

fn block(t: ContentType, text: Option<&str>, name: Option<&str>, thinking: Option<&str>) -> ContentBlock {
    ContentBlock {
        content_type: t,
        text: text.map(|s| s.to_string()),
        name: name.map(|s| s.to_string()),
        thinking: thinking.map(|s| s.to_string()),
        input: None,
    }
}

#[test]
fn ellipsize_and_truncate() {
    assert_eq!(ellipsize("hello world", 5), "hell\u{2026}");
    assert_eq!(ellipsize("hi", 5), "hi");
    assert_eq!(ellipsize("abc", 0), "");
    assert_eq!(truncate("hello", 3), "hel\u{2026}");
    assert_eq!(truncate("hel", 3), "hel");
}

#[test]
fn fuzzy_scores() {
    assert_eq!(fuzzy_score_one("sonata", "sonata"), Some(0));
    assert_eq!(fuzzy_score_one("clover-sonata", "clover"), Some(1));
    assert_eq!(fuzzy_score_one("x-clover-extra", "clover"), Some(7));
    assert_eq!(fuzzy_score_one("abc", "ac"), Some(38));
    assert_eq!(fuzzy_score_one("abc", "ca"), None);
    assert_eq!(fuzzy_score("a/b/clover", "clover"), Some(0));
    assert_eq!(fuzzy_score("acme/clover-ballad", "acm"), Some(21));
    assert_eq!(fuzzy_score("anything", ""), Some(0));
}

#[test]
fn ranking_blank_query_and_cap() {
    let items = vec!["b".to_string(), "a".to_string(), "c".to_string()];
    assert_eq!(rank_and_filter(&items, "   ", 2), vec!["b".to_string(), "a".to_string()]);
    assert_eq!(rank_and_filter(&items, "zz", 10), Vec::<String>::new());
    assert_eq!(rank_and_filter_checked(&items, "a", 10), Some(vec!["a".to_string()]));
}

#[test]
fn command_palette_filter() {
    let all = palette_commands();
    assert_eq!(filter_commands("").len(), all.len());
    let f = filter_commands("  THEME ");
    assert!(f.iter().all(|c| c.to_lowercase().contains("theme")));
    assert!(!f.is_empty());
}

#[test]
fn console_text_is_cleaned() {
    assert_eq!(sanitize_console_text("a\u{1b}[31mred\u{1b}[0m\tb\r\n"), "ared    b\n");
    assert_eq!(sanitize_console_text("x\u{1b}]0;title\u{7}y"), "xy");
    assert_eq!(sanitize_console_text("p\u{1b}q\u{7f}\u{1}z"), "pqz");
    assert_eq!(sanitize_console_text("end\u{1b}"), "end");
    assert_eq!(sanitize_console_text("plain text"), "plain text");
}

#[test]
fn panel_buffer_is_capped() {
    let mut p = "line one\nline two\nline three".to_string();
    trim_panel_utf8(&mut p, 100);
    assert_eq!(p, "line one\nline two\nline three");
    trim_panel_utf8(&mut p, 15);
    assert_eq!(p, "line three");
    let mut e = "\u{274c}\u{274c}\u{274c}".to_string();
    trim_panel_utf8(&mut e, 4);
    assert_eq!(e, "\u{274c}");
    let mut n = "abcdef".to_string();
    trim_panel_utf8(&mut n, 0);
    assert_eq!(n, "");
}

fn tab(name: &str, label: &str, done: bool) -> ToolOutputTab {
    ToolOutputTab { id: name.to_string(), name: name.to_string(), label: label.to_string(), buffer: String::new(), done }
}

#[test]
fn console_tabs_route_and_cycle() {
    let mut tabs = vec![tab("bash", "bash 1", false), tab("bash", "bash 2", true), tab("repl", "repl", true)];
    let mut fallback = String::new();
    assert_eq!(append_tool_tab_output(&mut tabs, &mut fallback, "bash", "out"), Some(0));
    assert_eq!(tabs[0].buffer, "out");
    assert_eq!(append_tool_tab_output(&mut tabs, &mut fallback, "repl", "x"), Some(2));
    assert_eq!(append_tool_tab_output(&mut tabs, &mut fallback, "web", "y"), None);
    assert_eq!(fallback, "y");
    let (i, s) = cycle_tool_output_tab(&tabs, 0, -1).unwrap();
    assert_eq!(i, 2);
    assert_eq!(s, "console 3/3 \u{b7} repl");
    assert_eq!(cycle_tool_output_tab(&Vec::new(), 0, 1), None);
}

#[test]
fn permission_input_lines() {
    let lines = format_permission_input("{\"a\":1}", 10, 80);
    assert_eq!(lines, vec!["{".to_string(), "  \"a\": 1".to_string(), "}".to_string()]);
    let lines = format_permission_input("not json\nsecond line here", 1, 6);
    assert_eq!(lines, vec!["not js\u{2026}".to_string(), "\u{2026} (1 more line)".to_string()]);
    let lines = permission_lines("a\nb\nc\nd", 1, 5);
    assert_eq!(lines, vec!["a".to_string(), "\u{2026} (3 more lines)".to_string()]);
}

#[test]
fn input_history_navigation() {
    let mut h = InputHistory { entries: vec!["one".to_string(), "two".to_string()], index: None, input: String::new() };
    h.history_up();
    assert_eq!((h.index, h.input.as_str()), (Some(1), "two"));
    h.history_up();
    assert_eq!((h.index, h.input.as_str()), (Some(0), "one"));
    h.history_up();
    assert_eq!((h.index, h.input.as_str()), (Some(0), "one"));
    h.history_down();
    assert_eq!((h.index, h.input.as_str()), (Some(1), "two"));
    h.history_down();
    assert_eq!((h.index, h.input.as_str()), (None, ""));
    h.input = "draft".to_string();
    h.history_up();
    assert_eq!((h.index, h.input.as_str()), (None, "draft"));
}

#[test]
fn slash_commands_split() {
    assert_eq!(split_slash_command("  /theme  light "), Some(("/theme".to_string(), "light".to_string())));
    assert_eq!(split_slash_command("/clear"), Some(("/clear".to_string(), String::new())));
    assert_eq!(split_slash_command("hello"), None);
    assert_eq!(split_slash_command("   "), None);
    assert!(auto_allow(true, "read"));
    assert!(!auto_allow(true, "bash"));
    assert!(!auto_allow(false, "read"));
}

#[test]
fn history_command_answers() {
    let entries = vec!["fix bug".to_string(), "Add\nFeature".to_string(), "fix tests".to_string()];
    match history_command(&entries, "") {
        HistoryReply::Show(t) => assert_eq!(
            t,
            "Input history (most recent, newest last):\n    1  fix bug\n    2  Add \u{23ce} Feature\n    3  fix tests\n\n/history <query> to search \u{b7} /history <n> to edit that entry"
        ),
        _ => panic!("listing expected"),
    }
    match history_command(&entries, "2") {
        HistoryReply::Load { index, status } => {
            assert_eq!(index, 1);
            assert_eq!(status, "history #2 loaded into input \u{2014} edit & Enter");
        },
        _ => panic!("load expected"),
    }
    match history_command(&entries, "9") {
        HistoryReply::Show(t) => assert_eq!(t, "No history entry #9 (have 3)."),
        _ => panic!("message expected"),
    }
    match history_command(&entries, "FIX") {
        HistoryReply::Show(t) => {
            assert_eq!(t, "History matches for `FIX`:\n    1  fix bug\n    3  fix tests\n\n/history <n> to edit an entry")
        },
        _ => panic!("matches expected"),
    }
    match history_command(&Vec::new(), "") {
        HistoryReply::Show(t) => assert_eq!(t, "No input history yet."),
        _ => panic!("message expected"),
    }
    match history_command(&entries, "zzz") {
        HistoryReply::Show(t) => assert_eq!(t, "No history matches for `zzz`."),
        _ => panic!("message expected"),
    }
}

#[test]
fn model_cycle() {
    let mut c = vec!["a/x".to_string()];
    assert_eq!(note_cycle_entry(&mut c, "b/y"), 1);
    assert_eq!(note_cycle_entry(&mut c, "a/x"), 0);
    assert_eq!(c.len(), 2);
    assert_eq!(next_cycle_index(1, 2), 0);
}

#[test]
fn help_and_keys_text() {
    let keys = KeyMap::new(default_keybindings());
    let h = help_text(&keys);
    assert!(h.starts_with("Commands:\n/help /keys"));
    assert!(h.contains("Keys: [i]=insert [q]=quit [t]=think [e]=tool [T]=tree [s]=sessions\nCtrl+P"));
    let k = keys_text(&keys);
    assert!(k.starts_with("Keymap\ni          insert mode\n"));
    assert!(k.contains("a/d/A/p  once / deny / trust project / allow path"));
}

#[test]
fn keybindings_merge_and_match() {
    let mut user = KeyBindings::new();
    user.insert("insert".to_string(), "I".to_string());
    user.insert("quit".to_string(), String::new());
    let m = KeyMap::new(merge_keybindings(&user));
    assert_eq!(m.binding("insert"), "I");
    assert_eq!(m.binding("quit"), "q");
    assert_eq!(m.binding("nope"), "");
    let k = KeyInput { code: KeyInputCode::Char('I'), ctrl: false, alt: false };
    assert!(m.matches("insert", k));
    let kc = KeyInput { code: KeyInputCode::Char('I'), ctrl: true, alt: false };
    assert!(!m.matches("insert", kc));
    assert!(eq_ignore_case_str("TRUE", "true"));
}

#[test]
fn kitty_payload_and_detection() {
    assert_eq!(kitty_image_payload(b"hi", 5), "\u{1b}_Ga=T,f=100,m=0,c=20;aGk=\u{1b}\\\n");
    assert_eq!(kitty_image_payload(b"", 80), "\n");
    let big = vec![0u8; 3100];
    let p = kitty_image_payload(&big, 200);
    assert!(p.starts_with("\u{1b}_Ga=T,f=100,m=1,c=120;"));
    assert!(p.contains("\u{1b}\\\u{1b}_Gm=0;"));
    assert!(kitty_graphics_likely("xterm-kitty", "", false, None));
    assert!(kitty_graphics_likely("xterm", "WezTerm", false, None));
    assert!(kitty_graphics_likely("xterm", "", false, Some("TRUE")));
    assert!(!kitty_graphics_likely("xterm", "", false, Some("yes")));
    assert!(kitty_graphics_likely("", "", true, None));
}

#[test]
fn theme_parsing() {
    assert_eq!(ThemeName::parse(" Light ", None, None), ThemeName::Light);
    assert_eq!(ThemeName::parse("forest", None, None), ThemeName::Forest);
    assert_eq!(ThemeName::parse("neon", None, None), ThemeName::Dark);
    assert_eq!(ThemeName::parse("auto", Some("0;15"), None), ThemeName::Light);
    assert_eq!(ThemeName::parse("auto", Some("15;8"), None), ThemeName::Dark);
    assert_eq!(ThemeName::parse("auto", None, Some("forest")), ThemeName::Forest);
    assert_eq!(ThemeName::Light.syntect_theme(), "base16-ocean.light");
    assert_eq!(ThemeName::Forest.as_str(), "forest");
    let _ = Palette::for_theme(ThemeName::Dark);
}

#[test]
fn call_tree_from_text() {
    let text = "root agent\n\u{251c}\u{2500} llm call ok\n\u{2502}  \u{2514}\u{2500} repl running\n\u{2514}\u{2500} tool failed";
    let nodes = parse_text_tree(text);
    assert_eq!(nodes.len(), 1);
    let r = &nodes[0];
    assert_eq!((r.id.as_str(), r.kind.as_str(), r.status), ("n0", "agent", NodeStatus::Idle));
    assert_eq!(r.child_count(), 2);
    let c = &r.children[0];
    assert_eq!((c.id.as_str(), c.kind.as_str(), c.status), ("n1", "llm", NodeStatus::Success));
    let g = &c.children[0];
    assert_eq!((g.id.as_str(), g.kind.as_str(), g.status, g.expanded), ("n2", "repl", NodeStatus::Running, false));
    let d = &r.children[1];
    assert_eq!((d.id.as_str(), d.label.as_str(), d.status), ("n3", "\u{2514}\u{2500} tool failed", NodeStatus::Fail));
    // the indent stays in the label; it only decides the nesting
    let kept = parse_text_tree("root\n  child");
    assert_eq!(kept[0].label, "root");
    assert_eq!(kept[0].children[0].label, "  child");
    let empty = parse_text_tree("");
    assert_eq!((empty[0].id.as_str(), empty[0].label.as_str()), ("root", "(empty)"));
    assert_eq!(NodeStatus::from_text("Waiting..."), NodeStatus::Running);
    assert_eq!(NodeStatus::Wait.icon(), "\u{25cb}");
    assert_eq!(SidePanelMode::Tree.toggle(), SidePanelMode::Timeline);
}

#[test]
fn transcript_conversion() {
    let msgs = vec![
        Message { role: Role::User, content: vec![block(ContentType::Text, Some("hello\nthere"), None, None)] },
        Message {
            role: Role::Assistant,
            content: vec![
                block(ContentType::Thinking, None, None, Some("hmm")),
                block(ContentType::Text, Some("answer"), None, None),
            ],
        },
        Message { role: Role::Tool, content: vec![block(ContentType::ToolResult, Some("done"), Some("bash"), None)] },
        Message { role: Role::User, content: vec![block(ContentType::Text, Some(""), None, None)] },
    ];
    let s = summarize_api_messages(&msgs);
    assert_eq!(s[0], (0, "user: hello there".to_string()));
    assert_eq!(s[1], (1, "assistant: hmm".to_string()));
    assert_eq!(s[2], (2, "tool: done".to_string()));
    let chat = api_messages_to_chat(&msgs);
    assert_eq!(chat.len(), 3);
    assert_eq!(chat[1].text, "answer");
    assert_eq!(chat[1].thinking.as_deref(), Some("hmm"));
    assert!(chat[1].show_thinking);
    assert_eq!(chat[2].text, "\u{2705} [bash] done");
    let line = ParsedLogLine { kind: LogKind::Say, timestamp: Some("t".to_string()), body: "hi".to_string() };
    let m = fleet_log_message(&line);
    assert_eq!((m.role.as_str(), m.text.as_str()), ("assistant", "\u{1f4ac} [t] hi"));
}

#[test]
fn saved_file_detection() {
    let c = saved_path_candidates("wrote (out/a.txt), then `b` and x.rs;");
    assert_eq!(c, vec!["out/a.txt".to_string(), "x.rs".to_string()]);
    assert_eq!(extract_saved_file_path(&c, &[false, true]), Some("x.rs".to_string()));
    assert_eq!(extract_saved_file_path(&c, &[false, false]), None);
}

#[test]
fn turn_activity_events() {
    assert_eq!(turn_active_from_event(&AgentEventKind::TextDelta), Some(true));
    assert_eq!(turn_active_from_event(&AgentEventKind::Aborted), Some(false));
    assert_eq!(turn_active_from_event(&AgentEventKind::TurnEnd), None);
}

fn bead(id: &str, claimant: Option<&str>) -> Bead {
    Bead {
        id: id.to_string(),
        title: "Title".to_string(),
        notes: "Notes".to_string(),
        kind: BeadKind::Task,
        priority: 80,
        claimant: claimant.map(|s| s.to_string()),
    }
}

#[test]
fn wish_drafts_and_confirmation() {
    assert_eq!(create_wish("   ", false, false).err(), Some("wish text must not be empty".to_string()));
    let d = create_wish("  ship it ", true, false).unwrap();
    assert_eq!(d.title, "Wish: ship it");
    assert_eq!(d.notes, "label:wish\nauto:triage\n\nship it");
    assert_eq!(d.priority, 80);
    assert_eq!(d.kind, BeadKind::Task);
    let long = "x".repeat(80);
    let d = create_wish(&long, false, true).unwrap();
    assert_eq!(d.title, format!("Wish: {}\u{2026}", "x".repeat(69)));
    assert_eq!(d.priority, 50);
    let b = bead("b-7", None);
    assert_eq!(format_created(&b), "Wish accepted as b-7 [task] priority=80 \u{2014} Title\nNotes preview: Notes");
}

#[test]
fn worker_decisions() {
    let cfg = WorkerConfig::default();
    assert_eq!(cfg.budget_minutes, 480);
    let d = cfg.dual_timeout();
    assert_eq!((d.response_secs, d.wall_secs), (600, 28800));
    let mut big = WorkerConfig::default();
    big.budget_minutes = u64::MAX;
    assert_eq!(big.dual_timeout().wall_secs, u64::MAX);
    assert_eq!(claimant_name(&cfg, 42), "worker-42");
    let mut named = WorkerConfig::default();
    named.seat = Some("Fleet-1".to_string());
    assert_eq!(claimant_name(&named, 42), "Fleet-1");
    let list = vec![bead("b1", Some("x")), bead("b2", Some("Fleet-1")), bead("b3", Some("Fleet-1"))];
    assert_eq!(find_claimed_by(&list, "Fleet-1").map(|b| b.id), Some("b2".to_string()));
    assert!(find_claimed_by(&list, "nobody").is_none());
    let p = bead_task_prompt(&bead("b9", None), SeatCaste::Review);
    assert!(p.starts_with("You are a Review caste seat."));
    assert!(p.contains("\n\nBead id: b9\nKind: task\nTitle: Title\nNotes:\nNotes\n\nRules:\n"));
    assert!(p.contains("call bead close with id b9 and a short notes summary."));
}

#[test]
fn worker_control_commands() {
    let mut c = WorkerControl::new();
    c.apply_commands(&[
        ControlCommand { op: ControlOp::Steer, text: Some("  ".to_string()) },
        ControlCommand { op: ControlOp::Steer, text: Some("go left".to_string()) },
        ControlCommand { op: ControlOp::Pause, text: None },
    ]);
    assert_eq!(c.steer, vec!["go left".to_string()]);
    assert!(c.pause_requested && c.abort && !c.resume_requested);
    c.apply_commands(&[ControlCommand { op: ControlOp::Resume, text: None }]);
    assert!(!c.pause_requested && c.resume_requested);
    c.clear_turn_flags();
    assert!(!c.abort && c.steer.is_empty() && c.resume_requested);
}

#[test]
fn worker_log_lines() {
    assert_eq!(tool_result_line("bash", "a\nb", false), "\u{2190} bash [ok] a b");
    assert_eq!(tool_result_line("bash", "x", true), "\u{2190} bash [ERR] x");
    assert_eq!(tool_output_line("bash", "out\n"), Some("  bash| out ".to_string()));
    assert_eq!(tool_output_line("bash", " \n "), None);
    let mut buf = String::new();
    assert_eq!(say_flush(&mut buf, "hello", true), None);
    assert_eq!(buf, "hello");
    assert_eq!(say_flush(&mut buf, " world\n", true), Some("say: hello world ".to_string()));
    assert_eq!(buf, "");
    assert_eq!(say_flush(&mut buf, "x\n", false), None);
    assert_eq!(buf, "");
}

#[test]
fn worker_status_pick() {
    let mut a = SeatStatus {
        seat: "A".to_string(),
        state: "idle".to_string(),
        lifecycle: None,
        awaiting_human: None,
        running: false,
        last_bead: None,
        last_title: None,
        last_line: None,
    };
    let mut b = a.clone();
    b.seat = "B".to_string();
    b.running = true;
    assert_eq!(read_status(&vec![a.clone(), b.clone()]).map(|s| s.seat), Some("B".to_string()));
    a.running = false;
    assert_eq!(read_status(&vec![a.clone()]).map(|s| s.seat), Some("A".to_string()));
    assert!(read_status(&Vec::new()).is_none());
}

#[test]
fn worker_event_sink() {
    use_event_sink();
}

fn use_event_sink() {
    let mut s = rs_agent::worker::EventSink::new("Fleet-1", true);
    let fx = s.handle(&rs_agent::worker::SinkEvent::Error("boom".to_string()));
    assert_eq!(
        fx,
        vec![
            rs_agent::worker::SinkEffect::Emit("error: boom".to_string()),
            rs_agent::worker::SinkEffect::SetError("boom".to_string())
        ]
    );
    let fx = s.handle(&rs_agent::worker::SinkEvent::ToolUseStart("bash".to_string()));
    assert_eq!(fx[1], rs_agent::worker::SinkEffect::Emit("\u{2192} tool bash".to_string()));
    let fx = s.handle(&rs_agent::worker::SinkEvent::ToolResult {
        name: "bash".to_string(),
        content: "ok\nfine".to_string(),
        is_error: false,
    });
    assert_eq!(
        fx,
        vec![
            rs_agent::worker::SinkEffect::Emit("\u{2190} bash [ok] ok fine".to_string()),
            rs_agent::worker::SinkEffect::ToolFinished { name: "bash".to_string(), preview: "ok fine".to_string() }
        ]
    );
    assert!(s.handle(&rs_agent::worker::SinkEvent::TextDelta("hel".to_string())).is_empty());
    let fx = s.handle(&rs_agent::worker::SinkEvent::TextDelta("lo\n".to_string()));
    assert_eq!(fx, vec![rs_agent::worker::SinkEffect::Log("say: hello ".to_string())]);
    s.handle(&rs_agent::worker::SinkEvent::Status("thinking".to_string()));
    assert_eq!(s.last_status_msg, "thinking");
    assert_eq!(s.handle(&rs_agent::worker::SinkEvent::Done), vec![rs_agent::worker::SinkEffect::Heartbeat]);
    let mut quiet = rs_agent::worker::EventSink::new("Crew-1", false);
    let fx = quiet.handle(&rs_agent::worker::SinkEvent::ToolUseStart("bash".to_string()));
    assert_eq!(fx, vec![rs_agent::worker::SinkEffect::ToolStarted("bash".to_string())]);
    assert!(quiet.handle(&rs_agent::worker::SinkEvent::TextDelta("x\n".to_string())).is_empty());
    quiet.touch_activity();
}
