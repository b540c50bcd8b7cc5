use rs_agent::agent_events::{
    append_text_delta, append_thinking_delta, append_to_last, console_chunk, error_action, goal_update, push_tool_block,
    result_preview, status_action, strip_exit_header, tool_result_block, ErrorAction, GoalReply, StatusAction,
};
use rs_agent::beads::{SeatCaste, SeatStatus};
use rs_agent::chat_view::{
    chat_scroll, click_target, route_key, strip_line_breaks, ClickTarget, InputMode, KeyRoute, Overlays,
};
use rs_agent::city_view::{board_lines, city_title, inspector_head, log_window, steer_prompt, wish_prompt, BoardTone};
use rs_agent::console::{open_tool_tab, ToolOutputTab};
use rs_agent::fleet_panel::{CityPanelState, SeatAttention};
use rs_agent::focus::FocusZone;
use rs_agent::header::{header_spans, HeaderInfo, HeaderTone};
use rs_agent::helpers::{ChatMessage, ToolBlock};
use rs_agent::keys::{KeyInput, KeyInputCode};
use rs_agent::markdown::{event_from_codes, render_markdown, render_md_events, MdColor, MdEvent, MdStyle};
use rs_agent::sessions_panel::{sessions_panel_lines, SessionFg, SessionSummary, SessionTone, SessionsPanelState};
use rs_agent::status::SessionUiState;
use rs_agent::tree_lines::{node_lines, tree_line_style, turn_bar_parts, NodeLine, TreeTone};
use rs_agent::tree_view::{parse_text_tree, NodeStatus};
use rs_agent::wrap::wrap_spans;

fn chat(role: &str, text: &str) -> ChatMessage {
    ChatMessage { role: role.to_string(), text: text.to_string(), thinking: None, show_thinking: false, tool_blocks: Vec::new() }
}

#[test]
fn streamed_text_and_thinking() {
    let mut m = vec![chat("user", "hi")];
    append_text_delta(&mut m, "Hel");
    append_text_delta(&mut m, "lo");
    assert_eq!(m.len(), 2);
    assert_eq!((m[1].role.as_str(), m[1].text.as_str()), ("assistant", "Hello"));
    let mut m = vec![chat("user", "hi")];
    append_thinking_delta(&mut m, "hmm");
    assert!(m[1].show_thinking);
    m[1].show_thinking = false;
    append_thinking_delta(&mut m, " more");
    assert_eq!(m[1].thinking.as_deref(), Some("hmm more"));
    assert!(!m[1].show_thinking);
    append_to_last(&mut m, "\n\u{2298} aborted");
    assert_eq!(m[1].text, "\n\u{2298} aborted");
    let mut none: Vec<ChatMessage> = Vec::new();
    append_to_last(&mut none, "x");
    assert!(none.is_empty());
}

#[test]
fn tool_blocks_and_previews() {
    assert_eq!(strip_exit_header("Exit code: 0\nout"), "out");
    assert_eq!(strip_exit_header("Exit code: 1"), "Exit code: 1");
    assert_eq!(strip_exit_header("plain"), "plain");
    assert_eq!(result_preview("bash", "a\nExit code: 0\nb\nExit code: 2", "SPILL"), "\u{2197} console \u{b7} Exit code: 2");
    assert_eq!(result_preview("bash", "x", "SPILL"), "\u{2197} console \u{b7} done");
    assert_eq!(result_preview("edit", "<diagnostics>\n  warn unused\n", "SPILL"), "\u{26a0}   warn unused");
    assert_eq!(result_preview("read", "a\nSPILL at /tmp/x\n", "SPILL"), "\u{2026} SPILL at /tmp/x");
    assert_eq!(result_preview("write", "wrote 3 bytes\nmore", "SPILL"), "wrote 3 bytes");
    assert_eq!(result_preview("grep", "0123456789", "SPILL"), "0123456789");
    let b = tool_result_block("edit", "<diagnostics>", "SPILL", false);
    assert!(b.expanded && b.is_error);
    let b = tool_result_block("read", "fine", "SPILL", false);
    assert!(!b.expanded && !b.is_error);
    let mut m = vec![chat("user", "q")];
    push_tool_block(&mut m, b);
    assert_eq!(m.len(), 2);
    assert_eq!(m[1].tool_blocks.len(), 1);
    let b2: ToolBlock = tool_result_block("read", "again", "SPILL", true);
    push_tool_block(&mut m, b2);
    assert_eq!(m[1].tool_blocks.len(), 2);
    assert!(m[1].tool_blocks[1].expanded);
}

#[test]
fn console_chunks_mark_stderr() {
    assert_eq!(console_chunk("a\r\nb\u{1b}[1m!", false), "a\nb!\n");
    assert_eq!(console_chunk("x\ny", true), "! x\n! y\n");
    assert_eq!(console_chunk("", true), "");
}

#[test]
fn provider_errors_and_status() {
    match error_action("Stream Error: reset", 0) {
        ErrorAction::AutoContinue { attempt, notice } => {
            assert_eq!(attempt, 1);
            assert_eq!(notice, "Provider hiccup: Stream Error: reset\nAuto-continuing (1/3)\u{2026}");
        },
        _ => panic!("auto-continue expected"),
    }
    match error_action("connection refused", 3) {
        ErrorAction::GiveUp { notice } => assert!(notice.ends_with("(session stayed open).")),
        _ => panic!("give-up expected"),
    }
    match error_action("timeout; auto-retry exhausted", 0) {
        ErrorAction::GiveUp { .. } => {},
        _ => panic!("give-up expected"),
    }
    match error_action("bad request", 0) {
        ErrorAction::Inline { suffix } => assert_eq!(suffix, "\n\u{274c} Error: bad request"),
        _ => panic!("inline expected"),
    }
    match status_action("stream failed; session ready", 2) {
        StatusAction::AutoContinue { attempt, .. } => assert_eq!(attempt, 3),
        _ => panic!("auto-continue expected"),
    }
    assert!(matches!(status_action("stream failed; session ready", 3), StatusAction::GiveUp { .. }));
    assert!(matches!(status_action("recovering", 0), StatusAction::Wait));
    assert!(matches!(status_action("all good", 0), StatusAction::Show));
}

#[test]
fn goal_updates() {
    match goal_update("STATUS\nSTATUS\nreport") {
        GoalReply::Report(t) => assert_eq!(t, "report"),
        _ => panic!("report expected"),
    }
    assert!(matches!(goal_update(""), GoalReply::Clear));
    match goal_update("achieved: tests pass") {
        GoalReply::Achieved { indicator, notice } => {
            assert_eq!(indicator, "\u{25ce} goal achieved");
            assert_eq!(notice, "\u{25ce} achieved: tests pass");
        },
        _ => panic!("achieved expected"),
    }
    match goal_update("paused by user") {
        GoalReply::Indicator(t) => assert_eq!(t, "\u{25ce} /goal paused"),
        _ => panic!("indicator expected"),
    }
    match goal_update("ship v2") {
        GoalReply::Indicator(t) => assert_eq!(t, "\u{25ce} /goal ship v2"),
        _ => panic!("indicator expected"),
    }
}

#[test]
fn key_routing() {
    let none = Overlays { help: false, settings: false, palette: false, permission: false, question: false };
    let ch = |c: char, ctrl: bool| KeyInput { code: KeyInputCode::Char(c), ctrl, alt: false };
    let help = Overlays { help: true, ..none };
    assert_eq!(route_key(ch('c', true), help, InputMode::Insert), KeyRoute::Exit);
    assert_eq!(route_key(ch('k', true), none, InputMode::Insert), KeyRoute::OpenPalette);
    let pal = Overlays { palette: true, ..none };
    assert_eq!(route_key(ch('k', true), pal, InputMode::Insert), KeyRoute::DismissOverlays);
    assert_eq!(route_key(ch('x', false), help, InputMode::Insert), KeyRoute::HelpKey);
    let perm = Overlays { permission: true, ..none };
    assert_eq!(route_key(ch('a', false), perm, InputMode::Insert), KeyRoute::PermissionKey);
    assert_eq!(route_key(ch('p', true), none, InputMode::Insert), KeyRoute::CycleModel);
    assert_eq!(route_key(ch('?', false), none, InputMode::Normal), KeyRoute::OpenHelp);
    assert_eq!(route_key(ch('?', false), none, InputMode::Insert), KeyRoute::InsertKey);
    assert_eq!(route_key(ch('j', false), none, InputMode::Waiting), KeyRoute::WaitingKey);
}

#[test]
fn scrolling_clicks_and_paste() {
    assert_eq!(chat_scroll(true, 0, 10, 25), (15, 15));
    assert_eq!(chat_scroll(false, 3, 10, 25), (3, 3));
    assert_eq!(chat_scroll(false, 20, 10, 25), (15, 15));
    assert_eq!(chat_scroll(false, 0, 10, 4), (0, 0));
    let thinking = vec![(4, 0), (9, 2)];
    let tools = vec![(9, 2, 0), (12, 3, 1)];
    assert_eq!(click_target(&thinking, &tools, 9), ClickTarget::Thinking { msg: 2 });
    assert_eq!(click_target(&thinking, &tools, 12), ClickTarget::Tool { msg: 3, tool: 1 });
    assert_eq!(click_target(&thinking, &tools, 1), ClickTarget::Nothing);
    assert_eq!(strip_line_breaks("a\r\nb\nc"), "abc");
}

#[test]
fn wrapping_keeps_text_and_width() {
    let line = vec![("hello ".to_string(), 1u8), ("world".to_string(), 2u8)];
    assert_eq!(wrap_spans(&line, 20), vec![line.clone()]);
    let w = wrap_spans(&line, 4);
    assert_eq!(
        w,
        vec![
            vec![("hell".to_string(), 1u8)],
            vec![("o ".to_string(), 1u8), ("wo".to_string(), 2u8)],
            vec![("rld".to_string(), 2u8)],
        ]
    );
    let exact = vec![("abcd".to_string(), 0u8), ("ef".to_string(), 1u8)];
    assert_eq!(
        wrap_spans(&exact, 4),
        vec![vec![("abcd".to_string(), 0u8), ("".to_string(), 1u8)], vec![("ef".to_string(), 1u8)]]
    );
}

fn info() -> HeaderInfo {
    HeaderInfo {
        state: SessionUiState::Idle,
        provider: "p".to_string(),
        model: "m".to_string(),
        mode: "agent".to_string(),
        depth: 0,
        deep: false,
        yolo: String::new(),
        session_short: "abc".to_string(),
        title: None,
        goal: String::new(),
        attach: String::new(),
        tokens: "1k".to_string(),
        cost: "$0".to_string(),
    }
}

#[test]
fn header_line_fits() {
    let spans = header_spans(&info(), 40);
    let text: String = spans.iter().map(|s| s.text.as_str()).collect();
    assert_eq!(text, format!("\u{25cb} idle \u{b7} p/m \u{b7} agent abc{}1k$0", " ".repeat(12)));
    assert_eq!(text.chars().count(), 40);
    assert_eq!(spans[0].tone, HeaderTone::Chip(SessionUiState::Idle));
    let spans = header_spans(&info(), 10);
    let text: String = spans.iter().map(|s| s.text.as_str()).collect();
    assert_eq!(text.chars().count(), 10);
    assert_eq!(spans[0].text, "\u{25cb} id\u{2026}");
    let mut i = info();
    i.title = Some("A very long title that goes on and on".to_string());
    i.depth = 2;
    i.deep = true;
    let spans = header_spans(&i, 200);
    let texts: Vec<&str> = spans.iter().map(|s| s.text.as_str()).collect();
    assert!(texts.contains(&" d2"));
    assert!(texts.contains(&" [D]"));
    assert!(texts.contains(&" \"A very long title that goes\u{2026}\""));
}

#[test]
fn turn_bar_and_tree_lines() {
    assert_eq!(turn_bar_parts("root > llm_1 > agent_2"), vec!["[root]", "[llm_1]", "[agent_2*]"]);
    assert_eq!(turn_bar_parts(" idle "), Vec::<String>::new());
    assert_eq!(turn_bar_parts("a|/b"), vec!["[a]", "[b*]"]);
    let (tone, icon, body) = tree_line_style("LLM call FAILED");
    assert_eq!((tone, icon, body.as_str()), (TreeTone::Blocked, "\u{d7}", "LLM call FAILED"));
    assert_eq!(tree_line_style("  \u{251c}\u{2500} step").0, TreeTone::Branch);
    assert_eq!(tree_line_style("plain").1, "\u{b7}");
    let nodes = parse_text_tree("root agent\n\u{251c}\u{2500} llm call ok\n\u{2502}  \u{2514}\u{2500} repl running\n\u{2514}\u{2500} tool failed");
    let lines = node_lines(&nodes, 80, None);
    let texts: Vec<String> = lines
        .iter()
        .map(|l| match l {
            NodeLine::Node { text, .. } => text.clone(),
            NodeLine::More { text } => format!("more:{text}"),
        })
        .collect();
    assert_eq!(
        texts,
        vec![
            "\u{25be} \u{b7} root agent \u{d7}2".to_string(),
            "  \u{25be} \u{2713} \u{251c}\u{2500} llm call ok \u{d7}1".to_string(),
            "      \u{25d0} \u{2502}  \u{2514}\u{2500} repl running".to_string(),
            "    \u{d7} \u{2514}\u{2500} tool failed".to_string(),
        ]
    );
    let failed = node_lines(&nodes, 80, Some(NodeStatus::Fail));
    assert_eq!(failed.len(), 3);
    let narrow = node_lines(&nodes, 5, None);
    match &narrow[0] {
        NodeLine::Node { text, status } => {
            assert_eq!(text, "\u{25be} \u{b7} \u{2026}");
            assert_eq!(*status, NodeStatus::Idle);
        },
        _ => panic!("node expected"),
    }
}

fn seat(name: &str, state: &str) -> SeatStatus {
    SeatStatus {
        seat: name.to_string(),
        state: state.to_string(),
        lifecycle: None,
        awaiting_human: None,
        running: true,
        last_bead: None,
        last_title: None,
        last_line: None,
    }
}

#[test]
fn city_board_text() {
    let mut st = CityPanelState::default();
    let mut w = seat("Fleet-1", "error");
    w.last_bead = Some("b1".to_string());
    st.refresh(&vec![w], &Vec::new(), &Vec::new(), None);
    let castes = vec![SeatCaste::Fleet; st.board_rows.len()];
    let lines = board_lines(&st, &castes, true, 40);
    assert_eq!(lines[0][0], (" WORKERS ".to_string(), BoardTone::WorkersBadge { blocked: true }));
    assert_eq!(lines[0][1].0, " 1  [u]spawn  [d]stop  [X]del ");
    assert_eq!(lines[1], vec![("\u{203a}\u{25cf} [F] Fleet-1 \u{b7} b1".to_string(), BoardTone::Selected { bold: true })]);
    assert_eq!(lines[2][0].0, " FLOW  wish\u{2192}ready\u{2192}doing ");
    assert_eq!(lines[3], vec![(" \u{25d0} b1 [doing] b1".to_string(), BoardTone::Stage(rs_agent::fleet_panel::FlowStage::Doing))]);
    assert_eq!(lines.len(), 4);
    let empty = CityPanelState::default();
    let l = board_lines(&empty, &Vec::new(), false, 5);
    assert_eq!(l[1][0].0, "  none \u{2014} press u to spawn");
    assert_eq!(wish_prompt("", false), "wish> (Tab focus \u{b7} type ambition \u{b7} \u{21b5} create)");
    assert_eq!(wish_prompt("ship", true), "wish> ship\u{258c}");
    assert_eq!(steer_prompt(false, "x", true), "");
    assert_eq!(steer_prompt(true, "", false), "steer> (Tab \u{b7} type \u{b7} \u{21b5})");
    assert_eq!(log_window(10, 2, 3), (5, 8));
    assert_eq!(log_window(2, 5, 3), (0, 0));
    assert_eq!(city_title(2, FocusZone::CityBoard), "City \u{b7} 2w \u{b7} focus:city");
    let head = inspector_head(&empty, SeatCaste::Any, FocusZone::CitySpawn);
    assert_eq!(head[0][0].0, "spawn \u{203a}Fleet:2   Crew:0  (Tab field \u{b7} \u{21b5} go)");
    let mut sel = st;
    sel.move_sel(0);
    let head = inspector_head(&sel, SeatCaste::Fleet, FocusZone::CityBoard);
    assert_eq!(head[0][0], (" \u{25cf} ".to_string(), BoardTone::Attention(SeatAttention::Blocked)));
    assert_eq!(head[0][1].0, "Fleet-1 [F] error");
}

#[test]
fn sessions_panel_text() {
    let mut st = SessionsPanelState::default();
    let s = SessionSummary {
        id: "0123456789".to_string(),
        title: Some("Fix the bug".to_string()),
        model: "m1".to_string(),
        updated_at: String::new(),
        message_count: 4,
        parent_id: None,
        branch_label: Some("alt".to_string()),
        project_root: None,
    };
    st.refresh("0123456789", None, None, vec![s], None);
    let lines = sessions_panel_lines(&st);
    assert_eq!(lines[0].0, " SESSIONS \u{b7} THIS PROJECT");
    assert_eq!(lines[0].1, SessionTone::Header);
    assert_eq!(lines[3].0, "\u{203a}01234567 \u{b7} Fix the bug [alt]");
    assert_eq!(lines[3].1, SessionTone::Session { fg: SessionFg::Active, selected: true });
    assert_eq!(lines[4], ("  4 msgs \u{b7} m1".to_string(), SessionTone::Meta));
}

#[test]
fn console_tabs_open_for_streaming_tools() {
    let mut tabs: Vec<ToolOutputTab> = Vec::new();
    assert!(open_tool_tab(&mut tabs, "t1", "bash"));
    assert!(!open_tool_tab(&mut tabs, "t2", "read"));
    assert!(open_tool_tab(&mut tabs, "t3", "repl"));
    assert_eq!(tabs.len(), 2);
    assert_eq!(tabs[1].label, "repl#2");
    assert!(!tabs[1].done);
}

#[test]
fn markdown_rendering() {
    let plain = |c: MdColor| MdStyle { color: c, bold: false, italic: false, crossed: false };
    let lines = render_markdown("# Title\n\nhello *world*", "base16-ocean.dark");
    assert_eq!(lines.len(), 2);
    assert_eq!(lines[0], vec![("Title".to_string(), MdStyle { color: MdColor::Heading1, bold: true, italic: false, crossed: false })]);
    assert_eq!(lines[1][0], ("hello ".to_string(), plain(MdColor::Text)));
    assert_eq!(lines[1][1], ("world".to_string(), MdStyle { color: MdColor::Text, bold: false, italic: true, crossed: false }));
    let list = render_markdown("- a\n- b", "base16-ocean.dark");
    assert_eq!(list.len(), 2);
    assert_eq!(list[1], vec![("\u{2022} ".to_string(), plain(MdColor::Plain)), ("b".to_string(), plain(MdColor::Text))]);
    let rule = render_markdown("***", "base16-ocean.dark");
    assert_eq!(rule, vec![vec![("\u{2500}".repeat(40), plain(MdColor::Rule))]]);
    let code = render_markdown("```rust\nfn main() {}\n```", "base16-ocean.dark");
    assert_eq!(code.len(), 1);
    assert_eq!(code[0][0], (" \u{2502} ".to_string(), plain(MdColor::Gutter)));
    let body: String = code[0][1..].iter().map(|s| s.0.as_str()).collect();
    assert_eq!(body, "fn main() {}");
    assert!(code[0][1..].iter().all(|s| matches!(s.1.color, MdColor::Rgb(..))));
    let empty = render_markdown("", "base16-ocean.dark");
    assert_eq!(empty, vec![vec![(String::new(), plain(MdColor::Plain))]]);
    let evs = vec![
        MdEvent::StartParagraph,
        MdEvent::Text("a".to_string()),
        MdEvent::Break,
        MdEvent::Code("x".to_string()),
        MdEvent::EndParagraph,
        MdEvent::StartParagraph,
        MdEvent::Text("b".to_string()),
        MdEvent::EndParagraph,
    ];
    let out = render_md_events(&evs, "base16-ocean.dark");
    assert_eq!(out.len(), 4);
    assert_eq!(out[1], vec![(" x ".to_string(), plain(MdColor::InlineCode))]);
    assert_eq!(out[2], vec![(String::new(), plain(MdColor::Plain))]);
    assert!(matches!(event_from_codes(0, 1, 2, String::new()), MdEvent::StartHeading(2)));
    assert!(matches!(event_from_codes(9, 9, 0, String::new()), MdEvent::Break));
    assert!(matches!(event_from_codes(10, 9, 0, String::new()), MdEvent::Break));
    assert!(matches!(event_from_codes(7, 9, 0, String::new()), MdEvent::Other));
}
