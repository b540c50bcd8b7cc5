use rs_agent::agent_turn::{TurnEvent, TurnState};
use rs_agent::beads::Lifecycle;
use rs_agent::chat_view::InputMode;

fn fresh() -> TurnState {
    TurnState {
        messages: Vec::new(),
        status: String::new(),
        follow_bottom: false,
        input_mode: InputMode::Waiting,
        tool_in_progress: None,
        tool_output_tabs: Vec::new(),
        tool_output_tab: 0,
        repl_panel: String::new(),
        show_repl_panel: false,
        pending_kitty_images: Vec::new(),
        provider_auto_continues: 0,
        unseen_done: false,
        near_limit: false,
        queued_steers: 2,
        token_used: 0,
        token_limit: 0,
        session_input_tokens: 7,
        session_output_tokens: 9,
        goal_indicator: String::new(),
        session_id: "s0".to_string(),
        session_title: None,
        lsp_summary: String::new(),
    }
}

const MARK: &str = "[spilled]";

#[test]
fn a_turn_with_a_console_tool() {
    let mut st = fresh();
    let fx = st.on_event(TurnEvent::ThinkingDelta { thinking: "hmm".to_string() }, MARK);
    assert_eq!(fx.publish, Some((Lifecycle::Working, "thinking".to_string())));
    assert_eq!(st.status, "thinking...");
    assert_eq!(st.messages.len(), 1);
    assert_eq!(st.messages[0].thinking.as_deref(), Some("hmm"));
    assert!(st.messages[0].show_thinking);
    st.on_event(TurnEvent::TextDelta { text: "Let me look.".to_string() }, MARK);
    assert_eq!(st.messages[0].text, "Let me look.");
    let fx = st.on_event(TurnEvent::ToolUseStart { id: "t1".to_string(), name: "bash".to_string() }, MARK);
    assert!(fx.tool_started);
    assert_eq!(fx.publish, Some((Lifecycle::Working, "tool:bash".to_string())));
    assert_eq!(st.status, "using bash...");
    assert_eq!(st.tool_output_tabs.len(), 1);
    assert_eq!(st.tool_output_tabs[0].label, "bash#1");
    assert!(st.show_repl_panel);
    assert_eq!(st.tool_in_progress.as_deref(), Some("bash"));
    st.on_event(
        TurnEvent::ToolOutput { name: "bash".to_string(), stream: "stderr".to_string(), text: "oops\nagain".to_string() },
        MARK,
    );
    assert_eq!(st.tool_output_tabs[0].buffer, "! oops\n! again\n");
    let fx = st.on_event(
        TurnEvent::ToolResult {
            id: "t1".to_string(),
            name: "bash".to_string(),
            content: "Exit code: 0\nall good".to_string(),
            is_error: false,
            images: vec!["a.png".to_string(), "a.png".to_string()],
        },
        MARK,
    );
    assert_eq!(fx.saved_from, None);
    assert!(st.tool_output_tabs[0].done);
    assert_eq!(st.tool_output_tabs[0].buffer, "! oops\n! again\n");
    assert_eq!(st.tool_in_progress, None);
    assert_eq!(st.pending_kitty_images, vec!["a.png".to_string()]);
    assert_eq!(st.messages.len(), 1);
    assert_eq!(st.messages[0].tool_blocks.len(), 1);
    assert_eq!(st.messages[0].tool_blocks[0].full, "all good");
    let fx = st.on_event(TurnEvent::TurnEnd, MARK);
    assert_eq!(fx.publish, Some((Lifecycle::Done, "turn end".to_string())));
    let fx = st.on_event(TurnEvent::Done, MARK);
    assert!(fx.clear_input);
    assert_eq!(st.status, "ready");
    assert_eq!(st.input_mode, InputMode::Insert);
    assert_eq!(st.queued_steers, 0);
    assert!(st.unseen_done);
}

#[test]
fn a_written_file_is_reported_for_the_language_server() {
    let mut st = fresh();
    let fx = st.on_event(
        TurnEvent::ToolResult {
            id: "w".to_string(),
            name: "write".to_string(),
            content: "Wrote src/x.rs".to_string(),
            is_error: true,
            images: vec![],
        },
        MARK,
    );
    assert_eq!(fx.saved_from.as_deref(), Some("Wrote src/x.rs"));
    assert_eq!(st.messages.len(), 1);
    assert_eq!(st.messages[0].role, "assistant");
    assert!(st.messages[0].tool_blocks[0].expanded);
    let mut st = fresh();
    st.on_event(
        TurnEvent::ToolResult {
            id: "r".to_string(),
            name: "read".to_string(),
            content: "STUCK: no way".to_string(),
            is_error: true,
            images: vec![],
        },
        MARK,
    );
    assert_eq!(st.status, "STUCK");
}

#[test]
fn transport_errors_continue_three_times_then_hand_back() {
    let mut st = fresh();
    for n in 1..=3u8 {
        let fx = st.on_event(TurnEvent::Error { message: "connection reset".to_string() }, MARK);
        assert!(fx.submit_continue);
        assert_eq!(st.provider_auto_continues, n);
        assert_eq!(st.status, "thinking...");
        assert_eq!(st.input_mode, InputMode::Waiting);
    }
    let fx = st.on_event(TurnEvent::Error { message: "connection reset".to_string() }, MARK);
    assert!(!fx.submit_continue);
    assert_eq!(st.provider_auto_continues, 0);
    assert_eq!(st.status, "recover");
    assert_eq!(st.input_mode, InputMode::Insert);
    assert_eq!(st.messages.len(), 4);
    assert!(st.messages[3].text.contains("Auto-retry exhausted"));
    let fx = st.on_event(TurnEvent::Error { message: "bad key".to_string() }, MARK);
    assert!(!fx.submit_continue);
    assert_eq!(st.status, "error");
    assert!(st.messages[3].text.ends_with("\n\u{274c} Error: bad key"));
}

#[test]
fn status_messages_wait_or_continue() {
    let mut st = fresh();
    st.input_mode = InputMode::Insert;
    st.on_event(TurnEvent::Status { message: "recovering stream".to_string() }, MARK);
    assert_eq!(st.input_mode, InputMode::Waiting);
    assert_eq!(st.status, "recovering stream");
    let fx = st.on_event(TurnEvent::Status { message: "stream failed; session ready".to_string() }, MARK);
    assert!(fx.submit_continue);
    assert_eq!(st.provider_auto_continues, 1);
    assert_eq!(st.status, "stream failed; session ready");
    st.on_event(TurnEvent::Status { message: "all fine".to_string() }, MARK);
    assert_eq!(st.status, "all fine");
}

#[test]
fn goals_titles_and_tokens() {
    let mut st = fresh();
    st.on_event(TurnEvent::GoalUpdate { summary: "achieved: ship it".to_string() }, MARK);
    assert_eq!(st.goal_indicator, "\u{25ce} goal achieved");
    assert_eq!(st.messages.last().unwrap().text, "\u{25ce} achieved: ship it");
    st.on_event(TurnEvent::GoalUpdate { summary: String::new() }, MARK);
    assert_eq!(st.goal_indicator, "");
    st.on_event(TurnEvent::TitleUpdate { title: "Fixing".to_string() }, MARK);
    assert_eq!(st.session_title.as_deref(), Some("Fixing"));
    st.on_event(TurnEvent::SessionMeta { id: "s1".to_string(), title: Some(String::new()) }, MARK);
    assert_eq!(st.session_id, "s1");
    assert_eq!(st.session_title, None);
    assert_eq!(st.session_input_tokens, 0);
    st.on_event(TurnEvent::ContextWarning { used: 90, limit: 100 }, MARK);
    assert!(st.near_limit);
    st.on_event(TurnEvent::Compacted, MARK);
    assert!(!st.near_limit);
    assert_eq!(st.status, "compacted");
    st.on_event(TurnEvent::Aborted, MARK);
    assert!(st.messages.last().unwrap().text.ends_with("\n\u{2298} aborted"));
    assert_eq!(st.status, "aborted");
}
