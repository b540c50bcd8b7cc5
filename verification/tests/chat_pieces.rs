use rs_agent::chat_layout::{message_pieces, role_style, ChatPiece, RoleTone};
use rs_agent::helpers::{ChatMessage, ToolBlock};

fn s(x: &str) -> String {
    x.to_string()
}

fn msg(role: &str, text: &str, thinking: Option<&str>, show: bool, tools: Vec<ToolBlock>) -> ChatMessage {
    ChatMessage { role: s(role), text: s(text), thinking: thinking.map(s), show_thinking: show, tool_blocks: tools }
}

fn tool(name: &str, preview: &str, expanded: bool, is_error: bool) -> ToolBlock {
    ToolBlock { name: s(name), preview: s(preview), full: s("FULL"), expanded, is_error }
}

#[test]
fn role_styles() {
    assert_eq!(role_style("user"), ('┃', "you", RoleTone::User));
    assert_eq!(role_style("assistant"), ('┃', "agent", RoleTone::Assistant));
    assert_eq!(role_style("system"), ('│', "system", RoleTone::System));
    assert_eq!(role_style("tool"), ('│', "tool", RoleTone::Tool));
    assert_eq!(role_style("narrator"), ('│', "", RoleTone::Other));
}

#[test]
fn user_message_gets_header_text_and_blank() {
    let m = msg("user", "hello", None, false, vec![]);
    assert_eq!(message_pieces(&m, false, 80), vec![ChatPiece::RoleHeader, ChatPiece::Text(s("hello")), ChatPiece::Blank]);
}

#[test]
fn assistant_pieces_come_thinking_then_tools_then_text() {
    let m = msg(
        "assistant",
        "done",
        Some("let me think about this carefully"),
        false,
        vec![tool("bash", "ls -la output that is rather long", false, false), tool("edit", "x", true, true)],
    );
    // width 30: thinking preview 16 chars; tool preview budget 30 - (4 + 7) = 19
    assert_eq!(
        message_pieces(&m, true, 30),
        vec![
            ChatPiece::ThinkingClosed(s("let me think abo")),
            ChatPiece::ToolClosed { index: 0, name: s("bash"), preview: s("ls -la output that "), error: false },
            ChatPiece::ToolOpen { index: 1, name: s("edit"), full: s("FULL"), error: true },
            ChatPiece::Text(s("done")),
            ChatPiece::Blank,
        ]
    );
}

#[test]
fn previews_keep_at_least_eight_characters() {
    let m = msg("assistant", "", Some("abcdefghijklmnop"), false, vec![tool("a-very-long-tool-name", "0123456789abc", false, false)]);
    assert_eq!(
        message_pieces(&m, false, 10),
        vec![
            ChatPiece::ThinkingClosed(s("abcdefgh")),
            ChatPiece::ToolClosed { index: 0, name: s("a-very-long-tool-name"), preview: s("01234567"), error: false },
            ChatPiece::Blank,
        ]
    );
}

#[test]
fn open_thinking_is_shown_whole() {
    let m = msg("assistant", "ok", Some("step one"), true, vec![]);
    assert_eq!(message_pieces(&m, false, 80), vec![ChatPiece::ThinkingOpen(s("step one")), ChatPiece::Text(s("ok")), ChatPiece::Blank]);
}

#[test]
fn empty_agent_reply_shows_a_placeholder_only_while_waiting() {
    let m = msg("assistant", "", None, false, vec![]);
    assert_eq!(message_pieces(&m, true, 80), vec![ChatPiece::Pending, ChatPiece::Blank]);
    assert_eq!(message_pieces(&m, false, 80), vec![ChatPiece::Blank]);
    let with_empty_thinking = msg("assistant", "", Some(""), false, vec![]);
    assert_eq!(message_pieces(&with_empty_thinking, true, 80), vec![ChatPiece::Pending, ChatPiece::Blank]);
    let tool_msg = msg("tool", "", None, false, vec![]);
    assert_eq!(message_pieces(&tool_msg, true, 80), vec![ChatPiece::Blank]);
}

use rs_agent::agent_events::append_text_delta;
use rs_agent::chat_layout::begin_turn;

#[test]
fn a_turn_shows_the_placeholder_until_text_streams_in() {
    let mut rows = vec![msg("system", "welcome", None, false, vec![])];
    begin_turn(&mut rows, s("hi"));
    assert_eq!(rows.len(), 3);
    assert_eq!(rows[1].role, "user");
    assert_eq!(rows[1].text, "hi");
    assert_eq!(message_pieces(&rows[1], true, 80), vec![ChatPiece::RoleHeader, ChatPiece::Text(s("hi")), ChatPiece::Blank]);
    assert_eq!(message_pieces(&rows[2], true, 80), vec![ChatPiece::Pending, ChatPiece::Blank]);
    append_text_delta(&mut rows, "Hel");
    append_text_delta(&mut rows, "lo");
    assert_eq!(rows.len(), 3);
    assert_eq!(message_pieces(&rows[2], true, 80), vec![ChatPiece::Text(s("Hello")), ChatPiece::Blank]);
}
